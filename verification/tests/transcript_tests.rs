use sky::{Chat, ChatError, ReportingToFile};

/// A stub completion client with a fixed answer and its own turn count.
struct StubChat {
    calls: usize,
}

impl Chat for StubChat {
    fn say(&mut self, text: String) -> Result<String, ChatError> {
        self.calls += 1;
        if text == "ping" {
            Ok("ok".to_string())
        } else {
            Err(ChatError::Transport("unexpected utterance".to_string()))
        }
    }
}

#[test]
fn logger_records_both_blocks_and_leaves_the_stub_count_alone() {
    let mut logger = ReportingToFile::new(StubChat { calls: 0 });
    let reply = logger.say("ping".to_string()).unwrap();
    assert_eq!(reply, "ok");
    assert_eq!(logger.transcript, "\nYou: ping\n\nSky: ok\n");
    let you_at = logger.transcript.find("\nYou: ping\n").unwrap();
    let sky_at = logger.transcript.find("\nSky: ok\n").unwrap();
    assert!(you_at < sky_at);
    assert_eq!(logger.chat.calls, 1);
}

#[test]
fn logger_appends_across_turns() {
    let mut logger = ReportingToFile::new(StubChat { calls: 0 });
    logger.say("ping".to_string()).unwrap();
    logger.say("ping".to_string()).unwrap();
    assert_eq!(
        logger.transcript,
        "\nYou: ping\n\nSky: ok\n\nYou: ping\n\nSky: ok\n"
    );
    assert_eq!(logger.chat.calls, 2);
}

#[test]
fn logger_records_only_the_you_block_on_a_failed_turn() {
    let mut logger = ReportingToFile::new(StubChat { calls: 0 });
    let r = logger.say("pong".to_string());
    assert!(matches!(r, Err(ChatError::Transport(_))));
    assert_eq!(logger.transcript, "\nYou: pong\n");
    assert_eq!(logger.chat.calls, 1);
}

#[test]
fn logger_passes_the_reply_through_unchanged() {
    let mut logger = ReportingToFile::new(StubChat { calls: 0 });
    assert_eq!(logger.say("ping".to_string()).unwrap(), "ok");
}
