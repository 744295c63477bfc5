use sky::config::Config;
use sky::{
    AIResponse, Chat, ChatError, ChatWithAI, Choice, CompletionRequest, ReportingToFile, Transport,
};

const PREAMBLE: &str = "The following is a conversation between you and an AI assistant named Sky. Sky is helpful, creative, clever, and very friendly.";

fn config_with_key() -> Config {
    Config {
        api_key: Some("SECRET-REDACTED".to_string()),
    }
}

/// A transport that answers each call with the next prepared candidate
/// list, counting its calls.
struct StubTransport {
    replies: Vec<Vec<String>>,
    calls: usize,
}

impl Transport for StubTransport {
    fn complete(&mut self, _req: &CompletionRequest) -> Result<AIResponse, String> {
        self.calls += 1;
        if self.replies.is_empty() {
            return Err("out of prepared replies".to_string());
        }
        let texts = self.replies.remove(0);
        let choices = texts.into_iter().map(|text| Choice { text }).collect();
        Ok(AIResponse { choices })
    }
}

fn stub(replies: Vec<Vec<String>>) -> StubTransport {
    StubTransport { replies, calls: 0 }
}

/// A transport that must never be reached.
struct UnreachableTransport;

impl Transport for UnreachableTransport {
    fn complete(&mut self, _req: &CompletionRequest) -> Result<AIResponse, String> {
        panic!("the transport was reached");
    }
}

/// A transport that always fails.
struct FailingTransport;

impl Transport for FailingTransport {
    fn complete(&mut self, _req: &CompletionRequest) -> Result<AIResponse, String> {
        Err("connection refused".to_string())
    }
}

fn client_with_history(entries: Vec<&str>) -> ChatWithAI<UnreachableTransport> {
    ChatWithAI {
        c: entries.into_iter().map(|e| e.to_string()).collect(),
        secrets: config_with_key(),
        transport: UnreachableTransport,
    }
}

#[test]
fn default_config_has_no_key() {
    assert!(Config::default().api_key.is_none());
}

#[test]
fn prompt_of_empty_history_is_preamble_and_newline() {
    let chat = ChatWithAI::new(config_with_key(), UnreachableTransport);
    assert_eq!(chat.as_prompt(), format!("{PREAMBLE}\n"));
    assert_eq!(chat.dialogue(), "");
}

#[test]
fn prompt_of_single_entry_ends_with_open_cue() {
    let chat = client_with_history(vec!["hi"]);
    assert_eq!(chat.as_prompt(), format!("{PREAMBLE}\nYou: hi\nSky:"));
}

#[test]
fn prompt_of_pair_ends_with_closed_sky_line() {
    let chat = client_with_history(vec!["hi", "hello there"]);
    assert_eq!(chat.as_prompt(), format!("{PREAMBLE}\nYou: hi\nSky: hello there\n"));
}

#[test]
fn prompt_of_even_history_never_ends_with_open_cue() {
    let chat = client_with_history(vec!["a", "b", "c", "d"]);
    let p = chat.as_prompt();
    assert!(p.ends_with("Sky: d\n"));
    assert!(!p.ends_with("Sky:"));
}

#[test]
fn prompt_of_odd_history_ends_with_bare_cue_without_newline() {
    let chat = client_with_history(vec!["a", "b", "c"]);
    let p = chat.as_prompt();
    assert_eq!(p, format!("{PREAMBLE}\nYou: a\nSky: b\nYou: c\nSky:"));
    assert!(p.ends_with("You: c\nSky:"));
    assert!(!p.ends_with("\n"));
}

#[test]
fn prompt_assembly_is_deterministic() {
    let chat = client_with_history(vec!["hi", "there", "again"]);
    assert_eq!(chat.as_prompt(), chat.as_prompt());
    assert_eq!(chat.dialogue(), chat.dialogue());
}

#[test]
fn say_appends_exactly_two_history_entries_on_success() {
    let mut chat = ChatWithAI::new(config_with_key(), stub(vec![vec!["hello!".to_string()]]));
    let before = chat.c.len();
    let reply = chat.say("hi".to_string()).unwrap();
    assert_eq!(reply, "hello!");
    assert_eq!(chat.c.len(), before + 2);
    assert_eq!(chat.c, vec!["hi".to_string(), "hello!".to_string()]);
    assert_eq!(chat.transport.calls, 1);
}

#[test]
fn say_trims_the_reply_edges() {
    let mut chat = ChatWithAI::new(config_with_key(), stub(vec![vec!["  hello  ".to_string()]]));
    let reply = chat.say("hi".to_string()).unwrap();
    assert_eq!(reply, "hello");
    assert_eq!(chat.c[1], "hello");
}

#[test]
fn say_without_api_key_fails_before_any_transport_call() {
    let mut chat = ChatWithAI::new(Config { api_key: None }, UnreachableTransport);
    let r = chat.say("hi".to_string());
    assert!(matches!(r, Err(ChatError::MissingApiKey)));
    assert_eq!(chat.c.len(), 0);
}

#[test]
fn say_surfaces_transport_failure_and_keeps_history() {
    let mut chat = ChatWithAI::new(config_with_key(), FailingTransport);
    let r = chat.say("hi".to_string());
    match r {
        Err(ChatError::Transport(msg)) => assert_eq!(msg, "connection refused"),
        other => panic!("expected a transport error, got {:?}", other),
    }
    assert_eq!(chat.c.len(), 0);
}

#[test]
fn say_reports_empty_candidate_list_and_keeps_history() {
    let mut chat = ChatWithAI::new(config_with_key(), stub(vec![vec![]]));
    let r = chat.say("hi".to_string());
    assert!(matches!(r, Err(ChatError::EmptyChoices)));
    assert_eq!(chat.c.len(), 0);
}

#[test]
fn say_uses_the_growing_history_for_each_prompt() {
    let mut chat = ChatWithAI::new(
        config_with_key(),
        stub(vec![vec!["one".to_string()], vec!["two".to_string()]]),
    );
    chat.say("first".to_string()).unwrap();
    chat.say("second".to_string()).unwrap();
    assert_eq!(
        chat.c,
        vec![
            "first".to_string(),
            "one".to_string(),
            "second".to_string(),
            "two".to_string()
        ]
    );
    assert_eq!(
        chat.as_prompt(),
        format!("{PREAMBLE}\nYou: first\nSky: one\nYou: second\nSky: two\n")
    );
}

/// A transport that keeps the request it was handed.
struct CapturingTransport {
    captured_body: Option<String>,
    captured_key: Option<String>,
}

impl Transport for CapturingTransport {
    fn complete(&mut self, req: &CompletionRequest) -> Result<AIResponse, String> {
        self.captured_body = Some(req.body.clone());
        self.captured_key = Some(req.api_key.clone());
        Ok(AIResponse {
            choices: vec![Choice { text: "ok".to_string() }],
        })
    }
}

#[test]
fn say_sends_the_framed_request_for_the_appended_history() {
    let mut chat = ChatWithAI::new(
        config_with_key(),
        CapturingTransport { captured_body: None, captured_key: None },
    );
    chat.say("hi".to_string()).unwrap();
    let prompt = format!("{PREAMBLE}\nYou: hi\nSky:");
    let expected = format!(
        "{{\"model\":\"text-davinci-003\",\"prompt\":\"{}\",\"temperature\":0.9,\
         \"max_tokens\":150,\"top_p\":1,\"frequency_penalty\":0.0,\
         \"presence_penalty\":0.6,\"stop\":[\"You:\",\"Sky:\"]}}",
        prompt.replace('\n', "\\n")
    );
    assert_eq!(chat.transport.captured_body.as_deref(), Some(expected.as_str()));
    assert_eq!(chat.transport.captured_key.as_deref(), Some("SECRET-REDACTED"));
}

#[test]
fn response_reply_takes_only_the_first_candidate() {
    let resp = AIResponse {
        choices: vec![
            Choice { text: " a ".to_string() },
            Choice { text: "b".to_string() },
        ],
    };
    assert_eq!(resp.reply().unwrap(), "a");
}

#[test]
fn response_reply_rejects_empty_candidate_list() {
    let resp = AIResponse { choices: vec![] };
    assert!(matches!(resp.reply(), Err(ChatError::EmptyChoices)));
}
