use vstd::prelude::*;
use vstd::string::StringExecFns;

use crate::chat::{Chat, ChatError};

verus! {

/// The block the transcript gains before a turn is delegated.
pub open spec fn you_block(t: Seq<char>) -> Seq<char> {
    "\nYou: "@ + t + "\n"@
}

/// The block the transcript gains after a turn comes back.
pub open spec fn sky_block(t: Seq<char>) -> Seq<char> {
    "\nSky: "@ + t + "\n"@
}

/// A transcript-logging decorator: answers the same turn contract by
/// delegating to the inner client, recording `\nYou: <text>\n` before
/// the delegate call and `\nSky: <reply>\n` after it. The transcript is
/// an append-only in-memory text; whoever owns the session's log file
/// writes the new part out and flushes it after every turn, and a write
/// failure there never blocks or fails the turn itself.
pub struct ReportingToFile<C: Chat> {
    pub chat: C,
    pub transcript: String,
}

impl<C: Chat> ReportingToFile<C> {
    /// Wraps `chat`, starting from an empty transcript.
    pub fn new(chat: C) -> (r: Self)
        ensures
            r.transcript@ == Seq::<char>::empty(),
            r.chat == chat,
    {
        ReportingToFile { chat, transcript: String::new() }
    }

    /// One logged turn: the transcript gains the `You` block, then the
    /// inner client takes the turn, and on success the transcript gains
    /// the `Sky` block with the reply; a failed turn leaves only the
    /// `You` block. The reply and the error pass through unchanged.
    pub fn say(&mut self, text: String) -> (r: Result<String, ChatError>)
        ensures
            r matches Ok(reply) ==> final(self).transcript@ == old(self).transcript@ + you_block(
                text@,
            ) + sky_block(reply@),
            r matches Err(_) ==> final(self).transcript@ == old(self).transcript@ + you_block(
                text@,
            ),
    {
        self.transcript.append("\nYou: ");
        self.transcript.append(text.as_str());
        self.transcript.append("\n");
        proof {
            assert(self.transcript@ =~= old(self).transcript@ + you_block(text@));
        }
        let res = self.chat.say(text);
        match res {
            Ok(reply) => {
                self.transcript.append("\nSky: ");
                self.transcript.append(reply.as_str());
                self.transcript.append("\n");
                proof {
                    assert(self.transcript@ =~= old(self).transcript@ + you_block(text@)
                        + sky_block(reply@));
                }
                Ok(reply)
            },
            Err(e) => Err(e),
        }
    }
}

impl<C: Chat> Chat for ReportingToFile<C> {
    fn say(&mut self, text: String) -> Result<String, ChatError> {
        ReportingToFile::say(self, text)
    }
}

} // verus!
