use vstd::prelude::*;
use vstd::string::StringExecFns;

use crate::config::Config;
use crate::prompt::{dialogue_of, lemma_dialogue_split, prompt_of, sky_line, you_line, you_open};
use crate::request::request_body;
use crate::text::{trim, trim_of, ws_trimmed};

verus! {

/// One candidate completion returned by the endpoint.
#[derive(Debug)]
pub struct Choice {
    pub text: String,
}

/// The decoded body of a completion response: the candidate texts in the
/// order the endpoint returned them.
#[derive(Debug)]
pub struct AIResponse {
    pub choices: Vec<Choice>,
}

/// Why one chat turn failed. Each failure is recoverable per turn: the
/// caller may report it and return to the input prompt.
#[derive(Debug)]
pub enum ChatError {
    /// No API key is configured; nothing was sent.
    MissingApiKey,
    /// The transport could not carry the request or bring a response back.
    Transport(String),
    /// The endpoint answered with an empty candidate list.
    EmptyChoices,
}

impl AIResponse {
    /// The text of the first candidate, trimmed of leading and trailing
    /// whitespace; an empty candidate list is reported as an error.
    pub fn reply(&self) -> (r: Result<String, ChatError>)
        ensures
            self.choices@.len() > 0 ==> (r matches Ok(t) && t@ == trim_of(self.choices@[0].text@)
                && ws_trimmed(t@)),
            self.choices@.len() == 0 ==> (r matches Err(e) && e is EmptyChoices),
    {
        if self.choices.len() > 0 {
            Ok(trim(self.choices[0].text.as_str()))
        } else {
            Err(ChatError::EmptyChoices)
        }
    }
}

/// One completion request, ready for transport: the JSON body and the
/// bearer token to send it with.
pub struct CompletionRequest {
    pub api_key: String,
    pub body: String,
}

/// The outward port of the completion client: something that carries one
/// request to the completion endpoint and brings back its decoded
/// response. The real HTTP transport lives outside this crate; nothing
/// is assumed of any implementation.
pub trait Transport {
    fn complete(&mut self, req: &CompletionRequest) -> Result<AIResponse, String>;
}

/// One chat turn: hand in the user's utterance, get back the reply.
/// Implemented by the completion client and by the transcript-logging
/// decorator around it.
pub trait Chat {
    fn say(&mut self, text: String) -> Result<String, ChatError>;
}

/// The completion client: the conversation history (even index: user
/// turn, odd index: assistant turn), the configuration holding the API
/// key, and the transport that reaches the endpoint.
#[derive(Debug)]
pub struct ChatWithAI<T: Transport> {
    pub c: Vec<String>,
    pub secrets: Config,
    pub transport: T,
}

impl<T: Transport> ChatWithAI<T> {
    /// The conversation history as a sequence of character sequences.
    pub open spec fn history(self) -> Seq<Seq<char>> {
        self.c.deep_view()
    }

    /// A client with an empty history.
    pub fn new(secrets: Config, transport: T) -> (r: Self)
        ensures
            r.history() == Seq::<Seq<char>>::empty(),
            r.secrets == secrets,
    {
        let r = ChatWithAI { c: Vec::new(), secrets, transport };
        proof {
            assert(r.history() =~= Seq::<Seq<char>>::empty());
        }
        r
    }

    /// The rendered dialogue for the current history: completed pairs in
    /// order, a final unpaired user entry as the open cue. The history is
    /// never truncated, however long it has grown.
    pub fn dialogue(&self) -> (r: String)
        ensures
            r@ == dialogue_of(self.history()),
    {
        let ghost h = self.history();
        let mut out = String::new();
        let n = self.c.len();
        let mut i: usize = 0;
        while n - i >= 2
            invariant
                i % 2 == 0,
                i <= n,
                n == self.c@.len(),
                h == self.history(),
                h.len() == n,
                out@ == dialogue_of(h.take(i as int)),
            decreases n - i,
        {
            out.append("You: ");
            out.append(self.c[i].as_str());
            out.append("\n");
            out.append("Sky: ");
            out.append(self.c[i + 1].as_str());
            out.append("\n");
            proof {
                lemma_dialogue_split(h.take(i as int + 2), i as int);
                let tail = h.take(i as int + 2).skip(i as int);
                assert(h.take(i as int + 2).take(i as int) =~= h.take(i as int));
                assert(tail.len() == 2);
                assert(tail.skip(2) =~= Seq::<Seq<char>>::empty());
                assert(tail[0] == h[i as int]);
                assert(tail[1] == h[i as int + 1]);
                assert(dialogue_of(tail) == you_line(tail[0]) + sky_line(tail[1]) + dialogue_of(
                    tail.skip(2),
                ));
                assert(h[i as int] == self.c@[i as int]@);
                assert(h[i as int + 1] == self.c@[i as int + 1]@);
                assert(out@ =~= dialogue_of(h.take(i as int + 2)));
            }
            i = i + 2;
        }
        if i < n {
            out.append("You: ");
            out.append(self.c[i].as_str());
            out.append("\nSky:");
            proof {
                lemma_dialogue_split(h, i as int);
                let tail = h.skip(i as int);
                assert(tail.len() == 1);
                assert(dialogue_of(tail) == you_open(tail[0]));
                assert(tail[0] == h[i as int]);
                assert(h[i as int] == self.c@[i as int]@);
                assert(out@ =~= dialogue_of(h));
            }
        } else {
            proof {
                assert(i == n);
                assert(h.take(i as int) =~= h);
            }
        }
        out
    }

    /// The full prompt for the current history: the fixed preamble, one
    /// newline, then the rendered dialogue. A pure function of the
    /// history alone.
    pub fn as_prompt(&self) -> (r: String)
        ensures
            r@ == prompt_of(self.history()),
    {
        let mut out = String::new();
        out.append(
            "The following is a conversation between you and an AI assistant named Sky. Sky is helpful, creative, clever, and very friendly.",
        );
        out.append("\n");
        let d = self.dialogue();
        out.append(d.as_str());
        proof {
            assert(out@ =~= prompt_of(self.history()));
        }
        out
    }

    /// One chat turn. Appends the utterance to the history, frames the
    /// request around the prompt assembled from that history, hands it to
    /// the transport, trims the first candidate of the response, appends
    /// it as the assistant's turn, and returns it. With no API key
    /// configured the turn fails before anything is handed to the
    /// transport; on any failed turn the history is left as it was.
    pub fn say(&mut self, text: String) -> (r: Result<String, ChatError>)
        ensures
            old(self).secrets.api_key is None ==> *final(self) == *old(self),
            (old(self).secrets.api_key is None) <==> (r matches Err(e) && e is MissingApiKey),
            r matches Ok(reply) ==> final(self).history() == old(self).history().push(
                text@,
            ).push(reply@) && ws_trimmed(reply@),
            r matches Err(_) ==> final(self).history() == old(self).history(),
            final(self).history().len() % 2 == old(self).history().len() % 2,
            final(self).secrets == old(self).secrets,
    {
        let key = match &self.secrets.api_key {
            None => {
                return Err(ChatError::MissingApiKey);
            },
            Some(k) => k.clone(),
        };
        self.c.push(text);
        let prompt_text = self.as_prompt();
        let req = CompletionRequest { api_key: key, body: request_body(prompt_text.as_str()) };
        let ghost pushed = self.c@;
        let outcome = self.transport.complete(&req);
        proof {
            assert(self.c@ == pushed);
        }
        match outcome {
            Err(msg) => {
                let _ = self.c.pop();
                proof {
                    assert(self.c@ =~= old(self).c@);
                    assert(self.history() =~= old(self).history());
                }
                Err(ChatError::Transport(msg))
            },
            Ok(resp) => {
                match resp.reply() {
                    Err(e) => {
                        let _ = self.c.pop();
                        proof {
                            assert(self.c@ =~= old(self).c@);
                            assert(self.history() =~= old(self).history());
                        }
                        Err(e)
                    },
                    Ok(reply) => {
                        self.c.push(reply.clone());
                        proof {
                            assert(self.history() =~= old(self).history().push(text@).push(
                                reply@,
                            ));
                        }
                        Ok(reply)
                    },
                }
            },
        }
    }
}

impl<T: Transport> Chat for ChatWithAI<T> {
    fn say(&mut self, text: String) -> Result<String, ChatError> {
        ChatWithAI::say(self, text)
    }
}

} // verus!
