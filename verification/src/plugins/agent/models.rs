//! Data models of the agent plugin: its configuration and the chat sessions
//! it records. Reading and writing these from disk is the surrounding
//! application's business; the models themselves are plain values.

use vstd::prelude::*;

verus! {

/// Where the agent looks for mode scripts and where it stores chat logs.
#[derive(Clone, Debug)]
pub struct AgentConfig {
    pub script_directory: Option<String>,
    pub default_chat_dir: Option<String>,
}

impl Default for AgentConfig {
    fn default() -> (r: AgentConfig)
        ensures
            r.script_directory is None,
            r.default_chat_dir is None,
    {
        AgentConfig { script_directory: None, default_chat_dir: None }
    }
}

/// Who wrote a chat message.
#[derive(Clone, Debug, PartialEq, Eq, Structural)]
pub enum MessageRole {
    User,
    Agent,
}

/// One chat message: who wrote it and what it says.
#[derive(Clone, Debug)]
pub struct ChatMessage {
    pub role: MessageRole,
    pub content: String,
}

/// One chat session: an optional backing file, a creation stamp, the
/// messages so far, and the mode and model it runs under.
#[derive(Clone, Debug)]
pub struct ChatSession {
    pub path: Option<String>,
    pub created_at: Option<String>,
    pub messages: Vec<ChatMessage>,
    pub context_mode: String,
    pub model_name: String,
}

/// Relies on `chrono::Local::now` and `DateTime::to_rfc3339` for the current
/// local time as an RFC 3339 stamp; the result depends on the clock and the
/// time zone, so nothing is promised of it. The lookup aborts on a host
/// clock set before the Unix epoch.
#[verifier::external_body]
fn now_rfc3339() -> String {
    chrono::Local::now().to_rfc3339()
}

impl ChatSession {
    /// A fresh session in the given mode and model: not yet backed by a
    /// file, without messages, stamped with the current local time. The
    /// stamp comes from the host clock, which must not predate the Unix
    /// epoch.
    pub fn new(mode: String, model: String) -> (r: ChatSession)
        ensures
            r.path is None,
            r.created_at is Some,
            r.messages@.len() == 0,
            r.context_mode == mode,
            r.model_name == model,
    {
        ChatSession {
            path: None,
            created_at: Some(now_rfc3339()),
            messages: Vec::new(),
            context_mode: mode,
            model_name: model,
        }
    }

    /// Record one exchange: the user's message followed by the reply.
    pub fn push_exchange(&mut self, user_text: String, reply: String)
        ensures
            final(self).messages@.len() == old(self).messages@.len() + 2,
            final(self).messages@[old(self).messages@.len() as int].role == MessageRole::User,
            final(self).messages@[old(self).messages@.len() as int].content == user_text,
            final(self).messages@[old(self).messages@.len() as int + 1].role == MessageRole::Agent,
            final(self).messages@[old(self).messages@.len() as int + 1].content == reply,
            final(self).messages@.subrange(0, old(self).messages@.len() as int) == old(
                self,
            ).messages@,
            final(self).path == old(self).path,
            final(self).created_at == old(self).created_at,
            final(self).context_mode == old(self).context_mode,
            final(self).model_name == old(self).model_name,
    {
        self.messages.push(ChatMessage { role: MessageRole::User, content: user_text });
        self.messages.push(ChatMessage { role: MessageRole::Agent, content: reply });
        proof {
            assert(final(self).messages@.subrange(0, old(self).messages@.len() as int) =~= old(
                self,
            ).messages@);
        }
    }
}

impl Default for ChatSession {
    fn default() -> (r: ChatSession)
        ensures
            r.path is None,
            r.created_at is None,
            r.messages@.len() == 0,
            r.context_mode@ == Seq::<char>::empty(),
            r.model_name@ == Seq::<char>::empty(),
    {
        ChatSession {
            path: None,
            created_at: None,
            messages: Vec::new(),
            context_mode: String::new(),
            model_name: String::new(),
        }
    }
}

} // verus!
