//! Request and response shapes of the gateway: the OpenAI-style canonical
//! forms served to clients and the line-JSON forms of the local model server.
use vstd::prelude::*;

verus! {

/// One chat message.
#[derive(Clone, Debug)]
pub struct Message {
    pub role: String,
    pub content: String,
}

/// One choice of a complete (non-streamed) answer.
#[derive(Clone, Debug)]
pub struct Choice {
    pub index: u32,
    pub message: Message,
    pub finish_reason: String,
}

/// Token accounting of one answer.
#[derive(Clone, Copy, Debug)]
pub struct Usage {
    pub prompt_tokens: u64,
    pub completion_tokens: u64,
    pub total_tokens: u64,
}

/// The incremental content of one streamed chunk.
#[derive(Clone, Debug)]
pub struct Delta {
    pub role: Option<String>,
    pub content: String,
}

/// One choice of a streamed chunk.
#[derive(Clone, Debug)]
pub struct ChunkChoice {
    pub index: u32,
    pub delta: Delta,
    pub finish_reason: Option<String>,
}

/// The canonical chat request accepted from clients.
#[derive(Clone, Debug)]
pub struct ChatCompletionRequest {
    pub model: String,
    pub messages: Vec<Message>,
    pub stream: Option<bool>,
}

/// The canonical complete answer.
#[derive(Clone, Debug)]
pub struct ChatCompletionResponse {
    pub id: String,
    pub object: String,
    pub created: u64,
    pub model: String,
    pub choices: Vec<Choice>,
    pub usage: Usage,
}

/// The canonical streamed chunk.
#[derive(Clone, Debug)]
pub struct ChatCompletionChunk {
    pub id: String,
    pub object: String,
    pub created: u64,
    pub model: String,
    pub choices: Vec<ChunkChoice>,
    pub usage: Option<Usage>,
}

/// A request in the local model server's form.
#[derive(Clone, Debug)]
pub struct OllamaRequest {
    pub model: String,
    pub messages: Vec<Message>,
    pub stream: bool,
}

/// A complete answer of the local model server.
#[derive(Clone, Debug)]
pub struct OllamaResponse {
    pub model: String,
    pub created_at: String,
    pub message: Message,
    pub done: bool,
    pub total_duration: u64,
    pub prompt_eval_count: u32,
    pub eval_count: u32,
}

/// One line of the local model server's streamed answer.
#[derive(Clone, Debug)]
pub struct OllamaStreamChunk {
    pub model: String,
    pub message: Message,
    pub done: bool,
    pub prompt_eval_count: Option<u32>,
    pub eval_count: Option<u32>,
}

/// The count that a missing terminal field stands for: zero.
pub open spec fn count_or_zero(c: Option<u32>) -> u64 {
    match c {
        Some(n) => n as u64,
        None => 0,
    }
}

impl Usage {
    /// Usage of an answer with the given prompt and completion counts; the
    /// total is always their sum.
    pub fn new(prompt_tokens: u32, completion_tokens: u32) -> (r: Usage)
        ensures
            r.prompt_tokens == prompt_tokens as u64,
            r.completion_tokens == completion_tokens as u64,
            r.total_tokens == r.prompt_tokens + r.completion_tokens,
    {
        let p = prompt_tokens as u64;
        let c = completion_tokens as u64;
        Usage { prompt_tokens: p, completion_tokens: c, total_tokens: p + c }
    }
}

impl ChatCompletionRequest {
    /// Whether the client asked for a streamed answer; absent means no.
    pub fn is_streaming(&self) -> (r: bool)
        ensures
            r == (self.stream == Some(true)),
    {
        match self.stream {
            Some(b) => b,
            None => false,
        }
    }
}

} // verus!
