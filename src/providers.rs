//! Backends: their error type and how it reaches the client, the local
//! server's and the hosted provider's request and response shapes, and the
//! fallback from one backend to another.
use vstd::prelude::*;
use vstd::string::*;
use crate::models::{
    ChatCompletionRequest, ChatCompletionResponse, Choice, OllamaRequest, OllamaResponse, Usage,
};

verus! {

/// The character of decimal digit `d`.
pub open spec fn digit_char(d: nat) -> char {
    seq!['0', '1', '2', '3', '4', '5', '6', '7', '8', '9'][d as int]
}

/// The decimal digits of `n`, most significant first, without leading zeros.
pub open spec fn decimal(n: nat) -> Seq<char>
    decreases n,
{
    if n < 10 {
        seq![digit_char(n)]
    } else {
        decimal(n / 10).push(digit_char(n % 10))
    }
}

fn digit_text(d: u64) -> (r: &'static str)
    requires
        d < 10,
    ensures
        r@ == seq![digit_char(d as nat)],
{
    proof {
        reveal_strlit("0");
        reveal_strlit("1");
        reveal_strlit("2");
        reveal_strlit("3");
        reveal_strlit("4");
        reveal_strlit("5");
        reveal_strlit("6");
        reveal_strlit("7");
        reveal_strlit("8");
        reveal_strlit("9");
    }
    let r = if d == 0 {
        "0"
    } else if d == 1 {
        "1"
    } else if d == 2 {
        "2"
    } else if d == 3 {
        "3"
    } else if d == 4 {
        "4"
    } else if d == 5 {
        "5"
    } else if d == 6 {
        "6"
    } else if d == 7 {
        "7"
    } else if d == 8 {
        "8"
    } else {
        "9"
    };
    assert(r@ =~= seq![digit_char(d as nat)]);
    r
}

/// `n` written in decimal.
pub fn decimal_string(n: u64) -> (r: String)
    ensures
        r@ == decimal(n as nat),
    decreases n,
{
    if n < 10 {
        String::from_str(digit_text(n))
    } else {
        let head = decimal_string(n / 10);
        let r = head.concat(digit_text(n % 10));
        assert(r@ =~= decimal(n as nat));
        r
    }
}

/// A failure of a backend call.
#[derive(Clone, Debug)]
pub enum ProviderError {
    /// The backend could not be reached.
    Network(String),
    /// The backend answered with something that could not be decoded.
    Parse(String),
    /// The backend answered with a non-success HTTP status.
    ProviderError { status: u16, message: String },
}

impl ProviderError {
    /// The failure in words: `Network error: <msg>`, `Parse error: <msg>`
    /// or `Provider error (<status>): <msg>`.
    pub fn message(&self) -> (r: String)
        ensures
            match self {
                ProviderError::Network(m) => r@ == "Network error: "@ + m@,
                ProviderError::Parse(m) => r@ == "Parse error: "@ + m@,
                ProviderError::ProviderError { status, message } => r@ == "Provider error ("@
                    + decimal(*status as nat) + "): "@ + message@,
            },
    {
        match self {
            ProviderError::Network(m) => String::from_str("Network error: ").concat(m.as_str()),
            ProviderError::Parse(m) => String::from_str("Parse error: ").concat(m.as_str()),
            ProviderError::ProviderError { status, message } => {
                let code = decimal_string(*status as u64);
                String::from_str("Provider error (").concat(code.as_str()).concat("): ").concat(
                    message.as_str(),
                )
            },
        }
    }

    /// The HTTP status the client receives for this failure.
    pub fn status_code(&self) -> (r: u16)
        ensures
            match self {
                ProviderError::Network(_) => r == 502,
                ProviderError::Parse(_) => r == 500,
                ProviderError::ProviderError { status, .. } => r == *status,
            },
    {
        match self {
            ProviderError::Network(_) => 502,
            ProviderError::Parse(_) => 500,
            ProviderError::ProviderError { status, .. } => *status,
        }
    }

    /// The body the client receives for this failure.
    pub fn response_body(&self) -> (r: String)
        ensures
            match self {
                ProviderError::Network(m) => r@ == "Provider unavailable: "@ + m@,
                ProviderError::Parse(m) => r@ == "Failed to parse response: "@ + m@,
                ProviderError::ProviderError { message, .. } => r@ == message@,
            },
    {
        match self {
            ProviderError::Network(m) => String::from_str("Provider unavailable: ").concat(
                m.as_str(),
            ),
            ProviderError::Parse(m) => String::from_str("Failed to parse response: ").concat(
                m.as_str(),
            ),
            ProviderError::ProviderError { message, .. } => message.clone(),
        }
    }
}

/// The hyphenated lower-case text form of a version-4 UUID.
pub open spec fn is_uuid_text(s: Seq<char>) -> bool {
    &&& s.len() == 36
    &&& forall|i: int|
        0 <= i < 36 ==> (if i == 8 || i == 13 || i == 18 || i == 23 {
            #[trigger] s[i] == '-'
        } else {
            ('0' <= s[i] <= '9') || ('a' <= s[i] <= 'f')
        })
    &&& s[14] == '4'
}

/// Relies on uuid::Uuid::new_v4, a random version-4 UUID, and on its
/// Display, which writes the 36-character hyphenated lower-case form.
#[verifier::external_body]
fn random_uuid_text() -> (r: String)
    ensures
        is_uuid_text(r@),
{
    uuid::Uuid::new_v4().to_string()
}

/// The completion id built on a UUID: `chatcmpl-<uuid>`.
pub fn completion_id(uuid: &str) -> (r: String)
    ensures
        r@ == "chatcmpl-"@ + uuid@,
{
    String::from_str("chatcmpl-").concat(uuid)
}

/// A fresh completion id on a random UUID.
pub fn new_completion_id() -> (r: String)
    ensures
        exists|u: Seq<char>| is_uuid_text(u) && r@ == "chatcmpl-"@ + u,
{
    let u = random_uuid_text();
    completion_id(u.as_str())
}

/// The request for the local model server: the client's model and messages,
/// passed on as they are (an empty list too).
pub fn ollama_request(req: ChatCompletionRequest, stream: bool) -> (r: OllamaRequest)
    ensures
        r.model == req.model,
        r.messages == req.messages,
        r.stream == stream,
{
    OllamaRequest { model: req.model, messages: req.messages, stream }
}

/// The canonical answer for a complete answer of the local model server,
/// under the given id and creation time (unix seconds).
pub fn ollama_to_canonical(resp: OllamaResponse, id: String, created: u64) -> (r:
    ChatCompletionResponse)
    ensures
        r.id == id,
        r.object@ == "chat.completion"@,
        r.created == created,
        r.model == resp.model,
        r.choices@.len() == 1,
        r.choices@[0].index == 0,
        r.choices@[0].message == resp.message,
        r.choices@[0].finish_reason@ == "stop"@,
        r.usage.prompt_tokens == resp.prompt_eval_count as u64,
        r.usage.completion_tokens == resp.eval_count as u64,
        r.usage.total_tokens == r.usage.prompt_tokens + r.usage.completion_tokens,
{
    let usage = Usage::new(resp.prompt_eval_count, resp.eval_count);
    let choice = Choice {
        index: 0,
        message: resp.message,
        finish_reason: String::from_str("stop"),
    };
    ChatCompletionResponse {
        id,
        object: String::from_str("chat.completion"),
        created,
        model: resp.model,
        choices: vec![choice],
        usage,
    }
}

/// The local model server reached at a base URL.
pub struct OllamaProvider {
    pub base_url: String,
}

impl OllamaProvider {
    pub fn new(base_url: String) -> (r: OllamaProvider)
        ensures
            r.base_url == base_url,
    {
        OllamaProvider { base_url }
    }

    /// The chat endpoint: `<base_url>/api/chat`.
    pub fn chat_url(&self) -> (r: String)
        ensures
            r@ == self.base_url@ + "/api/chat"@,
    {
        self.base_url.clone().concat("/api/chat")
    }
}

/// The hosted OpenAI-style provider, reached at a base URL with a key.
pub struct OpenAIProvider {
    pub base_url: String,
    pub api_key: String,
}

impl OpenAIProvider {
    pub fn new(base_url: String, api_key: String) -> (r: OpenAIProvider)
        ensures
            r.base_url == base_url,
            r.api_key == api_key,
    {
        OpenAIProvider { base_url, api_key }
    }

    /// The chat endpoint: `<base_url>/v1/chat/completions`.
    pub fn chat_url(&self) -> (r: String)
        ensures
            r@ == self.base_url@ + "/v1/chat/completions"@,
    {
        self.base_url.clone().concat("/v1/chat/completions")
    }

    /// The value of the `Authorization` header: `Bearer <key>`.
    pub fn auth_header(&self) -> (r: String)
        ensures
            r@ == "Bearer "@ + self.api_key@,
    {
        String::from_str("Bearer ").concat(self.api_key.as_str())
    }
}

/// What to do once the primary backend has answered.
pub enum FallbackStep {
    /// Return this answer.
    Done(ChatCompletionResponse),
    /// The primary failed with this error: send this request to the backup
    /// and return whatever it answers.
    UseBackup(ProviderError, ChatCompletionRequest),
}

/// Two backends of which the backup answers whatever the primary fails on,
/// optionally under another model. Streams use the primary alone.
pub struct FallbackProvider<P> {
    pub primary: P,
    pub backup: P,
    pub fallback_model: Option<String>,
}

impl<P> FallbackProvider<P> {
    pub fn new(primary: P, backup: P, fallback_model: Option<String>) -> (r: FallbackProvider<P>)
        ensures
            r.primary == primary,
            r.backup == backup,
            r.fallback_model == fallback_model,
    {
        FallbackProvider { primary, backup, fallback_model }
    }

    /// The request for the backup: the same request, with the model
    /// replaced by the fallback model where one is configured.
    pub fn backup_request(&self, req: ChatCompletionRequest) -> (r: ChatCompletionRequest)
        ensures
            r.messages == req.messages,
            r.stream == req.stream,
            r.model == (match self.fallback_model {
                Some(m) => m,
                None => req.model,
            }),
    {
        let mut r = req;
        match &self.fallback_model {
            Some(m) => {
                r.model = m.clone();
            },
            None => {},
        }
        r
    }

    /// Decides on the primary's result: a success is returned as it is; a
    /// failure of any kind sends `req` (a copy of the client's request) on
    /// to the backup.
    pub fn after_primary(
        &self,
        primary: Result<ChatCompletionResponse, ProviderError>,
        req: ChatCompletionRequest,
    ) -> (r: FallbackStep)
        ensures
            match primary {
                Ok(resp) => r == FallbackStep::Done(resp),
                Err(e) => match r {
                    FallbackStep::UseBackup(e2, b) => {
                        &&& e2 == e
                        &&& b.messages == req.messages
                        &&& b.stream == req.stream
                        &&& b.model == (match self.fallback_model {
                            Some(m) => m,
                            None => req.model,
                        })
                    },
                    FallbackStep::Done(_) => false,
                },
            },
    {
        match primary {
            Ok(resp) => FallbackStep::Done(resp),
            Err(e) => FallbackStep::UseBackup(e, self.backup_request(req)),
        }
    }
}

} // verus!
