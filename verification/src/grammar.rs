//! Grammar clean-up through a chat-completion service: when to call it, what
//! to send, and what its reply comes to.

use vstd::prelude::*;
use crate::config::AppConfig;
use crate::text::{trim, trimmed};

verus! {

/// Why a clean-up gave no text.
#[derive(Clone, Debug)]
pub enum GrammarError {
    /// No key for the service is configured.
    MissingApiKey,
    /// The service answered with an error status; the body of its answer.
    Api(String),
    /// The service's answer is not a JSON document.
    InvalidReply,
    /// The answer holds no text at `choices[0].message.content`.
    MissingContent,
}

/// Address of the chat-completion service.
pub open spec fn service_url() -> Seq<char> {
    "https://openrouter.ai/api/v1/chat/completions"@
}

/// Instruction given to the service ahead of the transcript.
pub open spec fn system_prompt() -> Seq<char> {
    "You are an AI assistant. Fix the grammar, punctuation, and capitalization of the following speech transcript. Output ONLY the corrected text, with no conversational filler, markdown formatting, or explanations."@
}

/// One request to the service: where it goes, its headers, and the chat it
/// carries (a system message, then the user's text).
#[derive(Clone, Debug)]
pub struct ChatRequest {
    /// The service address.
    pub url: String,
    /// Value of the `Authorization` header.
    pub authorization: String,
    /// Value of the `HTTP-Referer` header.
    pub referer: String,
    /// Value of the `X-Title` header.
    pub title: String,
    /// The model the service runs.
    pub model: String,
    /// Content of the system message.
    pub system_prompt: String,
    /// Content of the user message.
    pub user_text: String,
}

/// `req` is the request that cleans up `text` under `config`.
pub open spec fn is_cleanup_request(req: ChatRequest, text: Seq<char>, config: AppConfig) -> bool {
    &&& req.url@ == service_url()
    &&& req.authorization@ == "Bearer "@ + config.openrouter_api_key@
    &&& req.referer@ == "http://localhost:1420"@
    &&& req.title@ == "Voiceflow"@
    &&& req.model@ == config.openrouter_model@
    &&& req.system_prompt@ == system_prompt()
    &&& req.user_text@ == text
}

/// What a clean-up does next.
#[derive(Clone, Debug)]
pub enum CleanupStep {
    /// Nothing to clean: the text as it came.
    Unchanged(String),
    /// Send this request to the service.
    Send(ChatRequest),
}

/// The first step of cleaning up `text`: blank text is returned as it is; a
/// blank key is an error; otherwise the request to send.
pub fn plan_cleanup(text: &str, config: &AppConfig) -> (r: Result<CleanupStep, GrammarError>)
    ensures
        trimmed(text@).len() == 0 ==> (r matches Ok(CleanupStep::Unchanged(t)) && t@ == text@),
        trimmed(text@).len() > 0 && trimmed(config.openrouter_api_key@).len() == 0 ==> (r matches Err(
            GrammarError::MissingApiKey,
        )),
        trimmed(text@).len() > 0 && trimmed(config.openrouter_api_key@).len() > 0 ==> (r matches Ok(
            CleanupStep::Send(req),
        ) && is_cleanup_request(req, text@, *config)),
{
    let t = trim(text);
    if t.as_str().is_empty() {
        return Ok(CleanupStep::Unchanged(String::from_str(text)));
    }
    let k = trim(config.openrouter_api_key.as_str());
    if k.as_str().is_empty() {
        return Err(GrammarError::MissingApiKey);
    }
    let mut authorization = String::from_str("Bearer ");
    authorization.append(config.openrouter_api_key.as_str());
    let req = ChatRequest {
        url: String::from_str("https://openrouter.ai/api/v1/chat/completions"),
        authorization,
        referer: String::from_str("http://localhost:1420"),
        title: String::from_str("Voiceflow"),
        model: config.openrouter_model.clone(),
        system_prompt: String::from_str(
            "You are an AI assistant. Fix the grammar, punctuation, and capitalization of the following speech transcript. Output ONLY the corrected text, with no conversational filler, markdown formatting, or explanations.",
        ),
        user_text: String::from_str(text),
    };
    Ok(CleanupStep::Send(req))
}

/// What `serde_json` reads at `document[list_key][index][object_key][field]`:
/// `None` when `document` is not JSON; `Some(None)` when that place holds no
/// string (missing keys and out-of-range indices read as `null`);
/// `Some(Some(s))` when it holds the string `s`.
pub uninterp spec fn json_text_at(
    document: Seq<char>,
    list_key: Seq<char>,
    index: usize,
    object_key: Seq<char>,
    field: Seq<char>,
) -> Option<Option<Seq<char>>>;

/// The characters that stand for `c` inside a JSON string literal: `"`,
/// `\`, line feed, carriage return and tab escaped with a backslash, any
/// other character as itself.
pub open spec fn json_escaped_char(c: char) -> Seq<char> {
    if c == '"' {
        seq!['\\', '"']
    } else if c == '\\' {
        seq!['\\', '\\']
    } else if c == '\n' {
        seq!['\\', 'n']
    } else if c == '\r' {
        seq!['\\', 'r']
    } else if c == '\t' {
        seq!['\\', 't']
    } else {
        seq![c]
    }
}

/// The characters that stand for `s` inside a JSON string literal.
pub open spec fn json_escaped(s: Seq<char>) -> Seq<char>
    decreases s.len(),
{
    if s.len() == 0 {
        seq![]
    } else {
        json_escaped_char(s[0]) + json_escaped(s.drop_first())
    }
}

/// Text that a JSON string literal can hold with only the escapes of
/// `json_escaped`: no control character but line feed, carriage return and
/// tab.
pub open spec fn json_plain(s: Seq<char>) -> bool {
    forall|i: int|
        0 <= i < s.len() ==> (#[trigger] s[i] as u32) >= 0x20 || s[i] == '\n' || s[i] == '\r'
            || s[i] == '\t'
}

/// The JSON string literal of `s`.
pub open spec fn json_string(s: Seq<char>) -> Seq<char> {
    seq!['"'] + json_escaped(s) + seq!['"']
}

/// The JSON document `{"<list_key>":[{"<object_key>":{"<field>":"<text>"}}]}`,
/// written without spaces.
pub open spec fn single_path_document(
    list_key: Seq<char>,
    object_key: Seq<char>,
    field: Seq<char>,
    text: Seq<char>,
) -> Seq<char> {
    seq!['{'] + json_string(list_key) + seq![':', '[', '{'] + json_string(object_key) + seq![
        ':',
        '{',
    ] + json_string(field) + seq![':'] + json_string(text) + seq!['}', '}', ']', '}']
}

/// The answer of the service whose first choice's message holds `text`.
pub open spec fn reply_document(text: Seq<char>) -> Seq<char> {
    single_path_document("choices"@, "message"@, "content"@, text)
}

#[verifier::external_type_specification]
#[verifier::external_body]
pub struct ExJsonError(serde_json::Error);

/// When `document` is made of the one path to a string literal
/// (`single_path_document`, at index 0, plain keys and text), the read
/// `r` is that whole string.
pub open spec fn reads_whole_string(
    document: Seq<char>,
    list_key: Seq<char>,
    index: usize,
    object_key: Seq<char>,
    field: Seq<char>,
    r: Result<Option<String>, serde_json::Error>,
) -> bool {
    forall|text: Seq<char>|
        #![trigger single_path_document(list_key, object_key, field, text)]
        (index == 0 && json_plain(list_key) && json_plain(object_key) && json_plain(field)
            && json_plain(text) && document == single_path_document(list_key, object_key, field, text))
            ==> (r matches Ok(Some(t)) && t@ == text)
}

/// Calls `serde_json::from_str` to read `document` as a `serde_json::Value`,
/// then indexes it as `value[list_key][index][object_key][field]` and takes
/// `Value::as_str`. The contract claims only that the outcome is the one
/// `json_text_at` names for these arguments: a parse error when that is
/// `None`, otherwise the string found there, if any; and that a document
/// made of that one path and a string literal (`single_path_document`)
/// gives back, at index 0, the whole string that the literal encodes.
#[verifier::external_body]
fn read_json_text(
    document: &str,
    list_key: &str,
    index: usize,
    object_key: &str,
    field: &str,
) -> (r: Result<Option<String>, serde_json::Error>)
    ensures
        json_text_at(document@, list_key@, index, object_key@, field@) == match r {
            Ok(Some(s)) => Some(Some(s@)),
            Ok(None) => Some(None::<Seq<char>>),
            Err(_) => None::<Option<Seq<char>>>,
        },
        reads_whole_string(document@, list_key@, index, object_key@, field@, r),
{
    let value: serde_json::Value = serde_json::from_str(document)?;
    Ok(value[list_key][index][object_key][field].as_str().map(|s| s.to_string()))
}

/// The place in the service's answer that holds the corrected text.
pub open spec fn reply_content(body: Seq<char>) -> Option<Option<Seq<char>>> {
    json_text_at(body, "choices"@, 0, "message"@, "content"@)
}

/// The outcome of a clean-up, given what the answer holds at the content
/// place: not JSON, no string there, or the string (then trimmed).
pub fn cleanup_from_content(content: Option<Option<String>>) -> (r: Result<String, GrammarError>)
    ensures
        content is None ==> (r matches Err(GrammarError::InvalidReply)),
        content matches Some(None) ==> (r matches Err(GrammarError::MissingContent)),
        content matches Some(Some(c)) ==> (r matches Ok(t) && t@ == trimmed(c@)),
{
    match content {
        None => Err(GrammarError::InvalidReply),
        Some(None) => Err(GrammarError::MissingContent),
        Some(Some(c)) => Ok(trim(c.as_str())),
    }
}

/// The outcome of a clean-up, given whether the service answered with a
/// success status and the body of its answer.
pub fn cleanup_from_reply(success: bool, body: &str) -> (r: Result<String, GrammarError>)
    ensures
        !success ==> (r matches Err(GrammarError::Api(b)) && b@ == body@),
        success && reply_content(body@) is None ==> (r matches Err(GrammarError::InvalidReply)),
        success ==> (reply_content(body@) matches Some(None) ==> (r matches Err(
            GrammarError::MissingContent,
        ))),
        success ==> (reply_content(body@) matches Some(Some(c)) ==> (r matches Ok(t) && t@
            == trimmed(c))),
        forall|text: Seq<char>|
            success && json_plain(text) && body@ == #[trigger] reply_document(text) ==> (r matches Ok(
                t,
            ) && t@ == trimmed(text)),
{
    if !success {
        return Err(GrammarError::Api(String::from_str(body)));
    }
    proof {
        reveal_strlit("choices");
        reveal_strlit("message");
        reveal_strlit("content");
        assert(json_plain("choices"@));
        assert(json_plain("message"@));
        assert(json_plain("content"@));
    }
    let read = read_json_text(body, "choices", 0, "message", "content");
    let content = match read {
        Ok(found) => Some(found),
        Err(_) => None,
    };
    cleanup_from_content(content)
}

impl GrammarError {
    /// The message that reports this error.
    pub fn message(&self) -> (m: String)
        ensures
            *self matches GrammarError::MissingApiKey ==> m@ == "OpenRouter API key is missing"@,
            *self matches GrammarError::Api(b) ==> m@ == "OpenRouter API Error: "@ + b@,
            *self matches GrammarError::InvalidReply ==> m@ == "error decoding response body"@,
            *self matches GrammarError::MissingContent ==> m@
                == "Failed to parse OpenRouter response"@,
    {
        match self {
            GrammarError::MissingApiKey => String::from_str("OpenRouter API key is missing"),
            GrammarError::Api(b) => {
                let mut m = String::from_str("OpenRouter API Error: ");
                m.append(b.as_str());
                m
            },
            GrammarError::InvalidReply => String::from_str("error decoding response body"),
            GrammarError::MissingContent => String::from_str("Failed to parse OpenRouter response"),
        }
    }
}

} // verus!
