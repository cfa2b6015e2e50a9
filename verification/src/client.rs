//! The language-model client: frames the chat-completion request body,
//! classifies the provider's HTTP responses into the error taxonomy, and
//! wraps a raw reply into the structured result handed back to the caller.
//! The one outbound network call itself is made by the surrounding
//! application; everything decided about it is decided here.

use vstd::prelude::*;
use vstd::string::StringExecFns;

use crate::text::json_string;
use crate::text::push_json_string;
use crate::timeline::{TimelineEvent, models, parse_timeline_from_response, timeline_of};

verus! {

/// A failure of one prompt call, classified: a missing credential, a
/// transport failure, a structured error reported by the provider, or a
/// response the provider's protocol does not cover.
#[derive(Clone, Debug, PartialEq, Eq)]
pub enum ClientError {
    ConfigError(String),
    NetworkError(String),
    UpstreamError { status: u16, message: String, code: String },
    ApiError { status: u16, body: String },
}

/// One generated pass of a scene segment: a title, the parsed timeline, and
/// an optional summary.
#[derive(Clone, Debug)]
pub struct LLMTab {
    pub title: String,
    pub timeline: Vec<TimelineEvent>,
    pub summary: Option<String>,
}

/// What a prompt call hands back to the caller: the generated tabs.
#[derive(Clone, Debug)]
pub struct LLMResponse {
    pub tabs: Vec<LLMTab>,
}

/// The immutable configuration of the client: credential, endpoint base and
/// model identifier, fixed at construction.
#[derive(Clone, Debug)]
pub struct OpenAIClient {
    pub api_key: String,
    pub base_url: String,
    pub model: String,
}

/// An HTTP status in the success range.
pub open spec fn status_is_success(status: u16) -> bool {
    200 <= status < 300
}

/// The message and code of the provider's structured error envelope
/// `{"error":{"message":..,"type":..,"code":..}}`, when the body text parses
/// as JSON of exactly that shape; nothing otherwise.
pub uninterp spec fn error_envelope_of(s: Seq<char>) -> Option<(Seq<char>, Seq<char>)>;

/// The content of the first choice's message in a chat-completions body
/// `{"choices":[{"message":{"content":..}},..]}`, when the body text parses
/// that way; nothing otherwise.
pub uninterp spec fn completion_content_of(s: Seq<char>) -> Option<Seq<char>>;

/// Relies on `serde_json::from_str` for `serde_json::Value` together with
/// `Value::get` and `Value::as_str`: decodes the provider's structured error
/// envelope, whose shape [`error_envelope_of`] names; the outcome is a
/// function of the body text alone.
#[verifier::external_body]
fn decode_error_envelope(body: &str) -> (r: Option<(String, String)>)
    ensures
        (match r {
            Some(p) => error_envelope_of(body@) == Some((p.0@, p.1@)),
            None => error_envelope_of(body@) is None,
        }),
{
    let v: serde_json::Value = match serde_json::from_str(body) {
        Ok(v) => v,
        Err(_) => return None,
    };
    let detail = v.get("error")?;
    let message = detail.get("message")?.as_str()?;
    detail.get("type")?.as_str()?;
    let code = detail.get("code")?.as_str()?;
    Some((message.to_owned(), code.to_owned()))
}

/// Relies on `serde_json::from_str` for `serde_json::Value` together with
/// `Value::get` and `Value::as_str`: decodes the first choice's content of a
/// chat-completions body, which [`completion_content_of`] names; the outcome
/// is a function of the body text alone.
#[verifier::external_body]
fn decode_completion_content(body: &str) -> (r: Option<String>)
    ensures
        (match r {
            Some(c) => completion_content_of(body@) == Some(c@),
            None => completion_content_of(body@) is None,
        }),
{
    let v: serde_json::Value = match serde_json::from_str(body) {
        Ok(v) => v,
        Err(_) => return None,
    };
    let content = v.get("choices")?.get(0)?.get("message")?.get("content")?.as_str()?;
    Some(content.to_owned())
}

pub open spec fn envelope_model(envelope: Option<(String, String)>) -> Option<(Seq<char>, Seq<
    char,
>)> {
    match envelope {
        Option::Some(p) => Option::Some((p.0@, p.1@)),
        Option::None => Option::None,
    }
}

pub open spec fn content_model(content: Option<String>) -> Option<Seq<char>> {
    match content {
        Option::Some(c) => Option::Some(c@),
        Option::None => Option::None,
    }
}

/// What one prompt call must return for a response with status `status`,
/// body `body`, decoded error envelope `envelope` and decoded completion
/// content `content`: the content on a well-formed success; the envelope's
/// message and code as an upstream error on a failure that carries one; the
/// raw status and body otherwise.  Exactly one outcome, never partial data
/// beside an error.
pub open spec fn reply_outcome_ok(
    status: u16,
    body: Seq<char>,
    envelope: Option<(Seq<char>, Seq<char>)>,
    content: Option<Seq<char>>,
    r: Result<String, ClientError>,
) -> bool {
    if status_is_success(status) {
        match content {
            Option::Some(c) => r matches Ok(reply) && reply@ == c,
            Option::None => r matches Err(e) && (e matches ClientError::ApiError {
                status: st,
                body: b,
            } && st == status && b@ == body),
        }
    } else {
        match envelope {
            Option::Some(p) => r matches Err(e) && (e matches ClientError::UpstreamError {
                status: st,
                message: m,
                code: c,
            } && st == status && m@ == p.0 && c@ == p.1),
            Option::None => r matches Err(e) && (e matches ClientError::ApiError {
                status: st,
                body: b,
            } && st == status && b@ == body),
        }
    }
}

/// The classification decision on already-decoded parts of a response.
pub fn classify_response(
    status: u16,
    body: String,
    envelope: Option<(String, String)>,
    content: Option<String>,
) -> (r: Result<String, ClientError>)
    ensures
        reply_outcome_ok(status, body@, envelope_model(envelope), content_model(content), r),
{
    if 200 <= status && status < 300 {
        match content {
            Some(c) => Ok(c),
            None => Err(ClientError::ApiError { status, body }),
        }
    } else {
        match envelope {
            Some(p) => Err(
                ClientError::UpstreamError { status, message: p.0, code: p.1 },
            ),
            None => Err(ClientError::ApiError { status, body }),
        }
    }
}

/// Classifies one HTTP response from the provider: the reply text on a
/// well-formed success, a classified error on everything else.
pub fn extract_reply(status: u16, body: String) -> (r: Result<String, ClientError>)
    ensures
        reply_outcome_ok(
            status,
            body@,
            error_envelope_of(body@),
            completion_content_of(body@),
            r,
        ),
{
    if 200 <= status && status < 300 {
        let content = decode_completion_content(body.as_str());
        classify_response(status, body, None, content)
    } else {
        let envelope = decode_error_envelope(body.as_str());
        classify_response(status, body, envelope, None)
    }
}

/// The JSON body of one chat-completion request: the fixed model identifier
/// and exactly two ordered messages, role `system` then role `user`.
pub open spec fn chat_request_json(
    model: Seq<char>,
    system_prompt: Seq<char>,
    user_prompt: Seq<char>,
) -> Seq<char> {
    "{\"model\":"@ + json_string(model) + ",\"messages\":[{\"role\":\"system\",\"content\":"@
        + json_string(system_prompt) + "},{\"role\":\"user\",\"content\":"@ + json_string(
        user_prompt,
    ) + "}]}"@
}

impl OpenAIClient {
    /// Builds a client from the credential that the caller read from the
    /// process environment; a missing credential is a configuration failure
    /// at construction time, not per call.
    pub fn new(api_key: Option<String>) -> (r: Result<OpenAIClient, ClientError>)
        ensures
            (match api_key {
                Option::Some(k) => r matches Ok(c) && c.api_key == k && c.base_url@
                    == "https://api.openai.com/v1"@ && c.model@ == "gpt-4o"@,
                Option::None => r matches Err(e) && (e matches ClientError::ConfigError(m) && m@
                    == "OPENAI_API_KEY not found in environment"@),
            }),
    {
        match api_key {
            Some(key) => Ok(
                OpenAIClient {
                    api_key: key,
                    base_url: String::from_str("https://api.openai.com/v1"),
                    model: String::from_str("gpt-4o"),
                },
            ),
            None => Err(
                ClientError::ConfigError(
                    String::from_str("OPENAI_API_KEY not found in environment"),
                ),
            ),
        }
    }

    /// The endpoint one request goes to.
    pub fn completions_url(&self) -> (r: String)
        ensures
            r@ == self.base_url@ + "/chat/completions"@,
    {
        let mut out = self.base_url.clone();
        out.append("/chat/completions");
        out
    }

    /// Frames the request body that carries the two prompts.
    pub fn build_request_body(&self, system_prompt: &str, user_prompt: &str) -> (r: String)
        ensures
            r@ == chat_request_json(self.model@, system_prompt@, user_prompt@),
    {
        let mut out = String::new();
        out.append("{\"model\":");
        push_json_string(&mut out, self.model.as_str());
        out.append(",\"messages\":[{\"role\":\"system\",\"content\":");
        push_json_string(&mut out, system_prompt);
        out.append("},{\"role\":\"user\",\"content\":");
        push_json_string(&mut out, user_prompt);
        out.append("}]}");
        proof {
            assert(out@ =~= chat_request_json(self.model@, system_prompt@, user_prompt@));
        }
        out
    }
}

/// Wraps one raw reply into the single generated tab that the caller shows.
pub fn tabs_from_reply(reply: &str) -> (r: LLMResponse)
    ensures
        r.tabs@.len() == 1,
        r.tabs@[0].title@ == "Generated Scene Segment"@,
        r.tabs@[0].summary is None,
        models(r.tabs@[0].timeline@) == timeline_of(reply@),
        r.tabs@[0].timeline@.len() >= 1,
{
    let timeline = parse_timeline_from_response(reply);
    let tab = LLMTab {
        title: String::from_str("Generated Scene Segment"),
        timeline,
        summary: None,
    };
    let mut tabs: Vec<LLMTab> = Vec::new();
    tabs.push(tab);
    LLMResponse { tabs }
}

} // verus!
