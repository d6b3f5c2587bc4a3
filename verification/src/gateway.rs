use vstd::prelude::*;

verus! {

/// The role of one message in a completion exchange.
#[derive(Clone, Copy, PartialEq, Eq, Structural, Debug)]
pub enum Role {
    System,
    User,
    Assistant,
}

/// One message of a completion request: a role and its text.
pub struct ChatMessage {
    pub role: Role,
    pub content: String,
}

/// Why no completion text came back. Every case is recoverable: the pipelines
/// go on with an empty completion instead of aborting.
#[derive(Clone, Copy, PartialEq, Eq, Structural, Debug)]
pub enum GatewayError {
    /// No credential is configured, so the call was never made.
    AuthenticationMissing,
    /// The request could not be sent or answered.
    TransportFailure,
    /// The reply body could not be decoded into plain text.
    MalformedResponse,
}

impl GatewayError {
    pub open spec fn spec_message(&self) -> Seq<char> {
        match self {
            GatewayError::AuthenticationMissing => "API key not provided"@,
            GatewayError::TransportFailure => "transport failure"@,
            GatewayError::MalformedResponse => "malformed completion response"@,
        }
    }

    pub fn message(&self) -> (r: String)
        ensures
            r@ == self.spec_message(),
    {
        match self {
            GatewayError::AuthenticationMissing => String::from_str("API key not provided"),
            GatewayError::TransportFailure => String::from_str("transport failure"),
            GatewayError::MalformedResponse => String::from_str("malformed completion response"),
        }
    }
}

/// The completion call is skipped outright when no credential is configured.
pub fn check_credential(key: &str) -> (r: Result<(), GatewayError>)
    ensures
        r is Ok <==> key@.len() > 0,
        r matches Err(e) ==> e == GatewayError::AuthenticationMissing,
{
    if key.is_empty() {
        Err(GatewayError::AuthenticationMissing)
    } else {
        Ok(())
    }
}

/// The message order of one completion request: the system prompt first, the
/// few-shot exemplars in their given order, the user prompt last.
pub fn build_exchange(
    system_prompt: String,
    exemplars: Vec<ChatMessage>,
    user_prompt: String,
) -> (r: Vec<ChatMessage>)
    ensures
        r@.len() == exemplars@.len() + 2,
        r@[0].role == Role::System,
        r@[0].content == system_prompt,
        forall|j: int| 0 <= j < exemplars@.len() ==> r@[1 + j] == exemplars@[j],
        r@[r@.len() - 1].role == Role::User,
        r@[r@.len() - 1].content == user_prompt,
{
    let ghost ex0 = exemplars@;
    let mut out: Vec<ChatMessage> = Vec::new();
    out.push(ChatMessage { role: Role::System, content: system_prompt });
    let mut rest = exemplars;
    while rest.len() > 0
        invariant
            rest@.len() <= ex0.len(),
            out@.len() == 1 + ex0.len() - rest@.len(),
            out@[0].role == Role::System,
            out@[0].content == system_prompt,
            forall|j: int| 0 <= j < ex0.len() - rest@.len() ==> out@[1 + j] == ex0[j],
            forall|j: int| 0 <= j < rest@.len() ==> rest@[j] == ex0[ex0.len() - rest@.len() + j],
        decreases rest@.len(),
    {
        let m = rest.remove(0);
        out.push(m);
    }
    out.push(ChatMessage { role: Role::User, content: user_prompt });
    out
}

/// What the completion service's reply envelope decodes to: nothing when the
/// body is not JSON, otherwise the text of the first candidate's message (the
/// empty string when that path is absent).
pub uninterp spec fn completion_text_of(body: Seq<char>) -> Option<Seq<char>>;

/// Relies on serde_json::from_str and serde_json::Value indexing: whether the
/// body parses as JSON, and the string at choices[0].message.content, are
/// functions of the body text alone.
#[verifier::external_body]
fn extract_completion(body: &str) -> (r: Option<String>)
    ensures
        r.deep_view() == completion_text_of(body@),
{
    match serde_json::from_str::<serde_json::Value>(body) {
        Ok(v) => Some(
            v["choices"][0]["message"]["content"].as_str().unwrap_or("").to_string(),
        ),
        Err(_) => None,
    }
}

/// Decode the service's reply envelope into plain completion text. A body
/// that is not JSON at all is a malformed response; a JSON body without the
/// expected path yields the empty completion, as the service's envelope is
/// taken over the text itself.
pub fn decode_reply(body: &str) -> (r: Result<String, GatewayError>)
    ensures
        match r {
            Ok(t) => completion_text_of(body@) == Some(t@),
            Err(e) => e == GatewayError::MalformedResponse && completion_text_of(body@) is None,
        },
{
    match extract_completion(body) {
        Some(t) => Ok(t),
        None => Err(GatewayError::MalformedResponse),
    }
}

} // verus!
