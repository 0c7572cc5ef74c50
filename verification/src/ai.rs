//! The optional document assistant: which endpoints a provider may use, when
//! consent is needed, and the prompt sent. The requests themselves are made
//! by the caller.
use vstd::prelude::*;

use crate::ocr::eq_literal;
use crate::text::{chars_of, extend_chars, string_from_chars, trim_chars, trim_ws};

verus! {

broadcast use vstd::string::group_string_axioms;

/// Why an assistant request failed; transport and storage failures carry
/// their messages.
#[derive(Debug, Clone, PartialEq, Eq)]
pub enum AiError {
    Disabled,
    Provider,
    Endpoint,
    ConsentRequired,
    MissingSecret,
    Document(String),
    EmptyResponse,
    Http(String),
    Database(String),
}

pub open spec fn spec_ai_error_message(e: AiError) -> Seq<char> {
    match e {
        AiError::Disabled => "AI features are disabled"@,
        AiError::Provider => "selected AI provider is invalid"@,
        AiError::Endpoint => "AI endpoint is invalid or violates the provider policy"@,
        AiError::ConsentRequired => "explicit consent is required before sending document text"@,
        AiError::MissingSecret => "the selected provider API key is not saved"@,
        AiError::Document(reason) => "document is unavailable: "@ + reason@,
        AiError::EmptyResponse => "AI provider returned an empty response"@,
        AiError::Http(_) => "AI provider request failed"@,
        AiError::Database(_) => "AI secret storage failed"@,
    }
}

impl AiError {
    /// The error's description, as its `Display` shows it.
    pub fn message(&self) -> (r: String)
        ensures
            r@ == spec_ai_error_message(*self),
    {
        match self {
            AiError::Disabled => String::from_str("AI features are disabled"),
            AiError::Provider => String::from_str("selected AI provider is invalid"),
            AiError::Endpoint => String::from_str("AI endpoint is invalid or violates the provider policy"),
            AiError::ConsentRequired => String::from_str(
                "explicit consent is required before sending document text",
            ),
            AiError::MissingSecret => String::from_str("the selected provider API key is not saved"),
            AiError::Document(reason) => {
                let head = String::from_str("document is unavailable: ");
                head.concat(reason.as_str())
            },
            AiError::EmptyResponse => String::from_str("AI provider returned an empty response"),
            AiError::Http(_) => String::from_str("AI provider request failed"),
            AiError::Database(_) => String::from_str("AI secret storage failed"),
        }
    }
}

/// Sending document text to a remote provider needs explicit consent.
pub fn require_remote_consent(consent: bool) -> (r: Result<(), AiError>)
    ensures
        consent ==> r is Ok,
        !consent ==> r == Err::<(), AiError>(AiError::ConsentRequired),
{
    if consent {
        Ok(())
    } else {
        Err(AiError::ConsentRequired)
    }
}

/// An answer must hold more than white space.
pub fn nonempty(text: String) -> (r: Result<String, AiError>)
    ensures
        trim_ws(text@).len() > 0 ==> (r matches Ok(t) && t@ == text@),
        trim_ws(text@).len() == 0 ==> r == Err::<String, AiError>(AiError::EmptyResponse),
{
    let chars = chars_of(text.as_str());
    if trim_chars(chars.as_slice()).len() == 0 {
        Err(AiError::EmptyResponse)
    } else {
        Ok(text)
    }
}

// ---------------------------------------------------------------------------
// Endpoints
// ---------------------------------------------------------------------------

/// What `Url::parse` makes of a text, seen as its scheme, its host and the
/// normalized URL it serializes to: `None` where the text is not an absolute
/// URL.
pub uninterp spec fn parsed_url(text: Seq<char>) -> Option<(Seq<char>, Option<Seq<char>>, Seq<char>)>;

/// The scheme and host of a parsed URL.
pub open spec fn parsed_url_parts(text: Seq<char>) -> Option<(Seq<char>, Option<Seq<char>>)> {
    match parsed_url(text) {
        Some((scheme, host, _)) => Some((scheme, host)),
        None => None,
    }
}

pub open spec fn parts_view(p: Option<(String, Option<String>)>) -> Option<(Seq<char>, Option<Seq<char>>)> {
    match p {
        Some((scheme, host)) => Some(
            (
                scheme@,
                match host {
                    Some(h) => Some(h@),
                    None => None,
                },
            ),
        ),
        None => None,
    }
}

pub open spec fn url_view(p: Option<(String, Option<String>, String)>) -> Option<(Seq<char>, Option<Seq<char>>, Seq<char>)> {
    match p {
        Some((scheme, host, url)) => Some(
            (
                scheme@,
                match host {
                    Some(h) => Some(h@),
                    None => None,
                },
                url@,
            ),
        ),
        None => None,
    }
}

/// Calls `Url::parse` (the `url` crate, re-exported by `reqwest`) and reads
/// the parsed URL's `scheme`, `host_str` and `as_str`. The contract names the
/// outcome only: it is a function of the text.
#[verifier::external_body]
fn parse_url_parts(value: &str) -> (r: Option<(String, Option<String>, String)>)
    ensures
        url_view(r) == parsed_url(value@),
{
    reqwest::Url::parse(value).ok().map(
        |url| (
            url.scheme().to_string(),
            url.host_str().map(|host| host.to_string()),
            url.as_str().to_string(),
        ),
    )
}

pub open spec fn is_loopback_host(host: Seq<char>) -> bool {
    host == "127.0.0.1"@ || host == "localhost"@ || host == "::1"@
}

/// Whether a parsed endpoint is allowed: a local provider needs plain HTTP to
/// a loopback host, a remote one needs HTTPS.
pub open spec fn endpoint_allowed(parts: Option<(Seq<char>, Option<Seq<char>>)>, local_only: bool) -> bool {
    match parts {
        None => false,
        Some((scheme, host)) => {
            let h = match host {
                Some(h) => h,
                None => seq![],
            };
            if local_only {
                scheme == "http"@ && is_loopback_host(h)
            } else {
                scheme == "https"@
            }
        },
    }
}

/// Checks a parsed endpoint against the provider's policy.
pub fn check_endpoint(parts: &Option<(String, Option<String>)>, local_only: bool) -> (r: Result<
    (),
    AiError,
>)
    ensures
        endpoint_allowed(parts_view(*parts), local_only) ==> r is Ok,
        !endpoint_allowed(parts_view(*parts), local_only) ==> r == Err::<(), AiError>(
            AiError::Endpoint,
        ),
{
    match parts {
        None => Err(AiError::Endpoint),
        Some((scheme, host)) => {
            let s = chars_of(scheme.as_str());
            let h = match host {
                Some(h) => chars_of(h.as_str()),
                None => Vec::new(),
            };
            let allowed = if local_only {
                eq_literal(s.as_slice(), "http") && (eq_literal(h.as_slice(), "127.0.0.1")
                    || eq_literal(h.as_slice(), "localhost") || eq_literal(h.as_slice(), "::1"))
            } else {
                eq_literal(s.as_slice(), "https")
            };
            if allowed {
                Ok(())
            } else {
                Err(AiError::Endpoint)
            }
        },
    }
}

/// Validates a provider's base URL and gives it back, as the parser
/// normalized it, when allowed.
pub fn validated_base_url(value: &str, local_only: bool) -> (r: Result<String, AiError>)
    ensures
        endpoint_allowed(parsed_url_parts(value@), local_only) ==> (r matches Ok(v) && Some(v@)
            == match parsed_url(value@) {
            Some((_, _, url)) => Some(url),
            None => None,
        }),
        !endpoint_allowed(parsed_url_parts(value@), local_only) ==> r == Err::<String, AiError>(
            AiError::Endpoint,
        ),
{
    let parsed = parse_url_parts(value);
    match parsed {
        None => Err(AiError::Endpoint),
        Some((scheme, host, url)) => {
            let parts = Some((scheme, host));
            check_endpoint(&parts, local_only)?;
            Ok(url)
        },
    }
}

// ---------------------------------------------------------------------------
// Requests
// ---------------------------------------------------------------------------

/// The providers the assistant can use.
#[derive(Debug, Clone, Copy, PartialEq, Eq)]
pub enum AiProvider {
    Ollama,
    Gemini,
    OpenAi,
}

pub open spec fn spec_select_provider(name: Seq<char>, consent: bool) -> Result<AiProvider, AiError> {
    if name == "ollama"@ {
        Ok(AiProvider::Ollama)
    } else if name == "gemini"@ {
        if consent {
            Ok(AiProvider::Gemini)
        } else {
            Err(AiError::ConsentRequired)
        }
    } else if name == "openai"@ {
        if consent {
            Ok(AiProvider::OpenAi)
        } else {
            Err(AiError::ConsentRequired)
        }
    } else {
        Err(AiError::Provider)
    }
}

/// Chooses the provider; the remote ones need consent.
pub fn select_provider(name: &str, remote_consent: bool) -> (r: Result<AiProvider, AiError>)
    ensures
        r == spec_select_provider(name@, remote_consent),
{
    let n = chars_of(name);
    if eq_literal(n.as_slice(), "ollama") {
        Ok(AiProvider::Ollama)
    } else if eq_literal(n.as_slice(), "gemini") {
        require_remote_consent(remote_consent)?;
        Ok(AiProvider::Gemini)
    } else if eq_literal(n.as_slice(), "openai") {
        require_remote_consent(remote_consent)?;
        Ok(AiProvider::OpenAi)
    } else {
        Err(AiError::Provider)
    }
}

pub const MAX_CONTEXT_CHARS: usize = 40000;

/// The instruction: answer the question from the document, or summarize it.
pub open spec fn spec_instruction(question: Option<Seq<char>>) -> Seq<char> {
    match question {
        Some(q) => if trim_ws(q).len() > 0 {
            "문서에 근거해서만 답하세요. 질문: "@ + trim_ws(q)
        } else {
            "문서의 핵심을 한국어로 간결하게 요약하세요."@
        },
        None => "문서의 핵심을 한국어로 간결하게 요약하세요."@,
    }
}

/// The prompt for a document: the instruction, then the first 40 000
/// characters of its Markdown; a document without text is refused.
pub open spec fn spec_ai_prompt(markdown: Seq<char>, question: Option<Seq<char>>) -> Result<
    Seq<char>,
    Seq<char>,
> {
    let context = if markdown.len() > MAX_CONTEXT_CHARS {
        markdown.take(MAX_CONTEXT_CHARS as int)
    } else {
        markdown
    };
    if trim_ws(context).len() == 0 {
        Err("document has no parsed text"@)
    } else {
        Ok(spec_instruction(question) + "\n\n[문서]\n"@ + context)
    }
}

pub fn build_ai_prompt(markdown: &str, question: Option<&str>) -> (r: Result<String, AiError>)
    ensures
        match spec_ai_prompt(
            markdown@,
            match question {
                Some(q) => Some(q@),
                None => None,
            },
        ) {
            Ok(p) => r matches Ok(s) && s@ == p,
            Err(m) => r matches Err(AiError::Document(s)) && s@ == m,
        },
{
    let all = chars_of(markdown);
    let context = if all.len() > MAX_CONTEXT_CHARS {
        crate::text::sub_chars(all.as_slice(), 0, MAX_CONTEXT_CHARS)
    } else {
        all
    };
    proof {
        if markdown@.len() > MAX_CONTEXT_CHARS {
            assert(context@ =~= markdown@.take(MAX_CONTEXT_CHARS as int));
        }
    }
    if trim_chars(context.as_slice()).len() == 0 {
        return Err(AiError::Document(String::from_str("document has no parsed text")));
    }
    let mut out: Vec<char> = match question {
        Some(q) => {
            let trimmed = trim_chars(chars_of(q).as_slice());
            if trimmed.len() > 0 {
                let mut v = chars_of("문서에 근거해서만 답하세요. 질문: ");
                extend_chars(&mut v, trimmed.as_slice());
                v
            } else {
                chars_of("문서의 핵심을 한국어로 간결하게 요약하세요.")
            }
        },
        None => chars_of("문서의 핵심을 한국어로 간결하게 요약하세요."),
    };
    extend_chars(&mut out, chars_of("\n\n[문서]\n").as_slice());
    extend_chars(&mut out, context.as_slice());
    Ok(string_from_chars(out.as_slice()))
}

/// The text of an answer given in parts: the parts joined by line breaks.
pub fn join_answer_parts(parts: &Vec<String>) -> (r: String)
    ensures
        r@ == crate::text::join(parts@.map_values(|p: String| p@), seq!['\n']),
{
    let mut chars: Vec<Vec<char>> = Vec::new();
    let mut i: usize = 0;
    while i < parts.len()
        invariant
            i <= parts@.len(),
            chars@.map_values(|p: Vec<char>| p@) == parts@.take(i as int).map_values(
                |p: String| p@,
            ),
        decreases parts@.len() - i,
    {
        let c = chars_of(parts[i].as_str());
        let ghost before = chars@;
        chars.push(c);
        proof {
            assert(parts@.take(i + 1) =~= parts@.take(i as int).push(parts@[i as int]));
            assert(chars@.map_values(|p: Vec<char>| p@) =~= before.map_values(|p: Vec<char>| p@).push(
                parts@[i as int]@,
            ));
        }
        i += 1;
        assert(chars@.map_values(|p: Vec<char>| p@) =~= parts@.take(i as int).map_values(
            |p: String| p@,
        ));
    }
    assert(parts@.take(parts@.len() as int) =~= parts@);
    let joined = crate::text::join_chars(&chars, &['\n']);
    assert(['\n']@ =~= seq!['\n']);
    string_from_chars(joined.as_slice())
}


/// What an assistant request comes to before anything is sent, as its
/// provider and prompt or the message of the document problem or the
/// error: refused while AI is off, then the document's preview (or why it
/// is unavailable) makes the prompt, then the provider is chosen, the
/// remote ones only with consent.
pub enum PreparedRequest {
    Ready(AiProvider, Seq<char>),
    DocumentProblem(Seq<char>),
    Refused(AiError),
}

pub open spec fn spec_prepare_request(
    ai_enabled: bool,
    provider: Seq<char>,
    remote_consent: bool,
    preview: Result<Seq<char>, Seq<char>>,
    question: Option<Seq<char>>,
) -> PreparedRequest {
    if !ai_enabled {
        PreparedRequest::Refused(AiError::Disabled)
    } else {
        match preview {
            Err(reason) => PreparedRequest::DocumentProblem(reason),
            Ok(markdown) => match spec_ai_prompt(markdown, question) {
                Err(m) => PreparedRequest::DocumentProblem(m),
                Ok(prompt) => match spec_select_provider(provider, remote_consent) {
                    Err(e) => PreparedRequest::Refused(e),
                    Ok(p) => PreparedRequest::Ready(p, prompt),
                },
            },
        }
    }
}

/// Prepares an assistant request: `preview` is the document's preview text
/// as read, or why it could not be read.
pub fn prepare_ai_request(
    ai_enabled: bool,
    provider: &str,
    remote_consent: bool,
    preview: Result<String, String>,
    question: Option<&str>,
) -> (r: Result<(AiProvider, String), AiError>)
    ensures
        match spec_prepare_request(
            ai_enabled,
            provider@,
            remote_consent,
            match preview {
                Ok(m) => Ok(m@),
                Err(e) => Err(e@),
            },
            match question {
                Some(q) => Some(q@),
                None => None,
            },
        ) {
            PreparedRequest::Ready(p, prompt) => r matches Ok((rp, rs)) && rp == p && rs@ == prompt,
            PreparedRequest::DocumentProblem(m) => r matches Err(AiError::Document(s)) && s@ == m,
            PreparedRequest::Refused(e) => r == Err::<(AiProvider, String), AiError>(e),
        },
{
    if !ai_enabled {
        return Err(AiError::Disabled);
    }
    let markdown = match preview {
        Ok(m) => m,
        Err(reason) => return Err(AiError::Document(reason)),
    };
    let prompt = match build_ai_prompt(markdown.as_str(), question) {
        Ok(p) => p,
        Err(e) => return Err(e),
    };
    match select_provider(provider, remote_consent) {
        Ok(p) => Ok((p, prompt)),
        Err(e) => Err(e),
    }
}

/// Without the user's consent no remote provider is ever chosen; only the
/// local one can be.
pub proof fn law_remote_providers_need_consent(name: Seq<char>)
    ensures
        spec_select_provider(name, false) matches Ok(p) ==> p == AiProvider::Ollama,
{
}

/// A local provider is only ever reached over loopback, a remote one only
/// over HTTPS.
pub proof fn law_endpoints_follow_the_provider(scheme: Seq<char>, host: Option<Seq<char>>, local_only: bool)
    requires
        endpoint_allowed(Some((scheme, host)), local_only),
    ensures
        local_only ==> (scheme == "http"@ && (host matches Some(h) && is_loopback_host(h))),
        !local_only ==> scheme == "https"@,
{
    reveal_strlit("127.0.0.1");
    reveal_strlit("localhost");
    reveal_strlit("::1");
    if local_only && host is None {
        let e: Seq<char> = seq![];
        assert(e.len() == 0);
        assert("127.0.0.1"@.len() == 9 && "localhost"@.len() == 9 && "::1"@.len() == 3);
    }
}
} // verus!
