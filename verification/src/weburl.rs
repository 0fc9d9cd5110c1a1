//! Web addresses that the client may store or open: http(s) URLs with a
//! host, as the `url` crate parses and serialises them.
use vstd::prelude::*;
use vstd::string::StringExecFns;
use crate::text::{contains_run, contains_text, chars_of, trim, trimmed, utf8_len};

verus! {

/// What the `url` crate reports of a parsed URL: its scheme, whether it has
/// a host, and its serialisation.
pub struct ParsedUrl {
    pub scheme: String,
    pub has_host: bool,
    pub serialization: String,
}

pub struct ParsedUrlView {
    pub scheme: Seq<char>,
    pub has_host: bool,
    pub serialization: Seq<char>,
}

impl View for ParsedUrl {
    type V = ParsedUrlView;

    open spec fn view(&self) -> ParsedUrlView {
        ParsedUrlView {
            scheme: self.scheme@,
            has_host: self.has_host,
            serialization: self.serialization@,
        }
    }
}

/// What `url::Url::parse` makes of `input` (WHATWG URL parsing), or `None`
/// where it refuses it.
pub uninterp spec fn parsed_url(input: Seq<char>) -> Option<ParsedUrlView>;

/// `url::Url::parse`, then `Url::scheme`, `Url::host_str` (whether it is
/// present) and the `Display` serialisation. The parse depends on the input
/// alone; the contract names its result and says no more of it.
#[verifier::external_body]
pub fn parse_url(input: &str) -> (r: Option<ParsedUrl>)
    ensures
        match r {
            Some(parsed) => parsed_url(input@) == Some(parsed@),
            None => parsed_url(input@) is None,
        },
{
    match url::Url::parse(input) {
        Ok(parsed) => Some(
            ParsedUrl {
                scheme: parsed.scheme().to_string(),
                has_host: parsed.host_str().is_some(),
                serialization: parsed.to_string(),
            },
        ),
        Err(_) => None,
    }
}

/// Longest address, in UTF-8 bytes, that is accepted.
pub const MAX_URL_BYTES: usize = 2048;

/// The trimmed address with `https://` put in front when it names no
/// scheme separator; `None` when the trimmed address is empty or longer
/// than `MAX_URL_BYTES` bytes.
pub open spec fn url_candidate(raw: Seq<char>) -> Option<Seq<char>> {
    let input = trimmed(raw);
    if input.len() == 0 || utf8_len(input) > MAX_URL_BYTES {
        None
    } else if contains_run(input, "://"@) {
        Some(input)
    } else {
        Some("https://"@ + input)
    }
}

/// Whether a parsed address may be used: an http or https URL with a host.
pub open spec fn is_web_url(parsed: ParsedUrlView) -> bool {
    (parsed.scheme == "https"@ || parsed.scheme == "http"@) && parsed.has_host
}

/// The normalised address that `raw` stands for, if it is an http(s) URL.
pub open spec fn web_url(raw: Seq<char>) -> Option<Seq<char>> {
    match url_candidate(raw) {
        None => None,
        Some(input) => match parsed_url(input) {
            Some(parsed) => if is_web_url(parsed) {
                Some(parsed.serialization)
            } else {
                None
            },
            None => None,
        },
    }
}

/// The address to open for `raw`, or the message that says why it is
/// refused.
pub open spec fn external_url(raw: Seq<char>) -> Result<Seq<char>, &'static str> {
    match url_candidate(raw) {
        None => Err("URL is empty or too long"),
        Some(input) => match parsed_url(input) {
            None => Err("Invalid URL"),
            Some(parsed) => if is_web_url(parsed) {
                Ok(parsed.serialization)
            } else {
                Err("Only http and https URLs can be opened")
            },
        },
    }
}

/// Trims `raw` and supplies the default scheme; `None` when it is empty or
/// too long.
pub fn prepare_url(raw: &str) -> (r: Option<String>)
    ensures
        match r {
            Some(input) => url_candidate(raw@) == Some(input@),
            None => url_candidate(raw@) is None,
        },
{
    let input = trim(raw);
    let chars = input.unicode_len();
    proof {
        crate::text::lemma_utf8_len_bounds(input@);
    }
    if chars == 0 || chars > MAX_URL_BYTES || input.len() > MAX_URL_BYTES {
        return None;
    }
    let separator: Vec<char> = vec![':', '/', '/'];
    proof {
        reveal_strlit("://");
        assert(separator@ =~= "://"@);
    }
    if contains_text(&chars_of(input), &separator) {
        Some(String::from_str(input))
    } else {
        Some(String::from_str("https://").concat(input))
    }
}

/// Whether a parsed address is an http(s) URL with a host.
pub fn check_web_url(parsed: &ParsedUrl) -> (r: bool)
    ensures
        r == is_web_url(parsed@),
{
    let scheme = parsed.scheme.as_str();
    (crate::text::same_text(scheme, "https") || crate::text::same_text(scheme, "http"))
        && parsed.has_host
}

/// The serialisation of a parsed address, when it may be used.
pub fn accept_web_url(parsed: Option<ParsedUrl>) -> (r: Option<String>)
    ensures
        match r {
            Some(url) => match parsed {
                Some(p) => is_web_url(p@) && url@ == p.serialization@,
                None => false,
            },
            None => match parsed {
                Some(p) => !is_web_url(p@),
                None => true,
            },
        },
{
    match parsed {
        Some(p) => if check_web_url(&p) {
            Some(p.serialization)
        } else {
            None
        },
        None => None,
    }
}

/// Normalises a stored bookmark address: trims it, assumes https when no
/// scheme is given, and keeps it only if it parses as an http(s) URL with a
/// host.
pub fn normalize_http_url(raw: &str) -> (r: Option<String>)
    ensures
        match r {
            Some(url) => web_url(raw@) == Some(url@),
            None => web_url(raw@) is None,
        },
{
    match prepare_url(raw) {
        None => None,
        Some(input) => accept_web_url(parse_url(input.as_str())),
    }
}

/// The address or refusal message for a parsed candidate.
pub fn accept_external_url(parsed: Option<ParsedUrl>) -> (r: Result<String, String>)
    ensures
        match r {
            Ok(url) => match parsed {
                Some(p) => is_web_url(p@) && url@ == p.serialization@,
                None => false,
            },
            Err(message) => match parsed {
                Some(p) => !is_web_url(p@) && message@ == "Only http and https URLs can be opened"@,
                None => message@ == "Invalid URL"@,
            },
        },
{
    match parsed {
        None => Err(String::from_str("Invalid URL")),
        Some(p) => if check_web_url(&p) {
            Ok(p.serialization)
        } else {
            Err(String::from_str("Only http and https URLs can be opened"))
        },
    }
}

/// Checks an address before it is handed to the system browser: only
/// http(s) URLs with a host are opened; the error says why another is not.
pub fn safe_external_url(raw: &str) -> (r: Result<String, String>)
    ensures
        match r {
            Ok(url) => external_url(raw@) == Ok::<Seq<char>, &'static str>(url@),
            Err(message) => external_url(raw@) matches Err(m) && message@ == m@,
        },
{
    match prepare_url(raw) {
        None => Err(String::from_str("URL is empty or too long")),
        Some(input) => accept_external_url(parse_url(input.as_str())),
    }
}

/// Stored bookmarks and addresses opened in the browser pass the same
/// check: an address is opened exactly when it would be stored, and as the
/// same normalised text.
pub proof fn law_opened_and_stored_addresses_agree(raw: Seq<char>)
    ensures
        (web_url(raw) is Some) == (external_url(raw) is Ok),
        web_url(raw) is Some ==> external_url(raw) == Ok::<Seq<char>, &'static str>(
            web_url(raw)->0,
        ),
{
}

} // verus!
