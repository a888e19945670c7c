use crate::directive::{read_scheme, scheme_view, url_scheme};
use crate::text::{decimal, push_decimal, same_chars, to_chars};
use vstd::prelude::*;
use vstd::slice::slice_subrange;
use vstd::string::{StrSliceExecFns, StringExecFns};
use vstd::utf8::{decode_utf8, valid_utf8};

verus! {

/// The seconds after which a request is given up.
pub const FETCH_TIMEOUT_SECS: u64 = 10;

/// Why a remote hosts document is not fetched, or not taken.
#[derive(Debug, Clone, PartialEq, Eq)]
pub enum FetchError {
    /// The URL or the name of the file to write is empty.
    EmptyArgument,
    /// The text is no absolute URL, for the reason that the URL parser
    /// gives.
    InvalidUrl { reason: String },
    /// The URL is not an HTTPS one.
    InsecureUrl,
    /// The server answered with a status outside 200 to 299.
    Rejected { status: u16 },
    /// The answer is not declared as plain text.
    InvalidContentType { content_type: String },
}

/// What a `FetchError` says, as plain values.
pub ghost enum FetchFault {
    EmptyArgument,
    InvalidUrl { reason: Seq<char> },
    InsecureUrl,
    Rejected { status: nat },
    InvalidContentType { content_type: Seq<char> },
}

impl View for FetchError {
    type V = FetchFault;

    open spec fn view(&self) -> FetchFault {
        match *self {
            FetchError::EmptyArgument => FetchFault::EmptyArgument,
            FetchError::InvalidUrl { reason } => FetchFault::InvalidUrl { reason: reason@ },
            FetchError::InsecureUrl => FetchFault::InsecureUrl,
            FetchError::Rejected { status } => FetchFault::Rejected { status: status as nat },
            FetchError::InvalidContentType { content_type } => FetchFault::InvalidContentType {
                content_type: content_type@,
            },
        }
    }
}

impl FetchFault {
    /// The message shown to the user.
    pub open spec fn message(self) -> Seq<char> {
        match self {
            FetchFault::EmptyArgument => "URL or file name is empty"@,
            FetchFault::InvalidUrl { reason } => "Invalid URL: "@ + reason,
            FetchFault::InsecureUrl => "Insecure URL: Only HTTPS is allowed."@,
            FetchFault::Rejected { status } => "Failed to fetch remote hosts file: HTTP status "@
                + decimal(status),
            FetchFault::InvalidContentType {
                content_type,
            } => "Invalid Content-Type: expected 'text/plain', got '"@ + content_type + "'"@,
        }
    }
}

impl FetchError {
    /// The message shown to the user.
    pub fn message(&self) -> (r: String)
        ensures
            r@ == self@.message(),
    {
        match self {
            FetchError::EmptyArgument => "URL or file name is empty".to_owned(),
            FetchError::InvalidUrl { reason } => {
                let mut out = "Invalid URL: ".to_owned();
                out.append(reason.as_str());
                out
            },
            FetchError::InsecureUrl => "Insecure URL: Only HTTPS is allowed.".to_owned(),
            FetchError::Rejected { status } => {
                let mut out = "Failed to fetch remote hosts file: HTTP status ".to_owned();
                push_decimal(&mut out, *status as usize);
                out
            },
            FetchError::InvalidContentType { content_type } => {
                let mut out = "Invalid Content-Type: expected 'text/plain', got '".to_owned();
                out.append(content_type.as_str());
                out.append("'");
                out
            },
        }
    }
}

/// Why the document at `url` is not to be fetched into the file `file_name`,
/// if so, where `scheme` is what the URL parser makes of `url`: its scheme,
/// or the reason why it is no absolute URL. Neither `url` nor `file_name`
/// may be empty, and the scheme must be `https`.
pub open spec fn request_fault_with(
    url: Seq<char>,
    file_name: Seq<char>,
    scheme: Result<Seq<char>, Seq<char>>,
) -> Option<FetchFault> {
    if url.len() == 0 || file_name.len() == 0 {
        Some(FetchFault::EmptyArgument)
    } else {
        match scheme {
            Err(reason) => Some(FetchFault::InvalidUrl { reason }),
            Ok(s) => if s == "https"@ {
                None
            } else {
                Some(FetchFault::InsecureUrl)
            },
        }
    }
}

/// Why the document at `url` is not to be fetched into the file `file_name`,
/// if so.
pub open spec fn request_fault(url: Seq<char>, file_name: Seq<char>) -> Option<FetchFault> {
    request_fault_with(url, file_name, url_scheme(url))
}

/// Decides whether the document at `url` may be fetched into the file
/// `file_name`, where `scheme` is what the URL parser makes of `url`: its
/// scheme, or the reason why it is no absolute URL.
pub fn judge_request(url: &str, file_name: &str, scheme: Result<&str, &str>) -> (r: Result<
    (),
    FetchError,
>)
    ensures
        r is Ok <==> request_fault_with(url@, file_name@, scheme_view(scheme)) is None,
        r matches Err(e) ==> request_fault_with(url@, file_name@, scheme_view(scheme)) == Some(e@),
{
    if url.unicode_len() == 0 || file_name.unicode_len() == 0 {
        return Err(FetchError::EmptyArgument);
    }
    match scheme {
        Err(reason) => Err(FetchError::InvalidUrl { reason: reason.to_owned() }),
        Ok(s) => {
            let found = to_chars(s);
            let https = to_chars("https");
            if same_chars(found.as_slice(), https.as_slice()) {
                Ok(())
            } else {
                Err(FetchError::InsecureUrl)
            }
        },
    }
}

/// Decides, before any request is made, whether the document at `url` may
/// be fetched into the file `file_name`.
pub fn check_request(url: &str, file_name: &str) -> (r: Result<(), FetchError>)
    ensures
        r is Ok <==> request_fault(url@, file_name@) is None,
        r matches Err(e) ==> request_fault(url@, file_name@) == Some(e@),
{
    match read_scheme(url) {
        Ok(scheme) => judge_request(url, file_name, Ok(scheme.as_str())),
        Err(reason) => judge_request(url, file_name, Err(reason.as_str())),
    }
}

/// Whether a status is one of success: 200 to 299.
pub open spec fn is_success(status: u16) -> bool {
    200 <= status <= 299
}

/// Turns down an answer whose status is not one of success.
pub fn check_status(status: u16) -> (r: Result<(), FetchError>)
    ensures
        r is Ok <==> is_success(status),
        r matches Err(e) ==> e@ == (FetchFault::Rejected { status: status as nat }),
{
    if 200 <= status && status <= 299 {
        Ok(())
    } else {
        Err(FetchError::Rejected { status })
    }
}

/// Whether a content type declares plain text: it begins with `text/plain`.
pub open spec fn is_plain_text(content_type: Seq<char>) -> bool {
    "text/plain"@.is_prefix_of(content_type)
}

/// Turns down an answer that is not declared as plain text. `content_type`
/// is the value of the header, or empty where the answer has none.
pub fn check_content_type(content_type: &str) -> (r: Result<(), FetchError>)
    ensures
        r is Ok <==> is_plain_text(content_type@),
        r matches Err(e) ==> e@ == (FetchFault::InvalidContentType {
            content_type: content_type@,
        }),
{
    let given = to_chars(content_type);
    let plain = to_chars("text/plain");
    if given.len() >= plain.len() && same_chars(
        slice_subrange(given.as_slice(), 0, plain.len()),
        plain.as_slice(),
    ) {
        Ok(())
    } else {
        Err(FetchError::InvalidContentType { content_type: content_type.to_owned() })
    }
}

/// The two lines that a fetched document begins with in its file: where it
/// comes from, and a rule.
pub open spec fn header(url: Seq<char>) -> Seq<char> {
    "# Fetched from: "@ + url + "\n# --------------\n"@
}

/// The two lines that a fetched document begins with in its file.
pub fn file_header(url: &str) -> (r: String)
    ensures
        r@ == header(url@),
{
    let mut out = "# Fetched from: ".to_owned();
    out.append(url);
    out.append("\n# --------------\n");
    out
}

/// The name by which the application makes itself known to a server.
pub fn user_agent(version: &str) -> (r: String)
    ensures
        r@ == "hedit.app/"@ + version@,
{
    let mut out = "hedit.app/".to_owned();
    out.append(version);
    out
}

/// The error of the standard library's UTF-8 check.
#[verifier::external_type_specification]
#[verifier::external_body]
pub struct ExUtf8Error(core::str::Utf8Error);

/// `core::str::from_utf8` gives the text that the bytes encode where they
/// are valid UTF-8, and an error where they are not.
pub assume_specification[ core::str::from_utf8 ](v: &[u8]) -> (r: Result<
    &str,
    core::str::Utf8Error,
>)
    ensures
        r is Ok <==> valid_utf8(v@),
        r matches Ok(s) ==> s@ == decode_utf8(v@),
;

/// Takes one more chunk of an answer into `body`, and says whether it did.
/// A chunk is taken where it is valid UTF-8 by itself; what it encodes is
/// then put at the end of `body`. Else `body` stays as it is.
pub fn push_chunk(body: &mut String, chunk: &[u8]) -> (r: bool)
    ensures
        r == valid_utf8(chunk@),
        final(body)@ == if r {
            old(body)@ + decode_utf8(chunk@)
        } else {
            old(body)@
        },
{
    match core::str::from_utf8(chunk) {
        Ok(text) => {
            body.append(text);
            true
        },
        Err(_) => false,
    }
}

/// What the chunks encode, one after the other.
pub open spec fn decoded(chunks: Seq<Vec<u8>>) -> Seq<char>
    decreases chunks.len(),
{
    if chunks.len() == 0 {
        Seq::empty()
    } else {
        decoded(chunks.drop_last()) + decode_utf8(chunks.last()@)
    }
}

/// The text of an answer that came in the chunks `chunks`: what they encode,
/// one after the other, where each of them is valid UTF-8 by itself; else
/// the place of the first chunk that is not.
pub fn decode_body(chunks: &Vec<Vec<u8>>) -> (r: Result<String, usize>)
    ensures
        r matches Ok(body) ==> body@ == decoded(chunks@) && forall|i: int|
            0 <= i < chunks@.len() ==> valid_utf8(#[trigger] chunks@[i]@),
        r matches Err(at) ==> at < chunks@.len() && !valid_utf8(chunks@[at as int]@) && forall|
            i: int,
        | 0 <= i < at ==> valid_utf8(#[trigger] chunks@[i]@),
{
    let mut body = String::new();
    let mut i: usize = 0;
    while i < chunks.len()
        invariant
            i <= chunks@.len(),
            body@ == decoded(chunks@.take(i as int)),
            forall|j: int| 0 <= j < i ==> valid_utf8(#[trigger] chunks@[j]@),
        decreases chunks.len() - i,
    {
        if !push_chunk(&mut body, chunks[i].as_slice()) {
            return Err(i);
        }
        proof {
            assert(chunks@.take(i + 1).drop_last() =~= chunks@.take(i as int));
            assert(chunks@.take(i + 1).last() == chunks@[i as int]);
        }
        i += 1;
    }
    proof {
        assert(chunks@.take(chunks@.len() as int) =~= chunks@);
    }
    Ok(body)
}

} // verus!
