//! The GitLab API as the server uses it: which project a repository URL
//! names, the addresses of the merge-request calls, and how GitLab's answers
//! map to errors.
use vstd::prelude::*;
use vstd::string::*;
use vstd::utf8::*;

use crate::error::RingError;
use crate::git_service::{strip_prefixes, strip_suffixes, trim_end_matches, trim_start_matches};
use crate::text::{decimal, decimal_string, owned, push_char, push_str};

verus! {

// ---------------------------------------------------------------------------
// Trusted calls
// ---------------------------------------------------------------------------

/// The path of a URL as the `url` crate parses it (`Url::parse`, then
/// `path`), or nothing when the text is no URL.
pub uninterp spec fn url_path_of(text: Seq<char>) -> Option<Seq<char>>;

/// `url::Url::parse`, then `path`: the URL's path, or nothing when the text
/// does not parse as a URL.
#[verifier::external_body]
fn url_path(text: &str) -> (r: Option<String>)
    ensures
        match r {
            Some(p) => url_path_of(text@) == Some(p@),
            None => url_path_of(text@) is None,
        },
{
    url::Url::parse(text).ok().map(|u| u.path().to_string())
}

/// Whether a byte is left as it is by percent-encoding: an ASCII letter or
/// digit, or one of `-`, `.`, `_`, `~`.
pub open spec fn unreserved(b: u8) -> bool {
    (48 <= b <= 57) || (65 <= b <= 90) || (97 <= b <= 122) || b == 45 || b == 46 || b == 95 || b == 126
}

/// An uppercase hexadecimal digit.
pub open spec fn hex_digit(d: u8) -> char {
    if d < 10 {
        (48 + d) as char
    } else {
        (55 + d) as char
    }
}

/// The percent-encoding of some bytes: unreserved bytes as themselves, any
/// other byte as `%` and two uppercase hexadecimal digits.
pub open spec fn percent_encoded(bytes: Seq<u8>) -> Seq<char>
    decreases bytes.len(),
{
    if bytes.len() == 0 {
        Seq::empty()
    } else {
        let b = bytes.last();
        percent_encoded(bytes.drop_last()) + if unreserved(b) {
            seq![b as char]
        } else {
            seq!['%', hex_digit(b / 16), hex_digit(b % 16)]
        }
    }
}

/// An uppercase hexadecimal digit (see `hex_digit`).
fn hex_char(d: u8) -> (c: char)
    requires
        d < 16,
    ensures
        c == hex_digit(d),
{
    if d < 10 {
        (48u8 + d) as char
    } else {
        (55u8 + d) as char
    }
}

/// Percent-encodes the UTF-8 bytes of a text, as `urlencoding::encode`
/// does: the result is `percent_encoded` of the bytes.
fn url_encode(text: &str) -> (r: String)
    ensures
        r@ == percent_encoded(encode_utf8(text@)),
{
    let bytes = text.as_bytes();
    let mut r = String::new();
    let mut i: usize = 0;
    while i < bytes.len()
        invariant
            i <= bytes@.len(),
            bytes@ == encode_utf8(text@),
            r@ == percent_encoded(bytes@.take(i as int)),
        decreases bytes@.len() - i,
    {
        let b = bytes[i];
        assert(bytes@.take(i + 1).drop_last() =~= bytes@.take(i as int));
        if (48 <= b && b <= 57) || (65 <= b && b <= 90) || (97 <= b && b <= 122) || b == 45 || b == 46
            || b == 95 || b == 126 {
            push_char(&mut r, b as char);
        } else {
            push_char(&mut r, '%');
            push_char(&mut r, hex_char(b / 16));
            push_char(&mut r, hex_char(b % 16));
        }
        i += 1;
    }
    assert(bytes@.take(bytes@.len() as int) =~= bytes@);
    r
}

// ---------------------------------------------------------------------------
// Projects and addresses
// ---------------------------------------------------------------------------

/// The project id of a repository URL: the URL's path (the text is read as
/// an `https` URL when it does not parse as one), without leading slashes
/// or trailing `.git`, percent-encoded.
pub open spec fn project_id_of(repo_url: Seq<char>) -> Option<Seq<char>> {
    let path = match url_path_of(repo_url) {
        Some(p) => Some(p),
        None => url_path_of("https://"@ + repo_url),
    };
    match path {
        Some(p) => Some(percent_encoded(encode_utf8(strip_suffixes(strip_prefixes(p, "/"@), ".git"@)))),
        None => None,
    }
}

/// The project id of a repository URL (see `project_id_of`); nothing when
/// the URL cannot be read even as an `https` one.
pub fn project_id_from_url(repo_url: &str) -> (r: Option<String>)
    ensures
        match r {
            Some(id) => project_id_of(repo_url@) == Some(id@),
            None => project_id_of(repo_url@) is None,
        },
{
    let path = match url_path(repo_url) {
        Some(p) => p,
        None => {
            let mut u = owned("https://");
            push_str(&mut u, repo_url);
            match url_path(u.as_str()) {
                Some(p) => p,
                None => {
                    return None;
                },
            }
        },
    };
    let a = trim_start_matches(path.as_str(), "/");
    let b = trim_end_matches(a.as_str(), ".git");
    Some(url_encode(b.as_str()))
}

/// How to reach a GitLab server: its base URL, without trailing slashes,
/// and the token to send.
pub struct GitLabClient {
    pub base_url: String,
    pub token: String,
}

impl GitLabClient {
    /// A client for a server and token.
    pub fn new(base_url: &str, token: &str) -> (r: GitLabClient)
        ensures
            r.base_url@ == strip_suffixes(base_url@, "/"@),
            r.token@ == token@,
    {
        GitLabClient { base_url: trim_end_matches(base_url, "/"), token: owned(token) }
    }

    /// The address of the current user.
    pub fn user_url(&self) -> (r: String)
        ensures
            r@ == self.base_url@ + "/api/v4/user"@,
    {
        let mut r = self.base_url.clone();
        push_str(&mut r, "/api/v4/user");
        r
    }

    /// The address of a project's merge requests.
    pub fn merge_requests_url(&self, project_id: &str) -> (r: String)
        ensures
            r@ == self.base_url@ + "/api/v4/projects/"@ + project_id@ + "/merge_requests"@,
    {
        let mut r = self.base_url.clone();
        push_str(&mut r, "/api/v4/projects/");
        push_str(&mut r, project_id);
        push_str(&mut r, "/merge_requests");
        r
    }

    /// The address of one merge request, followed by `suffix` (empty, or a
    /// sub-resource such as `/merge` or `/diffs`).
    pub fn merge_request_url(&self, project_id: &str, iid: u64, suffix: &str) -> (r: String)
        ensures
            r@ == self.base_url@ + "/api/v4/projects/"@ + project_id@ + "/merge_requests/"@ + decimal(
                iid as nat,
            ) + suffix@,
    {
        let mut r = self.merge_requests_url(project_id);
        push_str(&mut r, "/");
        let n = decimal_string(iid);
        push_str(&mut r, n.as_str());
        push_str(&mut r, suffix);
        proof {
            reveal_strlit("/merge_requests");
            reveal_strlit("/merge_requests/");
            reveal_strlit("/");
            assert("/merge_requests"@ + "/"@ =~= "/merge_requests/"@);
        }
        r
    }
}

/// A merge request as GitLab describes it.
pub struct MergeRequest {
    pub iid: i64,
    pub title: String,
    pub description: Option<String>,
    pub source_branch: String,
    pub target_branch: String,
    pub state: String,
    pub web_url: String,
}

/// One file's change in a merge request.
pub struct DiffRef {
    pub old_path: String,
    pub new_path: String,
    pub diff: String,
}

/// A GitLab user.
pub struct GitLabUser {
    pub id: i64,
    pub username: String,
}

// ---------------------------------------------------------------------------
// Answers
// ---------------------------------------------------------------------------

/// Whether an HTTP status is a success (2xx).
pub open spec fn success(status: u16) -> bool {
    200 <= status <= 299
}

/// The error when GitLab cannot be reached.
pub fn connection_failed(reason: &str) -> (r: RingError)
    ensures
        r matches RingError::GitlabApiError { status, message } && status == 0 && message@
            == "connection failed: "@ + reason@,
{
    let mut m = owned("connection failed: ");
    push_str(&mut m, reason);
    RingError::GitlabApiError { status: 0, message: m }
}

/// The error when GitLab's answer does not parse.
pub fn parse_failed(reason: &str) -> (r: RingError)
    ensures
        r matches RingError::GitlabApiError { status, message } && status == 0 && message@
            == "parse error: "@ + reason@,
{
    let mut m = owned("parse error: ");
    push_str(&mut m, reason);
    RingError::GitlabApiError { status: 0, message: m }
}

/// Which call GitLab answered: some statuses mean something of their own.
#[derive(PartialEq, Eq, Structural, Clone, Copy)]
pub enum GitLabCall {
    /// Any call without special statuses.
    Plain,
    /// Opening a merge request: 409 means the request exists already.
    CreateMergeRequest,
    /// Merging merge request `iid`: 405 means it cannot be merged.
    Merge { iid: i64 },
}

/// What GitLab's status means: nothing wrong on success; a conflict when a
/// merge request to open already exists (409); a conflict of the archive
/// record `mr-{iid}` when a merge is refused (405); else an API error with
/// the status and the answer's body.
pub fn check_status(call: GitLabCall, status: u16, body: &str) -> (r: Result<(), RingError>)
    ensures
        call == GitLabCall::CreateMergeRequest && status == 409 ==> (r matches Err(
            RingError::GitlabApiError { status: s, message },
        ) && s == 409 && message@ == "conflict: "@ + body@),
        call matches GitLabCall::Merge { iid } ==> (status == 405 ==> (r matches Err(
            RingError::ArchiveConflict { record_id },
        ) && record_id@ == "mr-"@ + signed_decimal(iid as int))),
        !(call == GitLabCall::CreateMergeRequest && status == 409) && !(call is Merge && status == 405)
            ==> if success(status) {
            r is Ok
        } else {
            r matches Err(RingError::GitlabApiError { status: s, message }) && s == status && message@
                == body@
        },
{
    match call {
        GitLabCall::CreateMergeRequest => {
            if status == 409 {
                let mut m = owned("conflict: ");
                push_str(&mut m, body);
                return Err(RingError::GitlabApiError { status, message: m });
            }
        },
        GitLabCall::Merge { iid } => {
            if status == 405 {
                let mut id = owned("mr-");
                let n = signed_decimal_string(iid);
                push_str(&mut id, n.as_str());
                return Err(RingError::ArchiveConflict { record_id: id });
            }
        },
        GitLabCall::Plain => {},
    }
    if 200 <= status && status <= 299 {
        Ok(())
    } else {
        Err(RingError::GitlabApiError { status, message: owned(body) })
    }
}

/// The decimal representation of a signed integer.
pub open spec fn signed_decimal(n: int) -> Seq<char> {
    if n < 0 {
        seq!['-'] + decimal((-n) as nat)
    } else {
        decimal(n as nat)
    }
}

/// The decimal representation of a signed integer (see `signed_decimal`).
pub fn signed_decimal_string(n: i64) -> (r: String)
    ensures
        r@ == signed_decimal(n as int),
{
    if n < 0 {
        let m: u64 = if n == i64::MIN {
            9223372036854775808u64
        } else {
            (-n) as u64
        };
        let mut r = owned("-");
        let d = decimal_string(m);
        push_str(&mut r, d.as_str());
        proof {
            reveal_strlit("-");
        }
        r
    } else {
        decimal_string(n as u64)
    }
}

} // verus!
