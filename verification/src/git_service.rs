//! The git commands behind the archive repositories, how their output is
//! read, and the addresses of the hosted (GitHub, GitLab) review APIs.
//!
//! The library decides which git command to run and what its output means;
//! running the command is left to the caller.
use vstd::prelude::*;
use vstd::string::*;

use crate::encryption::{decryption_of, CredentialEncryption};
use crate::error::RingError;
use crate::text::{
    chars_of, decimal, decimal_string, find, find_from, lines, lines_of, occurs_at, owned,
    push_chars, slice_chars, str_trim, string_of, trim
};

verus! {

/// One invocation of git: its arguments after `git`.
pub struct GitCommand {
    pub args: Vec<String>,
}

impl GitCommand {
    /// The arguments as character sequences.
    pub open spec fn view_args(&self) -> Seq<Seq<char>> {
        self.args@.map_values(|a: String| a@)
    }
}

fn command(args: Vec<String>) -> (c: GitCommand)
    ensures
        c.args == args,
{
    GitCommand { args }
}

fn strings1(a: &str) -> (v: Vec<String>)
    ensures
        v@.map_values(|s: String| s@) == seq![a@],
{
    let mut v: Vec<String> = Vec::new();
    v.push(owned(a));
    assert(v@.map_values(|s: String| s@) =~= seq![a@]);
    v
}

fn strings2(a: &str, b: &str) -> (v: Vec<String>)
    ensures
        v@.map_values(|s: String| s@) == seq![a@, b@],
{
    let mut v: Vec<String> = Vec::new();
    v.push(owned(a));
    v.push(owned(b));
    assert(v@.map_values(|s: String| s@) =~= seq![a@, b@]);
    v
}

fn strings3(a: &str, b: &str, c: &str) -> (v: Vec<String>)
    ensures
        v@.map_values(|s: String| s@) == seq![a@, b@, c@],
{
    let mut v: Vec<String> = Vec::new();
    v.push(owned(a));
    v.push(owned(b));
    v.push(owned(c));
    assert(v@.map_values(|s: String| s@) =~= seq![a@, b@, c@]);
    v
}

fn strings4(a: &str, b: &str, c: &str, d: &str) -> (v: Vec<String>)
    ensures
        v@.map_values(|s: String| s@) == seq![a@, b@, c@, d@],
{
    let mut v: Vec<String> = Vec::new();
    v.push(owned(a));
    v.push(owned(b));
    v.push(owned(c));
    v.push(owned(d));
    assert(v@.map_values(|s: String| s@) =~= seq![a@, b@, c@, d@]);
    v
}

/// The git commands of the archive workflow.
pub struct GitService;

impl GitService {
    /// A git service.
    pub fn new() -> (g: Self) {
        GitService
    }

    /// `git init`, run in the repository directory.
    pub fn init(&self) -> (c: GitCommand)
        ensures
            c.view_args() == seq!["init"@],
    {
        command(strings1("init"))
    }

    /// `git clone <url> <path>`.
    pub fn clone(url: &str, path: &str) -> (c: GitCommand)
        ensures
            c.view_args() == seq!["clone"@, url@, path@],
    {
        command(strings3("clone", url, path))
    }

    /// `git pull --rebase`.
    pub fn pull(&self) -> (c: GitCommand)
        ensures
            c.view_args() == seq!["pull"@, "--rebase"@],
    {
        command(strings2("pull", "--rebase"))
    }

    /// `git add .`.
    pub fn add_all(&self) -> (c: GitCommand)
        ensures
            c.view_args() == seq!["add"@, "."@],
    {
        command(strings2("add", "."))
    }

    /// A commit: `git commit -m <msg>`, then `git rev-parse HEAD`, whose
    /// output is the new commit's sha.
    pub fn commit(&self, msg: &str) -> (c: Vec<GitCommand>)
        ensures
            c.len() == 2,
            c@[0].view_args() == seq!["commit"@, "-m"@, msg@],
            c@[1].view_args() == seq!["rev-parse"@, "HEAD"@],
    {
        let mut v: Vec<GitCommand> = Vec::new();
        v.push(command(strings3("commit", "-m", msg)));
        v.push(command(strings2("rev-parse", "HEAD")));
        v
    }

    /// `git push <remote> <branch>`.
    pub fn push(&self, remote: &str, branch: &str) -> (c: GitCommand)
        ensures
            c.view_args() == seq!["push"@, remote@, branch@],
    {
        command(strings3("push", remote, branch))
    }

    /// `git checkout -b <name>`.
    pub fn create_branch(&self, name: &str) -> (c: GitCommand)
        ensures
            c.view_args() == seq!["checkout"@, "-b"@, name@],
    {
        command(strings3("checkout", "-b", name))
    }

    /// `git checkout <branch>`.
    pub fn checkout(&self, branch: &str) -> (c: GitCommand)
        ensures
            c.view_args() == seq!["checkout"@, branch@],
    {
        command(strings2("checkout", branch))
    }

    /// `git merge <branch>`.
    pub fn merge(&self, branch: &str) -> (c: GitCommand)
        ensures
            c.view_args() == seq!["merge"@, branch@],
    {
        command(strings2("merge", branch))
    }

    /// `git diff main... <branch>`: what a branch changed since it left main.
    pub fn diff_from_main(&self, branch: &str) -> (c: GitCommand)
        ensures
            c.view_args() == seq!["diff"@, "main..."@, branch@],
    {
        command(strings3("diff", "main...", branch))
    }

    /// `git log` of the last `n` commits, one `sha|subject|author|date` line
    /// each.
    pub fn log(&self, n: u64) -> (c: GitCommand)
        ensures
            c.view_args() == seq!["log"@, "--pretty=format:%H|%s|%an|%ai"@, "-n"@, decimal(n as nat)],
    {
        let d = decimal_string(n);
        command(strings4("log", "--pretty=format:%H|%s|%an|%ai", "-n", d.as_str()))
    }

    /// `git remote`, whose output lists the configured remotes.
    pub fn list_remotes(&self) -> (c: GitCommand)
        ensures
            c.view_args() == seq!["remote"@],
    {
        command(strings1("remote"))
    }

    /// Whether a repository has a remote, from the output of `git remote`
    /// (`None` when the command failed).
    pub fn has_remote(&self, remotes: Option<&str>) -> (r: bool)
        ensures
            r == match remotes {
                Some(o) => o@.len() > 0,
                None => false,
            },
    {
        match remotes {
            Some(o) => {
                let v = chars_of(o);
                v.len() > 0
            },
            None => false,
        }
    }

    /// The command that points remote `name` at `url`: `set-url` when the
    /// output of `git remote` lists `name` on a line of its own, `add`
    /// otherwise (also when that command failed).
    pub fn set_remote(&self, name: &str, url: &str, remotes: Option<&str>) -> (c: GitCommand)
        ensures
            c.view_args() == if remote_listed(remotes, name@) {
                seq!["remote"@, "set-url"@, name@, url@]
            } else {
                seq!["remote"@, "add"@, name@, url@]
            },
    {
        let listed = match remotes {
            Some(o) => line_is_listed(o, name),
            None => false,
        };
        if listed {
            command(strings4("remote", "set-url", name, url))
        } else {
            command(strings4("remote", "add", name, url))
        }
    }
}

/// Whether `name` is a line of the output of `git remote`.
pub open spec fn remote_listed(remotes: Option<&str>, name: Seq<char>) -> bool {
    match remotes {
        Some(o) => lines_of(o@).contains(name),
        None => false,
    }
}

fn line_is_listed(o: &str, name: &str) -> (r: bool)
    ensures
        r == lines_of(o@).contains(name@),
{
    let v = chars_of(o);
    let n = chars_of(name);
    let ls = lines(v.as_slice());
    let ghost lv = ls@.map_values(|w: Vec<char>| w@);
    let mut i: usize = 0;
    while i < ls.len()
        invariant
            i <= ls.len(),
            lv == ls@.map_values(|w: Vec<char>| w@),
            lv == lines_of(o@),
            n@ == name@,
            forall|j: int| 0 <= j < i ==> lv[j] != name@,
        decreases ls.len() - i,
    {
        if crate::text::chars_eq(ls[i].as_slice(), n.as_slice()) {
            assert(lv[i as int] == name@);
            return true;
        }
        i += 1;
    }
    false
}

/// The text git printed, decoded as std's `String::from_utf8_lossy` does,
/// with surrounding whitespace trimmed: what a successful command yields.
pub open spec fn command_output(stdout: Seq<u8>) -> Seq<char> {
    trim(crate::upload::utf8_lossy_of(stdout))
}

/// The arguments joined with spaces, as a failed command is reported.
pub open spec fn command_line(args: Seq<Seq<char>>) -> Seq<char> {
    crate::text::join(args, seq![' '])
}

/// What running a git command gave: its trimmed output when it exited
/// successfully, else `GitCommandFailed` with the command line and the
/// decoded standard error.
pub fn git_outcome(cmd: &GitCommand, success: bool, stdout: &[u8], stderr: &[u8]) -> (r: Result<String, RingError>)
    ensures
        success ==> (r matches Ok(o) && o@ == command_output(stdout@)),
        !success ==> (r matches Err(RingError::GitCommandFailed { cmd: c, stderr: e }) && c@
            == command_line(cmd.view_args()) && e@ == crate::upload::utf8_lossy_of(stderr@)),
{
    if success {
        let out = crate::upload::utf8_lossy(stdout);
        Ok(str_trim(out.as_str()))
    } else {
        let err = crate::upload::utf8_lossy(stderr);
        let mut parts: Vec<Vec<char>> = Vec::new();
        let mut i: usize = 0;
        while i < cmd.args.len()
            invariant
                i <= cmd.args.len(),
                parts@.map_values(|w: Vec<char>| w@) == cmd.view_args().take(i as int),
            decreases cmd.args.len() - i,
        {
            let ghost before = parts@.map_values(|w: Vec<char>| w@);
            parts.push(chars_of(cmd.args[i].as_str()));
            assert(parts@.map_values(|w: Vec<char>| w@) == before.push(cmd.args@[i as int]@));
            assert(cmd.view_args().take(i + 1) == cmd.view_args().take(i as int).push(
                cmd.args@[i as int]@,
            ));
            i += 1;
        }
        assert(cmd.view_args().take(cmd.args.len() as int) == cmd.view_args());
        let sp: [char; 1] = [' '];
        assert(sp@ == seq![' ']);
        let line = crate::text::join_chars(&parts, sp.as_slice());
        Err(RingError::GitCommandFailed { cmd: string_of(line.as_slice()), stderr: err })
    }
}

/// A commit as `git log` lists it.
pub struct LogEntry {
    pub sha: String,
    pub subject: String,
    pub author: String,
    pub date: String,
}

/// `s` cut at its first `c`: the part before and the part after.
pub open spec fn cut_at(s: Seq<char>, c: char) -> Option<(Seq<char>, Seq<char>)> {
    if s.contains(c) {
        let i = choose|i: int| 0 <= i < s.len() && s[i] == c && forall|j: int| 0 <= j < i ==> s[j] != c;
        Some((s.take(i), s.skip(i + 1)))
    } else {
        None
    }
}

/// The four fields of a log line (`line.splitn(4, '|')`), when it has at
/// least three `|`.
pub open spec fn log_fields(line: Seq<char>) -> Option<(Seq<char>, Seq<char>, Seq<char>, Seq<char>)> {
    match cut_at(line, '|') {
        Some((a, r1)) => match cut_at(r1, '|') {
            Some((b, r2)) => match cut_at(r2, '|') {
                Some((c, d)) => Some((a, b, c, d)),
                None => None,
            },
            None => None,
        },
        None => None,
    }
}

/// The commits of a `git log` output: one per line that has four fields,
/// in order; other lines are skipped.
pub open spec fn log_entries(lines: Seq<Seq<char>>) -> Seq<(Seq<char>, Seq<char>, Seq<char>, Seq<char>)>
    decreases lines.len(),
{
    if lines.len() == 0 {
        seq![]
    } else {
        let prev = log_entries(lines.drop_last());
        match log_fields(lines.last()) {
            Some(f) => prev.push(f),
            None => prev,
        }
    }
}

/// The view of a log entry.
pub open spec fn entry_view(e: LogEntry) -> (Seq<char>, Seq<char>, Seq<char>, Seq<char>) {
    (e.sha@, e.subject@, e.author@, e.date@)
}

fn cut(s: &[char], c: char) -> (r: Option<(Vec<char>, Vec<char>)>)
    ensures
        match r {
            Some((a, b)) => cut_at(s@, c) == Some((a@, b@)),
            None => cut_at(s@, c) is None,
        },
{
    let mut i: usize = 0;
    while i < s.len()
        invariant
            i <= s.len(),
            forall|j: int| 0 <= j < i ==> s@[j] != c,
        decreases s.len() - i,
    {
        if s[i] == c {
            proof {
                assert(s@.contains(c));
                let k = choose|k: int| 0 <= k < s@.len() && s@[k] == c && forall|j: int| 0 <= j < k ==> s@[j] != c;
                if k < i {
                    assert(s@[k] != c);
                }
                if k > i {
                    assert(s@[i as int] != c);
                }
                assert(k == i);
            }
            let a = slice_chars(s, 0, i);
            let b = slice_chars(s, i + 1, s.len());
            return Some((a, b));
        }
        i += 1;
    }
    None
}

fn parse_log_line(line: &[char]) -> (r: Option<LogEntry>)
    ensures
        match r {
            Some(e) => log_fields(line@) == Some(entry_view(e)),
            None => log_fields(line@) is None,
        },
{
    if let Some((a, r1)) = cut(line, '|') {
        if let Some((b, r2)) = cut(r1.as_slice(), '|') {
            if let Some((c, d)) = cut(r2.as_slice(), '|') {
                return Some(
                    LogEntry {
                        sha: string_of(a.as_slice()),
                        subject: string_of(b.as_slice()),
                        author: string_of(c.as_slice()),
                        date: string_of(d.as_slice()),
                    },
                );
            }
        }
    }
    None
}

/// Reads the output of the `log` command into commits.
pub fn parse_log(output: &str) -> (r: Vec<LogEntry>)
    ensures
        r@.map_values(|e: LogEntry| entry_view(e)) == log_entries(lines_of(output@)),
{
    let v = chars_of(output);
    let ls = lines(v.as_slice());
    let ghost lv = ls@.map_values(|w: Vec<char>| w@);
    let mut out: Vec<LogEntry> = Vec::new();
    let mut i: usize = 0;
    while i < ls.len()
        invariant
            i <= ls.len(),
            lv == ls@.map_values(|w: Vec<char>| w@),
            lv == lines_of(output@),
            out@.map_values(|e: LogEntry| entry_view(e)) == log_entries(lv.take(i as int)),
        decreases ls.len() - i,
    {
        assert(lv.take(i + 1).drop_last() == lv.take(i as int));
        assert(lv.take(i + 1).last() == ls@[i as int]@);
        match parse_log_line(ls[i].as_slice()) {
            Some(e) => {
                let ghost before = out@.map_values(|e: LogEntry| entry_view(e));
                out.push(e);
                assert(out@.map_values(|e: LogEntry| entry_view(e)) == before.push(entry_view(e)));
            },
            None => {},
        }
        i += 1;
    }
    assert(lv.take(ls.len() as int) == lv);
    out
}

/// Whether a repository is set up and has a remote.
pub struct RepoStatus {
    pub initialized: bool,
    pub has_remote: bool,
}

/// One changed file of a review.
pub struct DiffEntry {
    pub old_path: String,
    pub new_path: String,
    pub diff: String,
}

// ---------------------------------------------------------------------------
// Hosted backends
// ---------------------------------------------------------------------------

/// `s` with every trailing `suf` removed (std `trim_end_matches`).
pub open spec fn strip_suffixes(s: Seq<char>, suf: Seq<char>) -> Seq<char>
    decreases s.len(),
{
    if suf.len() > 0 && suf.is_suffix_of(s) {
        strip_suffixes(s.take(s.len() - suf.len()), suf)
    } else {
        s
    }
}

/// `s` with every leading `pre` removed (std `trim_start_matches`).
pub open spec fn strip_prefixes(s: Seq<char>, pre: Seq<char>) -> Seq<char>
    decreases s.len(),
{
    if pre.len() > 0 && pre.is_prefix_of(s) {
        strip_prefixes(s.skip(pre.len() as int), pre)
    } else {
        s
    }
}

/// `s` without all trailing `suf`.
pub fn trim_end_matches(s: &str, suf: &str) -> (r: String)
    ensures
        r@ == strip_suffixes(s@, suf@),
{
    let v = chars_of(s);
    let p = chars_of(suf);
    let mut k: usize = v.len();
    assert(v@.take(v.len() as int) == v@);
    while p.len() > 0 && p.len() <= k && crate::text::ends_with(
        crate::text::slice_chars(v.as_slice(), 0, k).as_slice(),
        p.as_slice(),
    )
        invariant
            k <= v.len(),
            v@ == s@,
            p@ == suf@,
            strip_suffixes(s@, suf@) == strip_suffixes(v@.take(k as int), suf@),
        decreases k,
    {
        assert(v@.take(k as int).take(k - p.len()) == v@.take(k - p.len()));
        k = k - p.len();
    }
    let t = slice_chars(v.as_slice(), 0, k);
    assert(t@ == v@.take(k as int));
    string_of(t.as_slice())
}

/// `s` without all leading `pre`.
pub fn trim_start_matches(s: &str, pre: &str) -> (r: String)
    ensures
        r@ == strip_prefixes(s@, pre@),
{
    let v = chars_of(s);
    let p = chars_of(pre);
    let mut k: usize = 0;
    assert(v@.skip(0) == v@);
    while p.len() > 0 && p.len() <= v.len() - k && crate::text::starts_with(
        crate::text::slice_chars(v.as_slice(), k, v.len()).as_slice(),
        p.as_slice(),
    )
        invariant
            k <= v.len(),
            v@ == s@,
            p@ == pre@,
            strip_prefixes(s@, pre@) == strip_prefixes(v@.skip(k as int), pre@),
        decreases v.len() - k,
    {
        assert(v@.skip(k as int).skip(p.len() as int) == v@.skip(k + p.len()));
        k = k + p.len();
    }
    let t = slice_chars(v.as_slice(), k, v.len());
    assert(t@ == v@.skip(k as int));
    string_of(t.as_slice())
}

/// `s` with every `c` replaced by `rep` (std `str::replace` with a char).
pub open spec fn replace_char(s: Seq<char>, c: char, rep: Seq<char>) -> Seq<char>
    decreases s.len(),
{
    if s.len() == 0 {
        seq![]
    } else {
        replace_char(s.drop_last(), c, rep) + if s.last() == c {
            rep
        } else {
            seq![s.last()]
        }
    }
}

/// `s` with every `c` replaced by `rep`.
pub fn replace_char_with(s: &str, c: char, rep: &str) -> (r: String)
    ensures
        r@ == replace_char(s@, c, rep@),
{
    let v = chars_of(s);
    let rv = chars_of(rep);
    let mut out: Vec<char> = Vec::new();
    let mut i: usize = 0;
    while i < v.len()
        invariant
            i <= v.len(),
            v@ == s@,
            rv@ == rep@,
            out@ == replace_char(v@.take(i as int), c, rep@),
        decreases v.len() - i,
    {
        assert(v@.take(i + 1).drop_last() == v@.take(i as int));
        if v[i] == c {
            crate::text::extend_chars(&mut out, rv.as_slice());
        } else {
            out.push(v[i]);
            assert(out@ =~= replace_char(v@.take(i as int), c, rep@) + seq![v@[i as int]]);
        }
        i += 1;
    }
    assert(v@.take(v.len() as int) == v@);
    string_of(out.as_slice())
}

/// The `owner/name` of a GitHub repository from its URL: the URL without a
/// trailing `.git`, cut after `github.com/` when it has that.
pub open spec fn github_repo_of(url: Seq<char>) -> Seq<char> {
    let u = strip_suffixes(url, ".git"@);
    if crate::text::contains(u, "github.com/"@) {
        let i = choose|i: int| occurs_at(u, "github.com/"@, i) && forall|j: int| 0 <= j < i ==> !#[trigger] occurs_at(u, "github.com/"@, j);
        u.skip(i + 11)
    } else {
        u
    }
}

/// An archive repository on GitHub, reviewed through pull requests.
pub struct GitHubBackend {
    pub git: GitService,
    pub github_token: String,
    pub github_repo: String,
}

impl GitHubBackend {
    /// A backend for the repository at `repo_url`.
    pub fn new(github_token: &str, repo_url: &str) -> (b: Self)
        ensures
            b.github_token@ == github_token@,
            b.github_repo@ == github_repo_of(repo_url@),
    {
        let github_repo = Self::extract_repo(repo_url);
        GitHubBackend { git: GitService::new(), github_token: owned(github_token), github_repo }
    }

    /// The `owner/name` part of a GitHub URL.
    pub fn extract_repo(url: &str) -> (r: String)
        ensures
            r@ == github_repo_of(url@),
    {
        let u = trim_end_matches(url, ".git");
        let v = chars_of(u.as_str());
        let key = chars_of("github.com/");
        proof {
            reveal_strlit("github.com/");
        }
        match find(v.as_slice(), key.as_slice()) {
            Some(i) => {
                proof {
                    let k = choose|k: int| occurs_at(u@, "github.com/"@, k) && forall|j: int| 0 <= j < k ==> !#[trigger] occurs_at(u@, "github.com/"@, j);
                    if k < i {
                        assert(!occurs_at(u@, "github.com/"@, k));
                    }
                    if k > i {
                        assert(!occurs_at(u@, "github.com/"@, i as int));
                    }
                }
                assert(key@.len() == 11);
                assert(occurs_at(v@, key@, i as int));
                assert(i + key@.len() <= v@.len());
                assert(i + 11 <= v.len());
                let start: usize = i + 11;
                let t = slice_chars(v.as_slice(), start, v.len());
                string_of(t.as_slice())
            },
            None => u,
        }
    }

    /// The REST address of `path` within the repository.
    pub fn api_url(&self, path: &str) -> (r: String)
        ensures
            r@ == "https://api.github.com/repos/"@ + self.github_repo@ + "/"@ + path@,
    {
        let mut r = owned("https://api.github.com/repos/");
        r.append(self.github_repo.as_str());
        r.append("/");
        r.append(path);
        r
    }
}

impl GitHubBackend {
    /// The API path of pull request `review_id`, followed by `suffix`
    /// (`/merge`, `/files`, or nothing).
    pub fn pull_path(review_id: i64, suffix: &str) -> (r: String)
        ensures
            r@ == "pulls/"@ + crate::gitlab::signed_decimal(review_id as int) + suffix@,
    {
        let mut r = owned("pulls/");
        let n = crate::gitlab::signed_decimal_string(review_id);
        r.append(n.as_str());
        r.append(suffix);
        r
    }
}

/// The error when GitHub cannot be reached.
pub fn github_unreachable(reason: &str) -> (r: RingError)
    ensures
        r matches RingError::Internal(m) && m@ == "GitHub API error: "@ + reason@,
{
    let mut m = owned("GitHub API error: ");
    m.append(reason);
    RingError::Internal(m)
}

/// The error when GitHub refuses a call (`what` names the call, such as
/// `create PR`), with the body of its answer.
pub fn github_failed(what: &str, body: &str) -> (r: RingError)
    ensures
        r matches RingError::Internal(m) && m@ == "GitHub "@ + what@ + " failed: "@ + body@,
{
    let mut m = owned("GitHub ");
    m.append(what);
    m.append(" failed: ");
    m.append(body);
    RingError::Internal(m)
}

/// The number of a pull request GitHub created, from its answer's `number`.
pub fn created_pull_number(number: Option<i64>) -> (r: Result<i64, RingError>)
    ensures
        match number {
            Some(n) => r == Ok::<i64, RingError>(n),
            None => r matches Err(RingError::Internal(m)) && m@ == "missing PR number"@,
        },
{
    match number {
        Some(n) => Ok(n),
        None => Err(RingError::Internal(owned("missing PR number"))),
    }
}

/// The GitLab project id of a repository: its path under the GitLab base
/// URL (or the whole URL when it is not under it), without a trailing
/// `.git`, with slashes encoded as `%2F`.
pub open spec fn gitlab_project_id_of(gitlab_url: Seq<char>, repo_url: Seq<char>) -> Seq<char> {
    let repo = strip_suffixes(repo_url, ".git"@);
    let base = strip_suffixes(gitlab_url, "/"@);
    let path = if base.is_prefix_of(repo) {
        strip_prefixes(repo.skip(base.len() as int), "/"@)
    } else {
        repo
    };
    replace_char(path, '/', "%2F"@)
}

/// An archive repository on GitLab, reviewed through merge requests.
pub struct GitLabBackend {
    pub git: GitService,
    pub gitlab_url: String,
    pub gitlab_token: String,
    pub project_id: String,
}

impl GitLabBackend {
    /// A backend for the repository at `repo_url` on the GitLab at
    /// `gitlab_url`.
    pub fn new(gitlab_url: &str, gitlab_token: &str, repo_url: &str) -> (b: Self)
        ensures
            b.gitlab_url@ == strip_suffixes(gitlab_url@, "/"@),
            b.gitlab_token@ == gitlab_token@,
            b.project_id@ == gitlab_project_id_of(gitlab_url@, repo_url@),
    {
        let project_id = Self::extract_project_id(gitlab_url, repo_url);
        GitLabBackend {
            git: GitService::new(),
            gitlab_url: trim_end_matches(gitlab_url, "/"),
            gitlab_token: owned(gitlab_token),
            project_id,
        }
    }

    /// The project id of `repo_url` on the GitLab at `gitlab_url`.
    pub fn extract_project_id(gitlab_url: &str, repo_url: &str) -> (r: String)
        ensures
            r@ == gitlab_project_id_of(gitlab_url@, repo_url@),
    {
        let repo = trim_end_matches(repo_url, ".git");
        let base = trim_end_matches(gitlab_url, "/");
        let rv = chars_of(repo.as_str());
        let bv = chars_of(base.as_str());
        let path = if crate::text::starts_with(rv.as_slice(), bv.as_slice()) {
            let rest = slice_chars(rv.as_slice(), bv.len(), rv.len());
            let rs = string_of(rest.as_slice());
            trim_start_matches(rs.as_str(), "/")
        } else {
            repo
        };
        replace_char_with(path.as_str(), '/', "%2F")
    }

    /// The REST address of `path` within the project.
    pub fn api_url(&self, path: &str) -> (r: String)
        ensures
            r@ == self.gitlab_url@ + "/api/v4/projects/"@ + self.project_id@ + "/"@ + path@,
    {
        let mut r = self.gitlab_url.clone();
        r.append("/api/v4/projects/");
        r.append(self.project_id.as_str());
        r.append("/");
        r.append(path);
        r
    }
}

/// Where a ring's archive repository lives and how its reviews are opened,
/// merged and rejected. Each backend runs git and its host's API itself.
pub trait StorageBackend {
    fn init_repo(&self, rings_dir: &str, ring_id: &str, remote_url: Option<&str>) -> Result<String, RingError>;

    fn pull(&self, repo_path: &str) -> Result<(), RingError>;

    fn add_all(&self, repo_path: &str) -> Result<(), RingError>;

    fn commit(&self, repo_path: &str, msg: &str) -> Result<String, RingError>;

    fn push_main(&self, repo_path: &str) -> Result<(), RingError>;

    fn create_branch(&self, repo_path: &str, name: &str) -> Result<(), RingError>;

    fn checkout(&self, repo_path: &str, branch: &str) -> Result<(), RingError>;

    fn push_branch(&self, repo_path: &str, branch: &str) -> Result<(), RingError>;

    fn has_remote(&self, repo_path: &str) -> bool;

    fn repo_status(&self, repo_path: &str) -> RepoStatus;

    fn create_review(
        &self,
        repo_path: &str,
        ring_id: &str,
        record_id: &str,
        branch: &str,
        title: &str,
        description: &str,
    ) -> Result<i64, RingError>;

    fn merge_review(&self, repo_path: &str, ring_id: &str, review_id: i64) -> Result<(), RingError>;

    fn reject_review(&self, repo_path: &str, ring_id: &str, review_id: i64) -> Result<(), RingError>;

    fn get_review_diffs(&self, repo_path: &str, ring_id: &str, review_id: i64) -> Result<Vec<DiffEntry>, RingError>;
}

/// The archive backend of a ring.
pub enum Backend {
    /// Archives stay in the local repository.
    Local,
    /// Archives are reviewed on GitLab.
    GitLab(GitLabBackend),
}

/// A stored credential as it can be used: decrypted when it decrypts,
/// otherwise as it was stored.
pub fn usable_credential(enc: &CredentialEncryption, stored: Option<String>) -> (r: Option<String>)
    requires
        enc.key_bytes().len() <= usize::MAX / 2,
        stored matches Some(t) ==> vstd::utf8::encode_utf8(t@).len() <= usize::MAX / 2,
    ensures
        match stored {
            None => r is None,
            Some(t) => r matches Some(u) && u@ == match decryption_of(enc.key_bytes(), t@) {
                Some(p) => p,
                None => t@,
            },
        },
{
    match stored {
        None => None,
        Some(t) => {
            match enc.decrypt(t.as_str()) {
                Some(p) => Some(p),
                None => Some(t),
            }
        },
    }
}

/// The backend of a ring: GitLab when the ring's storage mode is `gitlab`
/// and its creator has both a GitLab URL and a token, local otherwise.
pub fn get_backend(storage_mode: &str, gitlab_url: Option<&str>, gitlab_token: Option<&str>, repo_url: &str) -> (r: Backend)
    ensures
        (storage_mode@ == "gitlab"@ && gitlab_url is Some && gitlab_token is Some) ==> (r matches Backend::GitLab(b)
            && b.gitlab_url@ == strip_suffixes(gitlab_url->0@, "/"@) && b.gitlab_token@ == gitlab_token->0@
            && b.project_id@ == gitlab_project_id_of(gitlab_url->0@, repo_url@)),
        !(storage_mode@ == "gitlab"@ && gitlab_url is Some && gitlab_token is Some) ==> r is Local,
{
    if !crate::text::str_eq(storage_mode, "gitlab") {
        return Backend::Local;
    }
    match (gitlab_url, gitlab_token) {
        (Some(u), Some(t)) => Backend::GitLab(GitLabBackend::new(u, t, repo_url)),
        _ => Backend::Local,
    }
}

/// The branch of a review kept in the local repository, when the review is
/// still open.
pub fn open_review_branch(found: Option<String>) -> (r: Result<String, RingError>)
    ensures
        match found {
            Some(b) => r == Ok::<String, RingError>(b),
            None => r matches Err(RingError::NotFound(m)) && m@ == "review not found"@,
        },
{
    match found {
        Some(b) => Ok(b),
        None => Err(RingError::NotFound(owned("review not found"))),
    }
}

/// The changes of a local review: one entry for its branch, with the diff
/// against main.
pub fn local_review_diffs(branch: String, diff: String) -> (r: Vec<DiffEntry>)
    ensures
        r@.len() == 1,
        r@[0].old_path@.len() == 0,
        r@[0].new_path == branch,
        r@[0].diff == diff,
{
    let mut r: Vec<DiffEntry> = Vec::new();
    r.push(DiffEntry { old_path: String::new(), new_path: branch, diff });
    r
}

} // verus!
