use ring_core::git_service::{created_pull_number, github_failed, github_unreachable};
use ring_core::git_service::{get_backend, Backend};
use ring_core::encryption::CredentialEncryption;
use ring_core::git_service::usable_credential;
use ring_core::error::RingError;
use ring_core::git_service::{
    git_outcome, parse_log, replace_char_with, trim_end_matches, trim_start_matches,
    GitHubBackend, GitLabBackend, GitService,
};

fn args(c: &ring_core::git_service::GitCommand) -> Vec<&str> {
    c.args.iter().map(|a| a.as_str()).collect()
}

#[test]
fn command_arguments() {
    let g = GitService::new();
    assert_eq!(args(&g.init()), vec!["init"]);
    assert_eq!(args(&GitService::clone("https://x/r.git", "/p")), vec!["clone", "https://x/r.git", "/p"]);
    assert_eq!(args(&g.pull()), vec!["pull", "--rebase"]);
    assert_eq!(args(&g.add_all()), vec!["add", "."]);
    let c = g.commit("msg");
    assert_eq!(args(&c[0]), vec!["commit", "-m", "msg"]);
    assert_eq!(args(&c[1]), vec!["rev-parse", "HEAD"]);
    assert_eq!(args(&g.push("origin", "main")), vec!["push", "origin", "main"]);
    assert_eq!(args(&g.create_branch("b")), vec!["checkout", "-b", "b"]);
    assert_eq!(args(&g.checkout("main")), vec!["checkout", "main"]);
    assert_eq!(args(&g.log(20)), vec!["log", "--pretty=format:%H|%s|%an|%ai", "-n", "20"]);
    assert_eq!(args(&g.list_remotes()), vec!["remote"]);
}

#[test]
fn remotes() {
    let g = GitService::new();
    assert!(g.has_remote(Some("origin")));
    assert!(!g.has_remote(Some("")));
    assert!(!g.has_remote(None));
    assert_eq!(
        args(&g.set_remote("origin", "u", Some("upstream\norigin"))),
        vec!["remote", "set-url", "origin", "u"]
    );
    assert_eq!(
        args(&g.set_remote("origin", "u", Some("origin2"))),
        vec!["remote", "add", "origin", "u"]
    );
    assert_eq!(args(&g.set_remote("origin", "u", None)), vec!["remote", "add", "origin", "u"]);
}

#[test]
fn command_outcomes() {
    let g = GitService::new();
    let cmd = g.push("origin", "main");
    assert_eq!(git_outcome(&cmd, true, b"  done\n", b""), Ok("done".to_string()));
    assert_eq!(
        git_outcome(&cmd, false, b"", b"fatal: no"),
        Err(RingError::GitCommandFailed {
            cmd: "push origin main".to_string(),
            stderr: "fatal: no".to_string()
        })
    );
}

#[test]
fn log_lines_are_parsed() {
    let out = "abc|Fix bug|Ann|2024-01-01 10:00:00 +0000\nbroken line\ndef|a|b|c|d";
    let entries = parse_log(out);
    assert_eq!(entries.len(), 2);
    assert_eq!(entries[0].sha, "abc");
    assert_eq!(entries[0].subject, "Fix bug");
    assert_eq!(entries[0].author, "Ann");
    assert_eq!(entries[0].date, "2024-01-01 10:00:00 +0000");
    assert_eq!(entries[1].sha, "def");
    assert_eq!(entries[1].date, "c|d");
}

#[test]
fn string_helpers() {
    assert_eq!(trim_end_matches("repo.git.git", ".git"), "repo");
    assert_eq!(trim_end_matches("repo", ""), "repo");
    assert_eq!(trim_start_matches("//a/b", "/"), "a/b");
    assert_eq!(replace_char_with("a/b/c", '/', "%2F"), "a%2Fb%2Fc");
}

#[test]
fn github_backend() {
    let b = GitHubBackend::new("tok", "https://github.com/acme/notes.git");
    assert_eq!(b.github_repo, "acme/notes");
    assert_eq!(b.api_url("pulls"), "https://api.github.com/repos/acme/notes/pulls");
    assert_eq!(GitHubBackend::extract_repo("git@host:x/y"), "git@host:x/y");
}

#[test]
fn gitlab_backend() {
    let b = GitLabBackend::new("https://gitlab.example.com/", "tok", "https://gitlab.example.com/team/notes.git");
    assert_eq!(b.gitlab_url, "https://gitlab.example.com");
    assert_eq!(b.project_id, "team%2Fnotes");
    assert_eq!(
        b.api_url("merge_requests"),
        "https://gitlab.example.com/api/v4/projects/team%2Fnotes/merge_requests"
    );
    assert_eq!(
        GitLabBackend::extract_project_id("https://gl.io", "https://other.io/a/b"),
        "https:%2F%2Fother.io%2Fa%2Fb"
    );
}

#[test]
fn review_commands_and_local_reviews() {
    let g = GitService::new();
    assert_eq!(args(&g.merge("archive/r1")), vec!["merge", "archive/r1"]);
    assert_eq!(args(&g.diff_from_main("archive/r1")), vec!["diff", "main...", "archive/r1"]);
    assert_eq!(
        ring_core::git_service::open_review_branch(None),
        Err(RingError::NotFound("review not found".to_string()))
    );
    assert_eq!(
        ring_core::git_service::open_review_branch(Some("b".to_string())),
        Ok("b".to_string())
    );
    let d = ring_core::git_service::local_review_diffs("b".to_string(), "+x".to_string());
    assert_eq!(d.len(), 1);
    assert_eq!(d[0].old_path, "");
    assert_eq!(d[0].new_path, "b");
    assert_eq!(d[0].diff, "+x");
}

#[test]
fn backend_choice() {
    assert!(matches!(get_backend("local", Some("https://gl"), Some("t"), "r"), Backend::Local));
    assert!(matches!(get_backend("gitlab", None, Some("t"), "r"), Backend::Local));
    assert!(matches!(get_backend("gitlab", Some("https://gl"), None, "r"), Backend::Local));
    match get_backend("gitlab", Some("https://gl.io/"), Some("tok"), "https://gl.io/a/b.git") {
        Backend::GitLab(b) => {
            assert_eq!(b.gitlab_url, "https://gl.io");
            assert_eq!(b.gitlab_token, "tok");
            assert_eq!(b.project_id, "a%2Fb");
        }
        Backend::Local => panic!("expected GitLab"),
    }
}

#[test]
fn stored_credentials_are_decrypted_when_possible() {
    let enc = CredentialEncryption::with_key(vec![4u8; 32]);
    let sealed = enc.encrypt("glpat-1");
    assert_eq!(usable_credential(&enc, Some(sealed)), Some("glpat-1".to_string()));
    assert_eq!(usable_credential(&enc, Some("plain".to_string())), Some("plain".to_string()));
    assert_eq!(usable_credential(&enc, None), None);
}

#[test]
fn github_calls() {
    assert_eq!(GitHubBackend::pull_path(12, "/merge"), "pulls/12/merge");
    assert_eq!(GitHubBackend::pull_path(3, ""), "pulls/3");
    assert_eq!(
        github_failed("create PR", "boom"),
        RingError::Internal("GitHub create PR failed: boom".to_string())
    );
    assert_eq!(
        github_unreachable("timeout"),
        RingError::Internal("GitHub API error: timeout".to_string())
    );
    assert_eq!(created_pull_number(Some(4)), Ok(4));
    assert_eq!(
        created_pull_number(None),
        Err(RingError::Internal("missing PR number".to_string()))
    );
}
