use ring_core::error::RingError;
use ring_core::gitlab::{
    check_status, connection_failed, parse_failed, project_id_from_url, signed_decimal_string,
    GitLabCall, GitLabClient,
};

fn s(x: &str) -> String {
    x.to_string()
}

#[test]
fn project_ids() {
    assert_eq!(
        project_id_from_url("https://gitlab.example.com/team/notes.git"),
        Some(s("team%2Fnotes"))
    );
    assert_eq!(project_id_from_url("gitlab.example.com/a/b"), Some(s("a%2Fb")));
    assert_eq!(project_id_from_url("https://gl.io/grp/sub/proj"), Some(s("grp%2Fsub%2Fproj")));
}

#[test]
fn client_addresses() {
    let c = GitLabClient::new("https://gl.io//", "tok");
    assert_eq!(c.base_url, "https://gl.io");
    assert_eq!(c.token, "tok");
    assert_eq!(c.user_url(), "https://gl.io/api/v4/user");
    assert_eq!(c.merge_requests_url("a%2Fb"), "https://gl.io/api/v4/projects/a%2Fb/merge_requests");
    assert_eq!(
        c.merge_request_url("a%2Fb", 12, "/merge"),
        "https://gl.io/api/v4/projects/a%2Fb/merge_requests/12/merge"
    );
}

#[test]
fn transport_errors() {
    assert_eq!(
        connection_failed("refused"),
        RingError::GitlabApiError { status: 0, message: s("connection failed: refused") }
    );
    assert_eq!(
        parse_failed("eof"),
        RingError::GitlabApiError { status: 0, message: s("parse error: eof") }
    );
}

#[test]
fn statuses() {
    assert_eq!(check_status(GitLabCall::Plain, 200, ""), Ok(()));
    assert_eq!(check_status(GitLabCall::Plain, 204, ""), Ok(()));
    assert_eq!(
        check_status(GitLabCall::Plain, 404, "not here"),
        Err(RingError::GitlabApiError { status: 404, message: s("not here") })
    );
    assert_eq!(
        check_status(GitLabCall::CreateMergeRequest, 409, "exists"),
        Err(RingError::GitlabApiError { status: 409, message: s("conflict: exists") })
    );
    assert_eq!(
        check_status(GitLabCall::Merge { iid: 7 }, 405, ""),
        Err(RingError::ArchiveConflict { record_id: s("mr-7") })
    );
    assert_eq!(
        check_status(GitLabCall::Plain, 409, "x"),
        Err(RingError::GitlabApiError { status: 409, message: s("x") })
    );
}

#[test]
fn signed_numbers() {
    assert_eq!(signed_decimal_string(0), "0");
    assert_eq!(signed_decimal_string(-42), "-42");
    assert_eq!(signed_decimal_string(i64::MIN), "-9223372036854775808");
}

#[test]
fn project_ids_percent_encode_the_url_path() {
    // The URL parser already percent-encodes the path; the `%` signs are
    // encoded again, and the unreserved characters kept.
    assert_eq!(
        project_id_from_url("https://gitlab.example.com/团队/a_b-c.d~e"),
        Some(s("%25E5%259B%25A2%25E9%2598%259F%2Fa_b-c.d~e"))
    );
}
