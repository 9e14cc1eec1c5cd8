use liberado_actual_mcp::actual::{
    check_response, find_budget_file, is_sqlite, judge_login, tls_insecure, ActualClient,
    SQLITE_MAGIC,
};
use liberado_actual_mcp::json::Json;
use liberado_actual_mcp::models::{ApiResponse, LoginData, UserFile};

fn make_files(ids: &[(&str, &str, bool)]) -> Vec<UserFile> {
    ids.iter()
        .map(|(id, name, deleted)| UserFile {
            file_id: id.to_string(),
            name: name.to_string(),
            deleted: *deleted,
            encrypt_key_id: None,
        })
        .collect()
}

#[test]
fn find_by_file_id() {
    let files = make_files(&[("abc", "Budget A", false), ("def", "Budget B", false)]);
    let f = find_budget_file(&files, Some("abc")).unwrap();
    assert_eq!(f.file_id, "abc");
}

#[test]
fn find_by_name() {
    let files = make_files(&[("abc", "My Budget", false)]);
    let f = find_budget_file(&files, Some("My Budget")).unwrap();
    assert_eq!(f.name, "My Budget");
}

#[test]
fn find_first_when_no_id_given() {
    let files = make_files(&[("first", "First", false), ("second", "Second", false)]);
    let f = find_budget_file(&files, None).unwrap();
    assert_eq!(f.file_id, "first");
}

#[test]
fn returns_none_on_empty_list() {
    let files: Vec<UserFile> = vec![];
    assert!(find_budget_file(&files, None).is_none());
}

#[test]
fn the_first_of_several_is_found() {
    let files = make_files(&[("a", "x", false), ("b", "y", false), ("y", "b", false)]);
    assert_eq!(find_budget_file(&files, Some("y")).unwrap().file_id, "b");
    assert!(find_budget_file(&files, Some("z")).is_none());
}

#[test]
fn sqlite_magic_matches_real_header() {
    let header = b"SQLite format 3\x00some more bytes";
    assert!(header.starts_with(&SQLITE_MAGIC));
    assert!(is_sqlite(header));
}

#[test]
fn sqlite_magic_rejects_encrypted() {
    let encrypted = b"\xde\xad\xbe\xef\x00\x01\x02\x03other bytes";
    assert!(!encrypted.starts_with(&SQLITE_MAGIC));
    assert!(!is_sqlite(encrypted));
}

#[test]
fn a_header_that_is_cut_off_is_no_header() {
    assert!(!is_sqlite(b"SQLite format 3"));
    assert!(is_sqlite(b"SQLite format 3\x00"));
    assert!(!is_sqlite(b""));
}

#[test]
fn new_trims_trailing_slash() {
    let client = ActualClient::new("http://localhost:5006/".to_string());
    assert_eq!(client.server_url, "http://localhost:5006");
}

#[test]
fn new_trims_multiple_trailing_slashes() {
    let client = ActualClient::new("http://localhost:5006///".to_string());
    assert_eq!(client.server_url, "http://localhost:5006");
}

fn reply(status: &str, token: Option<&str>) -> ApiResponse<LoginData> {
    ApiResponse {
        status: status.to_string(),
        data: token.map(|t| LoginData { token: t.to_string() }),
    }
}

#[test]
fn replies_are_checked() {
    assert_eq!(check_response(reply("ok", Some("T")), "login").unwrap().token, "T");
    assert_eq!(
        check_response(reply("error", Some("T")), "login").unwrap_err(),
        "login: server returned status 'error'"
    );
    assert_eq!(
        check_response(reply("ok", None), "login").unwrap_err(),
        "login: response data was null"
    );
}

#[test]
fn login_asks_with_the_password() {
    let client = ActualClient::new("http://h".to_string());
    let request = client.login("secret");
    assert_eq!(request.url, "http://h/account/login");
    assert!(request.token.is_none() && request.file_id.is_none());
    assert_eq!(request.body.unwrap().str_field("password"), Some("secret"));
}

#[test]
fn a_failed_login_names_the_reason() {
    let r = ActualClient::finish_login(
        "400 Bad Request",
        "{\"status\":\"error\",\"reason\":\"invalid-password\"}",
        Ok(reply("error", None)),
    );
    assert_eq!(
        r.unwrap_err(),
        "login rejected by the Actual server: invalid-password (HTTP 400 Bad Request). \
         Check ACTUAL_PASSWORD."
    );
}

#[test]
fn a_login_without_a_reason_is_judged_by_its_envelope() {
    let body = "{\"status\":\"ok\",\"data\":{\"token\":\"T\"}}";
    assert_eq!(
        ActualClient::finish_login("200 OK", body, Ok(reply("ok", Some("T")))).unwrap(),
        "T"
    );
    assert_eq!(
        ActualClient::finish_login("200 OK", "<html>", Err("expected value".to_string()))
            .unwrap_err(),
        "login failed: HTTP 200 OK, unparseable response (expected value): <html>"
    );
    assert_eq!(
        judge_login(None, "200 OK", "{}", Ok(reply("error", None))).unwrap_err(),
        "login: server returned status 'error'"
    );
    assert!(judge_login(Some("why"), "400", "{}", Ok(reply("ok", Some("T")))).is_err());
}

#[test]
fn deleted_files_are_left_out() {
    let files = make_files(&[("a", "A", true), ("b", "B", false), ("c", "C", true), ("d", "D", false)]);
    let listed = ActualClient::finish_list_files(ApiResponse {
        status: "ok".to_string(),
        data: Some(files),
    })
    .unwrap();
    let ids: Vec<&str> = listed.iter().map(|f| f.file_id.as_str()).collect();
    assert_eq!(ids, vec!["b", "d"]);
    let failed = ActualClient::finish_list_files(ApiResponse {
        status: "error".to_string(),
        data: None,
    });
    assert_eq!(failed.unwrap_err(), "list files: server returned status 'error'");
}

#[test]
fn files_are_asked_for_with_the_token() {
    let client = ActualClient::new("http://h/".to_string());
    let list = client.list_files("T");
    assert_eq!(list.url, "http://h/sync/list-user-files");
    assert_eq!(list.token.as_deref(), Some("T"));
    assert!(list.body.is_none());
    let download = client.download_file("T", "F");
    assert_eq!(download.url, "http://h/sync/download-user-file");
    assert_eq!(download.file_id.as_deref(), Some("F"));
    assert!(matches!(client.login("p").body, Some(Json::Object(_))));
}

#[test]
fn insecure_tls_is_off_unless_it_is_asked_for() {
    for on in ["1", "true", " YES ", "True"] {
        assert!(tls_insecure(Some(on)), "{on}");
    }
    for off in ["", "0", "no", "on", "truee"] {
        assert!(!tls_insecure(Some(off)), "{off}");
    }
    assert!(!tls_insecure(None));
}
