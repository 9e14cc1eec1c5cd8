use liberado_actual_mcp::budget_api::{Answer, Step};
use liberado_actual_mcp::json::Json;
use liberado_actual_mcp::models::{ApiResponse, LoginData, UserFile};
use liberado_actual_mcp::server::{
    bind_address, budget_api_error, finish, missing_id, origin_policy, ActualServer, BudgetSource,
    Finished, Found, Header, LoadStep, LoginReply, Query, Settings, Shape, Stored, ToolError,
};
use liberado_actual_mcp::tables::{AccountRow, Budget, TransactionRow};

fn settings<'a>() -> Settings<'a> {
    Settings {
        db_path: None,
        server_url: None,
        has_password: false,
        budget_id: None,
        budget_api_url: None,
    }
}

fn client(server: &ActualServer) -> &liberado_actual_mcp::actual::ActualClient {
    match &server.source {
        BudgetSource::Server { client, .. } => client,
        BudgetSource::Local(_) => panic!("a file"),
    }
}

fn message(step: LoadStep) -> String {
    match step {
        LoadStep::Fail { message } => message,
        _ => panic!("no failure"),
    }
}

#[test]
fn a_file_goes_before_a_server() {
    let server = ActualServer::new(Settings {
        db_path: Some("/b.sqlite"),
        server_url: Some("http://h"),
        ..settings()
    })
    .ok()
    .unwrap();
    assert!(matches!(&server.source, BudgetSource::Local(p) if p == "/b.sqlite"));
    assert!(server.budget_api.is_none());
    assert!(matches!(server.db_cache(), LoadStep::Look { path } if path == "/b.sqlite"));
}

#[test]
fn a_server_needs_a_password() {
    let given = Settings { server_url: Some("http://h/"), ..settings() };
    assert_eq!(
        ActualServer::new(given).err().unwrap(),
        "ACTUAL_PASSWORD must be set when using ACTUAL_SERVER_URL"
    );
    assert_eq!(
        ActualServer::new(settings()).err().unwrap(),
        "Set either ACTUAL_DB_PATH (local SQLite) or ACTUAL_SERVER_URL + ACTUAL_PASSWORD"
    );
    let server = ActualServer::new(Settings {
        server_url: Some("http://h/"),
        has_password: true,
        budget_id: Some("b"),
        budget_api_url: Some("http://api/"),
        ..settings()
    })
    .ok()
    .unwrap();
    assert_eq!(client(&server).server_url, "http://h");
    assert_eq!(server.budget_api.as_ref().unwrap().base, "http://api");
    assert!(matches!(server.db_cache(), LoadStep::LogIn));
}

#[test]
fn only_a_budget_that_was_loaded_is_kept() {
    let server = ActualServer::new(Settings { db_path: Some("/b"), ..settings() }).ok().unwrap();
    assert!(matches!(server.serve(None), LoadStep::Look { path } if path == "/b"));
    let ready = ActualServer::after_store(Stored::At("/t".to_string()));
    let kept = ActualServer::keep(&ready);
    assert_eq!(kept.as_deref(), Some("/t"));
    assert!(matches!(server.serve(kept), LoadStep::Ready { path } if path == "/t"));
    let failed = ActualServer::after_store(Stored::NoFile("full".to_string()));
    assert!(ActualServer::keep(&failed).is_none());
    assert!(matches!(server.serve(ActualServer::keep(&failed)), LoadStep::Look { .. }));
    assert!(ActualServer::keep(&LoadStep::LogIn).is_none());
}

#[test]
fn a_local_budget_is_checked() {
    let p = || "/x".to_string();
    assert!(matches!(ActualServer::after_look(p(), true), LoadStep::ReadHeader { .. }));
    assert_eq!(message(ActualServer::after_look(p(), false)), "ACTUAL_DB_PATH not found: /x");
    let good = Header::Bytes(b"SQLite format 3\x00".to_vec());
    assert!(matches!(ActualServer::after_header(p(), good), LoadStep::Ready { path } if path == "/x"));
    assert!(message(ActualServer::after_header(p(), Header::Bytes(vec![0; 16])))
        .starts_with("/x is not a SQLite file."));
    assert_eq!(
        message(ActualServer::after_header(p(), Header::CannotOpen("e".to_string()))),
        "Cannot open /x: e"
    );
    assert_eq!(
        message(ActualServer::after_header(p(), Header::CannotRead("e".to_string()))),
        "Cannot read /x: e"
    );
}

fn file(id: &str, deleted: bool, key: Option<&str>) -> UserFile {
    UserFile {
        file_id: id.to_string(),
        name: format!("name of {id}"),
        deleted,
        encrypt_key_id: key.map(str::to_string),
    }
}

fn listed(files: Vec<UserFile>) -> Result<ApiResponse<Vec<UserFile>>, String> {
    Ok(ApiResponse { status: "ok".to_string(), data: Some(files) })
}

#[test]
fn a_budget_is_downloaded_from_a_server() {
    let server = ActualServer::new(Settings {
        server_url: Some("http://h"),
        has_password: true,
        ..settings()
    })
    .ok()
    .unwrap();
    let c = client(&server);
    let reply = LoginReply::Reply {
        status: "200 OK".to_string(),
        body: "{\"status\":\"ok\",\"data\":{\"token\":\"T\"}}".to_string(),
        parsed: Ok(ApiResponse {
            status: "ok".to_string(),
            data: Some(LoginData { token: "T".to_string() }),
        }),
    };
    let token = match ActualServer::after_login(c, reply) {
        LoadStep::ListFiles { request, token } => {
            assert_eq!(request.url, "http://h/sync/list-user-files");
            token
        }
        _ => panic!("no list"),
    };
    assert_eq!(token, "T");
    assert_eq!(
        message(ActualServer::after_login(c, LoginReply::Failed("down".to_string()))),
        "Login failed: down"
    );
    let files = || vec![file("gone", true, None), file("a", false, None), file("b", false, Some("k"))];
    match ActualServer::after_files(c, "T", None, listed(files())) {
        LoadStep::Download { request } => assert_eq!(request.file_id.as_deref(), Some("a")),
        _ => panic!("no download"),
    }
    assert!(message(ActualServer::after_files(c, "T", Some("name of b"), listed(files())))
        .starts_with("This budget is encrypted."));
    assert!(message(ActualServer::after_files(c, "T", Some("gone"), listed(files())))
        .starts_with("No budget file found on server."));
    assert_eq!(
        message(ActualServer::after_files(c, "T", None, Err("down".to_string()))),
        "Failed to list files: down"
    );
    let bytes = b"SQLite format 3\x00...".to_vec();
    assert!(matches!(ActualServer::after_download(Ok(bytes.clone())), LoadStep::Store { bytes: b } if b == bytes));
    assert!(message(ActualServer::after_download(Ok(vec![1, 2])))
        .starts_with("Downloaded budget is not a plain SQLite file."));
    assert_eq!(
        message(ActualServer::after_download(Err("e".to_string()))),
        "Download failed: e"
    );
    assert!(matches!(ActualServer::after_store(Stored::At("/t".to_string())), LoadStep::Ready { path } if path == "/t"));
    assert_eq!(
        message(ActualServer::after_store(Stored::NoFile("e".to_string()))),
        "Temp file error: e"
    );
    assert_eq!(
        message(ActualServer::after_store(Stored::NotWritten("e".to_string()))),
        "Write error: e"
    );
}

fn invalid(e: ToolError) -> String {
    match e {
        ToolError::InvalidParams(m) => m,
        _ => panic!("another error"),
    }
}

#[test]
fn arguments_are_read() {
    let q = ActualServer::get_transactions(
        Some("a"), Some("2024-01-01"), None, Some(99999), None, Some(5), None, None, None,
    );
    match q {
        Ok(Query::Transactions { filter, limit }) => {
            assert_eq!(limit, 2000);
            assert_eq!(filter.scope.start_date, Some(20240101));
            assert_eq!(filter.scope.end_date, None);
            assert_eq!(filter.max_amount, Some(5));
        }
        _ => panic!("no question"),
    }
    assert!(matches!(
        ActualServer::uncategorized_transactions(None, None, None, None),
        Ok(Query::Uncategorized { limit: 200, .. })
    ));
    assert!(matches!(
        ActualServer::transactions_by_category("x", None, None, None, Some(-3)),
        Ok(Query::ByCategory { limit: 1, .. })
    ));
    assert!(matches!(
        ActualServer::get_budget_month("2024-12"),
        Ok(Query::BudgetMonth { start: 20241201, end: 20250101, .. })
    ));
    assert!(matches!(
        ActualServer::monthly_summary("2024-01", "2024-02"),
        Ok(Query::MonthlySummary { start: 20240101, end: 20240301 })
    ));
    assert!(matches!(
        ActualServer::balance_history(None, "2024-01", "2024-02"),
        Ok(Query::BalanceHistory { start: 202401, end: 202402, .. })
    ));
    assert!(matches!(
        ActualServer::spending_by_payee("2024-01-01", "2024-01-31"),
        Ok(Query::SpendingByPayee { start: 20240101, end: 20240131 })
    ));
}

#[test]
fn arguments_that_are_wrong_are_told() {
    let e = ActualServer::uncategorized_transactions(None, Some("x"), Some("y"), None);
    assert_eq!(invalid(e.err().unwrap()), "Invalid start_date 'x'; expected YYYY-MM-DD");
    let e = ActualServer::transactions_by_category("r", None, None, Some("y"), None);
    assert_eq!(invalid(e.err().unwrap()), "Invalid end_date 'y'; expected YYYY-MM-DD");
    let e = ActualServer::spending_by_category("2024-01-01", "2024");
    assert_eq!(invalid(e.err().unwrap()), "Invalid end_date '2024'; expected YYYY-MM-DD");
    let e = ActualServer::get_budget_month("2024");
    assert_eq!(invalid(e.err().unwrap()), "Invalid month '2024'; expected YYYY-MM");
    let e = ActualServer::monthly_summary("x", "y");
    assert_eq!(invalid(e.err().unwrap()), "Invalid start_month 'x'; expected YYYY-MM");
    let e = ActualServer::balance_history(None, "2024-01", "y");
    assert_eq!(invalid(e.err().unwrap()), "Invalid end_month 'y'; expected YYYY-MM");
}

fn small_budget() -> Budget {
    Budget {
        accounts: vec![AccountRow {
            id: Some("a".to_string()),
            name: Some("Main".to_string()),
            account_type: None,
            offbudget: Some(0),
            closed: Some(0),
            tombstone: Some(0),
            sort_order: None,
        }],
        category_groups: vec![],
        categories: vec![],
        payees: vec![],
        payee_mapping: vec![],
        transactions: vec![TransactionRow {
            id: Some("t".to_string()),
            acct: Some("a".to_string()),
            date: Some(20240102),
            amount: Some(-150),
            description: None,
            notes: None,
            category: None,
            cleared: None,
            reconciled: None,
            tombstone: Some(0),
            is_child: None,
            is_parent: None,
        }],
        zero_budgets: vec![],
        reflect_budgets: vec![],
        rules: vec![],
    }
}

#[test]
fn questions_are_answered() {
    let mut b = small_budget();
    assert!(matches!(Query::NetWorth.run(&b), Ok(Found::Text(t)) if t == "Net worth (on-budget accounts): -$1.50"));
    assert!(matches!(Query::Accounts.run(&b), Ok(Found::Accounts(v)) if v.len() == 1));
    assert!(matches!(Query::Categories.run(&b), Ok(Found::Categories(v)) if v.is_empty()));
    assert!(matches!(Query::Payees.run(&b), Ok(Found::Payees(v)) if v.is_empty()));
    assert!(matches!(Query::Rules.run(&b), Ok(Found::Rules(v)) if v.is_empty()));
    let q = ActualServer::get_transactions(None, None, None, None, None, None, None, None, None);
    assert!(matches!(q.ok().unwrap().run(&b), Ok(Found::Transactions(v)) if v.len() == 1));
    let q = ActualServer::monthly_summary("2024-01", "2024-01").ok().unwrap();
    assert!(matches!(q.run(&b), Ok(Found::Months(v)) if v[0].expenses_cents == -150));
    let q = ActualServer::spending_by_category("2024-01-01", "2024-01-31").ok().unwrap();
    assert!(matches!(q.run(&b), Ok(Found::CategorySpending(v)) if v[0].category_name == "Uncategorized"));
    let q = ActualServer::spending_by_payee("2024-01-01", "2024-01-31").ok().unwrap();
    assert!(matches!(q.run(&b), Ok(Found::PayeeSpending(v)) if v[0].payee_name == "No Payee"));
    let q = ActualServer::balance_history(None, "2024-01", "2024-01").ok().unwrap();
    assert!(matches!(q.run(&b), Ok(Found::Balances(v)) if v[0].balance_cents == -150));
    let q = ActualServer::get_budget_month("2024-01").ok().unwrap();
    assert!(matches!(q.run(&b), Ok(Found::BudgetMonth(m)) if m.categories.is_empty()));
    b.accounts[0].name = None;
    assert!(matches!(
        Query::Accounts.run(&b),
        Err(ToolError::Internal(m)) if m == "Database error: Invalid column type Null at index: 1, name: name"
    ));
    b.transactions[0].amount = Some(i64::MIN);
    b.accounts.push(AccountRow { ..small_budget().accounts.remove(0) });
    assert!(matches!(
        Query::NetWorth.run(&b),
        Err(ToolError::Internal(m)) if m == "Database error: integer overflow"
    ));
    assert_eq!(ActualServer::refreshed("/x"), "Budget loaded from: /x");
}

#[test]
fn errors_of_the_api_are_told_apart() {
    let e = |t: &str| budget_api_error(t.to_string());
    assert!(matches!(e("budget API 401 Unauthorized: x"), ToolError::PermissionDenied(_)));
    assert!(matches!(e("budget API 403 Forbidden: x"), ToolError::PermissionDenied(_)));
    assert!(matches!(e("budget API 404 Not Found: x"), ToolError::InvalidParams(_)));
    assert!(matches!(e("unknown category 'x'"), ToolError::InvalidParams(_)));
    assert!(matches!(e("budget API 500 Oops: x"), ToolError::Internal(_)));
    assert!(matches!(e("budget API request failed: x"), ToolError::Internal(_)));
}

fn api_server() -> ActualServer {
    ActualServer::new(Settings {
        db_path: Some("/x"),
        budget_api_url: Some("http://api"),
        ..settings()
    })
    .ok()
    .unwrap()
}

#[test]
fn tools_that_write_need_the_api() {
    let server = ActualServer::new(Settings { db_path: Some("/x"), ..settings() }).ok().unwrap();
    let text = "Write tools require LIBERADO_BUDGET_API_URL (Liberado Budget REST, not SQLite)";
    assert_eq!(invalid(server.create_payee("x").err().unwrap()), text);
    assert_eq!(invalid(server.list_loans().err().unwrap()), text);
    assert_eq!(invalid(server.categorize_transactions(vec![], "x", None).err().unwrap()), text);
    // The month is looked at first.
    assert_eq!(
        invalid(server.set_budget_amount("x", "c", 1).err().unwrap()),
        "Invalid month 'x'; expected YYYY-MM"
    );
    assert_eq!(
        invalid(api_server().copy_budget("2024-01", "y").err().unwrap()),
        "Invalid from_month 'y'; expected YYYY-MM"
    );
}

#[test]
fn tools_answer_in_their_shapes() {
    let call = api_server().create_category("Food", None, None).ok().unwrap();
    assert!(matches!(&call.step, Step::Send(r, _) if r.url == "http://api/api/v1/categories"));
    match finish(call.shape, call.judged, Ok(Answer::Id("c1".to_string()))) {
        Finished::Reply(v) => {
            assert_eq!(v.str_field("id"), Some("c1"));
            assert_eq!(v.str_field("name"), Some("Food"));
        }
        _ => panic!("no reply"),
    }
    let call = api_server().create_payee("P").ok().unwrap();
    assert!(matches!(
        finish(call.shape, call.judged, Ok(Answer::NoId(Json::Null))),
        Finished::NoId { call, reply: Json::Null } if call == "create_payee"
    ));
    assert!(matches!(
        missing_id("create_payee", "{\"a\":1}"),
        ToolError::Internal(t) if t == "create_payee missing id: {\"a\":1}"
    ));
    assert!(matches!(
        finish(Shape::Updated, false, Ok(Answer::Id("c".to_string()))),
        Finished::Reply(v) if v.str_field("updated") == Some("c")
    ));
    let call = api_server().set_transaction_payee("t", "P").ok().unwrap();
    match finish(call.shape, call.judged, Ok(Answer::Done)) {
        Finished::Reply(v) => {
            assert_eq!(v.str_field("updated"), Some("t"));
            assert_eq!(v.str_field("payee"), Some("P"));
        }
        _ => panic!("no reply"),
    }
    let call = api_server().copy_budget("2024-01", "2023-12").ok().unwrap();
    assert!(call.judged);
    assert!(matches!(
        finish(call.shape, call.judged, Err("budget API 400 Bad Request: x".to_string())),
        Finished::Error(ToolError::InvalidParams(_))
    ));
    let call = api_server().apply_rules(None, None).ok().unwrap();
    assert!(matches!(
        finish(call.shape, call.judged, Err("budget API 400 Bad Request: x".to_string())),
        Finished::Error(ToolError::Internal(_))
    ));
}

#[test]
fn origins_are_listed() {
    assert_eq!(origin_policy(Some(" http://a , ,http://b,")).unwrap(), vec!["http://a", "http://b"]);
    assert!(origin_policy(Some("  ")).is_none());
    assert!(origin_policy(None).is_none());
    assert_eq!(origin_policy(Some(",")).unwrap().len(), 0);
    assert_eq!(bind_address(Some("0.0.0.0:8000")), Some("0.0.0.0:8000"));
    assert_eq!(bind_address(Some("")), None);
    assert_eq!(bind_address(None), None);
}

#[test]
fn null_columns_are_named() {
    let mut b = small_budget();
    b.transactions[0].amount = None;
    let q = ActualServer::get_transactions(None, None, None, None, None, None, None, None, None);
    assert!(matches!(
        q.ok().unwrap().run(&b),
        Err(ToolError::Internal(m)) if m.ends_with("Null at index: 2, name: amount")
    ));
    let q = ActualServer::balance_history(None, "2024-01", "2024-01").ok().unwrap();
    assert!(matches!(
        q.run(&b),
        Err(ToolError::Internal(m)) if m.ends_with("Null at index: 1, name: month_net")
    ));
    b.accounts[0].closed = None;
    assert!(matches!(
        Query::Accounts.run(&b),
        Err(ToolError::Internal(m)) if m.ends_with("Null at index: 4, name: closed")
    ));
}
