use liberado_actual_mcp::budget_api::calls::judge_reply;
use liberado_actual_mcp::budget_api::documents::find_rule;
use liberado_actual_mcp::budget_api::{
    encode_query, find_equivalent_payee_rule, parse_allocation_items, parse_import_format,
    parse_inbox_filename, parse_loan_strategy, payee_rule_body, payees_for_ids,
    resolve_account_id, resolve_category_id, resolve_payee_id, Answer, BudgetApi, BulkStep,
    Method, Payload, Request, Step,
};
use liberado_actual_mcp::json::{parse_json, Json};

fn doc(text: &str) -> Json {
    parse_json(text).unwrap()
}

fn field<'a>(v: &'a Json, key: &str) -> &'a Json {
    v.get(key).unwrap()
}

fn is_text(v: &Json, key: &str, text: &str) -> bool {
    v.str_field(key) == Some(text)
}

/// Runs a call against replies, and gives what it came to and what it sent.
fn run(api: &BudgetApi, first: Step, routes: &[(&str, u16, &str)]) -> (Result<Answer, String>, Vec<Request>) {
    let mut sent = Vec::new();
    let mut step = first;
    let mut left = routes.iter();
    loop {
        match step {
            Step::Finish(r) => {
                assert!(left.next().is_none(), "fewer requests than expected");
                return (r, sent);
            }
            Step::Send(request, pending) => {
                let (path, status, body) = left.next().expect("no more requests expected");
                assert!(request.url.contains(path), "expected path {path} in {}", request.url);
                let reply = BudgetApi::json_response(*status, &format!("{status} OK"), body);
                sent.push(request);
                step = api.resume(pending, reply);
            }
        }
    }
}

fn document(r: (Result<Answer, String>, Vec<Request>)) -> Json {
    match r.0 {
        Ok(Answer::Document(v)) => v,
        _ => panic!("no document"),
    }
}

fn error(r: (Result<Answer, String>, Vec<Request>)) -> String {
    match r.0 {
        Err(e) => e,
        Ok(_) => panic!("no error"),
    }
}

fn body(request: &Request) -> &Json {
    match &request.payload {
        Payload::Document(v) => v,
        _ => panic!("no document in the request"),
    }
}

#[test]
fn resolve_category_prefers_id_then_name() {
    let doc = doc(
        r#"{"category_groups": [{"id": "g1", "name": "Expenses", "categories": [
            {"id": "c-groc", "name": "Groceries"},
            {"id": "c-gas", "name": "Gas"}
        ]}]}"#,
    );
    assert_eq!(resolve_category_id(&doc, "Groceries").as_deref(), Some("c-groc"));
    assert_eq!(resolve_category_id(&doc, "c-gas").as_deref(), Some("c-gas"));
    assert!(resolve_category_id(&doc, "NoSuch").is_none());
}

#[test]
fn resolve_payee_by_name_or_id() {
    let doc = doc(
        r#"{"payees": [{"id": "p1", "name": "FRYS-FOOD-DRG"}, {"id": "p2", "name": "CANTEEN"}]}"#,
    );
    assert_eq!(resolve_payee_id(&doc, "canteen").as_deref(), Some("p2"));
    assert_eq!(resolve_payee_id(&doc, "p1").as_deref(), Some("p1"));
}

#[test]
fn equivalent_rule_matches_contains_and_category() {
    let doc = doc(
        r#"{"rules": [{"id": "r1",
            "conditions": [{"field": "payee", "op": "contains", "value": "FRYS"}],
            "actions": [{"field": "category", "value": "c-groc"}]}]}"#,
    );
    assert_eq!(find_equivalent_payee_rule(&doc, "frys", "c-groc").as_deref(), Some("r1"));
    assert!(find_equivalent_payee_rule(&doc, "frys", "other").is_none());
    assert!(find_equivalent_payee_rule(&doc, "amazon", "c-groc").is_none());
}

#[test]
fn payee_rule_body_is_budget_rest_shape() {
    let b = payee_rule_body("FRYS", "c-groc");
    assert!(is_text(&b, "conditions_op", "and"));
    assert!(is_text(&b.array_field("conditions").unwrap()[0], "op", "regex"));
    assert!(is_text(&b.array_field("actions").unwrap()[0], "field", "category"));
    assert!(is_text(&b.array_field("actions").unwrap()[0], "value", "c-groc"));
}

#[test]
fn equivalent_rule_matches_regex_op() {
    let doc = doc(
        r#"{"rules": [{"id": "r1",
            "conditions": [{"field": "payee", "op": "regex", "value": "FRYS"}],
            "actions": [{"field": "category", "value": "c-groc"}]}]}"#,
    );
    assert_eq!(find_equivalent_payee_rule(&doc, "frys", "c-groc").as_deref(), Some("r1"));
}

#[test]
fn create_category_posts_rest_and_returns_id() {
    let api = BudgetApi::new("http://127.0.0.1:1");
    let (r, sent) = run(
        &api,
        api.create_category("Throwaway", Some("expense"), Some("Test")),
        &[("/api/v1/categories", 201, r#"{"id": "new-cat"}"#)],
    );
    assert!(matches!(r, Ok(Answer::Id(id)) if id == "new-cat"));
    assert_eq!(sent[0].method, Method::Post);
    assert!(is_text(body(&sent[0]), "name", "Throwaway"));
    assert!(is_text(body(&sent[0]), "kind", "expense"));
    assert!(is_text(body(&sent[0]), "group_name", "Test"));
}

const CATEGORIES: &str =
    r#"{"category_groups": [{"categories": [{"id": "c-groc", "name": "Groceries"}]}]}"#;

#[test]
fn create_payee_rule_returns_matched_count() {
    let api = BudgetApi::new("http://127.0.0.1:1");
    let r = run(
        &api,
        api.create_payee_rule("FRYS", "Groceries"),
        &[
            ("/api/v1/categories", 200, CATEGORIES),
            ("/api/v1/rules", 200, r#"{"rules": []}"#),
            ("/api/v1/rules", 201, r#"{"id": "r-new", "matched": 2}"#),
        ],
    );
    assert_eq!(r.1[2].method, Method::Post);
    let v = document(r);
    assert!(matches!(field(&v, "created"), Json::Bool(true)));
    assert_eq!(field(&v, "matched").as_u64(), Some(2));
    assert!(is_text(&v, "id", "r-new") && is_text(&v, "payee_regex", "FRYS"));
}

#[test]
fn create_payee_rule_skips_duplicate() {
    let existing = r#"{"rules": [{"id": "r-exist",
        "conditions": [{"field": "payee", "op": "contains", "value": "FRYS"}],
        "actions": [{"field": "category", "value": "c-groc"}]}]}"#;
    let api = BudgetApi::new("http://127.0.0.1:1");
    let r = run(
        &api,
        api.create_payee_rule("FRYS", "Groceries"),
        &[("/api/v1/categories", 200, CATEGORIES), ("/api/v1/rules", 200, existing)],
    );
    assert!(r.1.iter().all(|q| q.method == Method::Get));
    let v = document(r);
    assert!(matches!(field(&v, "created"), Json::Bool(false)));
    assert!(is_text(&v, "id", "r-exist"));
}

#[test]
fn parse_allocations_accepts_category_or_category_id() {
    let items = vec![
        doc(r#"{"category": "Groceries", "amount_cents": 15000}"#),
        doc(r#"{"category_id": "c-rent", "amount_cents": 110000}"#),
    ];
    let parsed = parse_allocation_items(&items).unwrap();
    assert_eq!(parsed, vec![("Groceries".to_string(), 15000), ("c-rent".to_string(), 110000)]);
}

#[test]
fn parse_allocations_rejects_empty_and_missing_fields() {
    assert!(parse_allocation_items(&[]).unwrap_err().contains("empty"));
    assert!(parse_allocation_items(&[doc(r#"{"amount_cents": 1}"#)])
        .unwrap_err()
        .contains("category"));
    assert!(parse_allocation_items(&[doc(r#"{"category": "Food"}"#)])
        .unwrap_err()
        .contains("amount_cents"));
}

#[test]
fn allocations_say_which_one_is_wrong() {
    let items = vec![
        doc(r#"{"category": " Food ", "amount_cents": -1}"#),
        doc(r#"{"category": 7, "category_id": "c", "amount_cents": 1}"#),
    ];
    assert_eq!(
        parse_allocation_items(&items).unwrap_err(),
        "allocations[1] missing category or category_id"
    );
    assert_eq!(parse_allocation_items(&items[..1]).unwrap(), vec![("Food".to_string(), -1)]);
    assert_eq!(
        parse_allocation_items(&[doc(r#"{"category": "Food", "amount_cents": 1.5}"#)]).unwrap_err(),
        "allocations[0] missing amount_cents"
    );
    assert_eq!(parse_allocation_items(&[]).unwrap_err(), "allocations must not be empty");
}

#[test]
fn set_budget_amount_puts_resolved_category() {
    let api = BudgetApi::new("http://127.0.0.1:1");
    let r = run(
        &api,
        api.set_budget_amount("2026-07", "Groceries", 50000),
        &[
            ("/api/v1/categories", 200, CATEGORIES),
            (
                "/api/v1/budgets/2026-07/categories/c-groc",
                200,
                r#"{"month": "2026-07", "category_id": "c-groc", "amount_cents": 50000}"#,
            ),
        ],
    );
    assert_eq!(r.1[1].method, Method::Put);
    assert_eq!(field(body(&r.1[1]), "amount_cents").as_i64(), Some(50000));
    let v = document(r);
    assert!(is_text(&v, "category_id", "c-groc"));
    assert_eq!(field(&v, "amount_cents").as_i64(), Some(50000));
}

#[test]
fn set_budget_allocations_resolves_names_then_puts() {
    let cats = r#"{"category_groups": [{"categories": [
        {"id": "c-groc", "name": "Groceries"}, {"id": "c-rent", "name": "Rent"}]}]}"#;
    let api = BudgetApi::new("http://127.0.0.1:1");
    let items = vec![
        doc(r#"{"category": "Groceries", "amount_cents": 15000}"#),
        doc(r#"{"category": "Rent", "amount_cents": 110000}"#),
    ];
    let r = run(
        &api,
        api.set_budget_allocations("2026-07", &items),
        &[
            ("/api/v1/categories", 200, cats),
            (
                "/api/v1/budgets/2026-07/allocations",
                200,
                r#"{"updated": 2, "month": "2026-07"}"#,
            ),
        ],
    );
    let sent = body(&r.1[1]).array_field("allocations").unwrap();
    assert_eq!(sent.len(), 2);
    assert!(is_text(&sent[1], "category_id", "c-rent"));
    assert_eq!(field(&sent[1], "amount_cents").as_i64(), Some(110000));
    assert_eq!(field(&document(r), "updated").as_i64(), Some(2));
}

#[test]
fn set_budget_allocations_unknown_category() {
    let api = BudgetApi::new("http://127.0.0.1:1");
    let items = vec![doc(r#"{"category": "NoSuch", "amount_cents": 1}"#)];
    let r = run(
        &api,
        api.set_budget_allocations("2026-07", &items),
        &[("/api/v1/categories", 200, CATEGORIES)],
    );
    assert_eq!(error(r), "unknown category 'NoSuch'");
}

#[test]
fn copy_and_rollover_post_from_month() {
    let api = BudgetApi::new("http://127.0.0.1:1");
    let copied = run(
        &api,
        api.copy_budget("2026-08", "2026-07"),
        &[(
            "/api/v1/budgets/2026-08/copy",
            200,
            r#"{"copied": 1, "from": "2026-07", "month": "2026-08"}"#,
        )],
    );
    assert!(is_text(body(&copied.1[0]), "from_month", "2026-07"));
    assert_eq!(field(&document(copied), "copied").as_i64(), Some(1));
    let rolled = run(
        &api,
        api.rollover_budget("2026-08", "2026-07"),
        &[(
            "/api/v1/budgets/2026-08/rollover",
            200,
            r#"{"rolled": 1, "from": "2026-07", "month": "2026-08"}"#,
        )],
    );
    assert_eq!(field(&document(rolled), "rolled").as_i64(), Some(1));
}

const ACCOUNTS: &str = r#"{"accounts": [
    {"id": "a-chk", "name": "Checking"},
    {"id": "a-sav", "name": "Savings"},
    {"id": "a-card", "name": "Discover Card"}]}"#;

#[test]
fn resolve_account_by_name_or_id() {
    let doc = doc(ACCOUNTS);
    assert_eq!(resolve_account_id(&doc, "checking").as_deref(), Some("a-chk"));
    assert_eq!(resolve_account_id(&doc, "a-sav").as_deref(), Some("a-sav"));
    assert!(resolve_account_id(&doc, "NoSuch").is_none());
}

#[test]
fn loan_strategy_and_import_format_parse() {
    assert_eq!(parse_loan_strategy(None).unwrap(), "avalanche");
    assert_eq!(parse_loan_strategy(Some("Snowball")).unwrap(), "snowball");
    assert!(parse_loan_strategy(Some("minimums")).unwrap_err().contains("avalanche|snowball"));
    assert_eq!(parse_import_format(None).unwrap(), "auto");
    assert_eq!(parse_import_format(Some("discover-bank")).unwrap(), "discover-bank");
    assert!(parse_import_format(Some("ofx")).unwrap_err().contains("discover-card"));
    assert!(parse_inbox_filename("../x.csv").is_err());
    assert_eq!(parse_inbox_filename("stmt.csv").unwrap(), "stmt.csv");
}

#[test]
fn choices_are_read_without_blanks_and_case() {
    assert_eq!(parse_loan_strategy(Some("  ")).unwrap(), "avalanche");
    assert_eq!(parse_loan_strategy(Some(" AVALANCHE\n")).unwrap(), "avalanche");
    assert_eq!(
        parse_loan_strategy(Some(" Minimums ")).unwrap_err(),
        "strategy must be avalanche|snowball, got 'minimums'"
    );
    assert_eq!(parse_import_format(Some("")).unwrap(), "auto");
    assert_eq!(parse_import_format(Some("Generic")).unwrap(), "generic");
    assert_eq!(parse_import_format(Some("DISCOVER-CARD")).unwrap(), "discover-card");
    assert_eq!(
        parse_import_format(Some("OFX")).unwrap_err(),
        "format must be auto|discover-card|discover-bank|generic, got 'ofx'"
    );
    assert_eq!(parse_inbox_filename(" a.csv ").unwrap(), "a.csv");
    assert_eq!(parse_inbox_filename(" ").unwrap_err(), "inbox_file is required");
    for bad in ["a/b", "a\\b", "..", "a..b"] {
        assert_eq!(
            parse_inbox_filename(bad).unwrap_err(),
            "inbox_file must be a basename in the Liberado Budget import inbox",
            "{bad}"
        );
    }
}

#[test]
fn list_loans_gets_rest() {
    let api = BudgetApi::new("http://127.0.0.1:1");
    let v = document(run(
        &api,
        api.list_loans(),
        &[(
            "/api/v1/loans",
            200,
            r#"{"loans": [{"name": "Car", "apr_bps": 699, "min_payment_cents": 35000,
                           "balance_cents": 1250000}]}"#,
        )],
    ));
    let loan = &v.array_field("loans").unwrap()[0];
    assert_eq!(field(loan, "apr_bps").as_i64(), Some(699));
    assert_eq!(field(loan, "min_payment_cents").as_i64(), Some(35000));
    assert_eq!(field(loan, "balance_cents").as_i64(), Some(1250000));
}

#[test]
fn loan_projection_gets_strategy_and_extra() {
    let api = BudgetApi::new("http://127.0.0.1:1");
    let v = document(run(
        &api,
        api.loan_projection(Some("snowball"), Some(20000)),
        &[(
            "/api/v1/loans/projection?strategy=snowball&extra_cents=20000",
            200,
            r#"{"strategy": "snowball", "extra_payment_cents": 20000, "months_total": 18,
                "total_interest_cents": 12345, "truncated": false}"#,
        )],
    ));
    assert!(is_text(&v, "strategy", "snowball"));
    assert_eq!(field(&v, "extra_payment_cents").as_i64(), Some(20000));
}

#[test]
fn loan_projection_rejects_bad_strategy() {
    let api = BudgetApi::new("http://127.0.0.1:1");
    let err = error(run(&api, api.loan_projection(Some("foo"), Some(0)), &[]));
    assert!(err.contains("avalanche|snowball"));
}

#[test]
fn get_summary_gets_month_extra_and_strategy() {
    let api = BudgetApi::new("http://127.0.0.1:1");
    let v = document(run(
        &api,
        api.get_summary(Some("2026-07"), Some(10000), Some("avalanche")),
        &[(
            "/api/v1/summary?month=2026-07&extra_cents=10000&strategy=avalanche",
            200,
            r#"{"month": "2026-07", "on_budget_cash_cents": 150000,
                "credit_balance_cents": -42000,
                "credit_accounts": [{"id": "a-card", "name": "Card", "balance_cents": -42000}],
                "unregistered_loan_accounts": [],
                "loans": [{"id": "l-car", "account_id": "a-car", "name": "Car", "apr_bps": 699,
                           "min_payment_cents": 35000, "balance_cents": 1250000}],
                "next_target": {"name": "Car", "account_id": "a-car", "apr_bps": 699,
                                "extra_cents": 10000, "strategy": "avalanche"},
                "cashflow": {"month": "2026-07", "income_cents": 300000,
                             "expenses_cents": -9000, "net_cents": 291000}}"#,
        )],
    ));
    assert_eq!(field(&v, "on_budget_cash_cents").as_i64(), Some(150000));
    assert!(is_text(&v.array_field("credit_accounts").unwrap()[0], "name", "Card"));
    assert_eq!(field(field(&v, "next_target"), "extra_cents").as_i64(), Some(10000));
    assert_eq!(field(field(&v, "cashflow"), "net_cents").as_i64(), Some(291000));
}

#[test]
fn get_summary_omits_month_and_defaults_extra_strategy() {
    let api = BudgetApi::new("http://127.0.0.1:1");
    let v = document(run(
        &api,
        api.get_summary(None, None, None),
        &[(
            "/api/v1/summary?extra_cents=0&strategy=avalanche",
            200,
            r#"{"on_budget_cash_cents": 0, "next_target": null, "loans": []}"#,
        )],
    ));
    assert_eq!(field(&v, "on_budget_cash_cents").as_i64(), Some(0));
    assert!(matches!(field(&v, "next_target"), Json::Null));
}

#[test]
fn get_summary_rejects_bad_strategy_and_negative_extra() {
    let api = BudgetApi::new("http://127.0.0.1:1");
    let err = error(run(&api, api.get_summary(None, Some(0), Some("minimums")), &[]));
    assert!(err.contains("avalanche|snowball"));
    let err = error(run(&api, api.get_summary(Some("2026-07"), Some(-1), None), &[]));
    assert!(err.contains(">= 0"));
}

#[test]
fn import_csv_posts_text_body_after_account_resolve() {
    let csv = "Date,Description,Amount\n2026-09-01,Coffee,-4.50\n";
    let api = BudgetApi::new("http://127.0.0.1:1");
    let r = run(
        &api,
        api.import_csv("Checking", Some("generic"), Some(csv), None),
        &[
            ("/api/v1/accounts", 200, ACCOUNTS),
            (
                "/api/v1/import/csv?account_id=a-chk&format=generic",
                200,
                r#"{"report": {"format": "generic", "inserted": 1, "skipped": 0, "errors": []},
                    "rules_matched": 0}"#,
            ),
        ],
    );
    match &r.1[1].payload {
        Payload::Text { content_type, body } => {
            assert_eq!(content_type, "text/csv");
            assert_eq!(body, csv);
        }
        _ => panic!("no text in the request"),
    }
    assert_eq!(field(field(&document(r), "report"), "inserted").as_i64(), Some(1));
}

#[test]
fn a_csv_is_sent_as_it_is() {
    let csv = "\n Date,Amount\n2026-09-01,-4.50 \n\n";
    let api = BudgetApi::new("http://h");
    let r = run(
        &api,
        api.import_csv("Checking", None, Some(csv), None),
        &[("/api/v1/accounts", 200, ACCOUNTS), ("/api/v1/import/csv", 200, "{}")],
    );
    assert!(matches!(&r.1[1].payload, Payload::Text { body, .. } if body == csv));
    assert!(matches!(
        api.import_csv("Checking", None, Some(" \n "), None),
        Step::Finish(Err(_))
    ));
}

#[test]
fn import_csv_inbox_file_posts_server_path() {
    let api = BudgetApi::new("http://127.0.0.1:1");
    let r = run(
        &api,
        api.import_csv("Checking", None, None, Some("stmt.csv")),
        &[
            ("/api/v1/accounts", 200, ACCOUNTS),
            (
                "/api/v1/import/inbox/stmt.csv?account_id=a-chk&format=auto",
                200,
                r#"{"file": "stmt.csv", "report": {"inserted": 2}}"#,
            ),
        ],
    );
    assert!(is_text(&document(r), "file", "stmt.csv"));
}

#[test]
fn import_csv_requires_csv_or_inbox() {
    let api = BudgetApi::new("http://127.0.0.1:1");
    let err = error(run(&api, api.import_csv("Checking", None, None, None), &[]));
    assert!(err.contains("csv"));
    let err = error(run(&api, api.import_csv("Checking", None, Some("a,b"), Some("x.csv")), &[]));
    assert!(err.contains("not both"));
}

#[test]
fn create_transfer_resolves_accounts_then_posts() {
    let api = BudgetApi::new("http://127.0.0.1:1");
    let r = run(
        &api,
        api.create_transfer("Checking", "Savings", "2026-09-01", 25000, Some("save"), Some(true)),
        &[
            ("/api/v1/accounts", 200, ACCOUNTS),
            ("/api/v1/accounts", 200, ACCOUNTS),
            (
                "/api/v1/transfers",
                201,
                r#"{"from_transaction_id": "t-from", "to_transaction_id": "t-to"}"#,
            ),
        ],
    );
    let sent = body(&r.1[2]);
    assert!(is_text(sent, "from_account_id", "a-chk") && is_text(sent, "to_account_id", "a-sav"));
    assert!(is_text(sent, "notes", "save") && is_text(sent, "date", "2026-09-01"));
    assert!(matches!(field(sent, "cleared"), Json::Bool(true)));
    assert_eq!(field(sent, "amount_cents").as_i64(), Some(25000));
    assert!(is_text(&document(r), "from_transaction_id", "t-from"));
}

#[test]
fn pin_balance_posts_cents() {
    let api = BudgetApi::new("http://127.0.0.1:1");
    let r = run(
        &api,
        api.pin_balance("Checking", 105000),
        &[
            ("/api/v1/accounts", 200, ACCOUNTS),
            (
                "/api/v1/accounts/a-chk/pin-balance",
                200,
                r#"{"opening_cents": 100000, "activity_cents": 5000, "balance_cents": 105000}"#,
            ),
        ],
    );
    assert_eq!(field(body(&r.1[1]), "balance_cents").as_i64(), Some(105000));
    assert_eq!(field(&document(r), "balance_cents").as_i64(), Some(105000));
}

// ── Further cases ────────────────────────────────────────────────────────────

#[test]
fn ids_go_before_names() {
    let d = doc(
        r#"{"payees": [{"id": "p1", "name": "p2"}, {"id": "p2", "name": "x"},
                       {"id": "p3", "name": "X"}]}"#,
    );
    assert_eq!(resolve_payee_id(&d, "P2").as_deref(), Some("p2"));
    // The last of those that have the name.
    assert_eq!(resolve_payee_id(&d, " x ").as_deref(), Some("p3"));
    assert!(resolve_payee_id(&d, "  ").is_none());
    assert!(resolve_payee_id(&doc("{}"), "x").is_none());
    // An entry without an id ends the search.
    let d = doc(r#"{"payees": [{"name": "x"}, {"id": "p2", "name": "x"}]}"#);
    assert!(resolve_payee_id(&d, "x").is_none());
    // So does a group without categories.
    let d = doc(
        r#"{"category_groups": [{"name": "g"}, {"categories": [{"id": "c", "name": "x"}]}]}"#,
    );
    assert!(resolve_category_id(&d, "c").is_none());
}

#[test]
fn rules_that_are_broken_end_the_search() {
    let rule = r#"{"id": "r2", "conditions": [{"field": "payee", "value": "Ab"}],
                   "actions": [{"field": "category", "value": "c"}]}"#;
    let good = doc(&format!("{{\"rules\": [{rule}]}}"));
    assert_eq!(find_rule(&good, "AB", "ab", "c").as_deref(), Some("r2"));
    assert_eq!(find_equivalent_payee_rule(&good, "  aB ", "c").as_deref(), Some("r2"));
    let broken = doc(&format!("{{\"rules\": [{{\"id\": \"r1\", \"actions\": []}}, {rule}]}}"));
    assert!(find_rule(&broken, "ab", "ab", "c").is_none());
    let other_op = doc(
        r#"{"rules": [{"id": "r", "conditions": [{"field": "payee", "op": "isNot", "value": "a"}],
                       "actions": [{"field": "category", "value": "c"}]}]}"#,
    );
    assert!(find_rule(&other_op, "a", "a", "c").is_none());
    // The lower case of letters outside ASCII is looked for, and so is the text itself.
    let accented = |value: &str| {
        doc(&format!(
            "{{\"rules\": [{{\"id\": \"r\", \"actions\": [{{\"field\": \"category\", \"value\": \"c\"}}],
               \"conditions\": [{{\"field\": \"payee\", \"op\": \"regex\", \"value\": \"{value}\"}}]}}]}}"
        ))
    };
    assert_eq!(find_equivalent_payee_rule(&accented("é"), "É", "c").as_deref(), Some("r"));
    assert_eq!(find_equivalent_payee_rule(&accented("CAFÉ"), "CAFÉ", "c").as_deref(), Some("r"));
    assert_eq!(find_equivalent_payee_rule(&accented("cafÉ"), " CAFÉ ", "c").as_deref(), Some("r"));
    assert!(find_equivalent_payee_rule(&accented("CAFE"), "CAFÉ", "c").is_none());
}

#[test]
fn a_rule_that_was_made_is_not_made_again() {
    let api = BudgetApi::new("http://h");
    let (_, sent) = run(
        &api,
        api.create_payee_rule(" Fry's ", "Groceries"),
        &[
            ("/api/v1/categories", 200, CATEGORIES),
            ("/api/v1/rules", 200, r#"{"rules": []}"#),
            ("/api/v1/rules", 200, "{}"),
        ],
    );
    assert!(is_text(&body(&sent[2]).array_field("conditions").unwrap()[0], "value", "Fry's"));
    let again = run(
        &api,
        api.create_payee_rule("Fry's", "c-groc"),
        &[
            ("/api/v1/categories", 200, CATEGORIES),
            (
                "/api/v1/rules",
                200,
                r#"{"rules": [{"id": "r", "stage": "pre", "conditions_op": "and",
                    "conditions": [{"field": "payee", "op": "regex", "value": "Fry's"}],
                    "actions": [{"field": "category", "value": "c-groc"}]}]}"#,
            ),
        ],
    );
    assert!(matches!(field(&document(again), "created"), Json::Bool(false)));
}

#[test]
fn payees_are_listed_once_and_in_order() {
    let d = doc(
        r#"{"transactions": [
            {"id": "1", "payee": "Zoo"}, {"id": "2", "payee": " Ape "}, {"id": "3", "payee": "Ape"},
            {"id": "4", "payee": "Not asked for"}, {"id": "5", "payee": "  "}, {"id": "6"}]}"#,
    );
    let ids: Vec<String> = ["1", "2", "3", "5", "6"].iter().map(|s| s.to_string()).collect();
    assert_eq!(payees_for_ids(&d, &ids), vec!["Ape", "Zoo"]);
    assert!(payees_for_ids(&doc("[]"), &ids).is_empty());
}

#[test]
fn queries_are_escaped() {
    assert_eq!(encode_query("aZ09-_.~"), "aZ09-_.~");
    assert_eq!(encode_query("a b&c=d/é"), "a%20b%26c%3Dd%2F%C3%A9");
    assert_eq!(encode_query(""), "");
    assert_ne!(encode_query("a%20b"), encode_query("a b"));
}

/// The bytes that a written argument stands for.
fn unescaped(text: &str) -> Vec<u8> {
    let mut bytes = Vec::new();
    let mut rest = text;
    while let Some(c) = rest.chars().next() {
        if c == '%' {
            assert!(rest[1..3].chars().all(|d| matches!(d, '0'..='9' | 'A'..='F')));
            bytes.push(u8::from_str_radix(&rest[1..3], 16).unwrap());
            rest = &rest[3..];
        } else {
            assert!(c.is_ascii_alphanumeric() || "-_.~".contains(c));
            bytes.push(c as u8);
            rest = &rest[1..];
        }
    }
    bytes
}

#[test]
fn what_is_escaped_stands_for_the_text() {
    for text in ["", "plain-Text_1.0~", "a b&c=d/é", "100%", "%41", "日本\n\u{0}", "😀?#"] {
        assert_eq!(unescaped(&encode_query(text)), text.as_bytes());
    }
}

#[test]
fn replies_are_judged_by_status_and_body() {
    assert_eq!(
        BudgetApi::json_response(404, "404 Not Found", "no").unwrap_err(),
        "budget API 404 Not Found: no"
    );
    assert!(matches!(BudgetApi::json_response(200, "200 OK", " \n"), Ok(Json::Null)));
    assert!(BudgetApi::json_response(200, "200 OK", "{")
        .unwrap_err()
        .starts_with("budget API bad JSON: "));
    assert!(BudgetApi::json_response(299, "299", "1").is_ok());
    assert!(BudgetApi::json_response(300, "300", "1").is_err());
    assert_eq!(
        judge_reply(200, "200 OK", "x", Err("why".to_string())).unwrap_err(),
        "budget API bad JSON: why"
    );
}

#[test]
fn numbers_of_documents() {
    let d = doc(r#"{"a": 18446744073709551615, "b": -1, "c": 1.5, "d": 1e3}"#);
    assert_eq!(field(&d, "a").as_u64(), Some(u64::MAX));
    assert_eq!(field(&d, "a").as_i64(), None);
    assert_eq!(field(&d, "b").as_i64(), Some(-1));
    assert_eq!(field(&d, "b").as_u64(), None);
    assert!(field(&d, "c").as_i64().is_none() && field(&d, "d").as_i64().is_none());
    assert!(d.get("e").is_none() && d.as_str().is_none());
}

#[test]
fn the_base_url_is_read_from_the_setting() {
    assert_eq!(BudgetApi::from_env(Some(" http://h:1// ")).unwrap().base, "http://h:1");
    assert!(BudgetApi::from_env(Some(" / ")).is_none());
    assert!(BudgetApi::from_env(Some("")).is_none());
    assert!(BudgetApi::from_env(None).is_none());
    assert_eq!(BudgetApi::new("http://h/").url("/x"), "http://h/x");
}

#[test]
fn names_that_are_unknown_change_nothing() {
    let api = BudgetApi::new("http://h");
    let categories = [("/api/v1/categories", 200, CATEGORIES)];
    let accounts = [("/api/v1/accounts", 200, ACCOUNTS)];
    for step in [
        api.update_category("No", Some("x"), None),
        api.set_transaction_category("t", Some("No")),
        api.create_payee_rule("p", "No"),
        api.set_budget_amount("2026-07", "No", 1),
        api.resolve_category("No"),
    ] {
        assert_eq!(error(run(&api, step, &categories)), "unknown category 'No'");
    }
    for step in [
        api.import_csv("No", None, Some("x"), None),
        api.create_transfer("No", "Savings", "d", 1, None, None),
        api.pin_balance("No", 1),
        api.resolve_account("No"),
    ] {
        assert_eq!(error(run(&api, step, &accounts)), "unknown account 'No'");
    }
    let payees = [("/api/v1/payees", 200, r#"{"payees": []}"#)];
    assert_eq!(error(run(&api, api.rename_payee("No", "x"), &payees)), "unknown payee 'No'");
    assert_eq!(error(run(&api, api.resolve_payee("No"), &payees)), "unknown payee 'No'");
}

#[test]
fn things_are_changed_by_their_ids() {
    let api = BudgetApi::new("http://h");
    let (r, sent) = run(
        &api,
        api.update_category("groceries", Some("Food"), Some(true)),
        &[("/api/v1/categories", 200, CATEGORIES), ("/api/v1/categories/c-groc", 200, "")],
    );
    assert!(matches!(r, Ok(Answer::Id(id)) if id == "c-groc"));
    assert_eq!(sent[1].method, Method::Patch);
    assert!(is_text(body(&sent[1]), "name", "Food"));
    assert!(matches!(field(body(&sent[1]), "hidden"), Json::Bool(true)));
    let (r, sent) = run(
        &api,
        api.rename_payee("old", "New"),
        &[
            ("/api/v1/payees", 200, r#"{"payees": [{"id": "p1", "name": "Old"}]}"#),
            ("/api/v1/payees/p1", 200, ""),
        ],
    );
    assert!(matches!(r, Ok(Answer::Id(id)) if id == "p1"));
    assert!(is_text(body(&sent[1]), "name", "New"));
    let (r, sent) = run(
        &api,
        api.set_transaction_category("t1", Some("Groceries")),
        &[("/api/v1/categories", 200, CATEGORIES), ("/api/v1/transactions/t1", 200, "")],
    );
    assert!(matches!(r, Ok(Answer::Done)));
    assert!(is_text(body(&sent[1]), "category_id", "c-groc"));
    for clearing in [None, Some(""), Some("null")] {
        let (r, sent) = run(
            &api,
            api.set_transaction_category("t1", clearing),
            &[("/api/v1/transactions/t1", 200, "")],
        );
        assert!(matches!(r, Ok(Answer::Done)));
        assert!(matches!(field(body(&sent[0]), "category_id"), Json::Null));
    }
    let (_, sent) = run(
        &api,
        api.set_transaction_payee("t1", "Shop"),
        &[("/api/v1/transactions/t1", 200, "")],
    );
    assert!(is_text(body(&sent[0]), "payee", "Shop"));
}

#[test]
fn new_things_without_an_id_are_told() {
    let api = BudgetApi::new("http://h");
    let (r, sent) =
        run(&api, api.create_category("x", None, None), &[("/api/v1/categories", 200, "{}")]);
    assert!(matches!(r, Ok(Answer::NoId(Json::Object(_)))));
    assert!(is_text(body(&sent[0]), "kind", "expense"));
    assert!(body(&sent[0]).get("group_name").is_none());
    let (r, _) = run(&api, api.create_payee("x"), &[("/api/v1/payees", 200, r#"{"id": "p"}"#)]);
    assert!(matches!(r, Ok(Answer::Id(id)) if id == "p"));
    let r = run(&api, api.create_payee("x"), &[("/api/v1/payees", 500, "down")]);
    assert_eq!(error(r), "budget API 500 OK: down");
}

#[test]
fn live_reads_hand_their_filters_on() {
    let api = BudgetApi::new("http://h");
    let (_, sent) = run(
        &api,
        api.get_uncategorized_transactions(Some("a"), Some("2024-01-01"), Some("2024-02-01"), None),
        &[("/api/v1/transactions/uncategorized", 200, "[]")],
    );
    assert_eq!(
        sent[0].url,
        "http://h/api/v1/transactions/uncategorized?limit=50&account_id=a\
         &start_date=2024-01-01&end_date=2024-02-01"
    );
    let (_, sent) = run(
        &api,
        api.get_transactions_by_category_regex("x.*", None, None, None, Some(9999)),
        &[("/api/v1/transactions/by-category", 200, "[]")],
    );
    assert_eq!(
        sent[0].url,
        "http://h/api/v1/transactions/by-category?category_regex=x.*&limit=2000"
    );
    let (_, sent) = run(
        &api,
        api.apply_rules(Some("a"), Some(7)),
        &[("/api/v1/rules/apply", 200, r#"{"matched": 3}"#)],
    );
    assert!(is_text(body(&sent[0]), "account_id", "a"));
    assert_eq!(field(body(&sent[0]), "limit").as_i64(), Some(7));
    let (_, sent) =
        run(&api, api.loan_projection(None, Some(-5)), &[("/api/v1/loans/projection", 200, "{}")]);
    assert!(sent[0].url.ends_with("?strategy=avalanche&extra_cents=0"));
    let (_, sent) =
        run(&api, api.get_summary(Some("2026/07"), None, None), &[("/api/v1/summary", 200, "{}")]);
    assert!(sent[0].url.contains("?month=2026%2F07&extra_cents=0"));
}

/// Runs a bulk call, and gives its report.
fn run_bulk(api: &BudgetApi, first: BulkStep, routes: &[(&str, u16, &str)]) -> Result<Json, String> {
    let mut step = first;
    let mut left = routes.iter();
    loop {
        match step {
            BulkStep::Finish(r) => {
                assert!(left.next().is_none(), "fewer requests than expected");
                return r;
            }
            BulkStep::Send(request, pending) => {
                let (path, status, body) = left.next().expect("no more requests expected");
                assert!(request.url.contains(path), "expected path {path} in {}", request.url);
                let reply = BudgetApi::json_response(*status, &format!("{status} OK"), body);
                step = api.resume_bulk(pending, reply);
            }
        }
    }
}

#[test]
fn many_transactions_are_categorized_and_learned_from() {
    let api = BudgetApi::new("http://h");
    let ids = vec!["t1".to_string(), "t2".to_string()];
    let report = run_bulk(
        &api,
        api.categorize_transactions(ids, "Groceries", true),
        &[
            ("/api/v1/categories", 200, CATEGORIES),
            ("/api/v1/categories", 200, CATEGORIES),
            ("/api/v1/transactions/t1", 200, ""),
            ("/api/v1/categories", 200, CATEGORIES),
            ("/api/v1/transactions/t2", 404, "gone"),
            (
                "/api/v1/transactions?limit=2000",
                200,
                r#"{"transactions": [{"id": "t1", "payee": "Shop"}, {"id": "t2", "payee": "Bar"}]}"#,
            ),
            ("/api/v1/categories", 200, CATEGORIES),
            ("/api/v1/rules", 200, r#"{"rules": []}"#),
            ("/api/v1/rules", 500, "down"),
            ("/api/v1/categories", 200, CATEGORIES),
            ("/api/v1/rules", 200, r#"{"rules": []}"#),
            ("/api/v1/rules", 200, r#"{"id": "r1", "matched": 1}"#),
        ],
    )
    .unwrap();
    assert!(is_text(&report, "category_id", "c-groc"));
    let updated = report.array_field("updated").unwrap();
    assert_eq!(updated.len(), 1);
    assert_eq!(updated[0].as_str(), Some("t1"));
    let learned = report.array_field("learned_rules").unwrap();
    assert_eq!(learned.len(), 1);
    assert!(is_text(&learned[0], "payee_regex", "Shop"));
    let errors = report.array_field("errors").unwrap();
    assert_eq!(errors.len(), 2);
    assert!(is_text(&errors[0], "id", "t2"));
    assert!(is_text(&errors[0], "error", "budget API 404 OK: gone"));
    assert!(is_text(&errors[1], "learn_payee", "Bar"));
    // Every transaction and payee has its entry.
    assert_eq!(updated.len() + learned.len() + errors.len(), 4);
}

#[test]
fn the_report_is_on_the_transactions_that_were_asked_for() {
    let api = BudgetApi::new("http://h");
    let ids: Vec<String> = ["t3", "t1", "t3", "t2"].iter().map(|t| t.to_string()).collect();
    let report = run_bulk(
        &api,
        api.categorize_transactions(ids, "Groceries", false),
        &[
            ("/api/v1/categories", 200, CATEGORIES),
            ("/api/v1/categories", 200, CATEGORIES),
            ("/api/v1/transactions/t3", 500, "down"),
            ("/api/v1/categories", 200, CATEGORIES),
            ("/api/v1/transactions/t1", 200, "{}"),
            ("/api/v1/categories", 200, CATEGORIES),
            ("/api/v1/transactions/t3", 200, "{}"),
            ("/api/v1/categories", 500, "down"),
        ],
    )
    .unwrap();
    let updated: Vec<&str> =
        report.array_field("updated").unwrap().iter().map(|v| v.as_str().unwrap()).collect();
    assert_eq!(updated, vec!["t1", "t3"]);
    let errors = report.array_field("errors").unwrap();
    let failed: Vec<&str> = errors.iter().map(|v| v.str_field("id").unwrap()).collect();
    assert_eq!(failed, vec!["t3", "t2"]);
}

#[test]
fn many_transactions_without_learning() {
    let api = BudgetApi::new("http://h");
    let ids = vec!["t1".to_string()];
    let report = run_bulk(
        &api,
        api.categorize_transactions(ids, "c-groc", false),
        &[
            ("/api/v1/categories", 200, CATEGORIES),
            ("/api/v1/categories", 200, CATEGORIES),
            ("/api/v1/transactions/t1", 200, "{}"),
        ],
    )
    .unwrap();
    assert_eq!(report.array_field("updated").unwrap().len(), 1);
    assert!(report.array_field("errors").unwrap().is_empty());
    let failed = run_bulk(
        &api,
        api.categorize_transactions(vec![], "No", true),
        &[("/api/v1/categories", 200, CATEGORIES)],
    );
    assert_eq!(failed.unwrap_err(), "unknown category 'No'");
    let failed = run_bulk(
        &api,
        api.categorize_transactions(vec![], "c-groc", true),
        &[
            ("/api/v1/categories", 200, CATEGORIES),
            ("/api/v1/transactions?limit=2000", 500, "down"),
        ],
    );
    assert_eq!(failed.unwrap_err(), "budget API 500 OK: down");
}
