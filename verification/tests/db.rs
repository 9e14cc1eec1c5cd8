use liberado_actual_mcp::db::{
    balance_history, get_budget_month, get_rules, get_transactions, list_accounts,
    list_categories, list_payees, monthly_summary, net_worth, spending_by_category,
    spending_by_payee, transactions_by_category_regex, uncategorized_transactions,
};
use liberado_actual_mcp::models::{month_bounds, Transaction};
use liberado_actual_mcp::sql::DbError;
use liberado_actual_mcp::tables::{
    AccountRow, Budget, BudgetRow, CategoryGroupRow, CategoryRow, PayeeMappingRow, PayeeRow,
    RuleRow, TransactionRow,
};

fn text(t: &str) -> Option<String> {
    Some(t.to_string())
}

fn nothing() -> Budget {
    Budget {
        accounts: vec![],
        category_groups: vec![],
        categories: vec![],
        payees: vec![],
        payee_mapping: vec![],
        transactions: vec![],
        zero_budgets: vec![],
        reflect_budgets: vec![],
        rules: vec![],
    }
}

fn account(id: &str, name: &str, kind: &str, offbudget: i64, closed: i64, sort: i64) -> AccountRow {
    AccountRow {
        id: text(id),
        name: text(name),
        account_type: text(kind),
        offbudget: Some(offbudget),
        closed: Some(closed),
        tombstone: Some(0),
        sort_order: Some(sort),
    }
}

fn group(id: &str, name: &str, sort: i64) -> CategoryGroupRow {
    CategoryGroupRow {
        id: text(id),
        name: text(name),
        is_income: Some(0),
        tombstone: Some(0),
        sort_order: Some(sort),
    }
}

fn category(id: &str, name: &str, group: &str, sort: i64) -> CategoryRow {
    CategoryRow {
        id: text(id),
        name: text(name),
        cat_group: text(group),
        is_income: Some(0),
        hidden: Some(0),
        tombstone: Some(0),
        sort_order: Some(sort),
    }
}

fn payee(id: &str, name: &str, tombstone: i64) -> PayeeRow {
    PayeeRow { id: text(id), name: text(name), transfer_acct: None, tombstone: Some(tombstone) }
}

fn mapping(id: &str, target: &str) -> PayeeMappingRow {
    PayeeMappingRow { id: text(id), target_id: text(target) }
}

fn transaction(
    id: &str,
    acct: &str,
    date: i64,
    amount: i64,
    description: Option<&str>,
    notes: Option<&str>,
    category: Option<&str>,
    is_child: i64,
    is_parent: i64,
) -> TransactionRow {
    TransactionRow {
        id: text(id),
        acct: text(acct),
        date: Some(date),
        amount: Some(amount),
        description: description.map(str::to_string),
        notes: notes.map(str::to_string),
        category: category.map(str::to_string),
        cleared: Some(1),
        reconciled: Some(0),
        tombstone: Some(0),
        is_child: Some(is_child),
        is_parent: Some(is_parent),
    }
}

fn allotment(month: i64, category: &str, amount: i64) -> BudgetRow {
    BudgetRow { month: Some(month), category: text(category), amount: Some(amount) }
}

/// A small budget: two accounts, two categories, two payees, four transactions.
fn test_db() -> Budget {
    Budget {
        accounts: vec![
            account("acc1", "Checking", "checking", 0, 0, 1),
            account("acc2", "Savings", "savings", 0, 0, 2),
        ],
        category_groups: vec![group("grp1", "Bills", 1)],
        categories: vec![
            category("cat1", "Groceries", "grp1", 1),
            category("cat2", "Utilities", "grp1", 2),
        ],
        payees: vec![payee("pay1", "Grocery Store", 0), payee("pay2", "Electric Co", 0)],
        payee_mapping: vec![mapping("pay1", "pay1"), mapping("pay2", "pay2")],
        transactions: vec![
            transaction("t1", "acc1", 20240115, -5000, Some("pay1"), Some("weekly shop"), Some("cat1"), 0, 0),
            transaction("t2", "acc1", 20240120, -2000, Some("pay2"), None, Some("cat2"), 0, 0),
            transaction("t3", "acc1", 20240201, 100000, None, Some("salary"), None, 0, 0),
            TransactionRow {
                cleared: Some(0),
                ..transaction("t4", "acc2", 20240115, -3000, Some("pay1"), None, Some("cat1"), 0, 0)
            },
        ],
        zero_budgets: vec![allotment(202401, "cat1", 60000), allotment(202401, "cat2", 10000)],
        ..nothing()
    }
}

fn all(b: &Budget) -> Vec<Transaction> {
    get_transactions(b, None, None, None, 500, None, None, None, None, None).unwrap()
}

fn ids(rows: &[Transaction]) -> Vec<&str> {
    rows.iter().map(|t| t.id.as_str()).collect()
}

#[test]
fn list_accounts_returns_both() {
    let db = test_db();
    let accounts = list_accounts(&db).unwrap();
    assert_eq!(accounts.len(), 2);
    let checking = accounts.iter().find(|a| a.id == "acc1").unwrap();
    // balance = -5000 + -2000 + 100000 = 93000
    assert_eq!(checking.balance_cents, 93000);
    assert_eq!(checking.balance_display, "$930.00");
}

#[test]
fn get_transactions_all_accounts() {
    let db = test_db();
    let txns = get_transactions(&db, None, None, None, 500, None, None, None, None, None).unwrap();
    // 4 non-child transactions inserted
    assert_eq!(txns.len(), 4);
}

#[test]
fn get_transactions_filter_by_account() {
    let db = test_db();
    let txns =
        get_transactions(&db, Some("acc2"), None, None, 500, None, None, None, None, None).unwrap();
    assert_eq!(txns.len(), 1);
    assert_eq!(txns[0].amount_cents, -3000);
}

#[test]
fn get_transactions_filter_by_date() {
    let db = test_db();
    let txns = get_transactions(
        &db, None, Some(20240201), Some(20240228), 500, None, None, None, None, None,
    )
    .unwrap();
    assert_eq!(txns.len(), 1);
    assert_eq!(txns[0].date, "2024-02-01");
}

#[test]
fn list_categories_groups_and_children() {
    let db = test_db();
    let groups = list_categories(&db).unwrap();
    assert_eq!(groups.len(), 1);
    assert_eq!(groups[0].name, "Bills");
    assert_eq!(groups[0].categories.len(), 2);
}

#[test]
fn list_payees_count() {
    let db = test_db();
    let payees = list_payees(&db).unwrap();
    assert_eq!(payees.len(), 2);
}

#[test]
fn get_budget_month_totals() {
    let db = test_db();
    let (start, end) = month_bounds("2024-01").unwrap();
    let bm = get_budget_month(&db, "2024-01", start, end).unwrap();
    assert_eq!(bm.month, "2024-01");
    // Both categories have data
    assert_eq!(bm.categories.len(), 2);
    let groceries = bm.categories.iter().find(|c| c.category_name == "Groceries").unwrap();
    assert_eq!(groceries.budgeted_cents, 60000);
    // Spending: t1 (-5000) from acc1 + t4 (-3000) from acc2 = -8000
    assert_eq!(groceries.spent_cents, -8000);
}

#[test]
fn monthly_summary_sums_correctly() {
    let db = test_db();
    let (start, _) = month_bounds("2024-01").unwrap();
    let (_, end) = month_bounds("2024-02").unwrap();
    let summary = monthly_summary(&db, start, end).unwrap();
    assert!(!summary.is_empty());
    let jan = summary.iter().find(|m| m.month == "2024-01").unwrap();
    assert_eq!(jan.income_cents, 0);
    // -5000 + -2000 + -3000 = -10000
    assert_eq!(jan.expenses_cents, -10000);
    let feb = summary.iter().find(|m| m.month == "2024-02").unwrap();
    assert_eq!(feb.income_cents, 100000);
}

/// Months are kept as integers (e.g. 202401).
fn test_db_int_months() -> Budget {
    Budget {
        category_groups: vec![group("grp1", "Bills", 1)],
        categories: vec![
            category("cat1", "Groceries", "grp1", 1),
            category("cat2", "Utilities", "grp1", 2),
        ],
        transactions: vec![
            transaction("t1", "acc1", 20240115, -5000, Some("pay1"), Some("shop"), Some("cat1"), 0, 0),
            transaction("t2", "acc1", 20240120, -2000, Some("pay2"), None, Some("cat2"), 0, 0),
        ],
        zero_budgets: vec![allotment(202401, "cat1", 60000), allotment(202401, "cat2", 10000)],
        ..nothing()
    }
}

#[test]
fn get_budget_month_with_integer_month_storage() {
    let db = test_db_int_months();
    let (start, end) = month_bounds("2024-01").unwrap();
    let bm = get_budget_month(&db, "2024-01", start, end).unwrap();
    assert_eq!(bm.month, "2024-01");
    assert_eq!(bm.categories.len(), 2);
    let groceries = bm.categories.iter().find(|c| c.category_name == "Groceries").unwrap();
    assert_eq!(groceries.budgeted_cents, 60000);
    assert_eq!(groceries.spent_cents, -5000);
}

#[test]
fn spending_by_category_expenses_only() {
    let db = test_db();
    let spending = spending_by_category(&db, 20240101, 20240131).unwrap();
    // Only expenses (negative), both in Jan
    assert_eq!(spending.len(), 2);
    for s in &spending {
        assert!(s.total_cents < 0, "expected negative total");
    }
}

#[test]
fn get_transactions_empty_account_id_returns_zero_not_all() {
    // An empty account id is a value like any other, and no account has it.
    let db = test_db();
    let txns =
        get_transactions(&db, Some(""), None, None, 500, None, None, None, None, None).unwrap();
    assert_eq!(txns.len(), 0, "empty account_id should match no accounts");
}

#[test]
fn get_transactions_filter_by_min_amount() {
    let db = test_db();
    // min -2000 includes t2 (-2000) and t3 (100000) but not t1 (-5000) or t4 (-3000)
    let txns =
        get_transactions(&db, None, None, None, 500, Some(-2000), None, None, None, None).unwrap();
    assert_eq!(txns.len(), 2);
    assert!(txns.iter().all(|t| t.amount_cents >= -2000));
}

#[test]
fn get_transactions_filter_by_max_amount() {
    let db = test_db();
    // max -2000 includes only the expenses <= -2000: t1 (-5000), t2 (-2000), t4 (-3000)
    let txns =
        get_transactions(&db, None, None, None, 500, None, Some(-2000), None, None, None).unwrap();
    assert_eq!(txns.len(), 3);
    assert!(txns.iter().all(|t| t.amount_cents <= -2000));
}

#[test]
fn get_transactions_filter_by_category_name() {
    let db = test_db();
    let txns =
        get_transactions(&db, None, None, None, 500, None, None, Some("Groceries"), None, None)
            .unwrap();
    assert_eq!(txns.len(), 2); // t1 and t4
    assert!(txns.iter().all(|t| t.category == "Groceries"));
}

#[test]
fn get_transactions_filter_by_category_id() {
    let db = test_db();
    let txns =
        get_transactions(&db, None, None, None, 500, None, None, Some("cat1"), None, None).unwrap();
    assert_eq!(txns.len(), 2); // t1 and t4
}

#[test]
fn get_transactions_filter_by_payee_partial() {
    let db = test_db();
    // "Grocery" matches "Grocery Store"
    let txns =
        get_transactions(&db, None, None, None, 500, None, None, None, Some("Grocery"), None)
            .unwrap();
    assert_eq!(txns.len(), 2); // t1 and t4

    // "Electric" matches "Electric Co"
    let txns2 =
        get_transactions(&db, None, None, None, 500, None, None, None, Some("Electric"), None)
            .unwrap();
    assert_eq!(txns2.len(), 1); // t2
}

#[test]
fn net_worth_on_budget_accounts_only() {
    // acc1 (on-budget): -5000 + -2000 + 100000 = 93000
    // acc2 (on-budget): -3000
    // net worth = 93000 + (-3000) = 90000
    let db = test_db();
    let nw = net_worth(&db).unwrap();
    assert_eq!(nw, 90000);
}

#[test]
fn get_budget_month_includes_cents_totals() {
    let db = test_db();
    let (start, end) = month_bounds("2024-01").unwrap();
    let bm = get_budget_month(&db, "2024-01", start, end).unwrap();
    // Verify cents totals are present and consistent with display values
    assert_eq!(bm.total_budgeted_cents, bm.categories.iter().map(|c| c.budgeted_cents).sum::<i64>());
    assert_eq!(bm.total_spent_cents, bm.categories.iter().map(|c| c.spent_cents).sum::<i64>());
    assert_eq!(bm.total_balance_cents, bm.total_budgeted_cents + bm.total_spent_cents);
}

/// One normal transaction and a split: the parent holds the total without a
/// category, each child its own category and amount.
fn test_db_splits() -> Budget {
    Budget {
        accounts: vec![account("acc1", "Checking", "checking", 0, 0, 1)],
        category_groups: vec![group("grp1", "Bills", 1)],
        categories: vec![
            category("cat1", "Groceries", "grp1", 1),
            category("cat2", "Utilities", "grp1", 2),
        ],
        transactions: vec![
            transaction("n1", "acc1", 20240115, -1000, None, None, Some("cat1"), 0, 0),
            transaction("p1", "acc1", 20240116, -5000, None, None, None, 0, 1),
            transaction("c1", "acc1", 20240116, -2000, None, None, Some("cat1"), 1, 0),
            transaction("c2", "acc1", 20240116, -3000, None, None, Some("cat2"), 1, 0),
        ],
        zero_budgets: vec![allotment(202401, "cat1", 60000), allotment(202401, "cat2", 10000)],
        ..nothing()
    }
}

#[test]
fn spending_by_category_counts_split_children_not_parent() {
    let db = test_db_splits();
    let spending = spending_by_category(&db, 20240101, 20240131).unwrap();
    // Categorized spend lives on children + normal rows; the split parent
    // (NULL category, -5000) must NOT appear as an "Uncategorized" row.
    assert!(
        !spending.iter().any(|s| s.category_name == "Uncategorized"),
        "split parent should be excluded, not surface as Uncategorized"
    );
    let groceries = spending.iter().find(|s| s.category_name == "Groceries").unwrap();
    // n1 (-1000) + c1 (-2000)
    assert_eq!(groceries.total_cents, -3000);
    let utilities = spending.iter().find(|s| s.category_name == "Utilities").unwrap();
    // c2 (-3000)
    assert_eq!(utilities.total_cents, -3000);
}

#[test]
fn get_budget_month_counts_split_children() {
    let db = test_db_splits();
    let (start, end) = month_bounds("2024-01").unwrap();
    let bm = get_budget_month(&db, "2024-01", start, end).unwrap();
    let groceries = bm.categories.iter().find(|c| c.category_name == "Groceries").unwrap();
    assert_eq!(groceries.spent_cents, -3000); // n1 + c1
    let utilities = bm.categories.iter().find(|c| c.category_name == "Utilities").unwrap();
    assert_eq!(utilities.spent_cents, -3000); // c2
}

#[test]
fn balances_count_split_parent_not_children() {
    // Account balance / net worth must count the parent total once and skip
    // the children, to avoid double-counting the split.
    let db = test_db_splits();
    let accounts = list_accounts(&db).unwrap();
    let acc1 = accounts.iter().find(|a| a.id == "acc1").unwrap();
    // n1 (-1000) + parent p1 (-5000); children excluded.
    assert_eq!(acc1.balance_cents, -6000);
    assert_eq!(net_worth(&db).unwrap(), -6000);
}

/// A tracking budget keeps its amounts in the other table.
fn test_db_tracking_budget() -> Budget {
    Budget {
        category_groups: vec![group("grp1", "Bills", 1)],
        categories: vec![category("cat1", "Groceries", "grp1", 1)],
        reflect_budgets: vec![allotment(202401, "cat1", 45000)],
        ..nothing()
    }
}

#[test]
fn get_budget_month_reads_tracking_budget_table() {
    let db = test_db_tracking_budget();
    let (start, end) = month_bounds("2024-01").unwrap();
    let bm = get_budget_month(&db, "2024-01", start, end).unwrap();
    let groceries = bm.categories.iter().find(|c| c.category_name == "Groceries").unwrap();
    assert_eq!(groceries.budgeted_cents, 45000);
}

/// 'old' was merged into 'keep' and deleted; the mapping leads there.
fn test_db_merged_payee() -> Budget {
    Budget {
        payees: vec![payee("keep", "Grocery Store", 0), payee("old", "Old Grocery", 1)],
        payee_mapping: vec![mapping("keep", "keep"), mapping("old", "keep")],
        transactions: vec![transaction(
            "t1", "acc1", 20240115, -5000, Some("old"), None, None, 0, 0,
        )],
        ..nothing()
    }
}

#[test]
fn get_transactions_resolves_merged_payee() {
    let db = test_db_merged_payee();
    let txns = get_transactions(&db, None, None, None, 500, None, None, None, None, None).unwrap();
    assert_eq!(txns.len(), 1);
    assert_eq!(txns[0].payee, "Grocery Store");
}

#[test]
fn balance_history_running_balance_correct() {
    //   acc1 Jan 2024: -5000 + -2000 = -7000 net; running = -7000
    //   acc1 Feb 2024: +100000 net; running = 93000
    //   acc2 Jan 2024: -3000 net; running = -3000
    // All accounts Jan: -7000 + -3000 = -10000; Feb: running = 90000
    let db = test_db();

    // Single account history
    let history = balance_history(&db, Some("acc1"), 202401, 202402).unwrap();
    assert_eq!(history.len(), 2);
    assert_eq!(history[0].month, "2024-01");
    assert_eq!(history[0].net_change_cents, -7000);
    assert_eq!(history[0].balance_cents, -7000);
    assert_eq!(history[1].month, "2024-02");
    assert_eq!(history[1].net_change_cents, 100000);
    assert_eq!(history[1].balance_cents, 93000);

    // All accounts (no filter)
    let all = balance_history(&db, None, 202401, 202402).unwrap();
    assert_eq!(all.len(), 2);
    assert_eq!(all[0].balance_cents, -10000); // Jan: -7000 + -3000
    assert_eq!(all[1].balance_cents, 90000); // Feb: -10000 + 100000
}

#[test]
fn balance_history_start_ym_excludes_earlier_months() {
    // Requesting only Feb should still show the correct cumulative balance
    // (i.e. the Jan transactions are counted in the running total even though
    // Jan is not in the output range).
    let db = test_db();
    let history = balance_history(&db, Some("acc1"), 202402, 202402).unwrap();
    assert_eq!(history.len(), 1);
    assert_eq!(history[0].month, "2024-02");
    assert_eq!(history[0].balance_cents, 93000); // includes Jan's -7000
}

fn rule(id: &str, stage: Option<&str>, op: &str, conditions: &str, actions: &str, tombstone: i64) -> RuleRow {
    RuleRow {
        id: text(id),
        stage: stage.map(str::to_string),
        conditions_op: text(op),
        conditions: text(conditions),
        actions: text(actions),
        tombstone: Some(tombstone),
    }
}

fn test_db_rules() -> Budget {
    Budget {
        rules: vec![
            rule(
                "rule1",
                Some("pre"),
                "and",
                "[{\"field\":\"payee\",\"op\":\"is\",\"value\":\"pay1\"}]",
                "[{\"op\":\"set\",\"field\":\"category\",\"value\":\"cat1\"}]",
                0,
            ),
            rule(
                "rule2",
                None,
                "or",
                "[{\"field\":\"notes\",\"op\":\"contains\",\"value\":\"salary\"}]",
                "[{\"op\":\"set\",\"field\":\"category\",\"value\":\"income-cat\"}]",
                0,
            ),
            // tombstoned rule should be excluded
            rule("rule3", None, "and", "[]", "[]", 1),
        ],
        ..nothing()
    }
}

#[test]
fn get_rules_returns_active_rules_only() {
    let db = test_db_rules();
    let rules = get_rules(&db).unwrap();
    assert_eq!(rules.len(), 2, "tombstoned rule must be excluded");
    let pre_rule = rules.iter().find(|r| r.id == "rule1").unwrap();
    assert_eq!(pre_rule.stage, Some("pre".to_string()));
    assert_eq!(pre_rule.conditions_op, "and");
    assert!(pre_rule.conditions.is_array());
    assert!(pre_rule.actions.is_array());

    let null_stage_rule = rules.iter().find(|r| r.id == "rule2").unwrap();
    assert_eq!(null_stage_rule.stage, None);
    assert_eq!(null_stage_rule.conditions_op, "or");
}

#[test]
fn get_transactions_filter_by_notes() {
    let db = test_db();
    // t1 has notes "weekly shop", t3 has notes "salary"; t2 and t4 have no notes
    let txns = get_transactions(&db, None, None, None, 500, None, None, None, None, Some("shop"))
        .unwrap();
    assert_eq!(txns.len(), 1);
    assert_eq!(txns[0].id, "t1");

    let txns2 =
        get_transactions(&db, None, None, None, 500, None, None, None, None, Some("SALARY"))
            .unwrap();
    assert_eq!(txns2.len(), 1);
    assert_eq!(txns2[0].id, "t3");

    // Non-matching notes returns empty
    let txns3 = get_transactions(&db, None, None, None, 500, None, None, None, None, Some("zzz"))
        .unwrap();
    assert_eq!(txns3.len(), 0);
}

#[test]
fn spending_by_payee_sums_and_orders() {
    let db = test_db();
    // Jan: t1 pay1 -5000, t2 pay2 -2000, t4 pay1 -3000; t3 is income (+100000), skipped
    let spending = spending_by_payee(&db, 20240101, 20240131).unwrap();
    assert_eq!(spending.len(), 2);
    // Ordered most-spent first (most negative total first)
    let grocery = spending.iter().find(|s| s.payee_name == "Grocery Store").unwrap();
    assert_eq!(grocery.total_cents, -8000); // t1 + t4
    assert_eq!(grocery.transaction_count, 2);
    let electric = spending.iter().find(|s| s.payee_name == "Electric Co").unwrap();
    assert_eq!(electric.total_cents, -2000);
}

#[test]
fn uncategorized_transactions_excludes_split_parents() {
    let db = test_db_splits();
    // p1 is a split parent (is_parent=1, category=NULL) — must be excluded
    // n1 has category cat1 — not uncategorized
    // c1 and c2 are children (is_child=1) — excluded
    // No remaining regular uncategorized rows → empty result
    let txns = uncategorized_transactions(&db, None, None, None, 500).unwrap();
    assert_eq!(txns.len(), 0, "split parent with NULL category must not appear");
}

#[test]
fn uncategorized_transactions_returns_uncategorized() {
    // t3 (salary) has no category; t1, t2, t4 are categorized
    let db = test_db();
    let txns = uncategorized_transactions(&db, None, None, None, 500).unwrap();
    assert_eq!(txns.len(), 1);
    assert_eq!(txns[0].id, "t3");
    assert_eq!(txns[0].category, "");
}

#[test]
fn uncategorized_transactions_filters_by_account() {
    let db = test_db();
    // acc2 only has t4 which IS categorized; no uncategorized transactions in acc2
    let txns = uncategorized_transactions(&db, Some("acc2"), None, None, 500).unwrap();
    assert_eq!(txns.len(), 0);
}

// ── Further cases ────────────────────────────────────────────────────────────

#[test]
fn the_newest_transactions_come_first() {
    let db = test_db();
    assert_eq!(ids(&all(&db)), vec!["t3", "t2", "t1", "t4"]);
    let two = get_transactions(&db, None, None, None, 2, None, None, None, None, None).unwrap();
    assert_eq!(ids(&two), vec!["t3", "t2"]);
    let none = get_transactions(&db, None, None, None, 0, None, None, None, None, None).unwrap();
    assert!(none.is_empty());
    let unlimited =
        get_transactions(&db, None, None, None, -1, None, None, None, None, None).unwrap();
    assert_eq!(unlimited.len(), 4);
}

#[test]
fn a_transaction_is_shown_in_full() {
    let t = &all(&test_db())[2];
    assert_eq!(t.id, "t1");
    assert_eq!(t.date, "2024-01-15");
    assert_eq!(t.amount_cents, -5000);
    assert_eq!(t.amount_display, "-$50.00");
    assert_eq!(t.payee, "Grocery Store");
    assert_eq!(t.category, "Groceries");
    assert_eq!(t.notes, "weekly shop");
    assert!(t.cleared);
    assert!(!t.reconciled);
}

#[test]
fn categories_are_asked_for_whatever_the_case() {
    let db = test_db();
    for wanted in ["groceries", "GROCERIES", "CAT1"] {
        let found =
            get_transactions(&db, None, None, None, 9, None, None, Some(wanted), None, None)
                .unwrap();
        assert_eq!(ids(&found), vec!["t1", "t4"], "{wanted}");
    }
}

#[test]
fn an_empty_part_of_a_name_is_in_every_name() {
    let db = test_db();
    let found = get_transactions(&db, None, None, None, 9, None, None, None, Some(""), Some(""))
        .unwrap();
    assert_eq!(found.len(), 4);
}

#[test]
fn the_reserved_category_counts_as_uncategorized() {
    let mut db = test_db();
    db.categories.push(category("cat0", "Uncategorized", "grp1", 3));
    db.transactions[1].category = text("cat0");
    let found = uncategorized_transactions(&db, None, None, None, 9).unwrap();
    assert_eq!(ids(&found), vec!["t3", "t2"]);
    assert_eq!(found[1].category, "");
    let late = uncategorized_transactions(&db, None, Some(20240201), None, 9).unwrap();
    assert_eq!(ids(&late), vec!["t3"]);
    let early = uncategorized_transactions(&db, None, None, Some(20240131), 9).unwrap();
    assert_eq!(ids(&early), vec!["t2"]);
}

#[test]
fn transactions_by_the_name_of_their_category() {
    let db = test_db();
    let found = transactions_by_category_regex(&db, "grocer", None, None, None, 9).unwrap();
    assert_eq!(ids(&found), vec!["t1", "t4"]);
    let found = transactions_by_category_regex(&db, "^Util|^Groc", None, None, None, 9).unwrap();
    assert_eq!(ids(&found), vec!["t2", "t1", "t4"]);
    let found = transactions_by_category_regex(&db, ".*", Some("acc1"), None, None, 1).unwrap();
    assert_eq!(ids(&found), vec!["t2"]);
    assert!(transactions_by_category_regex(&db, "", None, None, None, 9).unwrap().is_empty());
}

#[test]
fn deleted_rows_count_nowhere() {
    let mut db = test_db();
    let before = list_accounts(&db).unwrap()[0].balance_cents;
    db.transactions.push(TransactionRow {
        tombstone: Some(1),
        ..transaction("t9", "acc1", 20240110, -77, Some("pay1"), None, Some("cat1"), 0, 0)
    });
    db.transactions.push(TransactionRow {
        tombstone: None,
        ..transaction("t8", "acc1", 20240110, -77, Some("pay1"), None, Some("cat1"), 0, 0)
    });
    assert_eq!(list_accounts(&db).unwrap()[0].balance_cents, before);
    assert_eq!(net_worth(&db).unwrap(), 90000);
    assert_eq!(all(&db).len(), 4);
    assert_eq!(spending_by_payee(&db, 20240101, 20240131).unwrap()[0].total_cents, -8000);
    assert_eq!(spending_by_category(&db, 20240101, 20240131).unwrap()[0].total_cents, -8000);
    db.accounts[0].tombstone = Some(1);
    assert_eq!(list_accounts(&db).unwrap().len(), 1);
    assert_eq!(net_worth(&db).unwrap(), -3000);
}

#[test]
fn parts_of_a_split_change_no_balance_and_wholes_no_category() {
    let mut db = test_db_splits();
    let worth = net_worth(&db).unwrap();
    let spent = spending_by_category(&db, 20240101, 20240131).unwrap().len();
    db.transactions.push(transaction("c3", "acc1", 20240117, -9, None, None, Some("cat1"), 1, 0));
    assert_eq!(net_worth(&db).unwrap(), worth);
    db.transactions.push(transaction("p3", "acc1", 20240117, -9, None, None, None, 0, 1));
    assert_eq!(spending_by_category(&db, 20240101, 20240131).unwrap().len(), spent);
    assert_eq!(net_worth(&db).unwrap(), worth - 9);
}

#[test]
fn net_worth_is_the_sum_of_the_open_balances() {
    let mut db = test_db();
    db.accounts.push(account("acc3", "House", "mortgage", 1, 0, 3));
    db.accounts.push(account("acc4", "Old", "checking", 0, 1, 4));
    db.transactions.push(transaction("t5", "acc3", 20240101, 555, None, None, None, 0, 0));
    db.transactions.push(transaction("t6", "acc4", 20240101, 666, None, None, None, 0, 0));
    let accounts = list_accounts(&db).unwrap();
    assert_eq!(accounts.len(), 4);
    let open: i64 =
        accounts.iter().filter(|a| !a.closed && !a.offbudget).map(|a| a.balance_cents).sum();
    assert_eq!(net_worth(&db).unwrap(), open);
    assert_eq!(open, 90000);
}

#[test]
fn accounts_come_in_their_order() {
    let mut db = test_db();
    db.accounts[0].sort_order = Some(5);
    db.accounts.push(AccountRow { sort_order: None, account_type: None, ..account("acc0", "Zed", "", 0, 0, 0) });
    let names: Vec<String> = list_accounts(&db).unwrap().into_iter().map(|a| a.name).collect();
    assert_eq!(names, vec!["Zed", "Savings", "Checking"]);
    let zed = &list_accounts(&db).unwrap()[0];
    assert_eq!(zed.account_type, "other");
    assert_eq!(zed.balance_cents, 0);
    assert_eq!(zed.balance_display, "$0.00");
}

#[test]
fn months_account_for_all() {
    let db = test_db();
    let months = monthly_summary(&db, 20240101, 20240301).unwrap();
    assert_eq!(months.len(), 2);
    assert_eq!(months[0].month, "2024-01");
    assert_eq!(months[0].net_cents, -10000);
    assert_eq!(months[0].net_display, "-$100.00");
    assert_eq!(months.iter().map(|m| m.net_cents).sum::<i64>(), 90000);
    assert!(monthly_summary(&db, 20250101, 20250201).unwrap().is_empty());
    // The end is not part of the range.
    assert_eq!(monthly_summary(&db, 20240101, 20240201).unwrap().len(), 1);
}

#[test]
fn spending_accounts_for_all() {
    let mut db = test_db();
    db.transactions.push(transaction("t5", "acc1", 20240131, -1, None, None, None, 0, 0));
    let by_category = spending_by_category(&db, 20240101, 20240131).unwrap();
    let names: Vec<&str> = by_category.iter().map(|c| c.category_name.as_str()).collect();
    assert_eq!(names, vec!["Groceries", "Utilities", "Uncategorized"]);
    assert_eq!(by_category[0].group_name, "Bills");
    assert_eq!(by_category[2].group_name, "");
    assert_eq!(by_category.iter().map(|c| c.total_cents).sum::<i64>(), -10001);
    assert_eq!(by_category.iter().map(|c| c.transaction_count).sum::<i64>(), 4);
    let by_payee = spending_by_payee(&db, 20240101, 20240131).unwrap();
    let names: Vec<&str> = by_payee.iter().map(|p| p.payee_name.as_str()).collect();
    assert_eq!(names, vec!["Grocery Store", "Electric Co", "No Payee"]);
    assert_eq!(by_payee.iter().map(|p| p.total_cents).sum::<i64>(), -10001);
    assert!(by_payee.iter().all(|p| p.total_cents < 0));
}

#[test]
fn merged_payees_are_summed_up_together() {
    let mut db = test_db_merged_payee();
    db.transactions.push(transaction("t2", "acc1", 20240116, -1, Some("keep"), None, None, 0, 0));
    let spending = spending_by_payee(&db, 20240101, 20240131).unwrap();
    assert_eq!(spending.len(), 1);
    assert_eq!(spending[0].payee_name, "Grocery Store");
    assert_eq!(spending[0].total_cents, -5001);
    assert_eq!(spending[0].total_display, "-$50.01");
}

#[test]
fn payees_of_one_name_are_summed_up_together() {
    let mut db = test_db();
    db.payees.push(payee("pay3", "Grocery Store", 0));
    db.payees.push(payee("pay4", "Gone", 1));
    db.transactions.push(transaction("t5", "acc1", 20240110, -7, Some("pay3"), None, None, 0, 0));
    db.transactions.push(transaction("t6", "acc1", 20240110, -1, Some("pay4"), None, None, 0, 0));
    db.transactions.push(transaction("t7", "acc1", 20240110, -2, None, None, None, 0, 0));
    db.transactions.push(transaction("t8", "acc1", 20240110, -4, Some("none"), None, None, 0, 0));
    let spending = spending_by_payee(&db, 20240101, 20240131).unwrap();
    let found: Vec<(&str, i64, i64)> = spending
        .iter()
        .map(|p| (p.payee_name.as_str(), p.total_cents, p.transaction_count))
        .collect();
    assert_eq!(
        found,
        vec![("Grocery Store", -8007, 3), ("Electric Co", -2000, 1), ("No Payee", -7, 3)]
    );
}

#[test]
fn hidden_and_deleted_categories_are_not_budgeted() {
    let mut db = test_db();
    db.categories[0].hidden = Some(1);
    let bm = get_budget_month(&db, "2024-01", 20240101, 20240201).unwrap();
    assert_eq!(bm.categories.len(), 1);
    let c = &bm.categories[0];
    assert_eq!((c.budgeted_cents, c.spent_cents, c.balance_cents), (10000, -2000, 8000));
    assert_eq!(c.group_name, "Bills");
    assert_eq!(c.balance_display, "$80.00");
    assert_eq!(bm.total_balance_display, "$80.00");
    db.categories[1].tombstone = Some(1);
    let bm = get_budget_month(&db, "2024-01", 20240101, 20240201).unwrap();
    assert!(bm.categories.is_empty());
    assert_eq!(bm.total_budgeted_cents, 0);
}

#[test]
fn a_month_is_looked_up_by_its_text_without_the_dash() {
    let db = test_db();
    let bm = get_budget_month(&db, "2024-1", 20240101, 20240201).unwrap();
    assert_eq!(bm.month, "2024-1");
    assert_eq!(bm.total_budgeted_cents, 0);
    assert_eq!(bm.total_spent_cents, -10000);
    let bm = get_budget_month(&db, "2024-02", 20240201, 20240301).unwrap();
    assert_eq!(bm.total_budgeted_cents, 0);
    assert_eq!(bm.total_spent_cents, 0);
}

#[test]
fn budgeted_categories_follow_their_groups() {
    let mut db = test_db();
    db.category_groups.push(group("grp0", "First", 0));
    db.categories.push(category("cat3", "Rent", "grp0", 9));
    let bm = get_budget_month(&db, "2024-01", 20240101, 20240201).unwrap();
    let names: Vec<&str> = bm.categories.iter().map(|c| c.category_name.as_str()).collect();
    assert_eq!(names, vec!["Rent", "Groceries", "Utilities"]);
    let groups = list_categories(&db).unwrap();
    assert_eq!(groups[0].name, "First");
    assert_eq!(groups[0].categories[0].name, "Rent");
    assert!(!groups[1].categories[0].hidden && !groups[1].is_income);
}

#[test]
fn payees_come_by_name() {
    let mut db = test_db();
    db.payees[1].transfer_acct = text("acc2");
    db.payees.push(payee("pay3", "Gone", 1));
    let payees = list_payees(&db).unwrap();
    assert_eq!(payees[0].name, "Electric Co");
    assert_eq!(payees[0].transfer_account_id.as_deref(), Some("acc2"));
    assert_eq!(payees[1].name, "Grocery Store");
    assert_eq!(payees.len(), 2);
}

#[test]
fn a_later_start_keeps_the_balances() {
    let db = test_db();
    let whole = balance_history(&db, None, 202401, 202412).unwrap();
    let late = balance_history(&db, None, 202402, 202412).unwrap();
    assert_eq!(late.len(), 1);
    assert_eq!(late[0].balance_cents, whole[1].balance_cents);
    assert_eq!(late[0].balance_display, "$900.00");
    assert_eq!(late[0].net_change_display, "$1000.00");
    assert!(balance_history(&db, None, 202401, 202312).unwrap().is_empty());
    assert!(balance_history(&db, Some("none"), 202401, 202412).unwrap().is_empty());
}

#[test]
fn each_balance_is_the_one_before_and_what_the_month_adds() {
    let mut db = test_db();
    db.transactions.push(transaction("t5", "acc1", 20240630, -77, None, None, None, 0, 0));
    db.transactions.push(transaction("t6", "acc1", 20231101, 40, None, None, None, 0, 0));
    db.transactions.push(transaction("t7", "acc1", 20240401, 999, None, None, None, 1, 0));
    let whole = balance_history(&db, None, 0, 202412).unwrap();
    let months: Vec<&str> = whole.iter().map(|e| e.month.as_str()).collect();
    assert_eq!(months, vec!["2023-11", "2024-01", "2024-02", "2024-06"]);
    let balances: Vec<i64> = whole.iter().map(|e| e.balance_cents).collect();
    assert_eq!(balances, vec![40, -9960, 90040, 89963]);
    for i in 1..whole.len() {
        assert_eq!(
            whole[i].balance_cents,
            whole[i - 1].balance_cents + whole[i].net_change_cents
        );
    }
    let late = balance_history(&db, None, 202402, 202402).unwrap();
    assert_eq!(late.len(), 1);
    assert_eq!(late[0].balance_cents, 90040);
}

#[test]
fn broken_rules_have_null_for_what_cannot_be_read() {
    let db = Budget {
        rules: vec![RuleRow {
            conditions_op: None,
            ..rule("r", None, "", "not json", "{\"a\":[1,2.5,\"x\",null,true]}", 0)
        }],
        ..nothing()
    };
    let rules = get_rules(&db).unwrap();
    assert_eq!(rules[0].conditions_op, "and");
    assert!(!rules[0].conditions.is_array());
    assert_eq!(rules[0].actions.array_field("a").unwrap().len(), 5);
    assert_eq!(rules[0].actions.array_field("a").unwrap()[0].as_i64(), Some(1));
}

#[test]
fn null_columns_are_errors() {
    let mut db = test_db();
    db.transactions[0].date = None;
    assert_eq!(
        get_transactions(&db, None, None, None, 9, None, None, None, None, None).unwrap_err(),
        DbError::NullColumn(1)
    );
    let mut db = test_db();
    db.transactions[0].amount = None;
    assert_eq!(
        get_transactions(&db, None, None, None, 9, None, None, None, None, None).unwrap_err(),
        DbError::NullColumn(2)
    );
    let mut db = test_db();
    db.transactions[2].id = None;
    assert_eq!(
        uncategorized_transactions(&db, None, None, None, 9).unwrap_err(),
        DbError::NullColumn(0)
    );
    let mut db = test_db();
    db.accounts[0].name = None;
    assert_eq!(list_accounts(&db).unwrap_err(), DbError::NullColumn(1));
    db.accounts[0].name = text("x");
    db.accounts[0].offbudget = None;
    assert_eq!(list_accounts(&db).unwrap_err(), DbError::NullColumn(3));
    db.accounts[0].offbudget = Some(0);
    db.accounts[0].closed = None;
    assert_eq!(list_accounts(&db).unwrap_err(), DbError::NullColumn(4));
    let mut db = test_db();
    db.categories[0].name = None;
    assert_eq!(list_categories(&db).unwrap_err(), DbError::NullColumn(1));
    let mut db = test_db_rules();
    db.rules[0].actions = None;
    assert_eq!(get_rules(&db).unwrap_err(), DbError::NullColumn(4));
    db.rules[0].conditions = None;
    assert_eq!(get_rules(&db).unwrap_err(), DbError::NullColumn(3));
}

#[test]
fn sums_that_do_not_fit_are_errors() {
    let mut db = test_db();
    db.transactions[0].amount = Some(i64::MIN);
    db.transactions[1].amount = Some(-1);
    assert_eq!(list_accounts(&db).unwrap_err(), DbError::IntegerOverflow);
    assert_eq!(net_worth(&db).unwrap_err(), DbError::IntegerOverflow);
    assert_eq!(monthly_summary(&db, 20240101, 20240201).unwrap_err(), DbError::IntegerOverflow);
    assert_eq!(balance_history(&db, None, 202401, 202402).unwrap_err(), DbError::IntegerOverflow);
    assert_eq!(
        get_budget_month(&db, "2024-01", 20240101, 20240201).unwrap_err(),
        DbError::IntegerOverflow
    );
    assert_eq!(
        spending_by_category(&db, 20240101, 20240131).unwrap_err(),
        DbError::IntegerOverflow
    );
}

#[test]
fn a_summary_of_extreme_months_succeeds() {
    let mut db = test_db();
    db.transactions.truncate(2);
    db.transactions[0].amount = Some(i64::MIN);
    db.transactions[1].amount = Some(i64::MAX);
    let months = monthly_summary(&db, 20240101, 20240201).unwrap();
    assert_eq!(months.len(), 1);
    assert_eq!(months[0].net_cents, -1);
    assert_eq!((months[0].income_cents, months[0].expenses_cents), (i64::MAX, i64::MIN));
}

#[test]
fn balances_count_from_the_beginning() {
    let mut db = test_db();
    db.transactions.push(transaction("t0", "acc1", 20200101, 7, None, None, None, 0, 0));
    let history = balance_history(&db, None, 202401, 202402).unwrap();
    assert_eq!(history.len(), 2);
    assert_eq!(history[0].balance_cents, 7 - 10000);
    assert_eq!(history[1].balance_cents, 7 + 90000);
    assert_eq!(history[1].net_change_cents, 100000);
}
