//! The queries over the tables give what SQLite gives for the same questions.

use liberado_actual_mcp::db::{
    balance_history, get_budget_month, get_transactions, list_accounts, list_categories,
    monthly_summary, net_worth, spending_by_category, spending_by_payee,
    uncategorized_transactions,
};
use liberado_actual_mcp::tables::{
    AccountRow, Budget, BudgetRow, CategoryGroupRow, CategoryRow, PayeeMappingRow, PayeeRow,
    TransactionRow,
};
use rusqlite::types::Value;
use rusqlite::Connection;

struct Dice(u64);

impl Dice {
    fn roll(&mut self, n: u64) -> u64 {
        self.0 = self.0.wrapping_mul(6364136223846793005).wrapping_add(1442695040888963407);
        (self.0 >> 33) % n
    }

    fn pick(&mut self, texts: &[&str]) -> Option<String> {
        let i = self.roll(texts.len() as u64 + 1) as usize;
        texts.get(i).map(|t| t.to_string())
    }

    fn some(&mut self, texts: &[&str]) -> Option<String> {
        let i = self.roll(texts.len() as u64) as usize;
        Some(texts[i].to_string())
    }

    fn flag(&mut self) -> Option<i64> {
        match self.roll(8) {
            0 => None,
            1 => Some(1),
            _ => Some(0),
        }
    }
}

const DATES: [i64; 6] = [20231231, 20240101, 20240115, 20240131, 20240201, 20240229];

fn budget(seed: u64) -> Budget {
    let mut d = Dice(seed);
    let mut b = Budget {
        accounts: vec![],
        category_groups: vec![],
        categories: vec![],
        payees: vec![],
        payee_mapping: vec![],
        transactions: vec![],
        zero_budgets: vec![],
        reflect_budgets: vec![],
        rules: vec![],
    };
    for (i, id) in ["a1", "a2", "a3"].iter().enumerate() {
        b.accounts.push(AccountRow {
            id: Some(id.to_string()),
            name: d.some(&["Main", "Side", "Zoo"]),
            account_type: d.pick(&["checking", "savings"]),
            offbudget: Some(d.roll(2) as i64),
            closed: Some((d.roll(4) / 3) as i64),
            tombstone: d.flag(),
            sort_order: Some(10 * d.roll(3) as i64 + i as i64),
        });
    }
    for (i, id) in ["g1", "g2"].iter().enumerate() {
        b.category_groups.push(CategoryGroupRow {
            id: Some(id.to_string()),
            name: d.some(&["Bills", "Fun"]),
            is_income: d.flag(),
            tombstone: d.flag(),
            sort_order: Some(10 * d.roll(3) as i64 + i as i64),
        });
    }
    for (i, id) in ["c1", "c2", "c3", "c4"].iter().enumerate() {
        b.categories.push(CategoryRow {
            id: Some(id.to_string()),
            name: d.some(&["Food", "Rent", "food", "Uncategorized"]),
            cat_group: d.pick(&["g1", "g2", "gone"]),
            is_income: d.flag(),
            hidden: d.flag(),
            tombstone: d.flag(),
            sort_order: Some(10 * d.roll(3) as i64 + i as i64),
        });
    }
    for id in ["p1", "p2", "p3"] {
        b.payees.push(PayeeRow {
            id: Some(id.to_string()),
            name: d.some(&["Shop", "Bakery", "SHOPPER"]),
            transfer_acct: None,
            tombstone: d.flag(),
        });
        if d.roll(3) > 0 {
            b.payee_mapping.push(PayeeMappingRow {
                id: Some(id.to_string()),
                target_id: d.pick(&["p1", "p2", "p3"]),
            });
        }
    }
    for i in 0..d.roll(25) {
        b.transactions.push(TransactionRow {
            id: Some(format!("t{i:02}")),
            acct: d.pick(&["a1", "a2", "a3"]),
            date: Some(DATES[d.roll(6) as usize]),
            amount: Some(d.roll(2000) as i64 - 1000),
            description: d.pick(&["p1", "p2", "p3", "px"]),
            notes: d.pick(&["weekly shop", "SHOP", ""]),
            category: d.pick(&["c1", "c2", "c3", "c4", "cx"]),
            cleared: d.flag(),
            reconciled: d.flag(),
            tombstone: d.flag(),
            is_child: d.flag(),
            is_parent: d.flag(),
        });
    }
    for i in 0..d.roll(5) {
        let row = BudgetRow {
            month: Some(202401 + d.roll(2) as i64),
            category: Some(format!("c{}", i + 1)),
            amount: Some(d.roll(900) as i64),
        };
        if d.roll(2) == 0 {
            b.zero_budgets.push(row);
        } else {
            b.reflect_budgets.push(row);
        }
    }
    b
}

fn t(x: &Option<String>) -> Value {
    match x {
        Some(s) => Value::Text(s.clone()),
        None => Value::Null,
    }
}

fn n(x: &Option<i64>) -> Value {
    match x {
        Some(v) => Value::Integer(*v),
        None => Value::Null,
    }
}

fn insert(conn: &Connection, table: &str, row: Vec<Value>) {
    let marks = vec!["?"; row.len()].join(",");
    let sql = format!("INSERT INTO {table} VALUES ({marks})");
    conn.execute(&sql, rusqlite::params_from_iter(row)).unwrap();
}

fn open(b: &Budget) -> Connection {
    let conn = Connection::open_in_memory().unwrap();
    conn.execute_batch(
        "CREATE TABLE accounts (id TEXT, name TEXT, type TEXT, offbudget INTEGER, closed INTEGER,
                                tombstone INTEGER, sort_order INTEGER);
         CREATE TABLE category_groups (id TEXT, name TEXT, is_income INTEGER, tombstone INTEGER,
                                       sort_order INTEGER);
         CREATE TABLE categories (id TEXT, name TEXT, cat_group TEXT, is_income INTEGER,
                                  hidden INTEGER, tombstone INTEGER, sort_order INTEGER);
         CREATE TABLE payees (id TEXT, name TEXT, transfer_acct TEXT, tombstone INTEGER);
         CREATE TABLE payee_mapping (id TEXT, targetId TEXT);
         CREATE TABLE transactions (id TEXT, acct TEXT, date INTEGER, amount INTEGER,
                                    description TEXT, notes TEXT, category TEXT, cleared INTEGER,
                                    reconciled INTEGER, tombstone INTEGER, is_child INTEGER,
                                    is_parent INTEGER);
         CREATE TABLE zero_budgets (month INTEGER, category TEXT, amount INTEGER);
         CREATE TABLE reflect_budgets (month INTEGER, category TEXT, amount INTEGER);",
    )
    .unwrap();
    for r in &b.accounts {
        insert(
            &conn,
            "accounts",
            vec![
                t(&r.id), t(&r.name), t(&r.account_type), n(&r.offbudget), n(&r.closed),
                n(&r.tombstone), n(&r.sort_order),
            ],
        );
    }
    for r in &b.category_groups {
        insert(
            &conn,
            "category_groups",
            vec![t(&r.id), t(&r.name), n(&r.is_income), n(&r.tombstone), n(&r.sort_order)],
        );
    }
    for r in &b.categories {
        insert(
            &conn,
            "categories",
            vec![
                t(&r.id), t(&r.name), t(&r.cat_group), n(&r.is_income), n(&r.hidden),
                n(&r.tombstone), n(&r.sort_order),
            ],
        );
    }
    for r in &b.payees {
        insert(
            &conn,
            "payees",
            vec![t(&r.id), t(&r.name), t(&r.transfer_acct), n(&r.tombstone)],
        );
    }
    for r in &b.payee_mapping {
        insert(&conn, "payee_mapping", vec![t(&r.id), t(&r.target_id)]);
    }
    for r in &b.transactions {
        insert(
            &conn,
            "transactions",
            vec![
                t(&r.id), t(&r.acct), n(&r.date), n(&r.amount), t(&r.description), t(&r.notes),
                t(&r.category), n(&r.cleared), n(&r.reconciled), n(&r.tombstone), n(&r.is_child),
                n(&r.is_parent),
            ],
        );
    }
    for r in &b.zero_budgets {
        insert(&conn, "zero_budgets", vec![n(&r.month), t(&r.category), n(&r.amount)]);
    }
    for r in &b.reflect_budgets {
        insert(&conn, "reflect_budgets", vec![n(&r.month), t(&r.category), n(&r.amount)]);
    }
    conn
}

/// The rows of a query, each as one text.
fn ask(conn: &Connection, sql: &str, args: Vec<Value>) -> Vec<String> {
    let mut stmt = conn.prepare(sql).unwrap();
    let width = stmt.column_count();
    let rows = stmt
        .query_map(rusqlite::params_from_iter(args), |row| {
            let mut line = Vec::new();
            for i in 0..width {
                line.push(match row.get::<usize, Value>(i)? {
                    Value::Null => "null".to_string(),
                    Value::Integer(v) => v.to_string(),
                    Value::Text(s) => s,
                    _ => "?".to_string(),
                });
            }
            Ok(line.join("|"))
        })
        .unwrap();
    rows.map(|r| r.unwrap()).collect()
}

fn date_of(text: &str) -> String {
    text.replace('-', "")
}

const SEEDS: u64 = 120;

#[test]
fn accounts_agree() {
    for seed in 0..SEEDS {
        let b = budget(seed);
        let expected = ask(
            &open(&b),
            "SELECT a.id, a.name, COALESCE(a.type, 'other'), a.offbudget, a.closed,
                    COALESCE(SUM(t.amount), 0)
             FROM accounts a
             LEFT JOIN transactions t ON t.acct = a.id AND t.tombstone = 0
               AND (t.is_child = 0 OR t.is_child IS NULL)
             WHERE a.tombstone = 0
             GROUP BY a.id, a.name, a.type, a.offbudget, a.closed, a.sort_order
             ORDER BY a.sort_order, a.name",
            vec![],
        );
        let got: Vec<String> = list_accounts(&b)
            .unwrap()
            .iter()
            .map(|a| {
                format!(
                    "{}|{}|{}|{}|{}|{}",
                    a.id, a.name, a.account_type, a.offbudget as i64, a.closed as i64,
                    a.balance_cents
                )
            })
            .collect();
        assert_eq!(got, expected, "seed {seed}");
        let worth = ask(
            &open(&b),
            "SELECT COALESCE(SUM(t.amount), 0) FROM transactions t
             JOIN accounts a ON a.id = t.acct AND a.tombstone = 0
             WHERE t.tombstone = 0 AND (t.is_child = 0 OR t.is_child IS NULL)
               AND a.closed = 0 AND a.offbudget = 0",
            vec![],
        );
        assert_eq!(worth, vec![net_worth(&b).unwrap().to_string()], "seed {seed}");
    }
}

#[test]
fn transactions_agree() {
    let sql = "SELECT t.id, t.date, t.amount, COALESCE(p.name, ''), COALESCE(c.name, ''),
                      COALESCE(t.notes, ''), COALESCE(t.cleared, 0), COALESCE(t.reconciled, 0)
               FROM transactions t
               LEFT JOIN payee_mapping pm ON pm.id = t.description
               LEFT JOIN payees p ON p.id = COALESCE(pm.targetId, t.description) AND p.tombstone = 0
               LEFT JOIN categories c ON c.id = t.category AND c.tombstone = 0
               WHERE t.tombstone = 0 AND (t.is_child = 0 OR t.is_child IS NULL)
                 AND (?1 IS NULL OR t.acct = ?1)
                 AND (?2 IS NULL OR t.date >= ?2)
                 AND (?3 IS NULL OR t.date <= ?3)
                 AND (?5 IS NULL OR t.amount >= ?5)
                 AND (?6 IS NULL OR t.amount <= ?6)
                 AND (?7 IS NULL OR LOWER(c.id) = LOWER(?7) OR LOWER(c.name) = LOWER(?7))
                 AND (?8 IS NULL OR INSTR(LOWER(COALESCE(p.name, '')), LOWER(?8)) > 0)
                 AND (?9 IS NULL OR INSTR(LOWER(COALESCE(t.notes, '')), LOWER(?9)) > 0)
               ORDER BY t.date DESC, t.id
               LIMIT ?4";
    for seed in 0..SEEDS {
        let b = budget(seed);
        let conn = open(&b);
        let mut d = Dice(seed + 1000);
        let account = d.pick(&["a1", "a2"]);
        let start = if d.roll(2) == 0 { Some(20240101) } else { None };
        let end = if d.roll(2) == 0 { Some(20240131) } else { None };
        let limit = d.roll(12) as i64 - 1;
        let low = if d.roll(3) == 0 { Some(-300) } else { None };
        let high = if d.roll(3) == 0 { Some(300) } else { None };
        let category = d.pick(&["FOOD", "c1", "C2", "", "rent"]);
        let payee = d.pick(&["shop", "", "BAKE"]);
        let notes = d.pick(&["shop", ""]);
        for round in 0..2 {
            let category = if round == 0 { category.clone() } else { None };
            let payee = if round == 0 { payee.clone() } else { None };
            let expected = ask(
                &conn,
                sql,
                vec![
                    t(&account), n(&start), n(&end), Value::Integer(limit), n(&low), n(&high),
                    t(&category), t(&payee), t(&notes),
                ],
            );
            let got: Vec<String> = get_transactions(
                &b, account.as_deref(), start, end, limit, low, high, category.as_deref(),
                payee.as_deref(), notes.as_deref(),
            )
            .unwrap()
            .iter()
            .map(|x| {
                format!(
                    "{}|{}|{}|{}|{}|{}|{}|{}",
                    x.id, date_of(&x.date), x.amount_cents, x.payee, x.category, x.notes,
                    x.cleared as i64, x.reconciled as i64
                )
            })
            .collect();
            assert_eq!(got, expected, "seed {seed}");
        }
    }
}

#[test]
fn uncategorized_agree() {
    for seed in 0..SEEDS {
        let b = budget(seed);
        let expected = ask(
            &open(&b),
            "SELECT t.id, COALESCE(p.name, '')
             FROM transactions t
             LEFT JOIN payee_mapping pm ON pm.id = t.description
             LEFT JOIN payees p ON p.id = COALESCE(pm.targetId, t.description) AND p.tombstone = 0
             LEFT JOIN categories c ON c.id = t.category AND c.tombstone = 0
             WHERE t.tombstone = 0 AND (t.is_child = 0 OR t.is_child IS NULL)
               AND (t.is_parent = 0 OR t.is_parent IS NULL)
               AND (t.category IS NULL OR c.name = 'Uncategorized')
             ORDER BY t.date DESC, t.id LIMIT 7",
            vec![],
        );
        let got: Vec<String> = uncategorized_transactions(&b, None, None, None, 7)
            .unwrap()
            .iter()
            .map(|x| format!("{}|{}", x.id, x.payee))
            .collect();
        assert_eq!(got, expected, "seed {seed}");
    }
}

#[test]
fn budgets_agree() {
    for seed in 0..SEEDS {
        let b = budget(seed);
        for (month, start, end) in
            [("2024-01", 20240101, 20240201), ("2024-02", 20240201, 20240301)]
        {
            let expected = ask(
                &open(&b),
                "SELECT c.id, c.name, COALESCE(cg.name, ''), COALESCE(zb.amount, 0),
                        COALESCE(ts.spent, 0)
                 FROM categories c
                 LEFT JOIN category_groups cg ON cg.id = c.cat_group AND cg.tombstone = 0
                 LEFT JOIN (
                     SELECT category, month, amount FROM zero_budgets
                     UNION ALL SELECT category, month, amount FROM reflect_budgets
                 ) zb ON zb.category = c.id AND zb.month = CAST(REPLACE(?1, '-', '') AS INTEGER)
                 LEFT JOIN (
                     SELECT category, SUM(amount) AS spent FROM transactions
                     WHERE tombstone = 0 AND (is_parent = 0 OR is_parent IS NULL)
                       AND date >= ?2 AND date < ?3
                     GROUP BY category
                 ) ts ON ts.category = c.id
                 WHERE c.tombstone = 0 AND COALESCE(c.hidden, 0) = 0
                 ORDER BY cg.sort_order, c.sort_order, c.name",
                vec![Value::Text(month.to_string()), Value::Integer(start), Value::Integer(end)],
            );
            let got: Vec<String> = get_budget_month(&b, month, start, end)
                .unwrap()
                .categories
                .iter()
                .map(|c| {
                    format!(
                        "{}|{}|{}|{}|{}",
                        c.category_id, c.category_name, c.group_name, c.budgeted_cents,
                        c.spent_cents
                    )
                })
                .collect();
            assert_eq!(got, expected, "seed {seed}");
        }
    }
}

#[test]
fn months_agree() {
    for seed in 0..SEEDS {
        let b = budget(seed);
        let conn = open(&b);
        let expected = ask(
            &conn,
            "SELECT (t.date / 100) AS ym,
                    SUM(CASE WHEN t.amount > 0 THEN t.amount ELSE 0 END),
                    SUM(CASE WHEN t.amount < 0 THEN t.amount ELSE 0 END)
             FROM transactions t
             WHERE t.tombstone = 0 AND (t.is_child = 0 OR t.is_child IS NULL)
               AND t.date >= 20240101 AND t.date < 20240301
             GROUP BY ym ORDER BY ym",
            vec![],
        );
        let got: Vec<String> = monthly_summary(&b, 20240101, 20240301)
            .unwrap()
            .iter()
            .map(|m| format!("{}|{}|{}", date_of(&m.month), m.income_cents, m.expenses_cents))
            .collect();
        assert_eq!(got, expected, "seed {seed}");
        for account in [None, Some("a1")] {
            let expected = ask(
                &conn,
                "SELECT month, month_net, balance FROM (
                     SELECT printf('%04d-%02d', ym / 100, ym % 100) AS month, ym, month_net,
                            SUM(month_net) OVER (ORDER BY ym ROWS BETWEEN UNBOUNDED PRECEDING
                                                 AND CURRENT ROW) AS balance
                     FROM (SELECT (t.date / 100) AS ym, SUM(t.amount) AS month_net
                           FROM transactions t
                           WHERE t.tombstone = 0 AND (t.is_child = 0 OR t.is_child IS NULL)
                             AND (?1 IS NULL OR t.acct = ?1) AND t.date / 100 <= 202402
                           GROUP BY ym))
                 WHERE ym >= 202401 ORDER BY ym",
                vec![t(&account.map(str::to_string))],
            );
            let got: Vec<String> = balance_history(&b, account, 202401, 202402)
                .unwrap()
                .iter()
                .map(|m| format!("{}|{}|{}", m.month, m.net_change_cents, m.balance_cents))
                .collect();
            assert_eq!(got, expected, "seed {seed}");
        }
    }
}

#[test]
fn spending_agrees() {
    for seed in 0..SEEDS {
        let b = budget(seed);
        let conn = open(&b);
        let mut expected = ask(
            &conn,
            "SELECT SUM(t.amount) AS total, COALESCE(c.name, 'Uncategorized'),
                    COALESCE(cg.name, ''), COUNT(*)
             FROM transactions t
             LEFT JOIN categories c ON c.id = t.category AND c.tombstone = 0
             LEFT JOIN category_groups cg ON cg.id = c.cat_group AND cg.tombstone = 0
             WHERE t.tombstone = 0 AND (t.is_parent = 0 OR t.is_parent IS NULL)
               AND t.amount < 0 AND t.date >= 20240101 AND t.date <= 20240131
             GROUP BY c.id ORDER BY total ASC",
            vec![],
        );
        let by_category = spending_by_category(&b, 20240101, 20240131).unwrap();
        assert!(by_category.windows(2).all(|w| w[0].total_cents <= w[1].total_cents));
        let mut got: Vec<String> = by_category
            .iter()
            .map(|c| {
                format!(
                    "{}|{}|{}|{}",
                    c.total_cents, c.category_name, c.group_name, c.transaction_count
                )
            })
            .collect();
        expected.sort();
        got.sort();
        assert_eq!(got, expected, "seed {seed}");
        let mut expected = ask(
            &conn,
            "SELECT SUM(t.amount) AS total, COALESCE(p.name, 'No Payee'), COUNT(*)
             FROM transactions t
             LEFT JOIN payee_mapping pm ON pm.id = t.description
             LEFT JOIN payees p ON p.id = COALESCE(pm.targetId, t.description) AND p.tombstone = 0
             WHERE t.tombstone = 0 AND (t.is_child = 0 OR t.is_child IS NULL)
               AND t.amount < 0 AND t.date >= 20240101 AND t.date <= 20240131
             GROUP BY COALESCE(p.name, 'No Payee') ORDER BY total ASC",
            vec![],
        );
        let mut got: Vec<String> = spending_by_payee(&b, 20240101, 20240131)
            .unwrap()
            .iter()
            .map(|p| format!("{}|{}|{}", p.total_cents, p.payee_name, p.transaction_count))
            .collect();
        expected.sort();
        got.sort();
        assert_eq!(got, expected, "seed {seed}");
    }
}

#[test]
fn categories_agree() {
    for seed in 0..SEEDS {
        let b = budget(seed);
        let conn = open(&b);
        let groups = list_categories(&b).unwrap();
        let got: Vec<String> =
            groups.iter().map(|g| format!("{}|{}|{}", g.id, g.name, g.is_income as i64)).collect();
        let expected = ask(
            &conn,
            "SELECT id, name, COALESCE(is_income, 0) FROM category_groups WHERE tombstone = 0
             ORDER BY sort_order, name",
            vec![],
        );
        assert_eq!(got, expected, "seed {seed}");
        for g in &groups {
            let got: Vec<String> = g
                .categories
                .iter()
                .map(|c| {
                    format!("{}|{}|{}|{}", c.id, c.name, c.is_income as i64, c.hidden as i64)
                })
                .collect();
            let expected = ask(
                &conn,
                "SELECT id, name, COALESCE(is_income, 0), COALESCE(hidden, 0) FROM categories
                 WHERE cat_group = ?1 AND tombstone = 0 ORDER BY sort_order, name",
                vec![Value::Text(g.id.clone())],
            );
            assert_eq!(got, expected, "seed {seed}");
        }
    }
}
