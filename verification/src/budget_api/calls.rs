//! The calls of the API, step by step.

use crate::budget_api::arguments::{
    clamp_limit, clamped_limit, encode_query, encoded, import_format, inbox_filename, loan_strategy,
    parse_import_format, parse_inbox_filename, parse_loan_strategy,
};
use crate::budget_api::documents::{no_members, parse_allocation_items, parsed_allocations};
use crate::budget_api::requests::{
    applies_rules, asked, asks_by_category, asks_loans, asks_projection, asks_summary,
    asks_uncategorized, budgets_allocations, budgets_amount, copies_budget, imports_statement,
    lemma_allocations_budgeted, lemma_by_category, lemma_category_patched, lemma_category_posted,
    lemma_rules_applied, lemma_summary, lemma_uncategorized, makes_rule, patches_category,
    pins_balance, posts_category, posts_payee, renames_payee, rolls_over, sets_category_of,
    sets_payee_of, transfers,
};
use crate::budget_api::steps::{
    reply_view, Method, Payload, PayloadView, Pending, PendingView, Request, RequestView, Source,
    SourceView, Step, StepView, Transfer, TransferView,
};
use crate::json::{document, item_views, parse_json, with_member, Json, JsonView};
use crate::text::{
    decimal, format_int, join3, same_text, str_or, strip_trailing, text_or, text_view, trim,
    trimmed, without_trailing,
};
use vstd::prelude::*;
use vstd::string::*;

verus! {

// ── Requests and replies ─────────────────────────────────────────────────────

/// The API at one base URL.
pub struct BudgetApi {
    pub base: String,
}

pub open spec fn get_of(base: Seq<char>, path: Seq<char>) -> RequestView {
    RequestView { method: Method::Get, url: base + path, payload: PayloadView::Nothing }
}

pub open spec fn post_of(base: Seq<char>, path: Seq<char>, body: JsonView) -> RequestView {
    RequestView { method: Method::Post, url: base + path, payload: PayloadView::Document(body) }
}

pub open spec fn patch_of(base: Seq<char>, path: Seq<char>, body: JsonView) -> RequestView {
    RequestView { method: Method::Patch, url: base + path, payload: PayloadView::Document(body) }
}

pub open spec fn put_of(base: Seq<char>, path: Seq<char>, body: JsonView) -> RequestView {
    RequestView { method: Method::Put, url: base + path, payload: PayloadView::Document(body) }
}

/// What a reply means: an error status is an error, an empty body is null, and
/// anything else is a document.
pub open spec fn reply_of(
    code: u16,
    status: Seq<char>,
    text: Seq<char>,
    parsed: Result<JsonView, Seq<char>>,
) -> Result<JsonView, Seq<char>> {
    if !(200 <= code < 300) {
        Err("budget API "@ + status + ": "@ + text)
    } else if trimmed(text).len() == 0 {
        Ok(JsonView::Null)
    } else {
        match parsed {
            Ok(doc) => Ok(doc),
            Err(message) => Err("budget API bad JSON: "@ + message),
        }
    }
}

/// Judges a reply whose body was read as `parsed`.
pub fn judge_reply(code: u16, status: &str, text: &str, parsed: Result<Json, String>) -> (r: Result<
    Json,
    String,
>)
    ensures
        reply_view(r) == reply_of(code, status@, text@, reply_view(parsed)),
{
    if !(200 <= code && code < 300) {
        let mut message = join3("budget API ", status, ": ");
        message.append(text);
        return Err(message);
    }
    if trim(text).is_empty() {
        return Ok(Json::Null);
    }
    match parsed {
        Ok(doc) => Ok(doc),
        Err(message) => Err("budget API bad JSON: ".to_string().concat(message.as_str())),
    }
}

impl BudgetApi {
    /// The API at the URL that is set; none where the setting is missing or empty.
    pub fn from_env(setting: Option<&str>) -> (r: Option<BudgetApi>)
        ensures
            match (r, setting) {
                (Some(api), Some(raw)) => api.base@ == without_trailing(trimmed(raw@), '/')
                    && api.base@.len() > 0,
                (None, Some(raw)) => without_trailing(trimmed(raw@), '/').len() == 0,
                (None, None) => true,
                (Some(_), None) => false,
            },
    {
        match setting {
            Some(raw) => {
                let base = strip_trailing(trim(raw), '/');
                if base.as_str().is_empty() {
                    None
                } else {
                    Some(BudgetApi { base })
                }
            },
            None => None,
        }
    }

    pub fn new(base: &str) -> (r: BudgetApi)
        ensures
            r.base@ == without_trailing(base@, '/'),
    {
        BudgetApi { base: strip_trailing(base, '/') }
    }

    pub fn url(&self, path: &str) -> (r: String)
        ensures
            r@ == self.base@ + path@,
    {
        self.base.clone().concat(path)
    }

    /// What a reply means, by its status and its text.
    pub fn json_response(code: u16, status: &str, text: &str) -> (r: Result<Json, String>)
        ensures
            reply_view(r) == reply_of(code, status@, text@, document(text@)),
    {
        judge_reply(code, status, text, parse_json(text))
    }

    pub fn get(&self, path: &str) -> (r: Request)
        ensures
            r@ == get_of(self.base@, path@),
    {
        Request { method: Method::Get, url: self.url(path), payload: Payload::Nothing }
    }

    pub fn post(&self, path: &str, body: Json) -> (r: Request)
        ensures
            r@ == post_of(self.base@, path@, body@),
    {
        Request { method: Method::Post, url: self.url(path), payload: Payload::Document(body) }
    }

    pub fn post_text(&self, path: &str, content_type: &str, body: &str) -> (r: Request)
        ensures
            r@ == (RequestView {
                method: Method::Post,
                url: self.base@ + path@,
                payload: PayloadView::Text { content_type: content_type@, body: body@ },
            }),
    {
        Request {
            method: Method::Post,
            url: self.url(path),
            payload: Payload::Text {
                content_type: content_type.to_string(),
                body: body.to_string(),
            },
        }
    }

    pub fn patch(&self, path: &str, body: Json) -> (r: Request)
        ensures
            r@ == patch_of(self.base@, path@, body@),
    {
        Request { method: Method::Patch, url: self.url(path), payload: Payload::Document(body) }
    }

    pub fn put(&self, path: &str, body: Json) -> (r: Request)
        ensures
            r@ == put_of(self.base@, path@, body@),
    {
        Request { method: Method::Put, url: self.url(path), payload: Payload::Document(body) }
    }
}

// ── What the calls send first ────────────────────────────────────────────────

pub open spec fn failed(message: Seq<char>) -> StepView {
    StepView::Finish(Err(message))
}

pub open spec fn with_text(body: JsonView, key: Seq<char>, value: Option<Seq<char>>) -> JsonView {
    match value {
        Some(t) => with_member(body, key, JsonView::Str(t)),
        None => body,
    }
}

pub open spec fn with_flag(body: JsonView, key: Seq<char>, value: Option<bool>) -> JsonView {
    match value {
        Some(b) => with_member(body, key, JsonView::Bool(b)),
        None => body,
    }
}

pub open spec fn one_member(key: Seq<char>, value: JsonView) -> JsonView {
    with_member(no_members(), key, value)
}

pub fn add_text(body: Json, key: &str, value: Option<&str>) -> (r: Json)
    ensures
        r@ == with_text(body@, key@, text_view(value)),
{
    match value {
        Some(t) => body.with(key, Json::string(t)),
        None => body,
    }
}

pub fn add_flag(body: Json, key: &str, value: Option<bool>) -> (r: Json)
    ensures
        r@ == with_flag(body@, key@, value),
{
    match value {
        Some(b) => body.with(key, Json::Bool(b)),
        None => body,
    }
}

pub fn member(key: &str, value: Json) -> (r: Json)
    ensures
        r@ == one_member(key@, value@),
{
    Json::empty_object().with(key, value)
}

pub open spec fn new_category_body(
    name: Seq<char>,
    kind: Option<Seq<char>>,
    group_name: Option<Seq<char>>,
) -> JsonView {
    with_text(
        with_member(
            one_member("name"@, JsonView::Str(name)),
            "kind"@,
            JsonView::Str(text_or(kind, "expense"@)),
        ),
        "group_name"@,
        group_name,
    )
}

pub open spec fn categories(base: Seq<char>) -> RequestView {
    get_of(base, "/api/v1/categories"@)
}

pub open spec fn accounts(base: Seq<char>) -> RequestView {
    get_of(base, "/api/v1/accounts"@)
}

pub open spec fn payees(base: Seq<char>) -> RequestView {
    get_of(base, "/api/v1/payees"@)
}

/// A category that is given as nothing, as "" or as "null" clears it.
pub open spec fn clears(category: Option<Seq<char>>) -> bool {
    category is None || category == Some(""@) || category == Some("null"@)
}

pub open spec fn category_patch(base: Seq<char>, tx_id: Seq<char>, category: JsonView) -> StepView {
    StepView::Send(
        patch_of(base, "/api/v1/transactions/"@ + tx_id, one_member("category_id"@, category)),
        PendingView::Confirmation,
    )
}

pub open spec fn set_category_step(base: Seq<char>, tx_id: Seq<char>, category: Option<Seq<char>>) -> StepView {
    if clears(category) {
        category_patch(base, tx_id, JsonView::Null)
    } else {
        StepView::Send(
            categories(base),
            PendingView::CategoryToSet { tx_id, wanted: category->0 },
        )
    }
}

pub open spec fn payee_rule_step(base: Seq<char>, payee_regex: Seq<char>, category: Seq<char>) -> StepView {
    let needle = trimmed(payee_regex);
    if needle.len() == 0 {
        failed("payee_regex is required"@)
    } else {
        StepView::Send(categories(base), PendingView::RuleCategory { needle, wanted: category })
    }
}

pub open spec fn with_query(
    query: Seq<char>,
    account_id: Option<Seq<char>>,
    start_date: Option<Seq<char>>,
    end_date: Option<Seq<char>>,
) -> Seq<char> {
    let with_account = match account_id {
        Some(a) => query + "&account_id="@ + a,
        None => query,
    };
    let with_start = match start_date {
        Some(s) => with_account + "&start_date="@ + s,
        None => with_account,
    };
    match end_date {
        Some(e) => with_start + "&end_date="@ + e,
        None => with_start,
    }
}

fn add_query(
    query: String,
    account_id: Option<&str>,
    start_date: Option<&str>,
    end_date: Option<&str>,
) -> (r: String)
    ensures
        r@ == with_query(
            query@,
            text_view(account_id),
            text_view(start_date),
            text_view(end_date),
        ),
{
    let mut q = query;
    if let Some(a) = account_id {
        q.append("&account_id=");
        q.append(a);
    }
    if let Some(s) = start_date {
        q.append("&start_date=");
        q.append(s);
    }
    if let Some(e) = end_date {
        q.append("&end_date=");
        q.append(e);
    }
    q
}

pub open spec fn apply_rules_body(account_id: Option<Seq<char>>, limit: Option<i64>) -> JsonView {
    let body = with_text(no_members(), "account_id"@, account_id);
    match limit {
        Some(l) => with_member(body, "limit"@, JsonView::Int(l as int)),
        None => body,
    }
}

pub open spec fn not_negative(n: Option<i64>) -> int {
    match n {
        Some(v) => if v < 0 {
            0
        } else {
            v as int
        },
        None => 0,
    }
}

pub open spec fn projection_step(
    base: Seq<char>,
    strategy: Option<Seq<char>>,
    extra_cents: Option<i64>,
) -> StepView {
    match loan_strategy(strategy) {
        Ok(strategy) => StepView::Send(
            get_of(
                base,
                "/api/v1/loans/projection?strategy="@ + strategy + "&extra_cents="@ + decimal(
                    not_negative(extra_cents),
                ),
            ),
            PendingView::Document,
        ),
        Err(message) => failed(message),
    }
}

/// The month of a summary, where one is given that is not blank.
pub open spec fn month_query(month: Option<Seq<char>>) -> Seq<char> {
    match month {
        Some(m) => if trimmed(m).len() > 0 {
            "month="@ + encoded(trimmed(m)) + "&"@
        } else {
            ""@
        },
        None => ""@,
    }
}

pub open spec fn summary_step(
    base: Seq<char>,
    month: Option<Seq<char>>,
    extra_cents: Option<i64>,
    strategy: Option<Seq<char>>,
) -> StepView {
    let extra = match extra_cents {
        Some(v) => v as int,
        None => 0,
    };
    match loan_strategy(strategy) {
        Ok(strategy) => if extra < 0 {
            failed("extra_cents must be >= 0"@)
        } else {
            StepView::Send(
                get_of(
                    base,
                    "/api/v1/summary?"@ + month_query(month) + "extra_cents="@ + decimal(extra)
                        + "&strategy="@ + strategy,
                ),
                PendingView::Document,
            )
        },
        Err(message) => failed(message),
    }
}

pub open spec fn both_sources_text() -> Seq<char> {
    "import_csv: pass csv text or inbox_file, not both (csv is the MCP body; inbox_file is a server-side filename)"@
}

pub open spec fn no_source_text() -> Seq<char> {
    "import_csv: csv (raw CSV text) or inbox_file (Liberado Budget import-inbox filename) is required"@
}

/// Where a statement comes from: its text as it is, or a file in the inbox, but
/// not both. A blank text is none.
pub open spec fn import_source(csv: Option<Seq<char>>, inbox_file: Option<Seq<char>>) -> Result<
    SourceView,
    Seq<char>,
> {
    let given = csv is Some && trimmed(csv->0).len() > 0;
    match inbox_file {
        None => if given {
            Ok(SourceView::Csv(csv->0))
        } else {
            Err(no_source_text())
        },
        Some(file) => if given {
            Err(both_sources_text())
        } else {
            match inbox_filename(file) {
                Ok(name) => Ok(SourceView::Inbox(name)),
                Err(message) => Err(message),
            }
        },
    }
}

pub open spec fn import_step(
    base: Seq<char>,
    account: Seq<char>,
    format: Option<Seq<char>>,
    csv: Option<Seq<char>>,
    inbox_file: Option<Seq<char>>,
) -> StepView {
    match (import_source(csv, inbox_file), import_format(format)) {
        (Err(message), _) => failed(message),
        (Ok(_), Err(message)) => failed(message),
        (Ok(source), Ok(format)) => StepView::Send(
            accounts(base),
            PendingView::AccountToImport { source, format, wanted: account },
        ),
    }
}

fn choose_source(csv: Option<&str>, inbox_file: Option<&str>) -> (r: Result<Source, String>)
    ensures
        match (r, import_source(text_view(csv), text_view(inbox_file))) {
            (Ok(source), Ok(expected)) => source@ == expected,
            (Err(message), Err(expected)) => message@ == expected,
            _ => false,
        },
{
    let given: Option<&str> = match csv {
        Some(text) => if trim(text).is_empty() {
            None
        } else {
            Some(text)
        },
        None => None,
    };
    match (given, inbox_file) {
        (Some(text), None) => Ok(Source::Csv(text.to_string())),
        (None, Some(file)) => match parse_inbox_filename(file) {
            Ok(name) => Ok(Source::Inbox(name)),
            Err(message) => Err(message),
        },
        (Some(_), Some(_)) => Err(
            "import_csv: pass csv text or inbox_file, not both (csv is the MCP body; inbox_file is a server-side filename)".to_string(),
        ),
        (None, None) => Err(
            "import_csv: csv (raw CSV text) or inbox_file (Liberado Budget import-inbox filename) is required".to_string(),
        ),
    }
}

pub open spec fn allocations_step(base: Seq<char>, month: Seq<char>, allocations: Seq<JsonView>) -> StepView {
    match parsed_allocations(allocations) {
        Ok(items) => StepView::Send(
            categories(base),
            PendingView::CategoriesToBudget { month, items },
        ),
        Err(message) => failed(message),
    }
}

pub open spec fn create_category_step(
    base: Seq<char>,
    name: Seq<char>,
    kind: Option<Seq<char>>,
    group_name: Option<Seq<char>>,
) -> StepView {
    StepView::Send(
        post_of(
            base,
            "/api/v1/categories"@,
            new_category_body(name, kind, group_name),
        ),
        PendingView::NewCategory,
    )
}

pub open spec fn update_category_step(
    base: Seq<char>,
    id_or_name: Seq<char>,
    name: Option<Seq<char>>,
    hidden: Option<bool>,
) -> StepView {
    StepView::Send(
        categories(base),
        PendingView::CategoryToUpdate {
            wanted: id_or_name,
            body: with_flag(
                with_text(no_members(), "name"@, name),
                "hidden"@,
                hidden,
            ),
        },
    )
}

pub open spec fn create_payee_step(base: Seq<char>, name: Seq<char>) -> StepView {
    StepView::Send(
        post_of(base, "/api/v1/payees"@, one_member("name"@, JsonView::Str(name))),
        PendingView::NewPayee,
    )
}

pub open spec fn rename_payee_step(
    base: Seq<char>,
    id_or_name: Seq<char>,
    new_name: Seq<char>,
) -> StepView {
    StepView::Send(
        payees(base),
        PendingView::PayeeToRename { wanted: id_or_name, new_name },
    )
}

pub open spec fn set_payee_step(base: Seq<char>, tx_id: Seq<char>, payee: Seq<char>) -> StepView {
    StepView::Send(
        patch_of(
            base,
            "/api/v1/transactions/"@ + tx_id,
            one_member("payee"@, JsonView::Str(payee)),
        ),
        PendingView::Confirmation,
    )
}

pub open spec fn uncategorized_step(
    base: Seq<char>,
    account_id: Option<Seq<char>>,
    start_date: Option<Seq<char>>,
    end_date: Option<Seq<char>>,
    limit: Option<i64>,
) -> StepView {
    StepView::Send(
        get_of(
            base,
            "/api/v1/transactions/uncategorized?"@ + with_query(
                "limit="@ + decimal(clamped_limit(limit, 50)),
                account_id,
                start_date,
                end_date,
            ),
        ),
        PendingView::Document,
    )
}

pub open spec fn by_category_step(
    base: Seq<char>,
    category_regex: Seq<char>,
    account_id: Option<Seq<char>>,
    start_date: Option<Seq<char>>,
    end_date: Option<Seq<char>>,
    limit: Option<i64>,
) -> StepView {
    StepView::Send(
        get_of(
            base,
            "/api/v1/transactions/by-category?"@ + with_query(
                "category_regex="@ + category_regex + "&limit="@ + decimal(
                    clamped_limit(limit, 50),
                ),
                account_id,
                start_date,
                end_date,
            ),
        ),
        PendingView::Document,
    )
}

pub open spec fn apply_rules_step(
    base: Seq<char>,
    account_id: Option<Seq<char>>,
    limit: Option<i64>,
) -> StepView {
    StepView::Send(
        post_of(
            base,
            "/api/v1/rules/apply"@,
            apply_rules_body(account_id, limit),
        ),
        PendingView::Document,
    )
}

pub open spec fn budget_amount_step(
    base: Seq<char>,
    month: Seq<char>,
    category: Seq<char>,
    amount_cents: int,
) -> StepView {
    StepView::Send(
        categories(base),
        PendingView::CategoryToBudget {
            month,
            wanted: category,
            amount_cents,
        },
    )
}

pub open spec fn copy_step(base: Seq<char>, month: Seq<char>, from_month: Seq<char>) -> StepView {
    StepView::Send(
        post_of(
            base,
            "/api/v1/budgets/"@ + month + "/copy"@,
            one_member("from_month"@, JsonView::Str(from_month)),
        ),
        PendingView::Document,
    )
}

pub open spec fn rollover_step(
    base: Seq<char>,
    month: Seq<char>,
    from_month: Seq<char>,
) -> StepView {
    StepView::Send(
        post_of(
            base,
            "/api/v1/budgets/"@ + month + "/rollover"@,
            one_member("from_month"@, JsonView::Str(from_month)),
        ),
        PendingView::Document,
    )
}

pub open spec fn loans_step(base: Seq<char>) -> StepView {
    StepView::Send(get_of(base, "/api/v1/loans"@), PendingView::Document)
}

pub open spec fn transfer_step(
    base: Seq<char>,
    from_account: Seq<char>,
    to_account: Seq<char>,
    date: Seq<char>,
    amount_cents: int,
    notes: Option<Seq<char>>,
    cleared: Option<bool>,
) -> StepView {
    StepView::Send(
        accounts(base),
        PendingView::AccountToDebit {
            from: from_account,
            to: to_account,
            transfer: TransferView {
                date,
                amount_cents,
                notes,
                cleared,
            },
        },
    )
}

pub open spec fn pin_step(base: Seq<char>, account: Seq<char>, balance_cents: int) -> StepView {
    StepView::Send(
        accounts(base),
        PendingView::AccountToPin {
            wanted: account,
            balance_cents,
        },
    )
}

impl BudgetApi {
    pub fn create_category(&self, name: &str, kind: Option<&str>, group_name: Option<&str>) -> (r:
        Step)
        ensures
            r@ == create_category_step(self.base@, name@, text_view(kind), text_view(group_name)),
            posts_category(r@, self.base@, name@, text_view(kind), text_view(group_name)),
    {
        proof {
            lemma_category_posted(self.base@, name@, text_view(kind), text_view(group_name));
        }
        let body = member("name", Json::string(name)).with(
            "kind",
            Json::string(str_or(kind, "expense")),
        );
        Step::Send(
            self.post("/api/v1/categories", add_text(body, "group_name", group_name)),
            Pending::NewCategory,
        )
    }

    pub fn update_category(&self, id_or_name: &str, name: Option<&str>, hidden: Option<bool>) -> (r:
        Step)
        ensures
            r@ == update_category_step(self.base@, id_or_name@, text_view(name), hidden),
            patches_category(r@, self.base@, id_or_name@, text_view(name), hidden),
    {
        proof {
            lemma_category_patched(self.base@, id_or_name@, text_view(name), hidden);
        }
        Step::Send(
            self.get("/api/v1/categories"),
            Pending::CategoryToUpdate {
                wanted: id_or_name.to_string(),
                body: add_flag(add_text(Json::empty_object(), "name", name), "hidden", hidden),
            },
        )
    }

    pub fn create_payee(&self, name: &str) -> (r: Step)
        ensures
            r@ == create_payee_step(self.base@, name@),
            posts_payee(r@, self.base@, name@),
    {
        Step::Send(
            self.post("/api/v1/payees", member("name", Json::string(name))),
            Pending::NewPayee,
        )
    }

    pub fn rename_payee(&self, id_or_name: &str, new_name: &str) -> (r: Step)
        ensures
            r@ == rename_payee_step(self.base@, id_or_name@, new_name@),
            renames_payee(r@, self.base@, id_or_name@, new_name@),
    {
        Step::Send(
            self.get("/api/v1/payees"),
            Pending::PayeeToRename {
                wanted: id_or_name.to_string(),
                new_name: new_name.to_string(),
            },
        )
    }

    pub fn set_transaction_category(&self, tx_id: &str, category: Option<&str>) -> (r: Step)
        ensures
            r@ == set_category_step(self.base@, tx_id@, text_view(category)),
            sets_category_of(r@, self.base@, tx_id@, text_view(category)),
    {
        let path = "/api/v1/transactions/".to_string().concat(tx_id);
        match category {
            None => Step::Send(
                self.patch(path.as_str(), member("category_id", Json::Null)),
                Pending::Confirmation,
            ),
            Some(c) => if same_text(c, "") || same_text(c, "null") {
                Step::Send(
                    self.patch(path.as_str(), member("category_id", Json::Null)),
                    Pending::Confirmation,
                )
            } else {
                Step::Send(
                    self.get("/api/v1/categories"),
                    Pending::CategoryToSet { tx_id: tx_id.to_string(), wanted: c.to_string() },
                )
            },
        }
    }

    pub fn set_transaction_payee(&self, tx_id: &str, payee: &str) -> (r: Step)
        ensures
            r@ == set_payee_step(self.base@, tx_id@, payee@),
            sets_payee_of(r@, self.base@, tx_id@, payee@),
    {
        let path = "/api/v1/transactions/".to_string().concat(tx_id);
        Step::Send(
            self.patch(path.as_str(), member("payee", Json::string(payee))),
            Pending::Confirmation,
        )
    }

    /// A rule that puts the payees that a pattern matches into a category, unless
    /// there is one that does.
    pub fn create_payee_rule(&self, payee_regex: &str, category: &str) -> (r: Step)
        ensures
            r@ == payee_rule_step(self.base@, payee_regex@, category@),
            makes_rule(r@, self.base@, payee_regex@, category@),
    {
        let needle = trim(payee_regex);
        if needle.is_empty() {
            return Step::Finish(Err("payee_regex is required".to_string()));
        }
        Step::Send(
            self.get("/api/v1/categories"),
            Pending::RuleCategory { needle: needle.to_string(), wanted: category.to_string() },
        )
    }

    pub fn get_uncategorized_transactions(
        &self,
        account_id: Option<&str>,
        start_date: Option<&str>,
        end_date: Option<&str>,
        limit: Option<i64>,
    ) -> (r: Step)
        ensures
            r@ == uncategorized_step(
                self.base@,
                text_view(account_id),
                text_view(start_date),
                text_view(end_date),
                limit,
            ),
            asks_uncategorized(
                r@,
                self.base@,
                text_view(account_id),
                text_view(start_date),
                text_view(end_date),
                limit,
            ),
    {
        proof {
            lemma_uncategorized(
                self.base@,
                text_view(account_id),
                text_view(start_date),
                text_view(end_date),
                limit,
            );
        }
        let query = "limit=".to_string().concat(format_int(clamp_limit(limit, 50)).as_str());
        let query = add_query(query, account_id, start_date, end_date);
        let path = "/api/v1/transactions/uncategorized?".to_string().concat(query.as_str());
        Step::Send(self.get(path.as_str()), Pending::Document)
    }

    pub fn get_transactions_by_category_regex(
        &self,
        category_regex: &str,
        account_id: Option<&str>,
        start_date: Option<&str>,
        end_date: Option<&str>,
        limit: Option<i64>,
    ) -> (r: Step)
        ensures
            r@ == by_category_step(
                self.base@,
                category_regex@,
                text_view(account_id),
                text_view(start_date),
                text_view(end_date),
                limit,
            ),
            asks_by_category(
                r@,
                self.base@,
                category_regex@,
                text_view(account_id),
                text_view(start_date),
                text_view(end_date),
                limit,
            ),
    {
        proof {
            lemma_by_category(
                self.base@,
                category_regex@,
                text_view(account_id),
                text_view(start_date),
                text_view(end_date),
                limit,
            );
        }
        let mut query = join3("category_regex=", category_regex, "&limit=");
        query.append(format_int(clamp_limit(limit, 50)).as_str());
        let query = add_query(query, account_id, start_date, end_date);
        let path = "/api/v1/transactions/by-category?".to_string().concat(query.as_str());
        Step::Send(self.get(path.as_str()), Pending::Document)
    }

    pub fn apply_rules(&self, account_id: Option<&str>, limit: Option<i64>) -> (r: Step)
        ensures
            r@ == apply_rules_step(self.base@, text_view(account_id), limit),
            applies_rules(r@, self.base@, text_view(account_id), limit),
    {
        proof {
            lemma_rules_applied(self.base@, text_view(account_id), limit);
        }
        let body = add_text(Json::empty_object(), "account_id", account_id);
        let body = match limit {
            Some(l) => body.with("limit", Json::Int(l)),
            None => body,
        };
        Step::Send(self.post("/api/v1/rules/apply", body), Pending::Document)
    }

    pub fn set_budget_amount(&self, month: &str, category: &str, amount_cents: i64) -> (r: Step)
        ensures
            r@ == budget_amount_step(self.base@, month@, category@, amount_cents as int),
            budgets_amount(r@, self.base@, month@, category@, amount_cents as int),
    {
        Step::Send(
            self.get("/api/v1/categories"),
            Pending::CategoryToBudget {
                month: month.to_string(),
                wanted: category.to_string(),
                amount_cents,
            },
        )
    }

    pub fn set_budget_allocations(&self, month: &str, allocations: &[Json]) -> (r: Step)
        ensures
            r@ == allocations_step(self.base@, month@, item_views(allocations@)),
            budgets_allocations(r@, self.base@, month@, item_views(allocations@)),
    {
        proof {
            lemma_allocations_budgeted(self.base@, month@, item_views(allocations@));
        }
        match parse_allocation_items(allocations) {
            Ok(items) => Step::Send(
                self.get("/api/v1/categories"),
                Pending::CategoriesToBudget { month: month.to_string(), items },
            ),
            Err(message) => Step::Finish(Err(message)),
        }
    }

    pub fn copy_budget(&self, month: &str, from_month: &str) -> (r: Step)
        ensures
            r@ == copy_step(self.base@, month@, from_month@),
            copies_budget(r@, self.base@, month@, from_month@),
    {
        let path = join3("/api/v1/budgets/", month, "/copy");
        Step::Send(
            self.post(path.as_str(), member("from_month", Json::string(from_month))),
            Pending::Document,
        )
    }

    pub fn rollover_budget(&self, month: &str, from_month: &str) -> (r: Step)
        ensures
            r@ == rollover_step(self.base@, month@, from_month@),
            rolls_over(r@, self.base@, month@, from_month@),
    {
        let path = join3("/api/v1/budgets/", month, "/rollover");
        Step::Send(
            self.post(path.as_str(), member("from_month", Json::string(from_month))),
            Pending::Document,
        )
    }

    pub fn list_loans(&self) -> (r: Step)
        ensures
            r@ == loans_step(self.base@),
            asks_loans(r@, self.base@),
    {
        Step::Send(self.get("/api/v1/loans"), Pending::Document)
    }

    pub fn loan_projection(&self, strategy: Option<&str>, extra_cents: Option<i64>) -> (r: Step)
        ensures
            r@ == projection_step(self.base@, text_view(strategy), extra_cents),
            asks_projection(r@, self.base@, text_view(strategy), extra_cents),
    {
        let strategy = match parse_loan_strategy(strategy) {
            Ok(s) => s,
            Err(message) => return Step::Finish(Err(message)),
        };
        let extra: i64 = match extra_cents {
            Some(v) => if v < 0 {
                0
            } else {
                v
            },
            None => 0,
        };
        let mut path = join3("/api/v1/loans/projection?strategy=", strategy, "&extra_cents=");
        path.append(format_int(extra).as_str());
        Step::Send(self.get(path.as_str()), Pending::Document)
    }

    /// The coaching snapshot: cash, credit, loans, the next target and one month of
    /// cash flow. Without a month it is the server's current one.
    pub fn get_summary(
        &self,
        month: Option<&str>,
        extra_cents: Option<i64>,
        strategy: Option<&str>,
    ) -> (r: Step)
        ensures
            r@ == summary_step(self.base@, text_view(month), extra_cents, text_view(strategy)),
            asks_summary(r@, self.base@, text_view(month), extra_cents, text_view(strategy)),
    {
        proof {
            lemma_summary(self.base@, text_view(month), extra_cents, text_view(strategy));
        }
        let strategy = match parse_loan_strategy(strategy) {
            Ok(s) => s,
            Err(message) => return Step::Finish(Err(message)),
        };
        let extra: i64 = match extra_cents {
            Some(v) => v,
            None => 0,
        };
        if extra < 0 {
            return Step::Finish(Err("extra_cents must be >= 0".to_string()));
        }
        let month_part = match month {
            Some(m) => {
                let m = trim(m);
                if m.is_empty() {
                    "".to_string()
                } else {
                    join3("month=", encode_query(m).as_str(), "&")
                }
            },
            None => "".to_string(),
        };
        let mut path = join3("/api/v1/summary?", month_part.as_str(), "extra_cents=");
        path.append(format_int(extra).as_str());
        path.append("&strategy=");
        path.append(strategy);
        Step::Send(self.get(path.as_str()), Pending::Document)
    }

    /// Imports a statement: `csv` is its text, which is posted as it is, or `inbox_file` the name of a file
    /// that is already in the server's import inbox. Exactly one of them is
    /// required. `account` is an id or a name.
    pub fn import_csv(
        &self,
        account: &str,
        format: Option<&str>,
        csv: Option<&str>,
        inbox_file: Option<&str>,
    ) -> (r: Step)
        ensures
            r@ == import_step(
                self.base@,
                account@,
                text_view(format),
                text_view(csv),
                text_view(inbox_file),
            ),
            imports_statement(
                r@,
                self.base@,
                account@,
                text_view(format),
                text_view(csv),
                text_view(inbox_file),
            ),
    {
        let source = match choose_source(csv, inbox_file) {
            Ok(source) => source,
            Err(message) => return Step::Finish(Err(message)),
        };
        match parse_import_format(format) {
            Ok(format) => Step::Send(
                self.get("/api/v1/accounts"),
                Pending::AccountToImport {
                    source,
                    format: format.to_string(),
                    wanted: account.to_string(),
                },
            ),
            Err(message) => Step::Finish(Err(message)),
        }
    }

    pub fn create_transfer(
        &self,
        from_account: &str,
        to_account: &str,
        date: &str,
        amount_cents: i64,
        notes: Option<&str>,
        cleared: Option<bool>,
    ) -> (r: Step)
        ensures
            r@ == transfer_step(
                self.base@,
                from_account@,
                to_account@,
                date@,
                amount_cents as int,
                text_view(notes),
                cleared,
            ),
            transfers(
                r@,
                self.base@,
                from_account@,
                to_account@,
                date@,
                amount_cents as int,
                text_view(notes),
                cleared,
            ),
    {
        Step::Send(
            self.get("/api/v1/accounts"),
            Pending::AccountToDebit {
                from: from_account.to_string(),
                to: to_account.to_string(),
                transfer: Transfer {
                    date: date.to_string(),
                    amount_cents,
                    notes: match notes {
                        Some(n) => Some(n.to_string()),
                        None => None,
                    },
                    cleared,
                },
            },
        )
    }

    pub fn pin_balance(&self, account: &str, balance_cents: i64) -> (r: Step)
        ensures
            r@ == pin_step(self.base@, account@, balance_cents as int),
            pins_balance(r@, self.base@, account@, balance_cents as int),
    {
        Step::Send(
            self.get("/api/v1/accounts"),
            Pending::AccountToPin { wanted: account.to_string(), balance_cents },
        )
    }

    pub fn resolve_category(&self, name_or_id: &str) -> (r: Step)
        ensures
            r@ == StepView::Send(
                categories(self.base@),
                PendingView::CategoryToResolve { wanted: name_or_id@ },
            ),
            r@ == StepView::Send(
                asked(self.base@ + "/api/v1/categories"@),
                PendingView::CategoryToResolve { wanted: name_or_id@ },
            ),
    {
        Step::Send(
            self.get("/api/v1/categories"),
            Pending::CategoryToResolve { wanted: name_or_id.to_string() },
        )
    }

    pub fn resolve_payee(&self, name_or_id: &str) -> (r: Step)
        ensures
            r@ == StepView::Send(
                payees(self.base@),
                PendingView::PayeeToResolve { wanted: name_or_id@ },
            ),
            r@ == StepView::Send(
                asked(self.base@ + "/api/v1/payees"@),
                PendingView::PayeeToResolve { wanted: name_or_id@ },
            ),
    {
        Step::Send(
            self.get("/api/v1/payees"),
            Pending::PayeeToResolve { wanted: name_or_id.to_string() },
        )
    }

    pub fn resolve_account(&self, name_or_id: &str) -> (r: Step)
        ensures
            r@ == StepView::Send(
                accounts(self.base@),
                PendingView::AccountToResolve { wanted: name_or_id@ },
            ),
            r@ == StepView::Send(
                asked(self.base@ + "/api/v1/accounts"@),
                PendingView::AccountToResolve { wanted: name_or_id@ },
            ),
    {
        Step::Send(
            self.get("/api/v1/accounts"),
            Pending::AccountToResolve { wanted: name_or_id.to_string() },
        )
    }
}

} // verus!
