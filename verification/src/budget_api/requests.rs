//! What the calls send, and what they come to.

use crate::budget_api::arguments::{encoded, import_format, loan_strategy};
use crate::budget_api::calls::{
    accounts, allocations_step, apply_rules_step, budget_amount_step, by_category_step, categories,
    copy_step, create_category_step, create_payee_step, import_source, import_step, loans_step,
    month_query, new_category_body, payee_rule_step, payees, pin_step, projection_step,
    rename_payee_step, rollover_step, set_category_step, set_payee_step, summary_step,
    transfer_step, uncategorized_step, update_category_step, with_query,
};
use crate::budget_api::documents::{
    allocations_of, known_rule, lowercase, resolved_category, resolved_in, rule_body,
};
use crate::budget_api::laws::{law_allocations_all_or_nothing, requests};
use crate::budget_api::replies::{
    known_rule_answer, new_rule_answer, next, next_on, resolved_allocations,
};
use crate::budget_api::steps::{
    AnswerView, Method, PayloadView, PendingView, RequestView, SourceView, StepView, TransferView,
};
use crate::json::{JsonView, MemberView};
use crate::text::{decimal, law_trimmed_once, trimmed};
use vstd::prelude::*;
use vstd::string::*;

verus! {

// ── Words ────────────────────────────────────────────────────────────────────

/// What a call comes to, given the replies; none while it still waits.
pub open spec fn outcome(
    base: Seq<char>,
    step: StepView,
    replies: Seq<Result<JsonView, Seq<char>>>,
) -> Option<Result<AnswerView, Seq<char>>>
    decreases replies.len(),
{
    match step {
        StepView::Finish(r) => Some(r),
        StepView::Send(_, pending) => if replies.len() == 0 {
            None
        } else {
            outcome(base, next(base, pending, replies[0]), replies.drop_first())
        },
    }
}

pub open spec fn asked(url: Seq<char>) -> RequestView {
    RequestView { method: Method::Get, url, payload: PayloadView::Nothing }
}

/// A request that carries an object of these members.
pub open spec fn sent(method: Method, url: Seq<char>, members: Seq<MemberView>) -> RequestView {
    RequestView { method, url, payload: PayloadView::Document(JsonView::Object(members)) }
}

pub open spec fn text_member(name: Seq<char>, text: Seq<char>) -> MemberView {
    MemberView { name, value: JsonView::Str(text) }
}

pub open spec fn number_member(name: Seq<char>, n: int) -> MemberView {
    MemberView { name, value: JsonView::Int(n) }
}

pub open spec fn flag_member(name: Seq<char>, b: bool) -> MemberView {
    MemberView { name, value: JsonView::Bool(b) }
}

pub open spec fn list_member(name: Seq<char>, items: Seq<JsonView>) -> MemberView {
    MemberView { name, value: JsonView::Array(items) }
}

/// The member, where the text is given.
pub open spec fn given_text(name: Seq<char>, text: Option<Seq<char>>) -> Seq<MemberView> {
    match text {
        Some(t) => seq![text_member(name, t)],
        None => Seq::empty(),
    }
}

pub open spec fn given_flag(name: Seq<char>, b: Option<bool>) -> Seq<MemberView> {
    match b {
        Some(b) => seq![flag_member(name, b)],
        None => Seq::empty(),
    }
}

pub open spec fn given_number(name: Seq<char>, n: Option<i64>) -> Seq<MemberView> {
    match n {
        Some(n) => seq![number_member(name, n as int)],
        None => Seq::empty(),
    }
}

/// The text that is given, or else the other.
pub open spec fn given_or(text: Option<Seq<char>>, other: Seq<char>) -> Seq<char> {
    match text {
        Some(t) => t,
        None => other,
    }
}

/// How many transactions a new rule matched, as the reply says it.
pub open spec fn matched_in(doc: JsonView) -> int {
    match doc.field("matched"@) {
        Some(JsonView::Int(n)) => if 0 <= n <= u64::MAX {
            n
        } else {
            0
        },
        _ => 0,
    }
}

/// A part of a query, where the text is given.
pub open spec fn given_part(key: Seq<char>, text: Option<Seq<char>>) -> Seq<char> {
    match text {
        Some(t) => key + t,
        None => Seq::empty(),
    }
}

pub open spec fn says_document(doc: JsonView) -> Option<Result<AnswerView, Seq<char>>> {
    Some(Ok(AnswerView::Document(doc)))
}

pub open spec fn says_id(id: Seq<char>) -> Option<Result<AnswerView, Seq<char>>> {
    Some(Ok(AnswerView::Id(id)))
}

/// The id that the reply says, or the reply where it says none.
pub open spec fn id_or_document(doc: JsonView) -> Option<Result<AnswerView, Seq<char>>> {
    match doc.text_field("id"@) {
        Some(id) => says_id(id),
        None => Some(Ok(AnswerView::NoId(doc))),
    }
}

pub open spec fn says_done() -> Option<Result<AnswerView, Seq<char>>> {
    Some(Ok(AnswerView::Done))
}

/// What is paid on top, as far as it is given.
pub open spec fn given_cents(extra_cents: Option<i64>) -> int {
    match extra_cents {
        Some(n) => n as int,
        None => 0,
    }
}

/// How many entries are asked for: what was given, no fewer than one and no more
/// than 2000; 50 where nothing was given.
pub open spec fn asked_limit(limit: Option<i64>) -> int {
    match limit {
        Some(l) => if l > 2000 {
            2000
        } else if l >= 1 {
            l as int
        } else {
            1
        },
        None => 50,
    }
}

pub open spec fn summary_url(
    base: Seq<char>,
    month: Option<Seq<char>>,
    extra: int,
    strategy: Seq<char>,
) -> Seq<char> {
    let tail = "extra_cents="@ + decimal(extra) + "&strategy="@ + strategy;
    if month is Some && trimmed(month->0).len() > 0 {
        base + ("/api/v1/summary?month="@ + encoded(trimmed(month->0)) + "&"@ + tail)
    } else {
        base + ("/api/v1/summary?"@ + tail)
    }
}

/// The item is to allot the amount to the category: it says the amount, and names
/// the category in `category` or, where it has no such member, in `category_id`.
pub open spec fn is_allocation(item: JsonView, category: Seq<char>, amount: int) -> bool {
    &&& item.field("amount_cents"@) is Some
    &&& item.field("amount_cents"@)->0.number() == Some(amount)
    &&& category == trimmed(category)
    &&& category.len() > 0
    &&& match item.field("category"@) {
        Some(v) => v matches JsonView::Str(t) && trimmed(t) == category,
        None => match item.field("category_id"@) {
            Some(v) => v matches JsonView::Str(t) && trimmed(t) == category,
            None => false,
        },
    }
}

// ── First steps ──────────────────────────────────────────────────────────────

/// The step posts a new category.
pub open spec fn posts_category(
    step: StepView,
    base: Seq<char>,
    name: Seq<char>,
    kind: Option<Seq<char>>,
    group_name: Option<Seq<char>>,
) -> bool {
    step == StepView::Send(
        sent(
            Method::Post,
            base + "/api/v1/categories"@,
            seq![text_member("name"@, name), text_member("kind"@, given_or(kind, "expense"@))]
                + given_text("group_name"@, group_name),
        ),
        PendingView::NewCategory,
    )
}

/// The step asks for the categories, to change one of them.
pub open spec fn patches_category(
    step: StepView,
    base: Seq<char>,
    id_or_name: Seq<char>,
    name: Option<Seq<char>>,
    hidden: Option<bool>,
) -> bool {
    step == StepView::Send(
        asked(base + "/api/v1/categories"@),
        PendingView::CategoryToUpdate {
            wanted: id_or_name,
            body: JsonView::Object(given_text("name"@, name) + given_flag("hidden"@, hidden)),
        },
    )
}

/// The step posts a new payee.
pub open spec fn posts_payee(step: StepView, base: Seq<char>, name: Seq<char>) -> bool {
    step == StepView::Send(
        sent(Method::Post, base + "/api/v1/payees"@, seq![text_member("name"@, name)]),
        PendingView::NewPayee,
    )
}

/// The step asks for the payees, to rename one of them.
pub open spec fn renames_payee(
    step: StepView,
    base: Seq<char>,
    id_or_name: Seq<char>,
    new_name: Seq<char>,
) -> bool {
    step == StepView::Send(
        asked(base + "/api/v1/payees"@),
        PendingView::PayeeToRename { wanted: id_or_name, new_name },
    )
}

/// The step takes a transaction out of its category, or asks for the categories to put it
/// into one.
pub open spec fn sets_category_of(
    step: StepView,
    base: Seq<char>,
    tx_id: Seq<char>,
    category: Option<Seq<char>>,
) -> bool {
    if category is None || category == Some(""@) || category == Some("null"@) {
        step == StepView::Send(
            sent(
                Method::Patch,
                base + ("/api/v1/transactions/"@ + tx_id),
                seq![MemberView { name: "category_id"@, value: JsonView::Null }],
            ),
            PendingView::Confirmation,
        )
    } else {
        step == StepView::Send(
            asked(base + "/api/v1/categories"@),
            PendingView::CategoryToSet { tx_id, wanted: category->0 },
        )
    }
}

/// The step gives a transaction a payee.
pub open spec fn sets_payee_of(
    step: StepView,
    base: Seq<char>,
    tx_id: Seq<char>,
    payee: Seq<char>,
) -> bool {
    step == StepView::Send(
        sent(
            Method::Patch,
            base + ("/api/v1/transactions/"@ + tx_id),
            seq![text_member("payee"@, payee)],
        ),
        PendingView::Confirmation,
    )
}

/// The step asks for the categories, to make a rule for one of them; a blank pattern is
/// refused.
pub open spec fn makes_rule(
    step: StepView,
    base: Seq<char>,
    payee_regex: Seq<char>,
    category: Seq<char>,
) -> bool {
    if trimmed(payee_regex).len() == 0 {
        step == StepView::Finish(Err::<AnswerView, Seq<char>>("payee_regex is required"@))
    } else {
        step == StepView::Send(
            asked(base + "/api/v1/categories"@),
            PendingView::RuleCategory { needle: trimmed(payee_regex), wanted: category },
        )
    }
}

/// The step asks for uncategorized transactions.
pub open spec fn asks_uncategorized(
    step: StepView,
    base: Seq<char>,
    account_id: Option<Seq<char>>,
    start_date: Option<Seq<char>>,
    end_date: Option<Seq<char>>,
    limit: Option<i64>,
) -> bool {
    step == StepView::Send(
        asked(
            base + ("/api/v1/transactions/uncategorized?limit="@ + decimal(asked_limit(limit))
                + given_part("&account_id="@, account_id) + given_part("&start_date="@, start_date)
                + given_part("&end_date="@, end_date)),
        ),
        PendingView::Document,
    )
}

/// The step asks for the transactions of matching categories.
pub open spec fn asks_by_category(
    step: StepView,
    base: Seq<char>,
    category_regex: Seq<char>,
    account_id: Option<Seq<char>>,
    start_date: Option<Seq<char>>,
    end_date: Option<Seq<char>>,
    limit: Option<i64>,
) -> bool {
    step == StepView::Send(
        asked(
            base + ("/api/v1/transactions/by-category?category_regex="@ + category_regex
                + "&limit="@ + decimal(asked_limit(limit)) + given_part(
                "&account_id="@,
                account_id,
            ) + given_part("&start_date="@, start_date) + given_part("&end_date="@, end_date)),
        ),
        PendingView::Document,
    )
}

/// The step applies the rules.
pub open spec fn applies_rules(
    step: StepView,
    base: Seq<char>,
    account_id: Option<Seq<char>>,
    limit: Option<i64>,
) -> bool {
    step == StepView::Send(
        sent(
            Method::Post,
            base + "/api/v1/rules/apply"@,
            given_text("account_id"@, account_id) + given_number("limit"@, limit),
        ),
        PendingView::Document,
    )
}

/// The step asks for the categories, to allot an amount to one of them.
pub open spec fn budgets_amount(
    step: StepView,
    base: Seq<char>,
    month: Seq<char>,
    category: Seq<char>,
    amount_cents: int,
) -> bool {
    step == StepView::Send(
        asked(base + "/api/v1/categories"@),
        PendingView::CategoryToBudget { month, wanted: category, amount_cents },
    )
}

/// The step asks for the categories, to allot amounts to some of them.
pub open spec fn budgets_allocations(
    step: StepView,
    base: Seq<char>,
    month: Seq<char>,
    allocations: Seq<JsonView>,
) -> bool {
    match step {
        StepView::Send(request, pending) => {
            &&& request == asked(base + "/api/v1/categories"@)
            &&& pending matches PendingView::CategoriesToBudget { month: m, items }
            &&& m == month
            &&& items.len() == allocations.len()
            &&& forall|i: int|
                #![trigger items[i]]
                #![trigger allocations[i]]
                0 <= i < items.len() ==> is_allocation(allocations[i], items[i].0, items[i].1)
        },
        StepView::Finish(outcome) => outcome is Err,
    }
}

/// The step posts a copy of a month from another.
pub open spec fn copies_budget(
    step: StepView,
    base: Seq<char>,
    month: Seq<char>,
    from_month: Seq<char>,
) -> bool {
    step == StepView::Send(
        sent(
            Method::Post,
            base + ("/api/v1/budgets/"@ + month + "/copy"@),
            seq![text_member("from_month"@, from_month)],
        ),
        PendingView::Document,
    )
}

/// The step posts a rollover of a month from another.
pub open spec fn rolls_over(
    step: StepView,
    base: Seq<char>,
    month: Seq<char>,
    from_month: Seq<char>,
) -> bool {
    step == StepView::Send(
        sent(
            Method::Post,
            base + ("/api/v1/budgets/"@ + month + "/rollover"@),
            seq![text_member("from_month"@, from_month)],
        ),
        PendingView::Document,
    )
}

/// The step asks for the loans.
pub open spec fn asks_loans(step: StepView, base: Seq<char>) -> bool {
    step == StepView::Send(asked(base + "/api/v1/loans"@), PendingView::Document)
}

/// The step asks for a projection; a strategy that is none is refused.
pub open spec fn asks_projection(
    step: StepView,
    base: Seq<char>,
    strategy: Option<Seq<char>>,
    extra_cents: Option<i64>,
) -> bool {
    match loan_strategy(strategy) {
        Ok(name) => step == StepView::Send(
            asked(
                base + ("/api/v1/loans/projection?strategy="@ + name + "&extra_cents="@ + decimal(
                    if given_cents(extra_cents) >= 0 {
                        given_cents(extra_cents)
                    } else {
                        0
                    },
                )),
            ),
            PendingView::Document,
        ),
        Err(message) => step == StepView::Finish(Err::<AnswerView, Seq<char>>(message)),
    }
}

/// The step asks for a summary; a strategy that is none is refused, and so is less than
/// nothing on top.
pub open spec fn asks_summary(
    step: StepView,
    base: Seq<char>,
    month: Option<Seq<char>>,
    extra_cents: Option<i64>,
    strategy: Option<Seq<char>>,
) -> bool {
    match loan_strategy(strategy) {
        Ok(name) => if given_cents(extra_cents) < 0 {
            step == StepView::Finish(Err::<AnswerView, Seq<char>>("extra_cents must be >= 0"@))
        } else {
            step == StepView::Send(
                asked(summary_url(base, month, given_cents(extra_cents), name)),
                PendingView::Document,
            )
        },
        Err(message) => step == StepView::Finish(Err::<AnswerView, Seq<char>>(message)),
    }
}

/// The step asks for the accounts, to import a statement into one of them: its text as it
/// is, or the file by its name, but not both.
pub open spec fn imports_statement(
    step: StepView,
    base: Seq<char>,
    account: Seq<char>,
    format: Option<Seq<char>>,
    csv: Option<Seq<char>>,
    inbox_file: Option<Seq<char>>,
) -> bool {
    match step {
        StepView::Send(request, pending) => {
            &&& request == asked(base + "/api/v1/accounts"@)
            &&& pending matches PendingView::AccountToImport { source, format: f, wanted }
            &&& wanted == account
            &&& import_format(format) == Ok::<Seq<char>, Seq<char>>(f)
            &&& match inbox_file {
                Some(file) => source == SourceView::Inbox(trimmed(file)) && (csv is None || trimmed(
                    csv->0,
                ).len() == 0),
                None => csv is Some && trimmed(csv->0).len() > 0 && source == SourceView::Csv(
                    csv->0,
                ),
            }
        },
        StepView::Finish(outcome) => outcome is Err,
    }
}

/// The step asks for the accounts, to transfer from one to another.
pub open spec fn transfers(
    step: StepView,
    base: Seq<char>,
    from_account: Seq<char>,
    to_account: Seq<char>,
    date: Seq<char>,
    amount_cents: int,
    notes: Option<Seq<char>>,
    cleared: Option<bool>,
) -> bool {
    step == StepView::Send(
        asked(base + "/api/v1/accounts"@),
        PendingView::AccountToDebit {
            from: from_account,
            to: to_account,
            transfer: TransferView { date, amount_cents, notes, cleared },
        },
    )
}

/// The step asks for the accounts, to pin one of them to a balance.
pub open spec fn pins_balance(
    step: StepView,
    base: Seq<char>,
    account: Seq<char>,
    balance_cents: int,
) -> bool {
    step == StepView::Send(
        asked(base + "/api/v1/accounts"@),
        PendingView::AccountToPin { wanted: account, balance_cents },
    )
}

// ── Runs ─────────────────────────────────────────────────────────────────────

/// What a call comes to on the last reply that it waits for.
spec fn ends_with(last: PendingView, doc: JsonView) -> Option<Result<AnswerView, Seq<char>>> {
    match last {
        PendingView::Document => says_document(doc),
        PendingView::Confirmation => says_done(),
        PendingView::Changed { id } => says_id(id),
        PendingView::NewCategory => id_or_document(doc),
        PendingView::NewPayee => id_or_document(doc),
        PendingView::NewRule { needle, category_id } => says_document(
            new_rule_answer(doc, needle, category_id),
        ),
        _ => None,
    }
}

proof fn lemma_last(base: Seq<char>, last: PendingView, doc: JsonView)
    requires
        ends_with(last, doc) is Some,
    ensures
        next_on(base, last, doc) == StepView::Finish(ends_with(last, doc)->0),
{
    reveal(next_on);
}

proof fn lemma_sends_one(
    base: Seq<char>,
    request: RequestView,
    last: PendingView,
    replies: Seq<Result<JsonView, Seq<char>>>,
)
    requires
        forall|doc: JsonView| #[trigger] ends_with(last, doc) is Some,
    ensures
        requests(base, StepView::Send(request, last), replies) == seq![request],
        replies.len() > 0 && replies[0] is Ok ==> outcome(
            base,
            StepView::Send(request, last),
            replies,
        ) == ends_with(last, replies[0]->Ok_0),
{
    reveal_with_fuel(requests, 2);
    reveal_with_fuel(outcome, 2);
    if replies.len() > 0 {
        match replies[0] {
            Ok(doc) => {
                assert(ends_with(last, doc) is Some);
                lemma_last(base, last, doc);
            },
            Err(_) => {},
        }
    }
    assert(requests(base, StepView::Send(request, last), replies) =~= seq![request]);
}

proof fn lemma_sends_two(
    base: Seq<char>,
    first: RequestView,
    pending: PendingView,
    doc: JsonView,
    request: RequestView,
    last: PendingView,
    replies: Seq<Result<JsonView, Seq<char>>>,
)
    requires
        forall|doc: JsonView| #[trigger] ends_with(last, doc) is Some,
        replies.len() >= 1,
        replies[0] == Ok::<JsonView, Seq<char>>(doc),
        next_on(base, pending, doc) == StepView::Send(request, last),
    ensures
        requests(base, StepView::Send(first, pending), replies) == seq![first, request],
        replies.len() >= 2 && replies[1] is Ok ==> outcome(
            base,
            StepView::Send(first, pending),
            replies,
        ) == ends_with(last, replies[1]->Ok_0),
{
    let rest = replies.drop_first();
    lemma_sends_one(base, request, last, rest);
    assert(replies.len() >= 2 ==> rest[0] == replies[1]);
    assert(requests(base, StepView::Send(first, pending), replies) =~= seq![first, request]);
}

proof fn lemma_sends_three(
    base: Seq<char>,
    first: RequestView,
    pending: PendingView,
    doc: JsonView,
    second: RequestView,
    waiting: PendingView,
    other: JsonView,
    request: RequestView,
    last: PendingView,
    replies: Seq<Result<JsonView, Seq<char>>>,
)
    requires
        forall|doc: JsonView| #[trigger] ends_with(last, doc) is Some,
        replies.len() >= 2,
        replies[0] == Ok::<JsonView, Seq<char>>(doc),
        replies[1] == Ok::<JsonView, Seq<char>>(other),
        next_on(base, pending, doc) == StepView::Send(second, waiting),
        next_on(base, waiting, other) == StepView::Send(request, last),
    ensures
        requests(base, StepView::Send(first, pending), replies) == seq![first, second, request],
        replies.len() >= 3 && replies[2] is Ok ==> outcome(
            base,
            StepView::Send(first, pending),
            replies,
        ) == ends_with(last, replies[2]->Ok_0),
{
    let rest = replies.drop_first();
    assert(rest[0] == replies[1]);
    lemma_sends_two(base, second, waiting, other, request, last, rest);
    assert(replies.len() >= 3 ==> rest[1] == replies[2]);
    assert(requests(base, StepView::Send(first, pending), replies) =~= seq![
        first,
        second,
        request,
    ]);
}

/// Members that were added one by one.
proof fn lemma_pushed(a: MemberView, b: MemberView, c: MemberView, d: MemberView, e: MemberView)
    ensures
        seq![a, b] == Seq::empty().push(a).push(b),
        seq![a, b, c] == Seq::empty().push(a).push(b).push(c),
        seq![a, b, c, d] == Seq::empty().push(a).push(b).push(c).push(d),
        seq![a, b, c, d, e] == Seq::empty().push(a).push(b).push(c).push(d).push(e),
{
    assert(seq![a, b] =~= Seq::empty().push(a).push(b));
    assert(seq![a, b, c] =~= Seq::empty().push(a).push(b).push(c));
    assert(seq![a, b, c, d] =~= Seq::empty().push(a).push(b).push(c).push(d));
    assert(seq![a, b, c, d, e] =~= Seq::empty().push(a).push(b).push(c).push(d).push(e));
}

// ── Budgets ──────────────────────────────────────────────────────────────────

/// A rollover sends one request, which names both months as they were given: its
/// path the month that is rolled over into, its body the month that the balances
/// come from. The reply is handed on.
pub proof fn law_rollover_names_both_months(
    base: Seq<char>,
    month: Seq<char>,
    from_month: Seq<char>,
    replies: Seq<Result<JsonView, Seq<char>>>,
)
    ensures
        requests(base, rollover_step(base, month, from_month), replies) == seq![
            sent(
                Method::Post,
                base + ("/api/v1/budgets/"@ + month + "/rollover"@),
                seq![text_member("from_month"@, from_month)],
            ),
        ],
        replies.len() > 0 && replies[0] is Ok ==> outcome(
            base,
            rollover_step(base, month, from_month),
            replies,
        ) == says_document(replies[0]->Ok_0),
{
    lemma_sends_one(
        base,
        sent(
            Method::Post,
            base + ("/api/v1/budgets/"@ + month + "/rollover"@),
            seq![text_member("from_month"@, from_month)],
        ),
        PendingView::Document,
        replies,
    );
}

/// A copy sends one request, which names both months as they were given: its path
/// the month that is filled, its body the month that the amounts come from. The
/// reply is handed on.
pub proof fn law_copy_names_both_months(
    base: Seq<char>,
    month: Seq<char>,
    from_month: Seq<char>,
    replies: Seq<Result<JsonView, Seq<char>>>,
)
    ensures
        requests(base, copy_step(base, month, from_month), replies) == seq![
            sent(
                Method::Post,
                base + ("/api/v1/budgets/"@ + month + "/copy"@),
                seq![text_member("from_month"@, from_month)],
            ),
        ],
        replies.len() > 0 && replies[0] is Ok ==> outcome(
            base,
            copy_step(base, month, from_month),
            replies,
        ) == says_document(replies[0]->Ok_0),
{
    lemma_sends_one(
        base,
        sent(
            Method::Post,
            base + ("/api/v1/budgets/"@ + month + "/copy"@),
            seq![text_member("from_month"@, from_month)],
        ),
        PendingView::Document,
        replies,
    );
}

/// An amount is put to the category that the name stands for among the categories,
/// in the month that was given.
pub proof fn law_amount_goes_to_the_category(
    base: Seq<char>,
    month: Seq<char>,
    category: Seq<char>,
    amount_cents: int,
    id: Seq<char>,
    doc: JsonView,
    replies: Seq<Result<JsonView, Seq<char>>>,
)
    requires
        replies.len() >= 1,
        replies[0] == Ok::<JsonView, Seq<char>>(doc),
        resolved_category(doc, category) == Some(id),
    ensures
        requests(base, budget_amount_step(base, month, category, amount_cents), replies) == seq![
            asked(base + "/api/v1/categories"@),
            sent(
                Method::Put,
                base + ("/api/v1/budgets/"@ + month + "/categories/"@ + id),
                seq![number_member("amount_cents"@, amount_cents)],
            ),
        ],
        replies.len() >= 2 && replies[1] is Ok ==> outcome(
            base,
            budget_amount_step(base, month, category, amount_cents),
            replies,
        ) == says_document(replies[1]->Ok_0),
{
    let pending = PendingView::CategoryToBudget { month, wanted: category, amount_cents };
    let request = sent(
        Method::Put,
        base + ("/api/v1/budgets/"@ + month + "/categories/"@ + id),
        seq![number_member("amount_cents"@, amount_cents)],
    );
    assert(next_on(base, pending, doc) == StepView::Send(request, PendingView::Document)) by {
        reveal(next_on);
    }
    lemma_sends_two(
        base,
        asked(base + "/api/v1/categories"@),
        pending,
        doc,
        request,
        PendingView::Document,
        replies,
    );
}

proof fn lemma_allocations(items: Seq<JsonView>, named: Seq<(Seq<char>, int)>)
    requires
        items.len() == named.len(),
        forall|i: int|
            #![trigger items[i]]
            #![trigger named[i]]
            0 <= i < items.len() ==> is_allocation(items[i], named[i].0, named[i].1),
    ensures
        allocations_of(items) == Ok::<
            Seq<(Seq<char>, int)>,
            Seq<char>,
        >(named),
    decreases items.len(),
{
    if items.len() == 0 {
        assert(named =~= Seq::empty());
    } else {
        let (before, names) = (items.drop_last(), named.drop_last());
        assert forall|i: int|
            #![trigger before[i]]
            #![trigger names[i]]
            0 <= i < before.len() implies is_allocation(before[i], names[i].0, names[i].1) by {
            assert(before[i] == items[i] && names[i] == named[i]);
        }
        lemma_allocations(before, names);
        let last = items.len() - 1;
        assert(is_allocation(items[last], named[last].0, named[last].1));
        assert(named =~= names.push(named[last]));
    }
}

/// Allocations that are read are what the items say.
pub proof fn lemma_allocations_read(items: Seq<JsonView>, named: Seq<(Seq<char>, int)>)
    requires
        allocations_of(items) == Ok::<Seq<(Seq<char>, int)>, Seq<char>>(named),
    ensures
        named.len() == items.len(),
        forall|i: int|
            #![trigger items[i]]
            #![trigger named[i]]
            0 <= i < items.len() ==> is_allocation(items[i], named[i].0, named[i].1),
    decreases items.len(),
{
    if items.len() > 0 {
        let (before, names) = (items.drop_last(), named.drop_last());
        let last = items.len() - 1;
        assert(names =~= allocations_of(before)->Ok_0);
        lemma_allocations_read(before, names);
        assert forall|i: int|
            #![trigger items[i]]
            #![trigger named[i]]
            0 <= i < items.len() implies is_allocation(items[i], named[i].0, named[i].1) by {
            if i < last {
                assert(before[i] == items[i] && names[i] == named[i]);
            } else {
                let v = match items[i].field("category"@) {
                    Some(v) => v,
                    None => items[i].field("category_id"@)->0,
                };
                law_trimmed_once(v.text()->0);
            }
        }
    }
}

pub proof fn lemma_allocations_budgeted(
    base: Seq<char>,
    month: Seq<char>,
    allocations: Seq<JsonView>,
)
    ensures
        budgets_allocations(
            allocations_step(base, month, allocations),
            base,
            month,
            allocations,
        ),
{
    if allocations.len() > 0 && allocations_of(allocations) is Ok {
        lemma_allocations_read(allocations, allocations_of(allocations)->Ok_0);
    }
}

/// Allocations are put in one request, to the month that was given: each category
/// by the id that its name stands for, with its own amount, in the order in which
/// they were given.
pub proof fn law_allocations_go_to_their_categories(
    base: Seq<char>,
    month: Seq<char>,
    allocations: Seq<JsonView>,
    named: Seq<(Seq<char>, int)>,
    ids: Seq<Seq<char>>,
    doc: JsonView,
    replies: Seq<Result<JsonView, Seq<char>>>,
)
    requires
        allocations.len() == named.len() == ids.len() > 0,
        forall|i: int|
            #![trigger allocations[i]]
            #![trigger named[i]]
            0 <= i < named.len() ==> is_allocation(allocations[i], named[i].0, named[i].1),
        forall|i: int|
            #![trigger named[i]]
            #![trigger ids[i]]
            0 <= i < named.len() ==> resolved_category(doc, named[i].0) == Some(ids[i]),
        replies.len() >= 1,
        replies[0] == Ok::<JsonView, Seq<char>>(doc),
    ensures
        requests(base, allocations_step(base, month, allocations), replies) == seq![
            asked(base + "/api/v1/categories"@),
            sent(
                Method::Put,
                base + ("/api/v1/budgets/"@ + month + "/allocations"@),
                seq![
                    list_member(
                        "allocations"@,
                        Seq::new(
                            ids.len(),
                            |i: int|
                                JsonView::Object(
                                    seq![
                                        text_member("category_id"@, ids[i]),
                                        number_member("amount_cents"@, named[i].1),
                                    ],
                                ),
                        ),
                    ),
                ],
            ),
        ],
        replies.len() >= 2 && replies[1] is Ok ==> outcome(
            base,
            allocations_step(base, month, allocations),
            replies,
        ) == says_document(replies[1]->Ok_0),
{
    lemma_allocations(allocations, named);
    law_allocations_all_or_nothing(doc, named);
    let made = resolved_allocations(doc, named);
    assert(made is Ok) by {
        if made is Err {
            let i = choose|i: int|
                0 <= i < named.len() && resolved_category(doc, (#[trigger] named[i]).0) is None;
            assert(resolved_category(doc, named[i].0) == Some(ids[i]));
        }
    }
    let items = Seq::new(
        ids.len(),
        |i: int|
            JsonView::Object(
                seq![
                    text_member("category_id"@, ids[i]),
                    number_member("amount_cents"@, named[i].1),
                ],
            ),
    );
    assert(made->Ok_0 =~= items) by {
        assert forall|i: int| 0 <= i < items.len() implies made->Ok_0[i] == items[i] by {
            let (a, b) = (
                text_member("category_id"@, ids[i]),
                number_member("amount_cents"@, named[i].1),
            );
            lemma_pushed(a, b, a, a, a);
            assert(resolved_category(doc, named[i].0) == Some(ids[i]));
        }
    }
    let pending = PendingView::CategoriesToBudget { month, items: named };
    let request = sent(
        Method::Put,
        base + ("/api/v1/budgets/"@ + month + "/allocations"@),
        seq![list_member("allocations"@, items)],
    );
    assert(next_on(base, pending, doc) == StepView::Send(request, PendingView::Document)) by {
        reveal(next_on);
    }
    lemma_sends_two(
        base,
        asked(base + "/api/v1/categories"@),
        pending,
        doc,
        request,
        PendingView::Document,
        replies,
    );
}

// ── Categories and payees ────────────────────────────────────────────────────

pub proof fn lemma_category_posted(
    base: Seq<char>,
    name: Seq<char>,
    kind: Option<Seq<char>>,
    group_name: Option<Seq<char>>,
)
    ensures
        posts_category(
            create_category_step(base, name, kind, group_name),
            base,
            name,
            kind,
            group_name,
        ),
{
    let (a, b) = (text_member("name"@, name), text_member("kind"@, given_or(kind, "expense"@)));
    let one = seq![a, b];
    let members = one + given_text("group_name"@, group_name);
    lemma_pushed(a, b, a, a, a);
    assert(members =~= match group_name {
        Some(g) => one.push(text_member("group_name"@, g)),
        None => one,
    });
    assert(new_category_body(name, kind, group_name) == JsonView::Object(members));
}

pub proof fn lemma_category_patched(
    base: Seq<char>,
    id_or_name: Seq<char>,
    name: Option<Seq<char>>,
    hidden: Option<bool>,
)
    ensures
        patches_category(
            update_category_step(base, id_or_name, name, hidden),
            base,
            id_or_name,
            name,
            hidden,
        ),
{
    let named = given_text("name"@, name);
    let members = named + given_flag("hidden"@, hidden);
    assert(members =~= match hidden {
        Some(b) => named.push(flag_member("hidden"@, b)),
        None => named,
    });
}

/// A new category is posted with its name, its kind, which is "expense" where none
/// is given, and its group, where one is given; its id is what the reply says.
pub proof fn law_new_category_is_posted(
    base: Seq<char>,
    name: Seq<char>,
    kind: Option<Seq<char>>,
    group_name: Option<Seq<char>>,
    replies: Seq<Result<JsonView, Seq<char>>>,
)
    ensures
        requests(base, create_category_step(base, name, kind, group_name), replies) == seq![
            sent(
                Method::Post,
                base + "/api/v1/categories"@,
                seq![
                    text_member("name"@, name),
                    text_member("kind"@, given_or(kind, "expense"@)),
                ] + given_text("group_name"@, group_name),
            ),
        ],
        replies.len() > 0 && replies[0] is Ok ==> outcome(
            base,
            create_category_step(base, name, kind, group_name),
            replies,
        ) == id_or_document(replies[0]->Ok_0),
{
    lemma_category_posted(base, name, kind, group_name);
    let members = seq![
        text_member("name"@, name),
        text_member("kind"@, given_or(kind, "expense"@)),
    ] + given_text("group_name"@, group_name);
    lemma_sends_one(
        base,
        sent(Method::Post, base + "/api/v1/categories"@, members),
        PendingView::NewCategory,
        replies,
    );
}

/// A category is changed in what is given, and in nothing else; it is the one that
/// the name stands for among the categories.
pub proof fn law_category_is_patched(
    base: Seq<char>,
    id_or_name: Seq<char>,
    name: Option<Seq<char>>,
    hidden: Option<bool>,
    id: Seq<char>,
    doc: JsonView,
    replies: Seq<Result<JsonView, Seq<char>>>,
)
    requires
        replies.len() >= 1,
        replies[0] == Ok::<JsonView, Seq<char>>(doc),
        resolved_category(doc, id_or_name) == Some(id),
    ensures
        requests(base, update_category_step(base, id_or_name, name, hidden), replies) == seq![
            asked(base + "/api/v1/categories"@),
            sent(
                Method::Patch,
                base + ("/api/v1/categories/"@ + id),
                given_text("name"@, name) + given_flag("hidden"@, hidden),
            ),
        ],
        replies.len() >= 2 && replies[1] is Ok ==> outcome(
            base,
            update_category_step(base, id_or_name, name, hidden),
            replies,
        ) == says_id(id),
{
    lemma_category_patched(base, id_or_name, name, hidden);
    let members = given_text("name"@, name) + given_flag("hidden"@, hidden);
    let pending = PendingView::CategoryToUpdate {
        wanted: id_or_name,
        body: JsonView::Object(members),
    };
    let request = sent(Method::Patch, base + ("/api/v1/categories/"@ + id), members);
    assert(next_on(base, pending, doc) == StepView::Send(
        request,
        PendingView::Changed { id },
    )) by {
        reveal(next_on);
    }
    lemma_sends_two(
        base,
        asked(base + "/api/v1/categories"@),
        pending,
        doc,
        request,
        PendingView::Changed { id },
        replies,
    );
}

/// A new payee is posted with its name; its id is what the reply says.
pub proof fn law_new_payee_is_posted(
    base: Seq<char>,
    name: Seq<char>,
    replies: Seq<Result<JsonView, Seq<char>>>,
)
    ensures
        requests(base, create_payee_step(base, name), replies) == seq![
            sent(Method::Post, base + "/api/v1/payees"@, seq![text_member("name"@, name)]),
        ],
        replies.len() > 0 && replies[0] is Ok ==> outcome(
            base,
            create_payee_step(base, name),
            replies,
        ) == id_or_document(replies[0]->Ok_0),
{
    lemma_sends_one(
        base,
        sent(Method::Post, base + "/api/v1/payees"@, seq![text_member("name"@, name)]),
        PendingView::NewPayee,
        replies,
    );
}

/// A payee gets the new name; it is the one that the old name stands for among the
/// payees.
pub proof fn law_payee_is_renamed(
    base: Seq<char>,
    id_or_name: Seq<char>,
    new_name: Seq<char>,
    id: Seq<char>,
    doc: JsonView,
    replies: Seq<Result<JsonView, Seq<char>>>,
)
    requires
        replies.len() >= 1,
        replies[0] == Ok::<JsonView, Seq<char>>(doc),
        resolved_in(doc, "payees"@, id_or_name) == Some(id),
    ensures
        requests(base, rename_payee_step(base, id_or_name, new_name), replies) == seq![
            asked(base + "/api/v1/payees"@),
            sent(
                Method::Patch,
                base + ("/api/v1/payees/"@ + id),
                seq![text_member("name"@, new_name)],
            ),
        ],
        replies.len() >= 2 && replies[1] is Ok ==> outcome(
            base,
            rename_payee_step(base, id_or_name, new_name),
            replies,
        ) == says_id(id),
{
    let pending = PendingView::PayeeToRename { wanted: id_or_name, new_name };
    let request = sent(
        Method::Patch,
        base + ("/api/v1/payees/"@ + id),
        seq![text_member("name"@, new_name)],
    );
    assert(next_on(base, pending, doc) == StepView::Send(
        request,
        PendingView::Changed { id },
    )) by {
        reveal(next_on);
    }
    lemma_sends_two(
        base,
        asked(base + "/api/v1/payees"@),
        pending,
        doc,
        request,
        PendingView::Changed { id },
        replies,
    );
}

/// What is looked up is what the name stands for in the list of its kind.
pub proof fn law_names_are_looked_up(
    base: Seq<char>,
    wanted: Seq<char>,
    id: Seq<char>,
    doc: JsonView,
)
    ensures
        resolved_category(doc, wanted) == Some(id) ==> next(
            base,
            PendingView::CategoryToResolve { wanted },
            Ok(doc),
        ) == StepView::Finish(Ok::<AnswerView, Seq<char>>(AnswerView::Id(id))),
        resolved_in(doc, "payees"@, wanted) == Some(id) ==> next(
            base,
            PendingView::PayeeToResolve { wanted },
            Ok(doc),
        ) == StepView::Finish(Ok::<AnswerView, Seq<char>>(AnswerView::Id(id))),
        resolved_in(doc, "accounts"@, wanted) == Some(id) ==> next(
            base,
            PendingView::AccountToResolve { wanted },
            Ok(doc),
        ) == StepView::Finish(Ok::<AnswerView, Seq<char>>(AnswerView::Id(id))),
        categories(base) == asked(base + "/api/v1/categories"@),
        payees(base) == asked(base + "/api/v1/payees"@),
        accounts(base) == asked(base + "/api/v1/accounts"@),
{
    reveal(next_on);
}

// ── Transactions ─────────────────────────────────────────────────────────────

/// No category, an empty one or "null" takes a transaction out of its category: one
/// request, to the transaction that was given.
pub proof fn law_category_is_cleared(
    base: Seq<char>,
    tx_id: Seq<char>,
    category: Option<Seq<char>>,
    replies: Seq<Result<JsonView, Seq<char>>>,
)
    requires
        category is None || category == Some(""@) || category == Some("null"@),
    ensures
        requests(base, set_category_step(base, tx_id, category), replies) == seq![
            sent(
                Method::Patch,
                base + ("/api/v1/transactions/"@ + tx_id),
                seq![MemberView { name: "category_id"@, value: JsonView::Null }],
            ),
        ],
        replies.len() > 0 && replies[0] is Ok ==> outcome(
            base,
            set_category_step(base, tx_id, category),
            replies,
        ) == says_done(),
{
    lemma_sends_one(
        base,
        sent(
            Method::Patch,
            base + ("/api/v1/transactions/"@ + tx_id),
            seq![MemberView { name: "category_id"@, value: JsonView::Null }],
        ),
        PendingView::Confirmation,
        replies,
    );
}

/// Any other category is looked up, and the transaction that was given is put into
/// it.
pub proof fn law_category_is_set(
    base: Seq<char>,
    tx_id: Seq<char>,
    category: Seq<char>,
    id: Seq<char>,
    doc: JsonView,
    replies: Seq<Result<JsonView, Seq<char>>>,
)
    requires
        category != ""@,
        category != "null"@,
        replies.len() >= 1,
        replies[0] == Ok::<JsonView, Seq<char>>(doc),
        resolved_category(doc, category) == Some(id),
    ensures
        requests(base, set_category_step(base, tx_id, Some(category)), replies) == seq![
            asked(base + "/api/v1/categories"@),
            sent(
                Method::Patch,
                base + ("/api/v1/transactions/"@ + tx_id),
                seq![text_member("category_id"@, id)],
            ),
        ],
        replies.len() >= 2 && replies[1] is Ok ==> outcome(
            base,
            set_category_step(base, tx_id, Some(category)),
            replies,
        ) == says_done(),
{
    let pending = PendingView::CategoryToSet { tx_id, wanted: category };
    let request = sent(
        Method::Patch,
        base + ("/api/v1/transactions/"@ + tx_id),
        seq![text_member("category_id"@, id)],
    );
    assert(next_on(base, pending, doc) == StepView::Send(
        request,
        PendingView::Confirmation,
    )) by {
        reveal(next_on);
    }
    lemma_sends_two(
        base,
        asked(base + "/api/v1/categories"@),
        pending,
        doc,
        request,
        PendingView::Confirmation,
        replies,
    );
}

/// The transaction that was given gets the payee that was given.
pub proof fn law_payee_is_set(
    base: Seq<char>,
    tx_id: Seq<char>,
    payee: Seq<char>,
    replies: Seq<Result<JsonView, Seq<char>>>,
)
    ensures
        requests(base, set_payee_step(base, tx_id, payee), replies) == seq![
            sent(
                Method::Patch,
                base + ("/api/v1/transactions/"@ + tx_id),
                seq![text_member("payee"@, payee)],
            ),
        ],
        replies.len() > 0 && replies[0] is Ok ==> outcome(
            base,
            set_payee_step(base, tx_id, payee),
            replies,
        ) == says_done(),
{
    lemma_sends_one(
        base,
        sent(
            Method::Patch,
            base + ("/api/v1/transactions/"@ + tx_id),
            seq![text_member("payee"@, payee)],
        ),
        PendingView::Confirmation,
        replies,
    );
}

proof fn lemma_query(
    query: Seq<char>,
    account_id: Option<Seq<char>>,
    start_date: Option<Seq<char>>,
    end_date: Option<Seq<char>>,
)
    ensures
        with_query(query, account_id, start_date, end_date) == query + given_part(
            "&account_id="@,
            account_id,
        ) + given_part("&start_date="@, start_date) + given_part("&end_date="@, end_date),
{
    let one = query + given_part("&account_id="@, account_id);
    let two = one + given_part("&start_date="@, start_date);
    let three = two + given_part("&end_date="@, end_date);
    assert(one =~= match account_id {
        Some(a) => query + "&account_id="@ + a,
        None => query,
    });
    assert(two =~= match start_date {
        Some(a) => one + "&start_date="@ + a,
        None => one,
    });
    assert(three =~= match end_date {
        Some(a) => two + "&end_date="@ + a,
        None => two,
    });
}

pub proof fn lemma_uncategorized(
    base: Seq<char>,
    account_id: Option<Seq<char>>,
    start_date: Option<Seq<char>>,
    end_date: Option<Seq<char>>,
    limit: Option<i64>,
)
    ensures
        asks_uncategorized(
            uncategorized_step(base, account_id, start_date, end_date, limit),
            base,
            account_id,
            start_date,
            end_date,
            limit,
        ),
{
    let n = asked_limit(limit);
    reveal_strlit("/api/v1/transactions/uncategorized?");
    reveal_strlit("/api/v1/transactions/uncategorized?limit=");
    reveal_strlit("limit=");
    assert("/api/v1/transactions/uncategorized?limit="@
        =~= "/api/v1/transactions/uncategorized?"@ + "limit="@);
    let url = base + ("/api/v1/transactions/uncategorized?limit="@ + decimal(n) + given_part(
        "&account_id="@,
        account_id,
    ) + given_part("&start_date="@, start_date) + given_part("&end_date="@, end_date));
    lemma_query("limit="@ + decimal(n), account_id, start_date, end_date);
    assert(base + ("/api/v1/transactions/uncategorized?"@ + with_query(
        "limit="@ + decimal(n),
        account_id,
        start_date,
        end_date,
    )) =~= url);
}

pub proof fn lemma_by_category(
    base: Seq<char>,
    category_regex: Seq<char>,
    account_id: Option<Seq<char>>,
    start_date: Option<Seq<char>>,
    end_date: Option<Seq<char>>,
    limit: Option<i64>,
)
    ensures
        asks_by_category(
            by_category_step(base, category_regex, account_id, start_date, end_date, limit),
            base,
            category_regex,
            account_id,
            start_date,
            end_date,
            limit,
        ),
{
    let n = asked_limit(limit);
    reveal_strlit("/api/v1/transactions/by-category?");
    reveal_strlit("/api/v1/transactions/by-category?category_regex=");
    reveal_strlit("category_regex=");
    assert("/api/v1/transactions/by-category?category_regex="@
        =~= "/api/v1/transactions/by-category?"@ + "category_regex="@);
    let url = base + ("/api/v1/transactions/by-category?category_regex="@ + category_regex
        + "&limit="@ + decimal(n) + given_part("&account_id="@, account_id) + given_part(
        "&start_date="@,
        start_date,
    ) + given_part("&end_date="@, end_date));
    lemma_query(
        "category_regex="@ + category_regex + "&limit="@ + decimal(n),
        account_id,
        start_date,
        end_date,
    );
    assert(base + ("/api/v1/transactions/by-category?"@ + with_query(
        "category_regex="@ + category_regex + "&limit="@ + decimal(n),
        account_id,
        start_date,
        end_date,
    )) =~= url);
}

/// The question for uncategorized transactions carries the limit, and the account
/// and each end of the range as far as they are given, each under its own name.
pub proof fn law_uncategorized_question(
    base: Seq<char>,
    account_id: Option<Seq<char>>,
    start_date: Option<Seq<char>>,
    end_date: Option<Seq<char>>,
    limit: Option<i64>,
    replies: Seq<Result<JsonView, Seq<char>>>,
)
    ensures
        requests(
            base,
            uncategorized_step(base, account_id, start_date, end_date, limit),
            replies,
        ) == seq![
            asked(
                base + ("/api/v1/transactions/uncategorized?limit="@ + decimal(asked_limit(limit)) + given_part(
                    "&account_id="@,
                    account_id,
                ) + given_part("&start_date="@, start_date) + given_part("&end_date="@, end_date)),
            ),
        ],
        replies.len() > 0 && replies[0] is Ok ==> outcome(
            base,
            uncategorized_step(base, account_id, start_date, end_date, limit),
            replies,
        ) == says_document(replies[0]->Ok_0),
{
    lemma_uncategorized(base, account_id, start_date, end_date, limit);
    let url = base + ("/api/v1/transactions/uncategorized?limit="@ + decimal(asked_limit(limit))
        + given_part("&account_id="@, account_id) + given_part("&start_date="@, start_date)
        + given_part("&end_date="@, end_date));
    lemma_sends_one(base, asked(url), PendingView::Document, replies);
}

/// The question for the transactions of matching categories carries the pattern,
/// the limit, and the account and each end of the range as far as they are given,
/// each under its own name.
pub proof fn law_by_category_question(
    base: Seq<char>,
    category_regex: Seq<char>,
    account_id: Option<Seq<char>>,
    start_date: Option<Seq<char>>,
    end_date: Option<Seq<char>>,
    limit: Option<i64>,
    replies: Seq<Result<JsonView, Seq<char>>>,
)
    ensures
        requests(
            base,
            by_category_step(base, category_regex, account_id, start_date, end_date, limit),
            replies,
        ) == seq![
            asked(
                base + ("/api/v1/transactions/by-category?category_regex="@ + category_regex
                    + "&limit="@ + decimal(asked_limit(limit)) + given_part("&account_id="@, account_id)
                    + given_part("&start_date="@, start_date) + given_part(
                    "&end_date="@,
                    end_date,
                )),
            ),
        ],
        replies.len() > 0 && replies[0] is Ok ==> outcome(
            base,
            by_category_step(base, category_regex, account_id, start_date, end_date, limit),
            replies,
        ) == says_document(replies[0]->Ok_0),
{
    lemma_by_category(base, category_regex, account_id, start_date, end_date, limit);
    let url = base + ("/api/v1/transactions/by-category?category_regex="@ + category_regex
        + "&limit="@ + decimal(asked_limit(limit)) + given_part("&account_id="@, account_id)
        + given_part("&start_date="@, start_date) + given_part("&end_date="@, end_date));
    lemma_sends_one(base, asked(url), PendingView::Document, replies);
}

// ── Rules ────────────────────────────────────────────────────────────────────

pub proof fn lemma_rules_applied(base: Seq<char>, account_id: Option<Seq<char>>, limit: Option<i64>)
    ensures
        applies_rules(apply_rules_step(base, account_id, limit), base, account_id, limit),
{
    let named = given_text("account_id"@, account_id);
    let members = named + given_number("limit"@, limit);
    assert(members =~= match limit {
        Some(n) => named.push(number_member("limit"@, n as int)),
        None => named,
    });
}

/// The rules are applied to the account and up to the limit, as far as they are
/// given.
pub proof fn law_rules_are_applied(
    base: Seq<char>,
    account_id: Option<Seq<char>>,
    limit: Option<i64>,
    replies: Seq<Result<JsonView, Seq<char>>>,
)
    ensures
        requests(base, apply_rules_step(base, account_id, limit), replies) == seq![
            sent(
                Method::Post,
                base + "/api/v1/rules/apply"@,
                given_text("account_id"@, account_id) + given_number("limit"@, limit),
            ),
        ],
        replies.len() > 0 && replies[0] is Ok ==> outcome(
            base,
            apply_rules_step(base, account_id, limit),
            replies,
        ) == says_document(replies[0]->Ok_0),
{
    lemma_rules_applied(base, account_id, limit);
    let members = given_text("account_id"@, account_id) + given_number("limit"@, limit);
    lemma_sends_one(
        base,
        sent(Method::Post, base + "/api/v1/rules/apply"@, members),
        PendingView::Document,
        replies,
    );
}

/// A rule that is not there is made: it says that a payee that the trimmed pattern
/// matches is put into the category that the name stands for. What it comes to
/// tells the rule's id, its category, its pattern, and how many it matched.
pub proof fn law_new_rule_is_posted(
    base: Seq<char>,
    payee_regex: Seq<char>,
    category: Seq<char>,
    category_id: Seq<char>,
    categories_doc: JsonView,
    rules_doc: JsonView,
    replies: Seq<Result<JsonView, Seq<char>>>,
)
    requires
        trimmed(payee_regex).len() > 0,
        replies.len() >= 2,
        replies[0] == Ok::<JsonView, Seq<char>>(categories_doc),
        replies[1] == Ok::<JsonView, Seq<char>>(rules_doc),
        resolved_category(categories_doc, category) == Some(category_id),
        known_rule(
            rules_doc,
            trimmed(payee_regex),
            lowercase(trimmed(payee_regex)),
            category_id,
        ) is None,
    ensures
        requests(base, payee_rule_step(base, payee_regex, category), replies) == seq![
            asked(base + "/api/v1/categories"@),
            asked(base + "/api/v1/rules"@),
            sent(
                Method::Post,
                base + "/api/v1/rules"@,
                seq![
                    text_member("stage"@, "pre"@),
                    text_member("conditions_op"@, "and"@),
                    list_member(
                        "conditions"@,
                        seq![
                            JsonView::Object(
                                seq![
                                    text_member("field"@, "payee"@),
                                    text_member("op"@, "regex"@),
                                    text_member("value"@, trimmed(payee_regex)),
                                ],
                            ),
                        ],
                    ),
                    list_member(
                        "actions"@,
                        seq![
                            JsonView::Object(
                                seq![
                                    text_member("field"@, "category"@),
                                    text_member("value"@, category_id),
                                ],
                            ),
                        ],
                    ),
                ],
            ),
        ],
        replies.len() >= 3 && replies[2] is Ok ==> outcome(
            base,
            payee_rule_step(base, payee_regex, category),
            replies,
        ) == says_document(
            JsonView::Object(
                seq![
                    flag_member("created"@, true),
                    text_member("id"@, given_or(replies[2]->Ok_0.text_field("id"@), ""@)),
                    text_member("category_id"@, category_id),
                    text_member("payee_regex"@, trimmed(payee_regex)),
                    number_member("matched"@, matched_in(replies[2]->Ok_0)),
                ],
            ),
        ),
{
    law_trimmed_once(payee_regex);
    let rule = sent(
        Method::Post,
        base + "/api/v1/rules"@,
        seq![
            text_member("stage"@, "pre"@),
            text_member("conditions_op"@, "and"@),
            list_member(
                "conditions"@,
                seq![
                    JsonView::Object(
                        seq![
                            text_member("field"@, "payee"@),
                            text_member("op"@, "regex"@),
                            text_member("value"@, trimmed(payee_regex)),
                        ],
                    ),
                ],
            ),
            list_member(
                "actions"@,
                seq![
                    JsonView::Object(
                        seq![
                            text_member("field"@, "category"@),
                            text_member("value"@, category_id),
                        ],
                    ),
                ],
            ),
        ],
    );
    let needle = trimmed(payee_regex);
    let pending = PendingView::RuleCategory { needle, wanted: category };
    let waiting = PendingView::RuleList { needle, category_id };
    let last = PendingView::NewRule { needle, category_id };
    assert(next_on(base, pending, categories_doc) == StepView::Send(
        asked(base + "/api/v1/rules"@),
        waiting,
    )) by {
        reveal(next_on);
    }
    let stage = text_member("stage"@, "pre"@);
    let op = text_member("conditions_op"@, "and"@);
    let of_payee = text_member("field"@, "payee"@);
    let by_regex = text_member("op"@, "regex"@);
    let of_category = text_member("field"@, "category"@);
    let (value, to_category) = (text_member("value"@, needle), text_member("value"@, category_id));
    let condition = JsonView::Object(seq![of_payee, by_regex, value]);
    let action = JsonView::Object(seq![of_category, to_category]);
    lemma_pushed(of_payee, by_regex, value, stage, stage);
    lemma_pushed(of_category, to_category, stage, stage, stage);
    lemma_pushed(
        stage,
        op,
        list_member("conditions"@, seq![condition]),
        list_member("actions"@, seq![action]),
        stage,
    );
    assert(rule_body(needle, category_id) == JsonView::Object(
        seq![
            stage,
            op,
            list_member("conditions"@, seq![condition]),
            list_member("actions"@, seq![action]),
        ],
    ));
    assert(next_on(base, waiting, rules_doc) == StepView::Send(rule, last)) by {
        reveal(next_on);
    }
    lemma_sends_three(
        base,
        asked(base + "/api/v1/categories"@),
        pending,
        categories_doc,
        asked(base + "/api/v1/rules"@),
        waiting,
        rules_doc,
        rule,
        last,
        replies,
    );
    if replies.len() >= 3 && replies[2] is Ok {
        let doc = replies[2]->Ok_0;
        let id = given_or(doc.text_field("id"@), ""@);
        let matched = matched_in(doc);
        lemma_pushed(
            flag_member("created"@, true),
            text_member("id"@, id),
            text_member("category_id"@, category_id),
            text_member("payee_regex"@, needle),
            number_member("matched"@, matched),
        );
        assert(new_rule_answer(doc, needle, category_id) == JsonView::Object(
            seq![
                flag_member("created"@, true),
                text_member("id"@, id),
                text_member("category_id"@, category_id),
                text_member("payee_regex"@, needle),
                number_member("matched"@, matched),
            ],
        ));
    }
}

/// Of a rule that is there already, what it comes to tells that none was made, which
/// rule it is and why.
pub proof fn law_known_rule_is_told(
    base: Seq<char>,
    needle: Seq<char>,
    category_id: Seq<char>,
    id: Seq<char>,
    rules_doc: JsonView,
)
    requires
        needle == trimmed(needle),
        known_rule(rules_doc, needle, lowercase(needle), category_id) == Some(id),
    ensures
        next(base, PendingView::RuleList { needle, category_id }, Ok(rules_doc))
            == StepView::Finish(
            Ok::<AnswerView, Seq<char>>(
                AnswerView::Document(
                    JsonView::Object(
                        seq![
                            flag_member("created"@, false),
                            text_member("id"@, id),
                            text_member("reason"@, "equivalent payee regex rule already exists"@),
                            text_member("category_id"@, category_id),
                            text_member("payee_regex"@, needle),
                            number_member("matched"@, 0),
                        ],
                    ),
                ),
            ),
        ),
{
    reveal(next_on);
    let (a, b, c, d, e, f) = (
        flag_member("created"@, false),
        text_member("id"@, id),
        text_member("reason"@, "equivalent payee regex rule already exists"@),
        text_member("category_id"@, category_id),
        text_member("payee_regex"@, needle),
        number_member("matched"@, 0),
    );
    assert(seq![a, b, c, d, e, f] =~= Seq::empty().push(a).push(b).push(c).push(d).push(e).push(f));
    assert(known_rule_answer(id, needle, category_id) == JsonView::Object(seq![a, b, c, d, e, f]));
}

// ── Loans ────────────────────────────────────────────────────────────────────

/// The question for the loans.
pub proof fn law_loans_question(base: Seq<char>, replies: Seq<Result<JsonView, Seq<char>>>)
    ensures
        requests(base, loans_step(base), replies) == seq![asked(base + "/api/v1/loans"@)],
        replies.len() > 0 && replies[0] is Ok ==> outcome(base, loans_step(base), replies)
            == says_document(replies[0]->Ok_0),
{
    lemma_sends_one(base, asked(base + "/api/v1/loans"@), PendingView::Document, replies);
}

/// The question for a projection carries the strategy and what is paid on top,
/// which is nothing where it is not given or less than nothing.
pub proof fn law_projection_question(
    base: Seq<char>,
    strategy: Option<Seq<char>>,
    extra_cents: Option<i64>,
    name: Seq<char>,
    replies: Seq<Result<JsonView, Seq<char>>>,
)
    requires
        loan_strategy(strategy) == Ok::<Seq<char>, Seq<char>>(name),
    ensures
        requests(base, projection_step(base, strategy, extra_cents), replies) == seq![
            asked(
                base + ("/api/v1/loans/projection?strategy="@ + name + "&extra_cents="@ + decimal(
                    if given_cents(extra_cents) >= 0 {
                        given_cents(extra_cents)
                    } else {
                        0
                    },
                )),
            ),
        ],
        replies.len() > 0 && replies[0] is Ok ==> outcome(
            base,
            projection_step(base, strategy, extra_cents),
            replies,
        ) == says_document(replies[0]->Ok_0),
{
    let extra = if given_cents(extra_cents) >= 0 {
        given_cents(extra_cents)
    } else {
        0
    };
    let url = base + ("/api/v1/loans/projection?strategy="@ + name + "&extra_cents="@ + decimal(
        extra,
    ));
    lemma_sends_one(base, asked(url), PendingView::Document, replies);
}

pub proof fn lemma_summary(
    base: Seq<char>,
    month: Option<Seq<char>>,
    extra_cents: Option<i64>,
    strategy: Option<Seq<char>>,
)
    ensures
        asks_summary(
            summary_step(base, month, extra_cents, strategy),
            base,
            month,
            extra_cents,
            strategy,
        ),
{
    if loan_strategy(strategy) is Ok && given_cents(extra_cents) >= 0 {
        let name = loan_strategy(strategy)->Ok_0;
        let extra = given_cents(extra_cents);
        reveal_strlit("/api/v1/summary?month=");
        reveal_strlit("/api/v1/summary?");
        reveal_strlit("month=");
        reveal_strlit("");
        assert("/api/v1/summary?month="@ =~= "/api/v1/summary?"@ + "month="@);
        let built = base + ("/api/v1/summary?"@ + month_query(month) + "extra_cents="@ + decimal(
            extra,
        ) + "&strategy="@ + name);
        assert(built =~= summary_url(base, month, extra, name));
    }
}

/// The question for a summary carries the month, where one is given that is not
/// blank, what is paid on top, and the strategy.
pub proof fn law_summary_question(
    base: Seq<char>,
    month: Option<Seq<char>>,
    extra_cents: Option<i64>,
    strategy: Option<Seq<char>>,
    name: Seq<char>,
    replies: Seq<Result<JsonView, Seq<char>>>,
)
    requires
        loan_strategy(strategy) == Ok::<Seq<char>, Seq<char>>(name),
        given_cents(extra_cents) >= 0,
    ensures
        requests(base, summary_step(base, month, extra_cents, strategy), replies) == seq![
            asked(summary_url(base, month, given_cents(extra_cents), name)),
        ],
        replies.len() > 0 && replies[0] is Ok ==> outcome(
            base,
            summary_step(base, month, extra_cents, strategy),
            replies,
        ) == says_document(replies[0]->Ok_0),
{
    lemma_summary(base, month, extra_cents, strategy);
    let url = summary_url(base, month, given_cents(extra_cents), name);
    lemma_sends_one(base, asked(url), PendingView::Document, replies);
}

// ── Accounts ─────────────────────────────────────────────────────────────────

/// A statement goes to the account that the name stands for among the accounts, in
/// the format that was given: its text as it was given, or by the name of its file.
pub proof fn law_statement_goes_to_the_account(
    base: Seq<char>,
    account: Seq<char>,
    format: Option<Seq<char>>,
    csv: Option<Seq<char>>,
    inbox_file: Option<Seq<char>>,
    source: SourceView,
    format_name: Seq<char>,
    id: Seq<char>,
    doc: JsonView,
    replies: Seq<Result<JsonView, Seq<char>>>,
)
    requires
        import_source(csv, inbox_file) == Ok::<SourceView, Seq<char>>(source),
        import_format(format) == Ok::<Seq<char>, Seq<char>>(format_name),
        replies.len() >= 1,
        replies[0] == Ok::<JsonView, Seq<char>>(doc),
        resolved_in(doc, "accounts"@, account) == Some(id),
    ensures
        ({
            let query = "account_id="@ + encoded(id) + "&format="@ + encoded(format_name);
            requests(base, import_step(base, account, format, csv, inbox_file), replies) == seq![
                asked(base + "/api/v1/accounts"@),
                match inbox_file {
                    None => RequestView {
                        method: Method::Post,
                        url: base + ("/api/v1/import/csv?"@ + query),
                        payload: PayloadView::Text { content_type: "text/csv"@, body: csv->0 },
                    },
                    Some(file) => sent(
                        Method::Post,
                        base + ("/api/v1/import/inbox/"@ + encoded(trimmed(file)) + "?"@ + query),
                        Seq::empty(),
                    ),
                },
            ]
        }),
        replies.len() >= 2 && replies[1] is Ok ==> outcome(
            base,
            import_step(base, account, format, csv, inbox_file),
            replies,
        ) == says_document(replies[1]->Ok_0),
{
    let query = "account_id="@ + encoded(id) + "&format="@ + encoded(format_name);
    let request = match inbox_file {
        None => RequestView {
            method: Method::Post,
            url: base + ("/api/v1/import/csv?"@ + query),
            payload: PayloadView::Text { content_type: "text/csv"@, body: csv->0 },
        },
        Some(file) => sent(
            Method::Post,
            base + ("/api/v1/import/inbox/"@ + encoded(trimmed(file)) + "?"@ + query),
            Seq::empty(),
        ),
    };
    let pending = PendingView::AccountToImport { source, format: format_name, wanted: account };
    assert(next_on(base, pending, doc) == StepView::Send(request, PendingView::Document)) by {
        reveal(next_on);
    }
    lemma_sends_two(
        base,
        asked(base + "/api/v1/accounts"@),
        pending,
        doc,
        request,
        PendingView::Document,
        replies,
    );
}

/// A transfer leaves the account that the one name stands for and reaches the
/// account that the other stands for; it carries the day, the amount, and the notes
/// and whether it is cleared as far as they are given.
pub proof fn law_transfer_goes_from_one_to_the_other(
    base: Seq<char>,
    from_account: Seq<char>,
    to_account: Seq<char>,
    date: Seq<char>,
    amount_cents: int,
    notes: Option<Seq<char>>,
    cleared: Option<bool>,
    from_id: Seq<char>,
    to_id: Seq<char>,
    first: JsonView,
    second: JsonView,
    replies: Seq<Result<JsonView, Seq<char>>>,
)
    requires
        replies.len() >= 2,
        replies[0] == Ok::<JsonView, Seq<char>>(first),
        replies[1] == Ok::<JsonView, Seq<char>>(second),
        resolved_in(first, "accounts"@, from_account) == Some(from_id),
        resolved_in(second, "accounts"@, to_account) == Some(to_id),
    ensures
        requests(
            base,
            transfer_step(base, from_account, to_account, date, amount_cents, notes, cleared),
            replies,
        ) == seq![
            asked(base + "/api/v1/accounts"@),
            asked(base + "/api/v1/accounts"@),
            sent(
                Method::Post,
                base + "/api/v1/transfers"@,
                seq![
                    text_member("from_account_id"@, from_id),
                    text_member("to_account_id"@, to_id),
                    text_member("date"@, date),
                    number_member("amount_cents"@, amount_cents),
                ] + given_text("notes"@, notes) + given_flag("cleared"@, cleared),
            ),
        ],
        replies.len() >= 3 && replies[2] is Ok ==> outcome(
            base,
            transfer_step(base, from_account, to_account, date, amount_cents, notes, cleared),
            replies,
        ) == says_document(replies[2]->Ok_0),
{
    let four = seq![
        text_member("from_account_id"@, from_id),
        text_member("to_account_id"@, to_id),
        text_member("date"@, date),
        number_member("amount_cents"@, amount_cents),
    ];
    lemma_pushed(four[0], four[1], four[2], four[3], four[0]);
    let noted = four + given_text("notes"@, notes);
    let members = noted + given_flag("cleared"@, cleared);
    assert(noted =~= match notes {
        Some(t) => four.push(text_member("notes"@, t)),
        None => four,
    });
    assert(members =~= match cleared {
        Some(b) => noted.push(flag_member("cleared"@, b)),
        None => noted,
    });
    let transfer = TransferView { date, amount_cents, notes, cleared };
    let pending = PendingView::AccountToDebit { from: from_account, to: to_account, transfer };
    let waiting = PendingView::AccountToCredit { from_id, to: to_account, transfer };
    let request = sent(Method::Post, base + "/api/v1/transfers"@, members);
    assert(next_on(base, pending, first) == StepView::Send(
        asked(base + "/api/v1/accounts"@),
        waiting,
    )) by {
        reveal(next_on);
    }
    assert(next_on(base, waiting, second) == StepView::Send(request, PendingView::Document)) by {
        reveal(next_on);
    }
    lemma_sends_three(
        base,
        asked(base + "/api/v1/accounts"@),
        pending,
        first,
        asked(base + "/api/v1/accounts"@),
        waiting,
        second,
        request,
        PendingView::Document,
        replies,
    );
}

/// The account that the name stands for is pinned to the balance that was given.
pub proof fn law_balance_is_pinned(
    base: Seq<char>,
    account: Seq<char>,
    balance_cents: int,
    id: Seq<char>,
    doc: JsonView,
    replies: Seq<Result<JsonView, Seq<char>>>,
)
    requires
        replies.len() >= 1,
        replies[0] == Ok::<JsonView, Seq<char>>(doc),
        resolved_in(doc, "accounts"@, account) == Some(id),
    ensures
        requests(base, pin_step(base, account, balance_cents), replies) == seq![
            asked(base + "/api/v1/accounts"@),
            sent(
                Method::Post,
                base + ("/api/v1/accounts/"@ + id + "/pin-balance"@),
                seq![number_member("balance_cents"@, balance_cents)],
            ),
        ],
        replies.len() >= 2 && replies[1] is Ok ==> outcome(
            base,
            pin_step(base, account, balance_cents),
            replies,
        ) == says_document(replies[1]->Ok_0),
{
    let pending = PendingView::AccountToPin { wanted: account, balance_cents };
    let request = sent(
        Method::Post,
        base + ("/api/v1/accounts/"@ + id + "/pin-balance"@),
        seq![number_member("balance_cents"@, balance_cents)],
    );
    assert(next_on(base, pending, doc) == StepView::Send(request, PendingView::Document)) by {
        reveal(next_on);
    }
    lemma_sends_two(
        base,
        asked(base + "/api/v1/accounts"@),
        pending,
        doc,
        request,
        PendingView::Document,
        replies,
    );
}

} // verus!
