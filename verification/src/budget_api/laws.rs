//! What holds of every run of a call.

use crate::budget_api::arguments::{import_format, loan_strategy};
use crate::budget_api::bulk::{
    after_learning, after_setting, bulk_next, error_entry, learning_step, report, setting_step,
    started, BulkPendingView, BulkStepView, BulkView,
};
use crate::budget_api::calls::{
    allocations_step, categories, import_source, import_step, one_member, payee_rule_step,
    projection_step, set_category_step, summary_step,
};
use crate::budget_api::documents::{
    asks_for_payee, does_the_same, equivalent_rule, is_readable, known_rule, lowercase, no_members,
    parsed_allocations, payees_of, resolved_category, rule_body, sets_category,
};
use crate::budget_api::replies::{
    account_in, category_in, known_rule_answer, next, next_on, payee_in, resolved_allocations,
};
use crate::budget_api::steps::{AnswerView, Method, PendingView, RequestView, StepView};
use crate::json::{lookup, with_member, JsonView, MemberView};
use crate::text::{law_trimmed_once, text_or, trimmed};
use vstd::prelude::*;
use vstd::string::*;

verus! {

/// The requests that a call sends, given the replies.
pub open spec fn requests(
    base: Seq<char>,
    step: StepView,
    replies: Seq<Result<JsonView, Seq<char>>>,
) -> Seq<RequestView>
    decreases replies.len(),
{
    match step {
        StepView::Finish(_) => Seq::empty(),
        StepView::Send(request, pending) => if replies.len() == 0 {
            seq![request]
        } else {
            seq![request] + requests(base, next(base, pending, replies[0]), replies.drop_first())
        },
    }
}

pub open spec fn only_reads(sent: Seq<RequestView>) -> bool {
    forall|i: int| 0 <= i < sent.len() ==> (#[trigger] sent[i]).method == Method::Get
}

/// Arguments that are refused send nothing.
pub proof fn law_refused_arguments_send_nothing(
    base: Seq<char>,
    text: Seq<char>,
    other: Seq<char>,
    strategy: Option<Seq<char>>,
    format: Option<Seq<char>>,
    csv: Option<Seq<char>>,
    inbox_file: Option<Seq<char>>,
    month: Option<Seq<char>>,
    extra_cents: Option<i64>,
    allocations: Seq<JsonView>,
)
    ensures
        trimmed(text).len() == 0 ==> payee_rule_step(base, text, other) is Finish,
        loan_strategy(strategy) is Err ==> projection_step(base, strategy, extra_cents) is Finish
            && summary_step(base, month, extra_cents, strategy) is Finish,
        extra_cents is Some && extra_cents->0 < 0 ==> summary_step(
            base,
            month,
            extra_cents,
            strategy,
        ) is Finish,
        import_source(csv, inbox_file) is Err || import_format(format) is Err ==> import_step(
            base,
            text,
            format,
            csv,
            inbox_file,
        ) is Finish,
        parsed_allocations(allocations) is Err ==> allocations_step(
            base,
            text,
            allocations,
        ) is Finish,
{
}

/// An error that a reply brings ends a call with that error.
pub proof fn law_error_ends_call(base: Seq<char>, pending: PendingView, message: Seq<char>)
    ensures
        next(base, pending, Err(message)) == StepView::Finish(
            Err::<AnswerView, Seq<char>>(message),
        ),
{
}

/// The name that a call waits to look up, and what is said where it is unknown.
pub open spec fn missing_name(pending: PendingView, doc: JsonView) -> Option<Seq<char>> {
    let found = match pending {
        PendingView::CategoryToUpdate { wanted, .. } => category_in(doc, wanted),
        PendingView::PayeeToRename { wanted, .. } => payee_in(doc, wanted),
        PendingView::CategoryToSet { wanted, .. } => category_in(doc, wanted),
        PendingView::RuleCategory { wanted, .. } => category_in(doc, wanted),
        PendingView::CategoryToBudget { wanted, .. } => category_in(doc, wanted),
        PendingView::AccountToImport { wanted, .. } => account_in(doc, wanted),
        PendingView::AccountToDebit { from, .. } => account_in(doc, from),
        PendingView::AccountToCredit { to, .. } => account_in(doc, to),
        PendingView::AccountToPin { wanted, .. } => account_in(doc, wanted),
        PendingView::CategoryToResolve { wanted } => category_in(doc, wanted),
        PendingView::PayeeToResolve { wanted } => payee_in(doc, wanted),
        PendingView::AccountToResolve { wanted } => account_in(doc, wanted),
        _ => Ok(Seq::empty()),
    };
    match found {
        Ok(_) => None,
        Err(message) => Some(message),
    }
}

/// A name that is unknown ends a call: nothing is changed.
pub proof fn law_unknown_name_ends_call(
    base: Seq<char>,
    pending: PendingView,
    doc: JsonView,
    message: Seq<char>,
)
    requires
        missing_name(pending, doc) == Some(message),
    ensures
        next(base, pending, Ok(doc)) == StepView::Finish(Err::<AnswerView, Seq<char>>(message)),
{
    reveal(next_on);
}

/// Allocations are set all together or not at all: they are sent only if every
/// category is known, and then each with its amount, in order.
pub proof fn law_allocations_all_or_nothing(doc: JsonView, items: Seq<(Seq<char>, int)>)
    ensures
        match resolved_allocations(doc, items) {
            Ok(v) => {
                &&& v.len() == items.len()
                &&& forall|i: int|
                    #![trigger v[i]]
                    #![trigger items[i]]
                    0 <= i < items.len() ==> resolved_category(doc, items[i].0) is Some && v[i]
                        == with_member(
                        one_member(
                            "category_id"@,
                            JsonView::Str(resolved_category(doc, items[i].0)->0),
                        ),
                        "amount_cents"@,
                        JsonView::Int(items[i].1),
                    )
            },
            Err(_) => exists|i: int|
                0 <= i < items.len() && resolved_category(doc, (#[trigger] items[i]).0) is None,
        },
    decreases items.len(),
{
    if items.len() > 0 {
        let before = items.drop_last();
        law_allocations_all_or_nothing(doc, before);
        match resolved_allocations(doc, before) {
            Ok(w) => {
                match resolved_allocations(doc, items) {
                    Ok(v) => {
                        assert forall|i: int|
                            #![trigger v[i]]
                            #![trigger items[i]]
                            0 <= i < items.len() implies resolved_category(doc, items[i].0) is Some
                            && v[i] == with_member(
                            one_member(
                                "category_id"@,
                                JsonView::Str(resolved_category(doc, items[i].0)->0),
                            ),
                            "amount_cents"@,
                            JsonView::Int(items[i].1),
                        ) by {
                            if i < before.len() {
                                assert(before[i] == items[i]);
                                assert(v[i] == w[i]);
                            }
                        }
                    },
                    Err(_) => {
                        assert(resolved_category(doc, items[items.len() - 1].0) is None);
                    },
                }
            },
            Err(_) => {
                let i = choose|i: int|
                    0 <= i < before.len() && resolved_category(doc, (#[trigger] before[i]).0) is None;
                assert(resolved_category(doc, items[i].0) is None);
            },
        }
    }
}

/// Allocations with a category that is unknown send nothing but the question for
/// the categories.
pub proof fn law_unknown_allocation_only_reads(
    base: Seq<char>,
    month: Seq<char>,
    allocations: Seq<JsonView>,
    items: Seq<(Seq<char>, int)>,
    doc: JsonView,
    i: int,
    later: Seq<Result<JsonView, Seq<char>>>,
)
    requires
        parsed_allocations(allocations) == Ok::<Seq<(Seq<char>, int)>, Seq<char>>(items),
        0 <= i < items.len(),
        resolved_category(doc, items[i].0) is None,
    ensures
        requests(
            base,
            allocations_step(base, month, allocations),
            seq![Ok::<JsonView, Seq<char>>(doc)] + later,
        ) == seq![categories(base)],
{
    reveal(next_on);
    reveal_with_fuel(requests, 3);
    law_allocations_all_or_nothing(doc, items);
    let replies = seq![Ok::<JsonView, Seq<char>>(doc)] + later;
    assert(replies[0] == Ok::<JsonView, Seq<char>>(doc));
    assert(requests(base, allocations_step(base, month, allocations), replies) =~= seq![
        categories(base),
    ]);
}

/// A rule that is already there is not made again: the call only reads, and says
/// which rule it found.
pub proof fn law_known_rule_is_not_made_again(
    base: Seq<char>,
    payee_regex: Seq<char>,
    category: Seq<char>,
    category_id: Seq<char>,
    id: Seq<char>,
    categories_doc: JsonView,
    rules_doc: JsonView,
    later: Seq<Result<JsonView, Seq<char>>>,
)
    requires
        resolved_category(categories_doc, category) == Some(category_id),
        known_rule(
            rules_doc,
            trimmed(payee_regex),
            lowercase(trimmed(payee_regex)),
            category_id,
        ) == Some(id),
    ensures
        only_reads(
            requests(
                base,
                payee_rule_step(base, payee_regex, category),
                seq![
                    Ok::<JsonView, Seq<char>>(categories_doc),
                    Ok::<JsonView, Seq<char>>(rules_doc),
                ] + later,
            ),
        ),
        next(
            base,
            PendingView::RuleList { needle: trimmed(payee_regex), category_id },
            Ok(rules_doc),
        ) == StepView::Finish(
            Ok::<AnswerView, Seq<char>>(
                AnswerView::Document(
                    known_rule_answer(id, trimmed(payee_regex), category_id),
                ),
            ),
        ),
{
    reveal(next_on);
    reveal_with_fuel(requests, 4);
    law_trimmed_once(payee_regex);
    let replies = seq![
        Ok::<JsonView, Seq<char>>(categories_doc),
        Ok::<JsonView, Seq<char>>(rules_doc),
    ] + later;
    assert(replies[0] == Ok::<JsonView, Seq<char>>(categories_doc));
    assert(replies.drop_first()[0] == Ok::<JsonView, Seq<char>>(rules_doc));
}

/// The rule at `at` is the first that asks for the payee and sets the category.
pub open spec fn is_first_same(
    rules: Seq<JsonView>,
    at: int,
    needle: Seq<char>,
    lower: Seq<char>,
    category_id: Seq<char>,
) -> bool {
    &&& 0 <= at < rules.len()
    &&& does_the_same(rules[at], needle, lower, category_id)
    &&& forall|j: int|
        0 <= j < at ==> is_readable(#[trigger] rules[j]) && !does_the_same(
            rules[j],
            needle,
            lower,
            category_id,
        )
}

/// The first rule that asks for the payee and sets the category is the one that is
/// found.
pub proof fn law_first_same_rule_is_found(
    rules: Seq<JsonView>,
    at: int,
    needle: Seq<char>,
    lower: Seq<char>,
    category_id: Seq<char>,
)
    requires
        is_first_same(rules, at, needle, lower, category_id),
    ensures
        equivalent_rule(rules, needle, lower, category_id) == rules[at].text_field("id"@),
    decreases rules.len(),
{
    if at > 0 {
        let rest = rules.drop_first();
        assert(is_readable(rules[0]));
        assert forall|j: int| 0 <= j < at - 1 implies is_readable(#[trigger] rest[j])
            && !does_the_same(rest[j], needle, lower, category_id) by {
            assert(rest[j] == rules[j + 1]);
        }
        law_first_same_rule_is_found(rest, at - 1, needle, lower, category_id);
    }
}

/// Where a rule asks for the payee and sets the category, one is the first.
proof fn lemma_some_first(
    rules: Seq<JsonView>,
    at: int,
    needle: Seq<char>,
    lower: Seq<char>,
    category_id: Seq<char>,
) -> (k: int)
    requires
        0 <= at < rules.len(),
        does_the_same(rules[at], needle, lower, category_id),
        forall|j: int| 0 <= j < at ==> is_readable(#[trigger] rules[j]),
    ensures
        0 <= k <= at,
        is_first_same(rules, k, needle, lower, category_id),
    decreases at,
{
    if exists|j: int|
        0 <= j < at && does_the_same(#[trigger] rules[j], needle, lower, category_id) {
        let j = choose|j: int|
            0 <= j < at && does_the_same(#[trigger] rules[j], needle, lower, category_id);
        lemma_some_first(rules, j, needle, lower, category_id)
    } else {
        at
    }
}

/// The condition asks for a payee by the very text `needle`.
pub open spec fn asks_by_text(condition: JsonView, needle: Seq<char>) -> bool {
    let op = text_or(condition.text_field("op"@), "regex"@);
    &&& condition.text_field("field"@) == Some("payee"@)
    &&& op == "contains"@ || op == "is"@ || op == "equals"@ || op == "regex"@ || op == ""@
    &&& condition.text_field("value"@) == Some(needle)
}

/// A rule of the very same text that sets the category is not made again: some
/// rule is found, and it is the first that asks for the payee and sets the
/// category. What its lower case is does not matter.
pub proof fn law_same_text_is_found(
    rules: Seq<JsonView>,
    at: int,
    i: int,
    k: int,
    needle: Seq<char>,
    lower: Seq<char>,
    category_id: Seq<char>,
)
    requires
        0 <= at < rules.len(),
        forall|j: int| 0 <= j <= at ==> is_readable(#[trigger] rules[j]),
        0 <= i < rules[at].items_field("conditions"@)->0.len(),
        asks_by_text(rules[at].items_field("conditions"@)->0[i], needle),
        0 <= k < rules[at].items_field("actions"@)->0.len(),
        sets_category(rules[at].items_field("actions"@)->0[k], category_id),
    ensures
        exists|first: int|
            first <= at && #[trigger] is_first_same(rules, first, needle, lower, category_id)
                && equivalent_rule(rules, needle, lower, category_id) == rules[first].text_field(
                "id"@,
            ),
{
    assert(is_readable(rules[at]));
    assert(asks_for_payee(rules[at].items_field("conditions"@)->0[i], needle, lower));
    let first = lemma_some_first(rules, at, needle, lower, category_id);
    law_first_same_rule_is_found(rules, first, needle, lower, category_id);
}

/// A rule that was made is found again: where the list of rules holds it, and those
/// before it are rules too, the first that asks for the payee and sets the
/// category is found.
pub proof fn law_made_rule_is_found_again(
    rules: Seq<JsonView>,
    at: int,
    needle: Seq<char>,
    lower: Seq<char>,
    category_id: Seq<char>,
)
    requires
        0 <= at < rules.len(),
        rules[at].field("conditions"@) == rule_body(needle, category_id).field("conditions"@),
        rules[at].field("actions"@) == rule_body(needle, category_id).field("actions"@),
        forall|j: int| 0 <= j < at ==> is_readable(#[trigger] rules[j]),
    ensures
        exists|first: int|
            first <= at && #[trigger] is_first_same(rules, first, needle, lower, category_id)
                && equivalent_rule(rules, needle, lower, category_id) == rules[first].text_field(
                "id"@,
            ),
{
    lemma_rule_body(needle, category_id);
    law_same_text_is_found(rules, at, 0, 0, needle, lower, category_id);
}

/// To make a rule twice is to make it once: where the list of rules holds the rule,
/// and it and those before it are rules with ids, the call only reads.
pub proof fn law_rule_is_made_once(
    base: Seq<char>,
    payee_regex: Seq<char>,
    category: Seq<char>,
    category_id: Seq<char>,
    categories_doc: JsonView,
    rules_doc: JsonView,
    at: int,
    later: Seq<Result<JsonView, Seq<char>>>,
)
    requires
        resolved_category(categories_doc, category) == Some(category_id),
        rules_doc.items_field("rules"@) is Some,
        0 <= at < rules_doc.items_field("rules"@)->0.len(),
        rules_doc.items_field("rules"@)->0[at].field("conditions"@) == rule_body(
            trimmed(payee_regex),
            category_id,
        ).field("conditions"@),
        rules_doc.items_field("rules"@)->0[at].field("actions"@) == rule_body(
            trimmed(payee_regex),
            category_id,
        ).field("actions"@),
        forall|j: int|
            0 <= j <= at ==> (#[trigger] rules_doc.items_field("rules"@)->0[j]).text_field(
                "id"@,
            ) is Some,
        forall|j: int|
            0 <= j < at ==> is_readable(#[trigger] rules_doc.items_field("rules"@)->0[j]),
    ensures
        only_reads(
            requests(
                base,
                payee_rule_step(base, payee_regex, category),
                seq![
                    Ok::<JsonView, Seq<char>>(categories_doc),
                    Ok::<JsonView, Seq<char>>(rules_doc),
                ] + later,
            ),
        ),
{
    let rules = rules_doc.items_field("rules"@)->0;
    let needle = trimmed(payee_regex);
    let lower = lowercase(needle);
    law_made_rule_is_found_again(rules, at, needle, lower, category_id);
    let first = choose|first: int|
        first <= at && #[trigger] is_first_same(rules, first, needle, lower, category_id)
            && equivalent_rule(rules, needle, lower, category_id) == rules[first].text_field("id"@);
    law_known_rule_is_not_made_again(
        base,
        payee_regex,
        category,
        category_id,
        rules[first].text_field("id"@)->0,
        categories_doc,
        rules_doc,
        later,
    );
}

/// A member that was added last is found, unless there was one of that name.
proof fn lemma_with_member(members: Seq<MemberView>, key: Seq<char>, value: JsonView, other: Seq<char>)
    ensures
        lookup(members.push(MemberView { name: key, value }), other) == match lookup(
            members,
            other,
        ) {
            Some(v) => Some(v),
            None => if other == key {
                Some(value)
            } else {
                None
            },
        },
    decreases members.len(),
{
    let more = members.push(MemberView { name: key, value });
    if members.len() == 0 {
        reveal_with_fuel(lookup, 2);
        assert(more[0].name == key);
        assert(more.drop_first() =~= Seq::empty());
    } else {
        assert(more[0] == members[0]);
        assert(more.drop_first() =~= members.drop_first().push(MemberView { name: key, value }));
        lemma_with_member(members.drop_first(), key, value, other);
    }
}

proof fn lemma_member_field(j: JsonView, key: Seq<char>, value: JsonView, other: Seq<char>)
    requires
        j is Object,
    ensures
        with_member(j, key, value) is Object,
        with_member(j, key, value).field(other) == match j.field(other) {
            Some(v) => Some(v),
            None => if other == key {
                Some(value)
            } else {
                None
            },
        },
{
    match j {
        JsonView::Object(members) => lemma_with_member(members, key, value, other),
        _ => {},
    }
}

proof fn lemma_rule_body(needle: Seq<char>, category_id: Seq<char>)
    ensures
        ({
            let body = rule_body(needle, category_id);
            &&& body.items_field("conditions"@) is Some && body.items_field("actions"@) is Some
            &&& body.items_field("conditions"@)->0.len() == 1
            &&& body.items_field("actions"@)->0.len() == 1
            &&& asks_by_text(body.items_field("conditions"@)->0[0], needle)
            &&& sets_category(body.items_field("actions"@)->0[0], category_id)
        }),
{
    reveal_strlit("field");
    reveal_strlit("op");
    reveal_strlit("value");
    reveal_strlit("stage");
    reveal_strlit("conditions_op");
    reveal_strlit("conditions");
    reveal_strlit("actions");
    let c1 = with_member(no_members(), "field"@, JsonView::Str("payee"@));
    let c2 = with_member(c1, "op"@, JsonView::Str("regex"@));
    let c3 = with_member(c2, "value"@, JsonView::Str(needle));
    assert("field"@.len() == 5 && "op"@.len() == 2 && "value"@.len() == 5);
    assert("field"@[0] == 'f' && "value"@[0] == 'v');
    lemma_member_field(no_members(), "field"@, JsonView::Str("payee"@), "field"@);
    lemma_member_field(no_members(), "field"@, JsonView::Str("payee"@), "op"@);
    lemma_member_field(no_members(), "field"@, JsonView::Str("payee"@), "value"@);
    lemma_member_field(c1, "op"@, JsonView::Str("regex"@), "field"@);
    lemma_member_field(c1, "op"@, JsonView::Str("regex"@), "op"@);
    lemma_member_field(c1, "op"@, JsonView::Str("regex"@), "value"@);
    lemma_member_field(c2, "value"@, JsonView::Str(needle), "field"@);
    lemma_member_field(c2, "value"@, JsonView::Str(needle), "op"@);
    lemma_member_field(c2, "value"@, JsonView::Str(needle), "value"@);
    let a1 = with_member(no_members(), "field"@, JsonView::Str("category"@));
    let a2 = with_member(a1, "value"@, JsonView::Str(category_id));
    lemma_member_field(no_members(), "field"@, JsonView::Str("category"@), "field"@);
    lemma_member_field(no_members(), "field"@, JsonView::Str("category"@), "value"@);
    lemma_member_field(a1, "value"@, JsonView::Str(category_id), "field"@);
    lemma_member_field(a1, "value"@, JsonView::Str(category_id), "value"@);
    let b1 = with_member(no_members(), "stage"@, JsonView::Str("pre"@));
    let b2 = with_member(b1, "conditions_op"@, JsonView::Str("and"@));
    let b3 = with_member(b2, "conditions"@, JsonView::Array(seq![c3]));
    assert("stage"@.len() == 5 && "conditions_op"@.len() == 13 && "conditions"@.len() == 10
        && "actions"@.len() == 7);
    lemma_member_field(no_members(), "stage"@, JsonView::Str("pre"@), "conditions"@);
    lemma_member_field(no_members(), "stage"@, JsonView::Str("pre"@), "actions"@);
    lemma_member_field(b1, "conditions_op"@, JsonView::Str("and"@), "conditions"@);
    lemma_member_field(b1, "conditions_op"@, JsonView::Str("and"@), "actions"@);
    lemma_member_field(b2, "conditions"@, JsonView::Array(seq![c3]), "conditions"@);
    lemma_member_field(b2, "conditions"@, JsonView::Array(seq![c3]), "actions"@);
    lemma_member_field(b3, "actions"@, JsonView::Array(seq![a2]), "conditions"@);
    lemma_member_field(b3, "actions"@, JsonView::Array(seq![a2]), "actions"@);
}

// ── Many transactions ────────────────────────────────────────────────────────

/// The entry says that `name` failed.
pub open spec fn is_error_of(entry: JsonView, key: Seq<char>, name: Seq<char>) -> bool {
    exists|message: Seq<char>| entry == #[trigger] error_entry(key, name, message)
}

/// Each of the transactions, in their order, was updated or has its error.
pub open spec fn settled(
    ids: Seq<Seq<char>>,
    updated: Seq<Seq<char>>,
    errors: Seq<JsonView>,
) -> bool
    decreases ids.len(),
{
    if ids.len() == 0 {
        updated.len() == 0 && errors.len() == 0
    } else {
        ||| {
            &&& updated.len() > 0
            &&& updated.last() == ids.last()
            &&& settled(ids.drop_last(), updated.drop_last(), errors)
        }
        ||| {
            &&& errors.len() > 0
            &&& is_error_of(errors.last(), "id"@, ids.last())
            &&& settled(ids.drop_last(), updated, errors.drop_last())
        }
    }
}

/// Each of the payees, in their order, was learned from or has its error.
pub open spec fn tried(
    payees: Seq<Seq<char>>,
    learned: Seq<JsonView>,
    errors: Seq<JsonView>,
) -> bool
    decreases payees.len(),
{
    if payees.len() == 0 {
        learned.len() == 0 && errors.len() == 0
    } else {
        ||| learned.len() > 0 && tried(payees.drop_last(), learned.drop_last(), errors)
        ||| {
            &&& errors.len() > 0
            &&& is_error_of(errors.last(), "learn_payee"@, payees.last())
            &&& tried(payees.drop_last(), learned, errors.drop_last())
        }
    }
}

/// The first `k` errors are those of the transactions, the others those of the
/// payees.
pub open spec fn accounts_for(
    bulk: BulkView,
    ids: Seq<Seq<char>>,
    payees: Seq<Seq<char>>,
    k: int,
) -> bool {
    &&& 0 <= k <= bulk.errors.len()
    &&& settled(ids, bulk.updated, bulk.errors.take(k))
    &&& tried(payees, bulk.learned, bulk.errors.skip(k))
}

/// Every transaction and payee so far has its entry.
pub open spec fn accounted(pending: BulkPendingView) -> bool {
    match pending {
        BulkPendingView::Category { .. } => true,
        BulkPendingView::Setting { bulk, at, .. } => {
            &&& 0 <= at < bulk.ids.len()
            &&& settled(bulk.ids.take(at), bulk.updated, bulk.errors)
            &&& bulk.learned.len() == 0
        },
        BulkPendingView::Transactions { bulk } => {
            &&& settled(bulk.ids, bulk.updated, bulk.errors)
            &&& bulk.learned.len() == 0
        },
        BulkPendingView::Learning { bulk, payees, at, .. } => {
            &&& 0 <= at < payees.len()
            &&& exists|k: int| #[trigger] accounts_for(bulk, bulk.ids, payees.take(at), k)
        },
    }
}

/// The transactions that a call is for.
pub open spec fn ids_of(pending: BulkPendingView) -> Seq<Seq<char>> {
    match pending {
        BulkPendingView::Category { ids, .. } => ids,
        BulkPendingView::Setting { bulk, .. } => bulk.ids,
        BulkPendingView::Transactions { bulk } => bulk.ids,
        BulkPendingView::Learning { bulk, .. } => bulk.ids,
    }
}

/// The category that the transactions are to have, once the reply is there.
pub open spec fn category_of(
    pending: BulkPendingView,
    reply: Result<JsonView, Seq<char>>,
) -> Option<Seq<char>> {
    match pending {
        BulkPendingView::Category { wanted, .. } => match reply {
            Ok(doc) => resolved_category(doc, wanted),
            Err(_) => None,
        },
        BulkPendingView::Setting { bulk, .. } => Some(bulk.category_id),
        BulkPendingView::Transactions { bulk } => Some(bulk.category_id),
        BulkPendingView::Learning { bulk, .. } => Some(bulk.category_id),
    }
}

/// The payees that are learned from, once the reply is there.
pub open spec fn payees_asked(
    pending: BulkPendingView,
    reply: Result<JsonView, Seq<char>>,
) -> Seq<Seq<char>> {
    match pending {
        BulkPendingView::Transactions { bulk } => match reply {
            Ok(doc) => payees_of(doc, bulk.ids),
            Err(_) => Seq::empty(),
        },
        BulkPendingView::Learning { payees, .. } => payees,
        _ => Seq::empty(),
    }
}

/// The document is the report on these transactions and payees, with an entry for
/// each of them.
pub open spec fn reported(
    doc: JsonView,
    ids: Seq<Seq<char>>,
    category_id: Seq<char>,
    payees: Seq<Seq<char>>,
) -> bool {
    exists|bulk: BulkView, k: int|
        doc == report(bulk) && bulk.ids == ids && bulk.category_id == category_id
            && #[trigger] accounts_for(bulk, ids, payees, k)
}

/// The step keeps to the transactions, the category and the payees of the call, and
/// accounts for each of them.
pub open spec fn step_accounted(
    ids: Seq<Seq<char>>,
    category_id: Seq<char>,
    payees: Seq<Seq<char>>,
    step: BulkStepView,
) -> bool {
    match step {
        BulkStepView::Send(_, then) => {
            &&& accounted(then)
            &&& ids_of(then) == ids
            &&& forall|reply: Result<JsonView, Seq<char>>| #[trigger]
                category_of(then, reply) == Some(category_id)
            &&& then is Learning ==> then->Learning_payees == payees
        },
        BulkStepView::Finish(Ok(doc)) => reported(doc, ids, category_id, payees),
        BulkStepView::Finish(Err(_)) => false,
    }
}

proof fn lemma_settled_more(
    ids: Seq<Seq<char>>,
    at: int,
    bulk: BulkView,
    outcome: Result<AnswerView, Seq<char>>,
)
    requires
        0 <= at < ids.len(),
        settled(ids.take(at), bulk.updated, bulk.errors),
    ensures
        settled(
            ids.take(at + 1),
            after_setting(bulk, ids[at], outcome).updated,
            after_setting(bulk, ids[at], outcome).errors,
        ),
{
    let more = after_setting(bulk, ids[at], outcome);
    let done = ids.take(at + 1);
    assert(done.drop_last() =~= ids.take(at));
    assert(done.last() == ids[at]);
    match outcome {
        Ok(_) => {
            assert(more.updated.drop_last() =~= bulk.updated);
        },
        Err(message) => {
            assert(more.errors.drop_last() =~= bulk.errors);
            assert(more.errors.last() == error_entry("id"@, ids[at], message));
        },
    }
}

proof fn lemma_tried_more(
    payees: Seq<Seq<char>>,
    at: int,
    bulk: BulkView,
    outcome: Result<AnswerView, Seq<char>>,
    ids: Seq<Seq<char>>,
    k: int,
)
    requires
        0 <= at < payees.len(),
        accounts_for(bulk, ids, payees.take(at), k),
    ensures
        accounts_for(after_learning(bulk, payees[at], outcome), ids, payees.take(at + 1), k),
{
    let more = after_learning(bulk, payees[at], outcome);
    let done = payees.take(at + 1);
    assert(done.drop_last() =~= payees.take(at));
    assert(done.last() == payees[at]);
    assert(more.errors.take(k) =~= bulk.errors.take(k));
    match outcome {
        Ok(answer) => {
            assert(more.learned.drop_last() =~= bulk.learned);
        },
        Err(message) => {
            assert(more.errors.skip(k).drop_last() =~= bulk.errors.skip(k));
            assert(more.errors.skip(k).last() == error_entry("learn_payee"@, payees[at], message));
        },
    }
}

proof fn lemma_nothing_learned(bulk: BulkView)
    requires
        settled(bulk.ids, bulk.updated, bulk.errors),
        bulk.learned.len() == 0,
    ensures
        accounts_for(bulk, bulk.ids, Seq::empty(), bulk.errors.len() as int),
{
    assert(bulk.errors.take(bulk.errors.len() as int) =~= bulk.errors);
}

proof fn lemma_setting_accounted(base: Seq<char>, bulk: BulkView, at: int)
    requires
        0 <= at <= bulk.ids.len(),
        settled(bulk.ids.take(at), bulk.updated, bulk.errors),
        bulk.learned.len() == 0,
    ensures
        step_accounted(bulk.ids, bulk.category_id, Seq::empty(), setting_step(base, bulk, at)),
    decreases bulk.ids.len() - at,
{
    if at < bulk.ids.len() {
        match set_category_step(base, bulk.ids[at], Some(bulk.category_id)) {
            StepView::Send(_, _) => {},
            StepView::Finish(outcome) => {
                lemma_settled_more(bulk.ids, at, bulk, outcome);
                lemma_setting_accounted(base, after_setting(bulk, bulk.ids[at], outcome), at + 1);
            },
        }
    } else {
        assert(bulk.ids.take(at) =~= bulk.ids);
        lemma_nothing_learned(bulk);
    }
}

proof fn lemma_learning_accounted(
    base: Seq<char>,
    bulk: BulkView,
    payees: Seq<Seq<char>>,
    at: int,
    k: int,
)
    requires
        0 <= at <= payees.len(),
        accounts_for(bulk, bulk.ids, payees.take(at), k),
    ensures
        step_accounted(bulk.ids, bulk.category_id, payees, learning_step(base, bulk, payees, at)),
    decreases payees.len() - at,
{
    if at < payees.len() {
        match payee_rule_step(base, payees[at], bulk.category_id) {
            StepView::Send(_, _) => {},
            StepView::Finish(outcome) => {
                lemma_tried_more(payees, at, bulk, outcome, bulk.ids, k);
                lemma_learning_accounted(
                    base,
                    after_learning(bulk, payees[at], outcome),
                    payees,
                    at + 1,
                    k,
                );
            },
        }
    } else {
        assert(payees.take(at) =~= payees);
    }
}

/// No transaction and no payee is lost on the way. A call goes on with its own
/// transactions, category and payees, and when it ends, the report is on those
/// very transactions and payees: each was updated or learned from, or has its
/// error, in order. Only a question for the categories or the transactions that
/// goes without an answer ends the call with an error, and a category that is
/// unknown.
pub proof fn law_bulk_loses_nothing(
    base: Seq<char>,
    pending: BulkPendingView,
    reply: Result<JsonView, Seq<char>>,
)
    requires
        accounted(pending),
    ensures
        bulk_next(base, pending, reply) matches BulkStepView::Finish(Err(_)) <==> {
            ||| pending is Category && category_of(pending, reply) is None
            ||| pending is Transactions && reply is Err
        },
        bulk_next(base, pending, reply) matches BulkStepView::Finish(Err(_)) || step_accounted(
            ids_of(pending),
            category_of(pending, reply)->0,
            payees_asked(pending, reply),
            bulk_next(base, pending, reply),
        ),
{
    match pending {
        BulkPendingView::Category { ids, wanted, learn } => {
            if reply is Ok && category_in(reply->Ok_0, wanted) is Ok {
                let id = category_in(reply->Ok_0, wanted)->Ok_0;
                assert(ids.take(0) =~= Seq::empty());
                lemma_setting_accounted(base, started(ids, id, learn), 0);
            }
        },
        BulkPendingView::Setting { bulk, at, inner } => {
            match next(base, inner, reply) {
                StepView::Send(_, _) => {},
                StepView::Finish(outcome) => {
                    lemma_settled_more(bulk.ids, at, bulk, outcome);
                    lemma_setting_accounted(
                        base,
                        after_setting(bulk, bulk.ids[at], outcome),
                        at + 1,
                    );
                },
            }
        },
        BulkPendingView::Transactions { bulk } => {
            if reply is Ok {
                let payees = payees_of(reply->Ok_0, bulk.ids);
                lemma_nothing_learned(bulk);
                assert(payees.take(0) =~= Seq::empty());
                lemma_learning_accounted(base, bulk, payees, 0, bulk.errors.len() as int);
            }
        },
        BulkPendingView::Learning { bulk, payees, at, inner } => {
            let k = choose|k: int| #[trigger] accounts_for(bulk, bulk.ids, payees.take(at), k);
            match next(base, inner, reply) {
                StepView::Send(_, _) => {},
                StepView::Finish(outcome) => {
                    lemma_tried_more(payees, at, bulk, outcome, bulk.ids, k);
                    lemma_learning_accounted(
                        base,
                        after_learning(bulk, payees[at], outcome),
                        payees,
                        at + 1,
                        k,
                    );
                },
            }
        },
    }
}

/// How a call ends, given the replies; nothing where they are too few.
pub open spec fn bulk_outcome(
    base: Seq<char>,
    pending: BulkPendingView,
    replies: Seq<Result<JsonView, Seq<char>>>,
) -> Option<Result<JsonView, Seq<char>>>
    decreases replies.len(),
{
    if replies.len() == 0 {
        None
    } else {
        match bulk_next(base, pending, replies[0]) {
            BulkStepView::Send(_, then) => bulk_outcome(base, then, replies.drop_first()),
            BulkStepView::Finish(outcome) => Some(outcome),
        }
    }
}

/// Whatever the replies are, a call that ends well ends with the report on the
/// transactions that it was made for.
pub proof fn law_bulk_reports_its_own_ids(
    base: Seq<char>,
    pending: BulkPendingView,
    replies: Seq<Result<JsonView, Seq<char>>>,
)
    requires
        accounted(pending),
    ensures
        bulk_outcome(base, pending, replies) matches Some(Ok(doc)) ==> exists|
            category_id: Seq<char>,
            payees: Seq<Seq<char>>,
        | #[trigger] reported(doc, ids_of(pending), category_id, payees),
    decreases replies.len(),
{
    if replies.len() > 0 {
        law_bulk_loses_nothing(base, pending, replies[0]);
        match bulk_next(base, pending, replies[0]) {
            BulkStepView::Send(_, then) => {
                law_bulk_reports_its_own_ids(base, then, replies.drop_first());
            },
            BulkStepView::Finish(_) => {},
        }
    }
}

/// Each transaction that is accounted for was updated, or has its error; and
/// nothing else is there.
pub proof fn law_settled_each(
    ids: Seq<Seq<char>>,
    updated: Seq<Seq<char>>,
    errors: Seq<JsonView>,
    i: int,
)
    requires
        settled(ids, updated, errors),
    ensures
        updated.len() + errors.len() == ids.len(),
        0 <= i < ids.len() ==> updated.contains(ids[i]) || exists|j: int|
            0 <= j < errors.len() && is_error_of(#[trigger] errors[j], "id"@, ids[i]),
    decreases ids.len(),
{
    if ids.len() > 0 {
        let before = ids.drop_last();
        if updated.len() > 0 && updated.last() == ids.last() && settled(
            before,
            updated.drop_last(),
            errors,
        ) {
            law_settled_each(before, updated.drop_last(), errors, i);
            if 0 <= i < before.len() {
                assert(before[i] == ids[i]);
                if updated.drop_last().contains(ids[i]) {
                    let j = choose|j: int|
                        0 <= j < updated.drop_last().len() && updated.drop_last()[j] == ids[i];
                    assert(updated[j] == ids[i]);
                }
            } else if i == before.len() {
                assert(updated[updated.len() - 1] == ids[i]);
            }
        } else {
            law_settled_each(before, updated, errors.drop_last(), i);
            if 0 <= i < before.len() {
                assert(before[i] == ids[i]);
                if !updated.contains(ids[i]) {
                    let j = choose|j: int|
                        0 <= j < errors.drop_last().len() && is_error_of(
                            #[trigger] errors.drop_last()[j],
                            "id"@,
                            ids[i],
                        );
                    assert(is_error_of(errors[j], "id"@, ids[i]));
                }
            } else if i == before.len() {
                assert(is_error_of(errors[errors.len() - 1], "id"@, ids[i]));
            }
        }
    }
}

} // verus!
