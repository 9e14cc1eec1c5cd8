//! What names and ids stand for in the documents, and what many changes do.

use crate::budget_api::arguments::{import_format, loan_strategy};
use crate::budget_api::bulk::{
    bulk_next, error_entry, learning_step, report, setting_step, BulkPendingView, BulkStepView,
    BulkView,
};
use crate::budget_api::documents::{
    allocations_of, are_payees, asks_for_payee, does_the_same, equivalent_rule, has_payee,
    is_payee_of, known_rule, law_id_goes_before_name, law_last_name_is_found, payees_of,
    resolved_category, resolved_in, search_entries, search_groups, search_outcome, sets_category,
    SearchView,
};
use crate::budget_api::replies::next_on;
use crate::budget_api::requests::{asked, list_member, sent, text_member};
use crate::budget_api::steps::{Method, PendingView};
use crate::json::JsonView;
use crate::text::{
    decimal, lowered, same_letters, text_before, text_or, trim_back, trim_front, trimmed,
};
use vstd::prelude::*;
use vstd::string::*;

verus! {

// ── Entries ──────────────────────────────────────────────────────────────────

pub open spec fn id_of(entry: JsonView) -> Option<Seq<char>> {
    match entry.field("id"@) {
        Some(JsonView::Str(id)) => Some(id),
        _ => None,
    }
}

/// The name of an entry; an entry without one goes by the empty name.
pub open spec fn name_of(entry: JsonView) -> Seq<char> {
    match entry.field("name"@) {
        Some(JsonView::Str(name)) => name,
        _ => ""@,
    }
}

/// The entry `at` is the first that has an id of these letters; those before it
/// have other ids.
pub open spec fn is_first_of_id(entries: Seq<JsonView>, at: int, letters: Seq<char>) -> bool {
    &&& 0 <= at < entries.len()
    &&& id_of(entries[at]) is Some && same_letters(id_of(entries[at])->0, letters)
    &&& forall|j: int|
        0 <= j < at ==> id_of(#[trigger] entries[j]) is Some && !same_letters(
            id_of(entries[j])->0,
            letters,
        )
}

/// No entry has an id of these letters, and each has one.
pub open spec fn has_no_id(entries: Seq<JsonView>, letters: Seq<char>) -> bool {
    forall|j: int|
        0 <= j < entries.len() ==> id_of(#[trigger] entries[j]) is Some && !same_letters(
            id_of(entries[j])->0,
            letters,
        )
}

/// The entry `at` is the last that has a name of these letters.
pub open spec fn is_last_of_name(entries: Seq<JsonView>, at: int, letters: Seq<char>) -> bool {
    &&& 0 <= at < entries.len()
    &&& same_letters(name_of(entries[at]), letters)
    &&& forall|j: int|
        at < j < entries.len() ==> !same_letters(name_of(#[trigger] entries[j]), letters)
}

proof fn lemma_found_by_id(entries: Seq<JsonView>, at: int, letters: Seq<char>)
    requires
        is_first_of_id(entries, at, letters),
    ensures
        search_outcome(search_entries(SearchView::Going(None), entries, letters)) == id_of(
            entries[at],
        ),
{
    assert forall|j: int| 0 <= j < at implies (#[trigger] entries[j]).text_field("id"@) is Some
        && !same_letters(entries[j].text_field("id"@)->0, letters) by {
        assert(id_of(entries[j]) is Some);
    }
    law_id_goes_before_name(entries, letters, None, at, id_of(entries[at])->0);
}

proof fn lemma_found_by_name(entries: Seq<JsonView>, at: int, letters: Seq<char>)
    requires
        has_no_id(entries, letters),
        is_last_of_name(entries, at, letters),
    ensures
        search_outcome(search_entries(SearchView::Going(None), entries, letters)) == id_of(
            entries[at],
        ),
{
    assert forall|j: int| 0 <= j < entries.len() implies (#[trigger] entries[j]).text_field(
        "id"@,
    ) is Some && !same_letters(entries[j].text_field("id"@)->0, letters) by {
        assert(id_of(entries[j]) is Some);
    }
    assert forall|j: int| at < j < entries.len() implies !same_letters(
        text_or((#[trigger] entries[j]).text_field("name"@), ""@),
        letters,
    ) by {
        assert(!same_letters(name_of(entries[j]), letters));
    }
    law_last_name_is_found(entries, letters, None, at);
    assert(id_of(entries[at]) is Some);
}

proof fn lemma_not_found(entries: Seq<JsonView>, letters: Seq<char>)
    requires
        has_no_id(entries, letters),
        forall|j: int|
            0 <= j < entries.len() ==> !same_letters(name_of(#[trigger] entries[j]), letters),
    ensures
        search_entries(SearchView::Going(None), entries, letters) == SearchView::Going(None),
    decreases entries.len(),
{
    if entries.len() > 0 {
        let before = entries.drop_last();
        assert forall|j: int| 0 <= j < before.len() implies id_of(#[trigger] before[j]) is Some
            && !same_letters(id_of(before[j])->0, letters) && !same_letters(
            name_of(before[j]),
            letters,
        ) by {
            assert(before[j] == entries[j]);
        }
        lemma_not_found(before, letters);
        let last = entries[entries.len() - 1];
        assert(id_of(last) is Some && !same_letters(name_of(last), letters));
    }
}

/// A payee or an account is the first entry of its list whose id it is, whatever
/// the case of the letters and the blanks around it; where it is no id, the last
/// entry whose name it is; and otherwise it is unknown, as is what is blank.
pub proof fn law_names_stand_for_entries(
    doc: JsonView,
    key: Seq<char>,
    wanted: Seq<char>,
    entries: Seq<JsonView>,
    at: int,
)
    requires
        doc.field(key) == Some(JsonView::Array(entries)),
    ensures
        trimmed(wanted).len() > 0 && is_first_of_id(entries, at, trimmed(wanted)) ==> resolved_in(
            doc,
            key,
            wanted,
        ) == id_of(entries[at]),
        trimmed(wanted).len() > 0 && has_no_id(entries, trimmed(wanted)) && is_last_of_name(
            entries,
            at,
            trimmed(wanted),
        ) ==> resolved_in(doc, key, wanted) == id_of(entries[at]),
        has_no_id(entries, trimmed(wanted)) && (forall|j: int|
            0 <= j < entries.len() ==> !same_letters(
                name_of(#[trigger] entries[j]),
                trimmed(wanted),
            )) ==> resolved_in(doc, key, wanted) is None,
        trimmed(wanted).len() == 0 ==> resolved_in(doc, key, wanted) is None,
{
    let letters = trimmed(wanted);
    if is_first_of_id(entries, at, letters) {
        lemma_found_by_id(entries, at, letters);
    }
    if has_no_id(entries, letters) && is_last_of_name(entries, at, letters) {
        lemma_found_by_name(entries, at, letters);
    }
    if has_no_id(entries, letters) && (forall|j: int|
        0 <= j < entries.len() ==> !same_letters(name_of(#[trigger] entries[j]), letters)) {
        lemma_not_found(entries, letters);
    }
}

/// An entry without an id ends the search: where those before it have other ids,
/// nothing is found, whatever stands behind it.
pub proof fn law_entry_without_id_ends_the_search(
    doc: JsonView,
    key: Seq<char>,
    wanted: Seq<char>,
    entries: Seq<JsonView>,
    at: int,
)
    requires
        doc.field(key) == Some(JsonView::Array(entries)),
        0 <= at < entries.len(),
        id_of(entries[at]) is None,
        forall|j: int|
            0 <= j < at ==> id_of(#[trigger] entries[j]) is Some && !same_letters(
                id_of(entries[j])->0,
                trimmed(wanted),
            ),
    ensures
        resolved_in(doc, key, wanted) is None,
{
    lemma_search_broken(entries, at, trimmed(wanted));
}

proof fn lemma_search_broken(entries: Seq<JsonView>, at: int, letters: Seq<char>)
    requires
        0 <= at < entries.len(),
        id_of(entries[at]) is None,
        forall|j: int|
            0 <= j < at ==> id_of(#[trigger] entries[j]) is Some && !same_letters(
                id_of(entries[j])->0,
                letters,
            ),
    ensures
        search_entries(SearchView::Going(None), entries, letters) == SearchView::Over(None),
    decreases entries.len(),
{
    let before = entries.drop_last();
    if at < before.len() {
        assert(before[at] == entries[at]);
        assert forall|j: int| 0 <= j < at implies id_of(#[trigger] before[j]) is Some
            && !same_letters(id_of(before[j])->0, letters) by {
            assert(before[j] == entries[j]);
        }
        lemma_search_broken(before, at, letters);
    } else {
        lemma_no_id_goes_on(before, letters);
    }
}

proof fn lemma_no_id_goes_on(entries: Seq<JsonView>, letters: Seq<char>)
    requires
        has_no_id(entries, letters),
    ensures
        search_entries(SearchView::Going(None), entries, letters) is Going,
    decreases entries.len(),
{
    if entries.len() > 0 {
        let before = entries.drop_last();
        assert forall|j: int| 0 <= j < before.len() implies id_of(#[trigger] before[j]) is Some
            && !same_letters(id_of(before[j])->0, letters) by {
            assert(before[j] == entries[j]);
        }
        lemma_no_id_goes_on(before, letters);
        assert(id_of(entries[entries.len() - 1]) is Some);
    }
}

// ── Categories ───────────────────────────────────────────────────────────────

/// The categories of a group.
pub open spec fn categories_of(group: JsonView) -> Option<Seq<JsonView>> {
    match group.field("categories"@) {
        Some(JsonView::Array(entries)) => Some(entries),
        _ => None,
    }
}

/// The categories of some groups, one group behind the other.
pub open spec fn all_categories(groups: Seq<JsonView>) -> Seq<JsonView>
    decreases groups.len(),
{
    if groups.len() == 0 {
        Seq::empty()
    } else {
        all_categories(groups.drop_last()) + categories_of(groups.last())->0
    }
}

proof fn lemma_search_appended(s: SearchView, a: Seq<JsonView>, b: Seq<JsonView>, letters: Seq<char>)
    ensures
        search_entries(s, a + b, letters) == search_entries(
            search_entries(s, a, letters),
            b,
            letters,
        ),
    decreases b.len(),
{
    if b.len() == 0 {
        assert(a + b =~= a);
    } else {
        assert((a + b).drop_last() =~= a + b.drop_last());
        lemma_search_appended(s, a, b.drop_last(), letters);
    }
}

proof fn lemma_over_stays(t: Option<Seq<char>>, entries: Seq<JsonView>, letters: Seq<char>)
    ensures
        search_entries(SearchView::Over(t), entries, letters) == SearchView::Over(t),
    decreases entries.len(),
{
    if entries.len() > 0 {
        lemma_over_stays(t, entries.drop_last(), letters);
    }
}

proof fn lemma_search_groups(groups: Seq<JsonView>, letters: Seq<char>)
    requires
        forall|g: int| 0 <= g < groups.len() ==> categories_of(#[trigger] groups[g]) is Some,
    ensures
        search_groups(SearchView::Going(None), groups, letters) == search_entries(
            SearchView::Going(None),
            all_categories(groups),
            letters,
        ),
    decreases groups.len(),
{
    if groups.len() > 0 {
        let before = groups.drop_last();
        let last = groups[groups.len() - 1];
        assert forall|g: int| 0 <= g < before.len() implies categories_of(
            #[trigger] before[g],
        ) is Some by {
            assert(before[g] == groups[g]);
        }
        lemma_search_groups(before, letters);
        assert(categories_of(last) is Some);
        let so_far = search_groups(SearchView::Going(None), before, letters);
        lemma_search_appended(
            SearchView::Going(None),
            all_categories(before),
            categories_of(last)->0,
            letters,
        );
        match so_far {
            SearchView::Over(t) => lemma_over_stays(t, categories_of(last)->0, letters),
            SearchView::Going(_) => {},
        }
    }
}

/// A category is found among those of all groups as an entry is in its list.
pub proof fn law_names_stand_for_categories(
    doc: JsonView,
    wanted: Seq<char>,
    groups: Seq<JsonView>,
    at: int,
)
    requires
        doc.field("category_groups"@) == Some(JsonView::Array(groups)),
        forall|g: int| 0 <= g < groups.len() ==> categories_of(#[trigger] groups[g]) is Some,
    ensures
        trimmed(wanted).len() > 0 && is_first_of_id(all_categories(groups), at, trimmed(wanted))
            ==> resolved_category(doc, wanted) == id_of(all_categories(groups)[at]),
        trimmed(wanted).len() > 0 && has_no_id(all_categories(groups), trimmed(wanted))
            && is_last_of_name(all_categories(groups), at, trimmed(wanted)) ==> resolved_category(
            doc,
            wanted,
        ) == id_of(all_categories(groups)[at]),
        has_no_id(all_categories(groups), trimmed(wanted)) && (forall|j: int|
            0 <= j < all_categories(groups).len() ==> !same_letters(
                name_of(#[trigger] all_categories(groups)[j]),
                trimmed(wanted),
            )) ==> resolved_category(doc, wanted) is None,
        trimmed(wanted).len() == 0 ==> resolved_category(doc, wanted) is None,
{
    let letters = trimmed(wanted);
    let entries = all_categories(groups);
    lemma_search_groups(groups, letters);
    if is_first_of_id(entries, at, letters) {
        lemma_found_by_id(entries, at, letters);
    }
    if has_no_id(entries, letters) && is_last_of_name(entries, at, letters) {
        lemma_found_by_name(entries, at, letters);
    }
    if has_no_id(entries, letters) && (forall|j: int|
        0 <= j < entries.len() ==> !same_letters(name_of(#[trigger] entries[j]), letters)) {
        lemma_not_found(entries, letters);
    }
}

// ── Rules ────────────────────────────────────────────────────────────────────

/// The text of a member, where it is one.
pub open spec fn says_text(j: JsonView, key: Seq<char>, text: Seq<char>) -> bool {
    j.field(key) == Some(JsonView::Str(text))
}

/// The ways in which a condition can ask for a text.
pub open spec fn is_known_way(op: Seq<char>) -> bool {
    op == "contains"@ || op == "is"@ || op == "equals"@ || op == "regex"@ || op == ""@
}

/// The condition speaks of something else than a payee, or of a payee by other
/// letters or in another way.
pub open spec fn is_other_condition(
    condition: JsonView,
    needle: Seq<char>,
    lower: Seq<char>,
) -> bool {
    ||| !says_text(condition, "field"@, "payee"@)
    ||| condition.field("value"@) matches Some(JsonView::Str(value)) && !same_letters(value, needle)
        && !same_letters(value, lower)
    ||| condition.field("op"@) matches Some(JsonView::Str(op)) && !is_known_way(op)
}

/// The action sets something else than a category, or another category.
pub open spec fn is_other_action(action: JsonView, category_id: Seq<char>) -> bool {
    ||| !says_text(action, "field"@, "category"@)
    ||| action.field("value"@) matches Some(JsonView::Str(value)) && value != category_id
}

/// Every condition of the rule is about something else, or every action is.
pub open spec fn is_other_rule(
    rule: JsonView,
    needle: Seq<char>,
    lower: Seq<char>,
    category_id: Seq<char>,
) -> bool {
    &&& rule.field("conditions"@) matches Some(JsonView::Array(conditions))
    &&& rule.field("actions"@) matches Some(JsonView::Array(actions))
    &&& {
        ||| forall|i: int|
            0 <= i < conditions.len() ==> is_other_condition(
                #[trigger] conditions[i],
                needle,
                lower,
            )
        ||| forall|i: int|
            0 <= i < actions.len() ==> is_other_action(#[trigger] actions[i], category_id)
    }
}

/// Where every rule is about something else, no rule is found to be there already.
pub proof fn law_other_rules_are_not_the_same(
    doc: JsonView,
    rules: Seq<JsonView>,
    needle: Seq<char>,
    lower: Seq<char>,
    category_id: Seq<char>,
)
    requires
        doc.field("rules"@) == Some(JsonView::Array(rules)),
        forall|j: int|
            0 <= j < rules.len() ==> is_other_rule(#[trigger] rules[j], needle, lower, category_id),
    ensures
        known_rule(doc, needle, lower, category_id) is None,
{
    lemma_other_rules(rules, needle, lower, category_id);
}

/// A rule without conditions or without actions ends the search: where those before
/// it are about something else, no rule is found, whatever stands behind it.
pub proof fn law_unreadable_rule_ends_the_search(
    rules: Seq<JsonView>,
    at: int,
    needle: Seq<char>,
    lower: Seq<char>,
    category_id: Seq<char>,
)
    requires
        0 <= at < rules.len(),
        forall|j: int|
            0 <= j < at ==> is_other_rule(#[trigger] rules[j], needle, lower, category_id),
        !(rules[at].field("conditions"@) is Some && rules[at].field("conditions"@)->0 is Array)
            || !(rules[at].field("actions"@) is Some && rules[at].field("actions"@)->0 is Array),
    ensures
        equivalent_rule(rules, needle, lower, category_id) is None,
    decreases rules.len(),
{
    if at > 0 {
        let rest = rules.drop_first();
        assert forall|j: int| 0 <= j < at - 1 implies is_other_rule(
            #[trigger] rest[j],
            needle,
            lower,
            category_id,
        ) by {
            assert(rest[j] == rules[j + 1]);
        }
        assert(is_other_rule(rules[0], needle, lower, category_id));
        lemma_other_rule(rules[0], needle, lower, category_id);
        law_unreadable_rule_ends_the_search(rest, at - 1, needle, lower, category_id);
    }
}

proof fn lemma_other_rules(
    rules: Seq<JsonView>,
    needle: Seq<char>,
    lower: Seq<char>,
    category_id: Seq<char>,
)
    requires
        forall|j: int|
            0 <= j < rules.len() ==> is_other_rule(#[trigger] rules[j], needle, lower, category_id),
    ensures
        equivalent_rule(rules, needle, lower, category_id) is None,
    decreases rules.len(),
{
    if rules.len() > 0 {
        let rest = rules.drop_first();
        assert forall|j: int| 0 <= j < rest.len() implies is_other_rule(
            #[trigger] rest[j],
            needle,
            lower,
            category_id,
        ) by {
            assert(rest[j] == rules[j + 1]);
        }
        lemma_other_rules(rest, needle, lower, category_id);
        lemma_other_rule(rules[0], needle, lower, category_id);
    }
}

proof fn lemma_other_rule(
    rule: JsonView,
    needle: Seq<char>,
    lower: Seq<char>,
    category_id: Seq<char>,
)
    requires
        is_other_rule(rule, needle, lower, category_id),
    ensures
        !does_the_same(rule, needle, lower, category_id),
{
    let conditions = rule.items_field("conditions"@)->0;
    let actions = rule.items_field("actions"@)->0;
    if does_the_same(rule, needle, lower, category_id) {
        let i = choose|i: int|
            0 <= i < conditions.len() && asks_for_payee(#[trigger] conditions[i], needle, lower);
        let k = choose|k: int|
            0 <= k < actions.len() && sets_category(#[trigger] actions[k], category_id);
        lemma_empty_differs();
        assert(!is_other_condition(conditions[i], needle, lower));
        assert(!is_other_action(actions[k], category_id));
    }
}

proof fn lemma_empty_differs()
    ensures
        ""@ != "payee"@,
        ""@ != "category"@,
{
    reveal_strlit("");
    reveal_strlit("payee");
    reveal_strlit("category");
    assert(""@.len() == 0 && "payee"@.len() == 5 && "category"@.len() == 8);
}

/// The transaction is one of those, and its payee goes by this name.
pub open spec fn is_paid_to(entry: JsonView, ids: Seq<Seq<char>>, payee: Seq<char>) -> bool {
    &&& entry.field("payee"@) matches Some(JsonView::Str(text)) && trimmed(text) == payee
    &&& match entry.field("id"@) {
        Some(JsonView::Str(id)) => ids.contains(id),
        _ => ids.contains(""@),
    }
}

/// The payees that are learned from are those of the transactions with these ids,
/// without blanks around them; a blank one is none. Each is there once, in order.
pub proof fn law_payees_are_those_of_the_ids(
    doc: JsonView,
    entries: Seq<JsonView>,
    ids: Seq<Seq<char>>,
    payees: Seq<Seq<char>>,
    payee: Seq<char>,
)
    requires
        are_payees(doc, ids, payees),
        doc.field("transactions"@) == Some(JsonView::Array(entries)),
    ensures
        payees.contains(payee) <==> payee.len() > 0 && exists|i: int|
            0 <= i < entries.len() && is_paid_to(#[trigger] entries[i], ids, payee),
        forall|i: int, j: int|
            0 <= i < j < payees.len() ==> text_before(#[trigger] payees[i], #[trigger] payees[j]),
{
    assert(payees.contains(payee) <==> is_payee_of(entries, ids, payee));
    if is_payee_of(entries, ids, payee) {
        let i = choose|i: int| 0 <= i < entries.len() && has_payee(#[trigger] entries[i], ids, payee);
        assert(is_paid_to(entries[i], ids, payee));
    }
    if payee.len() > 0 && exists|i: int|
        0 <= i < entries.len() && is_paid_to(#[trigger] entries[i], ids, payee) {
        let i = choose|i: int|
            0 <= i < entries.len() && is_paid_to(#[trigger] entries[i], ids, payee);
        assert(has_payee(entries[i], ids, payee));
    }
}

// ── Arguments ────────────────────────────────────────────────────────────────

/// The argument is this word, whatever the case of the letters and the blanks around
/// it.
pub open spec fn is_word(text: Seq<char>, word: Seq<char>) -> bool {
    same_letters(trimmed(text), word)
}

proof fn lemma_words()
    ensures
        lowered(""@) == ""@,
        lowered("avalanche"@) == "avalanche"@,
        lowered("snowball"@) == "snowball"@,
        lowered("auto"@) == "auto"@,
        lowered("discover-card"@) == "discover-card"@,
        lowered("discover-bank"@) == "discover-bank"@,
        lowered("generic"@) == "generic"@,
{
    reveal_strlit("");
    reveal_strlit("avalanche");
    reveal_strlit("snowball");
    reveal_strlit("auto");
    reveal_strlit("discover-card");
    reveal_strlit("discover-bank");
    reveal_strlit("generic");
    assert(lowered(""@) =~= ""@);
    assert(lowered("avalanche"@) =~= "avalanche"@);
    assert(lowered("snowball"@) =~= "snowball"@);
    assert(lowered("auto"@) =~= "auto"@);
    assert(lowered("discover-card"@) =~= "discover-card"@);
    assert(lowered("discover-bank"@) =~= "discover-bank"@);
    assert(lowered("generic"@) =~= "generic"@);
}

proof fn lemma_word_trimmed()
    ensures
        trimmed("avalanche"@) == "avalanche"@,
        trimmed("auto"@) == "auto"@,
{
    reveal_strlit("avalanche");
    reveal_strlit("auto");
    reveal_with_fuel(trim_front, 2);
    reveal_with_fuel(trim_back, 2);
}

/// Loans are paid off by the avalanche where nothing else is said, and by the
/// snowball where that is said; there is no other way.
pub proof fn law_strategies(text: Seq<char>)
    ensures
        loan_strategy(None) == Ok::<Seq<char>, Seq<char>>("avalanche"@),
        is_word(text, ""@) || is_word(text, "avalanche"@) ==> loan_strategy(Some(text)) == Ok::<
            Seq<char>,
            Seq<char>,
        >("avalanche"@),
        is_word(text, "snowball"@) ==> loan_strategy(Some(text)) == Ok::<Seq<char>, Seq<char>>(
            "snowball"@,
        ),
        loan_strategy(Some(text)) is Ok ==> is_word(text, ""@) || is_word(text, "avalanche"@)
            || is_word(text, "snowball"@),
{
    lemma_words();
    lemma_word_trimmed();
    reveal_strlit("");
    reveal_strlit("avalanche");
    reveal_strlit("snowball");
    assert(""@.len() == 0 && "avalanche"@.len() == 9 && "snowball"@.len() == 8);
}

/// A statement has the format that is named, or one that is found out where none
/// is; there are no others.
pub proof fn law_formats(text: Seq<char>)
    ensures
        import_format(None) == Ok::<Seq<char>, Seq<char>>("auto"@),
        is_word(text, ""@) || is_word(text, "auto"@) ==> import_format(Some(text)) == Ok::<
            Seq<char>,
            Seq<char>,
        >("auto"@),
        is_word(text, "discover-card"@) ==> import_format(Some(text)) == Ok::<
            Seq<char>,
            Seq<char>,
        >("discover-card"@),
        is_word(text, "discover-bank"@) ==> import_format(Some(text)) == Ok::<
            Seq<char>,
            Seq<char>,
        >("discover-bank"@),
        is_word(text, "generic"@) ==> import_format(Some(text)) == Ok::<Seq<char>, Seq<char>>(
            "generic"@,
        ),
        import_format(Some(text)) is Ok ==> is_word(text, ""@) || is_word(text, "auto"@) || is_word(
            text,
            "discover-card"@,
        ) || is_word(text, "discover-bank"@) || is_word(text, "generic"@),
{
    lemma_words();
    lemma_word_trimmed();
    reveal_strlit("");
    reveal_strlit("auto");
    reveal_strlit("discover-card");
    reveal_strlit("discover-bank");
    reveal_strlit("generic");
    assert(""@.len() == 0 && "auto"@.len() == 4 && "generic"@.len() == 7);
    assert("discover-card"@.len() == 13 && "discover-bank"@.len() == 13);
}

/// The item names a category, in `category` or else in `category_id`, that is not
/// blank.
pub open spec fn names_category(item: JsonView) -> bool {
    let named = match item.field("category"@) {
        Some(v) => Some(v),
        None => item.field("category_id"@),
    };
    named matches Some(JsonView::Str(t)) && trimmed(t).len() > 0
}

/// The item says an amount that fits 64 bits.
pub open spec fn says_amount(item: JsonView) -> bool {
    item.field("amount_cents"@) matches Some(JsonView::Int(n)) && i64::MIN <= n <= i64::MAX
}

/// The first item that lacks its category or its amount is told, with its place;
/// where none does, the items are allocations.
pub proof fn law_first_bad_allocation_is_told(items: Seq<JsonView>, at: int)
    requires
        0 <= at <= items.len(),
        forall|j: int|
            0 <= j < at ==> names_category(#[trigger] items[j]) && says_amount(items[j]),
        at < items.len() ==> !(names_category(items[at]) && says_amount(items[at])),
    ensures
        allocations_of(items) is Ok <==> at == items.len(),
        at < items.len() ==> allocations_of(items) == Err::<Seq<(Seq<char>, int)>, Seq<char>>(
            "allocations["@ + decimal(at) + "] missing "@ + if names_category(items[at]) {
                "amount_cents"@
            } else {
                "category or category_id"@
            },
        ),
    decreases items.len(),
{
    if items.len() > 0 {
        let before = items.drop_last();
        let last = items.len() - 1;
        assert forall|j: int| 0 <= j < at && j < before.len() implies names_category(
            #[trigger] before[j],
        ) && says_amount(before[j]) by {
            assert(before[j] == items[j]);
        }
        if at < last {
            assert(before[at] == items[at]);
            law_first_bad_allocation_is_told(before, at);
        } else {
            law_first_bad_allocation_is_told(before, last);
            if at == items.len() {
                assert(names_category(items[last]) && says_amount(items[last]));
            }
        }
    }
}

// ── Many changes ─────────────────────────────────────────────────────────────

/// Each transaction, in its turn, is put into the category that the name stood for:
/// the category is looked up by its id, and the transaction is patched.
pub proof fn law_bulk_sets_each(base: Seq<char>, bulk: BulkView, at: int, doc: JsonView)
    requires
        0 <= at < bulk.ids.len(),
        bulk.category_id != ""@,
        bulk.category_id != "null"@,
        resolved_category(doc, bulk.category_id) == Some(bulk.category_id),
    ensures
        setting_step(base, bulk, at) == BulkStepView::Send(
            asked(base + "/api/v1/categories"@),
            BulkPendingView::Setting {
                bulk,
                at,
                inner: PendingView::CategoryToSet {
                    tx_id: bulk.ids[at],
                    wanted: bulk.category_id,
                },
            },
        ),
        bulk_next(
            base,
            BulkPendingView::Setting {
                bulk,
                at,
                inner: PendingView::CategoryToSet {
                    tx_id: bulk.ids[at],
                    wanted: bulk.category_id,
                },
            },
            Ok(doc),
        ) == BulkStepView::Send(
            sent(
                Method::Patch,
                base + ("/api/v1/transactions/"@ + bulk.ids[at]),
                seq![text_member("category_id"@, bulk.category_id)],
            ),
            BulkPendingView::Setting { bulk, at, inner: PendingView::Confirmation },
        ),
{
    reveal(next_on);
}

/// Once a transaction is set, it is noted among those that were updated, and the
/// next one follows; where setting it failed, the error is noted with its id.
pub proof fn law_bulk_notes_each(
    base: Seq<char>,
    bulk: BulkView,
    at: int,
    doc: JsonView,
    message: Seq<char>,
)
    requires
        0 <= at < bulk.ids.len(),
    ensures
        bulk_next(
            base,
            BulkPendingView::Setting { bulk, at, inner: PendingView::Confirmation },
            Ok(doc),
        ) == setting_step(
            base,
            BulkView { updated: bulk.updated.push(bulk.ids[at]), ..bulk },
            at + 1,
        ),
        bulk_next(
            base,
            BulkPendingView::Setting { bulk, at, inner: PendingView::Confirmation },
            Err(message),
        ) == setting_step(
            base,
            BulkView {
                errors: bulk.errors.push(
                    JsonView::Object(
                        seq![text_member("id"@, bulk.ids[at]), text_member("error"@, message)],
                    ),
                ),
                ..bulk
            },
            at + 1,
        ),
{
    reveal(next_on);
    let (a, b) = (text_member("id"@, bulk.ids[at]), text_member("error"@, message));
    assert(seq![a, b] =~= Seq::empty().push(a).push(b));
    assert(error_entry("id"@, bulk.ids[at], message) == JsonView::Object(seq![a, b]));
}

/// The transactions are set from the first on, into the category that the name
/// stands for.
pub proof fn law_bulk_starts_with_the_first(
    base: Seq<char>,
    ids: Seq<Seq<char>>,
    wanted: Seq<char>,
    learn: bool,
    category_id: Seq<char>,
    doc: JsonView,
)
    requires
        resolved_category(doc, wanted) == Some(category_id),
    ensures
        bulk_next(base, BulkPendingView::Category { ids, wanted, learn }, Ok(doc)) == setting_step(
            base,
            BulkView {
                ids,
                learn,
                category_id,
                updated: Seq::empty(),
                learned: Seq::empty(),
                errors: Seq::empty(),
            },
            0,
        ),
{
}

/// Behind the last transaction, the transactions are asked for to learn from their
/// payees, where that was asked for; and otherwise the report says the category,
/// what was updated, what was learned and what failed.
pub proof fn law_bulk_ends_with_a_report(base: Seq<char>, bulk: BulkView)
    ensures
        bulk.learn ==> setting_step(base, bulk, bulk.ids.len() as int) == BulkStepView::Send(
            asked(base + "/api/v1/transactions?limit=2000"@),
            BulkPendingView::Transactions { bulk },
        ),
        !bulk.learn ==> setting_step(base, bulk, bulk.ids.len() as int) == BulkStepView::Finish(
            Ok::<JsonView, Seq<char>>(
                JsonView::Object(
                    seq![
                        text_member("category_id"@, bulk.category_id),
                        list_member(
                            "updated"@,
                            bulk.updated.map_values(|t: Seq<char>| JsonView::Str(t)),
                        ),
                        list_member("learned_rules"@, bulk.learned),
                        list_member("errors"@, bulk.errors),
                    ],
                ),
            ),
        ),
{
    let (a, b, c, d) = (
        text_member("category_id"@, bulk.category_id),
        list_member("updated"@, bulk.updated.map_values(|t: Seq<char>| JsonView::Str(t))),
        list_member("learned_rules"@, bulk.learned),
        list_member("errors"@, bulk.errors),
    );
    assert(seq![a, b, c, d] =~= Seq::empty().push(a).push(b).push(c).push(d));
    assert(report(bulk) == JsonView::Object(seq![a, b, c, d]));
}

/// The payees of the transactions that were set are learned from, from the first on.
pub proof fn law_bulk_learns_from_its_payees(base: Seq<char>, bulk: BulkView, doc: JsonView)
    ensures
        bulk_next(base, BulkPendingView::Transactions { bulk }, Ok(doc)) == learning_step(
            base,
            bulk,
            payees_of(doc, bulk.ids),
            0,
        ),
{
}

/// For each payee, in its turn, a rule is made that puts it into the category.
pub proof fn law_bulk_learns_each(
    base: Seq<char>,
    bulk: BulkView,
    payees: Seq<Seq<char>>,
    at: int,
)
    requires
        0 <= at < payees.len(),
        trimmed(payees[at]).len() > 0,
    ensures
        learning_step(base, bulk, payees, at) == BulkStepView::Send(
            asked(base + "/api/v1/categories"@),
            BulkPendingView::Learning {
                bulk,
                payees,
                at,
                inner: PendingView::RuleCategory {
                    needle: trimmed(payees[at]),
                    wanted: bulk.category_id,
                },
            },
        ),
{
}

/// What the making of a rule came to is noted, and the next payee follows; where it
/// failed, the error is noted with the payee. Behind the last one stands the report.
pub proof fn law_bulk_notes_what_it_learned(
    base: Seq<char>,
    bulk: BulkView,
    payees: Seq<Seq<char>>,
    at: int,
    inner: PendingView,
    doc: JsonView,
    message: Seq<char>,
)
    requires
        0 <= at < payees.len(),
    ensures
        inner is Document ==> bulk_next(
            base,
            BulkPendingView::Learning { bulk, payees, at, inner },
            Ok(doc),
        ) == learning_step(
            base,
            BulkView { learned: bulk.learned.push(doc), ..bulk },
            payees,
            at + 1,
        ),
        bulk_next(base, BulkPendingView::Learning { bulk, payees, at, inner }, Err(message))
            == learning_step(
            base,
            BulkView {
                errors: bulk.errors.push(
                    JsonView::Object(
                        seq![
                            text_member("learn_payee"@, payees[at]),
                            text_member("error"@, message),
                        ],
                    ),
                ),
                ..bulk
            },
            payees,
            at + 1,
        ),
        learning_step(base, bulk, payees, payees.len() as int) == BulkStepView::Finish(
            Ok::<JsonView, Seq<char>>(report(bulk)),
        ),
{
    reveal(next_on);
    let (a, b) = (text_member("learn_payee"@, payees[at]), text_member("error"@, message));
    assert(seq![a, b] =~= Seq::empty().push(a).push(b));
    assert(error_entry("learn_payee"@, payees[at], message) == JsonView::Object(seq![a, b]));
}

} // verus!
