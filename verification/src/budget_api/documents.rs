//! What the documents of the API hold, and those that are sent.

use crate::json::{item_views, with_member, Json, JsonView};
use crate::pattern::is_ascii_text;
use crate::text::{
    before, decimal, format_uint, join3, lemma_before_irreflexive, lemma_before_total,
    lemma_before_transitive, lowered, same_ignoring_case, same_letters, same_text, str_or,
    string_view, text_before, text_or, text_view, trim, trimmed, views,
};
use vstd::prelude::*;
use vstd::string::*;

verus! {

// ── Looking names up ─────────────────────────────────────────────────────────

/// A search through a list for an id or a name.
pub enum Search {
    /// Nothing has the id so far; the last one that has the name.
    Going(Option<String>),
    /// The search is over.
    Over(Option<String>),
}

pub enum SearchView {
    Going(Option<Seq<char>>),
    Over(Option<Seq<char>>),
}

impl View for Search {
    type V = SearchView;

    open spec fn view(&self) -> SearchView {
        match self {
            Search::Going(t) => SearchView::Going(string_view(*t)),
            Search::Over(t) => SearchView::Over(string_view(*t)),
        }
    }
}

/// One entry more: an id ends the search, a name is kept, and an entry without
/// an id ends it with nothing.
pub open spec fn search_entry(s: SearchView, entry: JsonView, needle: Seq<char>) -> SearchView {
    match (s, entry.text_field("id"@)) {
        (SearchView::Over(_), _) => s,
        (SearchView::Going(_), None) => SearchView::Over(None),
        (SearchView::Going(_), Some(id)) => if same_letters(id, needle) {
            SearchView::Over(Some(id))
        } else if same_letters(text_or(entry.text_field("name"@), ""@), needle) {
            SearchView::Going(Some(id))
        } else {
            s
        },
    }
}

pub open spec fn search_entries(s: SearchView, entries: Seq<JsonView>, needle: Seq<char>) -> SearchView
    decreases entries.len(),
{
    if entries.len() == 0 {
        s
    } else {
        search_entry(
            search_entries(s, entries.drop_last(), needle),
            entries.last(),
            needle,
        )
    }
}

/// The categories of one group more; a group without categories ends the search.
pub open spec fn search_group(s: SearchView, group: JsonView, needle: Seq<char>) -> SearchView {
    match (s, group.items_field("categories"@)) {
        (SearchView::Over(_), _) => s,
        (SearchView::Going(_), None) => SearchView::Over(None),
        (SearchView::Going(_), Some(entries)) => search_entries(s, entries, needle),
    }
}

pub open spec fn search_groups(s: SearchView, groups: Seq<JsonView>, needle: Seq<char>) -> SearchView
    decreases groups.len(),
{
    if groups.len() == 0 {
        s
    } else {
        search_group(search_groups(s, groups.drop_last(), needle), groups.last(), needle)
    }
}

pub open spec fn search_outcome(s: SearchView) -> Option<Seq<char>> {
    match s {
        SearchView::Going(t) => t,
        SearchView::Over(t) => t,
    }
}

pub open spec fn resolved_category(doc: JsonView, name_or_id: Seq<char>) -> Option<Seq<char>> {
    let needle = trimmed(name_or_id);
    if needle.len() == 0 {
        None
    } else {
        match doc.items_field("category_groups"@) {
            Some(groups) => search_outcome(search_groups(SearchView::Going(None), groups, needle)),
            None => None,
        }
    }
}

/// The id of the entry of the list `key` that has this id or name.
pub open spec fn resolved_in(doc: JsonView, key: Seq<char>, name_or_id: Seq<char>) -> Option<
    Seq<char>,
> {
    let needle = trimmed(name_or_id);
    if needle.len() == 0 {
        None
    } else {
        match doc.items_field(key) {
            Some(entries) => search_outcome(
                search_entries(SearchView::Going(None), entries, needle),
            ),
            None => None,
        }
    }
}

fn go_on(s: Search, entries: &Vec<Json>, needle: &str) -> (r: Search)
    ensures
        r@ == search_entries(s@, item_views(entries@), needle@),
{
    let ghost all = item_views(entries@);
    let mut s = s;
    let n: usize = entries.len();
    let mut i: usize = 0;
    let ghost first = s@;
    assert(all.take(0) =~= Seq::<JsonView>::empty());
    while i < n
        invariant
            i <= n == entries@.len(),
            all == item_views(entries@),
            s@ == search_entries(first, all.take(i as int), needle@),
        decreases n - i,
    {
        assert(all.take(i + 1).drop_last() =~= all.take(i as int));
        assert(all.take(i + 1).last() == entries@[i as int]@);
        s = search_one(s, &entries[i], needle);
        i = i + 1;
    }
    assert(all.take(n as int) =~= all);
    s
}

fn search_one(s: Search, entry: &Json, needle: &str) -> (r: Search)
    ensures
        r@ == search_entry(s@, entry@, needle@),
{
    match s {
        Search::Over(t) => Search::Over(t),
        Search::Going(by_name) => match entry.str_field("id") {
            None => Search::Over(None),
            Some(id) => if same_ignoring_case(id, needle) {
                Search::Over(Some(id.to_string()))
            } else if same_ignoring_case(str_or(entry.str_field("name"), ""), needle) {
                Search::Going(Some(id.to_string()))
            } else {
                Search::Going(by_name)
            },
        },
    }
}

fn outcome(s: Search) -> (r: Option<String>)
    ensures
        string_view(r) == search_outcome(s@),
{
    match s {
        Search::Going(t) => t,
        Search::Over(t) => t,
    }
}

/// The id of the category that has this id or name.
pub fn resolve_category_id(doc: &Json, name_or_id: &str) -> (r: Option<String>)
    ensures
        string_view(r) == resolved_category(doc@, name_or_id@),
{
    let needle = trim(name_or_id);
    if needle.is_empty() {
        return None;
    }
    let groups = match doc.array_field("category_groups") {
        Some(groups) => groups,
        None => return None,
    };
    let ghost all = item_views(groups@);
    let mut s = Search::Going(None);
    let n: usize = groups.len();
    let mut i: usize = 0;
    assert(all.take(0) =~= Seq::<JsonView>::empty());
    while i < n
        invariant
            i <= n == groups@.len(),
            all == item_views(groups@),
            s@ == search_groups(SearchView::Going(None), all.take(i as int), needle@),
        decreases n - i,
    {
        assert(all.take(i + 1).drop_last() =~= all.take(i as int));
        assert(all.take(i + 1).last() == groups@[i as int]@);
        s = match s {
            Search::Over(t) => Search::Over(t),
            Search::Going(by_name) => match groups[i].array_field("categories") {
                None => Search::Over(None),
                Some(entries) => go_on(Search::Going(by_name), entries, needle),
            },
        };
        i = i + 1;
    }
    assert(all.take(n as int) =~= all);
    outcome(s)
}

fn resolve_in(doc: &Json, key: &str, name_or_id: &str) -> (r: Option<String>)
    ensures
        string_view(r) == resolved_in(doc@, key@, name_or_id@),
{
    let needle = trim(name_or_id);
    if needle.is_empty() {
        return None;
    }
    match doc.array_field(key) {
        Some(entries) => outcome(go_on(Search::Going(None), entries, needle)),
        None => None,
    }
}

/// The id of the payee that has this id or name.
pub fn resolve_payee_id(doc: &Json, name_or_id: &str) -> (r: Option<String>)
    ensures
        string_view(r) == resolved_in(doc@, "payees"@, name_or_id@),
{
    resolve_in(doc, "payees", name_or_id)
}

/// The id of the account that has this id or name.
pub fn resolve_account_id(doc: &Json, name_or_id: &str) -> (r: Option<String>)
    ensures
        string_view(r) == resolved_in(doc@, "accounts"@, name_or_id@),
{
    resolve_in(doc, "accounts", name_or_id)
}

/// An id goes before every name: the first entry that has the id is found,
/// whatever names the others have.
pub proof fn law_id_goes_before_name(
    entries: Seq<JsonView>,
    needle: Seq<char>,
    by_name: Option<Seq<char>>,
    at: int,
    id: Seq<char>,
)
    requires
        0 <= at < entries.len(),
        entries[at].text_field("id"@) == Some(id),
        same_letters(id, needle),
        forall|j: int|
            0 <= j < at ==> (#[trigger] entries[j]).text_field("id"@) is Some && !same_letters(
                entries[j].text_field("id"@)->0,
                needle,
            ),
    ensures
        search_entries(SearchView::Going(by_name), entries, needle) == SearchView::Over(Some(id)),
    decreases entries.len(),
{
    let rest = entries.drop_last();
    if at < rest.len() {
        law_id_goes_before_name(rest, needle, by_name, at, id);
    } else {
        lemma_still_going(rest, needle, by_name);
    }
}

proof fn lemma_still_going(entries: Seq<JsonView>, needle: Seq<char>, by_name: Option<Seq<char>>)
    requires
        forall|j: int|
            0 <= j < entries.len() ==> (#[trigger] entries[j]).text_field("id"@) is Some
                && !same_letters(entries[j].text_field("id"@)->0, needle),
    ensures
        search_entries(SearchView::Going(by_name), entries, needle) is Going,
    decreases entries.len(),
{
    if entries.len() > 0 {
        assert(entries[entries.len() - 1].text_field("id"@) is Some);
        assert forall|j: int| 0 <= j < entries.drop_last().len() implies (
        #[trigger] entries.drop_last()[j]).text_field("id"@) is Some && !same_letters(
            entries.drop_last()[j].text_field("id"@)->0,
            needle,
        ) by {
            assert(entries.drop_last()[j] == entries[j]);
        }
        lemma_still_going(entries.drop_last(), needle, by_name);
    }
}

/// Where no entry has the id, the last entry that has the name is found.
pub proof fn law_last_name_is_found(
    entries: Seq<JsonView>,
    needle: Seq<char>,
    by_name: Option<Seq<char>>,
    at: int,
)
    requires
        0 <= at < entries.len(),
        forall|j: int|
            0 <= j < entries.len() ==> (#[trigger] entries[j]).text_field("id"@) is Some
                && !same_letters(entries[j].text_field("id"@)->0, needle),
        same_letters(text_or(entries[at].text_field("name"@), ""@), needle),
        forall|j: int|
            at < j < entries.len() ==> !same_letters(
                text_or((#[trigger] entries[j]).text_field("name"@), ""@),
                needle,
            ),
    ensures
        search_entries(SearchView::Going(by_name), entries, needle) == SearchView::Going(
            entries[at].text_field("id"@),
        ),
    decreases entries.len(),
{
    let rest = entries.drop_last();
    assert(entries[entries.len() - 1].text_field("id"@) is Some);
    assert forall|j: int| 0 <= j < rest.len() implies (#[trigger] rest[j]).text_field(
        "id"@,
    ) is Some && !same_letters(rest[j].text_field("id"@)->0, needle) by {
        assert(rest[j] == entries[j]);
    }
    if at < rest.len() {
        assert forall|j: int| at < j < rest.len() implies !same_letters(
            text_or((#[trigger] rest[j]).text_field("name"@), ""@),
            needle,
        ) by {
            assert(rest[j] == entries[j]);
        }
        law_last_name_is_found(rest, needle, by_name, at);
    } else {
        lemma_still_going(rest, needle, by_name);
    }
}

// ── Allocations ──────────────────────────────────────────────────────────────

/// The category that an allocation names, by `category` or else `category_id`.
pub open spec fn allocation_category(item: JsonView) -> Option<Seq<char>> {
    let named = match item.field("category"@) {
        Some(v) => Some(v),
        None => item.field("category_id"@),
    };
    match named {
        Some(v) => match v.text() {
            Some(t) => if trimmed(t).len() > 0 {
                Some(trimmed(t))
            } else {
                None
            },
            None => None,
        },
        None => None,
    }
}

pub open spec fn allocation_amount(item: JsonView) -> Option<int> {
    match item.field("amount_cents"@) {
        Some(v) => v.number(),
        None => None,
    }
}

pub open spec fn missing_text(i: int, what: Seq<char>) -> Seq<char> {
    "allocations["@ + decimal(i) + "] missing "@ + what
}

/// Categories with their amounts, or what is missing first.
pub open spec fn allocations_of(items: Seq<JsonView>) -> Result<Seq<(Seq<char>, int)>, Seq<char>>
    decreases items.len(),
{
    if items.len() == 0 {
        Ok(Seq::empty())
    } else {
        match allocations_of(items.drop_last()) {
            Err(e) => Err(e),
            Ok(done) => match (
                allocation_category(items.last()),
                allocation_amount(items.last()),
            ) {
                (None, _) => Err(missing_text(items.len() - 1, "category or category_id"@)),
                (Some(_), None) => Err(missing_text(items.len() - 1, "amount_cents"@)),
                (Some(category), Some(amount)) => Ok(done.push((category, amount))),
            },
        }
    }
}

pub open spec fn parsed_allocations(items: Seq<JsonView>) -> Result<
    Seq<(Seq<char>, int)>,
    Seq<char>,
> {
    if items.len() == 0 {
        Err("allocations must not be empty"@)
    } else {
        allocations_of(items)
    }
}

pub open spec fn pair_views(v: Seq<(String, i64)>) -> Seq<(Seq<char>, int)> {
    v.map_values(|p: (String, i64)| (p.0@, p.1 as int))
}

fn find_category(item: &Json) -> (r: Option<&str>)
    ensures
        text_view(r) == allocation_category(item@),
{
    let named = match item.get("category") {
        Some(v) => Some(v),
        None => item.get("category_id"),
    };
    match named {
        Some(v) => match v.as_str() {
            Some(t) => {
                let t = trim(t);
                if t.is_empty() {
                    None
                } else {
                    Some(t)
                }
            },
            None => None,
        },
        None => None,
    }
}

proof fn lemma_allocations_error(items: Seq<JsonView>, k: int, e: Seq<char>)
    requires
        0 <= k <= items.len(),
        allocations_of(items.take(k)) == Err::<Seq<(Seq<char>, int)>, Seq<char>>(e),
    ensures
        allocations_of(items) == Err::<Seq<(Seq<char>, int)>, Seq<char>>(e),
    decreases items.len() - k,
{
    if k == items.len() {
        assert(items.take(k) =~= items);
    } else {
        assert(items.take(k + 1).drop_last() =~= items.take(k));
        lemma_allocations_error(items, k + 1, e);
    }
}

fn missing(i: usize, what: &str) -> (r: String)
    ensures
        r@ == missing_text(i as int, what@),
{
    let mut s = join3("allocations[", format_uint(i as u64).as_str(), "] missing ");
    s.append(what);
    s
}

/// Reads allocations: each has `amount_cents` and either `category` (an id or a
/// name) or `category_id`.
pub fn parse_allocation_items(items: &[Json]) -> (r: Result<Vec<(String, i64)>, String>)
    ensures
        match r {
            Ok(v) => parsed_allocations(item_views(items@)) == Ok::<
                Seq<(Seq<char>, int)>,
                Seq<char>,
            >(pair_views(v@)),
            Err(e) => parsed_allocations(item_views(items@)) == Err::<
                Seq<(Seq<char>, int)>,
                Seq<char>,
            >(e@),
        },
{
    let n: usize = items.len();
    if n == 0 {
        return Err("allocations must not be empty".to_string());
    }
    let ghost all = item_views(items@);
    let mut out: Vec<(String, i64)> = Vec::new();
    let mut i: usize = 0;
    assert(all.take(0) =~= Seq::<JsonView>::empty());
    assert(pair_views(out@) =~= Seq::empty());
    while i < n
        invariant
            i <= n == items@.len(),
            n > 0,
            all == item_views(items@),
            allocations_of(all.take(i as int)) == Ok::<Seq<(Seq<char>, int)>, Seq<char>>(
                pair_views(out@),
            ),
        decreases n - i,
    {
        let item = &items[i];
        assert(all.take(i + 1).drop_last() =~= all.take(i as int));
        assert(all.take(i + 1).last() == item@);
        let category = match find_category(item) {
            Some(c) => c,
            None => {
                let e = missing(i, "category or category_id");
                proof {
                    lemma_allocations_error(all, i + 1, e@);
                }
                return Err(e);
            },
        };
        let found: Option<i64> = match item.get("amount_cents") {
            Some(v) => v.as_i64(),
            None => None,
        };
        match found {
            Some(amount) => {
                let ghost was = out@;
                out.push((category.to_string(), amount));
                assert(pair_views(out@) =~= pair_views(was).push((category@, amount as int)));
            },
            None => {
                let e = missing(i, "amount_cents");
                proof {
                    lemma_allocations_error(all, i + 1, e@);
                }
                return Err(e);
            },
        }
        i = i + 1;
    }
    assert(all.take(n as int) =~= all);
    Ok(out)
}

// ── Rules ────────────────────────────────────────────────────────────────────

pub open spec fn no_members() -> JsonView {
    JsonView::Object(Seq::empty())
}

/// A rule that puts the payees that a pattern matches into a category.
pub open spec fn rule_body(payee_regex: Seq<char>, category_id: Seq<char>) -> JsonView {
    let condition = with_member(
        with_member(
            with_member(no_members(), "field"@, JsonView::Str("payee"@)),
            "op"@,
            JsonView::Str("regex"@),
        ),
        "value"@,
        JsonView::Str(payee_regex),
    );
    let action = with_member(
        with_member(no_members(), "field"@, JsonView::Str("category"@)),
        "value"@,
        JsonView::Str(category_id),
    );
    with_member(
        with_member(
            with_member(
                with_member(no_members(), "stage"@, JsonView::Str("pre"@)),
                "conditions_op"@,
                JsonView::Str("and"@),
            ),
            "conditions"@,
            JsonView::Array(seq![condition]),
        ),
        "actions"@,
        JsonView::Array(seq![action]),
    )
}

fn array_of(item: Json) -> (r: Json)
    ensures
        r@ == JsonView::Array(seq![item@]),
{
    let mut items: Vec<Json> = Vec::new();
    items.push(item);
    assert(item_views(items@) =~= seq![item@]);
    Json::array(items)
}

pub fn payee_rule_body(payee_regex: &str, category_id: &str) -> (r: Json)
    ensures
        r@ == rule_body(payee_regex@, category_id@),
{
    let condition = Json::empty_object().with("field", Json::string("payee")).with(
        "op",
        Json::string("regex"),
    ).with("value", Json::string(payee_regex));
    let action = Json::empty_object().with("field", Json::string("category")).with(
        "value",
        Json::string(category_id),
    );
    Json::empty_object().with("stage", Json::string("pre")).with(
        "conditions_op",
        Json::string("and"),
    ).with("conditions", array_of(condition)).with("actions", array_of(action))
}

/// The condition asks for a payee that matches `needle`, up to the case of ASCII
/// letters. `lower` is the needle in lower case.
pub open spec fn asks_for_payee(condition: JsonView, needle: Seq<char>, lower: Seq<char>) -> bool {
    let op = text_or(condition.text_field("op"@), "regex"@);
    let value = text_or(condition.text_field("value"@), ""@);
    &&& text_or(condition.text_field("field"@), ""@) == "payee"@
    &&& op == "contains"@ || op == "is"@ || op == "equals"@ || op == "regex"@ || op == ""@
    &&& same_letters(value, needle) || same_letters(value, lower)
}

/// The action puts a transaction into the category.
pub open spec fn sets_category(action: JsonView, category_id: Seq<char>) -> bool {
    &&& text_or(action.text_field("field"@), ""@) == "category"@
    &&& text_or(action.text_field("value"@), ""@) == category_id
}

pub open spec fn is_equivalent(
    conditions: Seq<JsonView>,
    actions: Seq<JsonView>,
    needle: Seq<char>,
    lower: Seq<char>,
    category_id: Seq<char>,
) -> bool {
    &&& exists|i: int|
        0 <= i < conditions.len() && asks_for_payee(#[trigger] conditions[i], needle, lower)
    &&& exists|i: int| 0 <= i < actions.len() && sets_category(#[trigger] actions[i], category_id)
}

/// The rule asks for the payee and sets the category.
pub open spec fn does_the_same(
    rule: JsonView,
    needle: Seq<char>,
    lower: Seq<char>,
    category_id: Seq<char>,
) -> bool {
    match (rule.items_field("conditions"@), rule.items_field("actions"@)) {
        (Some(conditions), Some(actions)) => is_equivalent(
            conditions,
            actions,
            needle,
            lower,
            category_id,
        ),
        _ => false,
    }
}

/// The rule has conditions and actions.
pub open spec fn is_readable(rule: JsonView) -> bool {
    rule.items_field("conditions"@) is Some && rule.items_field("actions"@) is Some
}

/// The id of the first rule that asks for the payee and sets the category. A rule
/// without conditions or actions ends the search.
pub open spec fn equivalent_rule(
    rules: Seq<JsonView>,
    needle: Seq<char>,
    lower: Seq<char>,
    category_id: Seq<char>,
) -> Option<Seq<char>>
    decreases rules.len(),
{
    if rules.len() == 0 || !is_readable(rules[0]) {
        None
    } else if does_the_same(rules[0], needle, lower, category_id) {
        rules[0].text_field("id"@)
    } else {
        equivalent_rule(rules.drop_first(), needle, lower, category_id)
    }
}

/// The rule of a document that does what the new one would.
pub open spec fn known_rule(
    doc: JsonView,
    needle: Seq<char>,
    lower: Seq<char>,
    category_id: Seq<char>,
) -> Option<Seq<char>> {
    match doc.items_field("rules"@) {
        Some(rules) => equivalent_rule(rules, needle, lower, category_id),
        None => None,
    }
}

fn is_asking(condition: &Json, needle: &str, lower: &str) -> (r: bool)
    ensures
        r == asks_for_payee(condition@, needle@, lower@),
{
    if !same_text(str_or(condition.str_field("field"), ""), "payee") {
        return false;
    }
    let op = str_or(condition.str_field("op"), "regex");
    let value = str_or(condition.str_field("value"), "");
    (same_text(op, "contains") || same_text(op, "is") || same_text(op, "equals") || same_text(
        op,
        "regex",
    ) || same_text(op, "")) && (same_ignoring_case(value, needle) || same_ignoring_case(
        value,
        lower,
    ))
}

fn any_asks(conditions: &Vec<Json>, needle: &str, lower: &str) -> (r: bool)
    ensures
        r == exists|i: int|
            0 <= i < item_views(conditions@).len() && asks_for_payee(
                #[trigger] item_views(conditions@)[i],
                needle@,
                lower@,
            ),
{
    let mut i: usize = 0;
    while i < conditions.len()
        invariant
            i <= conditions@.len(),
            forall|j: int|
                0 <= j < i ==> !asks_for_payee(
                    #[trigger] item_views(conditions@)[j],
                    needle@,
                    lower@,
                ),
        decreases conditions@.len() - i,
    {
        assert(item_views(conditions@)[i as int] == conditions@[i as int]@);
        if is_asking(&conditions[i], needle, lower) {
            return true;
        }
        i = i + 1;
    }
    false
}

fn any_sets(actions: &Vec<Json>, category_id: &str) -> (r: bool)
    ensures
        r == exists|i: int|
            0 <= i < item_views(actions@).len() && sets_category(
                #[trigger] item_views(actions@)[i],
                category_id@,
            ),
{
    let mut i: usize = 0;
    while i < actions.len()
        invariant
            i <= actions@.len(),
            forall|j: int|
                0 <= j < i ==> !sets_category(#[trigger] item_views(actions@)[j], category_id@),
        decreases actions@.len() - i,
    {
        assert(item_views(actions@)[i as int] == actions@[i as int]@);
        if same_text(str_or(actions[i].str_field("field"), ""), "category") && same_text(
            str_or(actions[i].str_field("value"), ""),
            category_id,
        ) {
            return true;
        }
        i = i + 1;
    }
    false
}

/// The rule that asks for `needle`, or for `lower`, and sets the category, if there
/// is one.
pub fn find_rule(doc: &Json, needle: &str, lower: &str, category_id: &str) -> (r: Option<String>)
    ensures
        string_view(r) == known_rule(doc@, needle@, lower@, category_id@),
{
    let rules = match doc.array_field("rules") {
        Some(rules) => rules,
        None => return None,
    };
    let ghost all = item_views(rules@);
    let n: usize = rules.len();
    let mut i: usize = 0;
    assert(all.skip(0) =~= all);
    while i < n
        invariant
            i <= n == rules@.len(),
            all == item_views(rules@),
            known_rule(doc@, needle@, lower@, category_id@) == equivalent_rule(
                all.skip(i as int),
                needle@,
                lower@,
                category_id@,
            ),
        decreases n - i,
    {
        let rule = &rules[i];
        assert(all.skip(i as int)[0] == rule@);
        assert(all.skip(i as int).drop_first() =~= all.skip(i + 1));
        let conditions = match rule.array_field("conditions") {
            Some(v) => v,
            None => return None,
        };
        let actions = match rule.array_field("actions") {
            Some(v) => v,
            None => return None,
        };
        if any_asks(conditions, needle, lower) && any_sets(actions, category_id) {
            return match rule.str_field("id") {
                Some(id) => Some(id.to_string()),
                None => None,
            };
        }
        i = i + 1;
    }
    None
}

/// The lower case of a text, as Unicode defines it.
pub uninterp spec fn lowercase(s: Seq<char>) -> Seq<char>;

/// `str::to_lowercase`. The result depends on the text alone; the letters of an
/// ASCII text become small letters and the rest of it stays.
#[verifier::external_body]
fn to_lowercase(s: &str) -> (r: String)
    ensures
        r@ == lowercase(s@),
        is_ascii_text(s@) ==> r@ == lowered(s@),
{
    s.to_lowercase()
}

/// The rule that already asks for the payee and sets the category, if there is
/// one. A rule of the very same text is one, whatever its letters are.
pub fn find_equivalent_payee_rule(doc: &Json, payee_regex: &str, category_id: &str) -> (r: Option<
    String,
>)
    ensures
        string_view(r) == known_rule(
            doc@,
            trimmed(payee_regex@),
            lowercase(trimmed(payee_regex@)),
            category_id@,
        ),
        is_ascii_text(trimmed(payee_regex@)) ==> string_view(r) == known_rule(
            doc@,
            trimmed(payee_regex@),
            lowered(trimmed(payee_regex@)),
            category_id@,
        ),
{
    let needle = trim(payee_regex);
    let lower = to_lowercase(needle);
    find_rule(doc, needle, lower.as_str(), category_id)
}

// ── Payees ───────────────────────────────────────────────────────────────────

/// A transaction of the document has one of the ids and this payee.
pub open spec fn has_payee(t: JsonView, ids: Seq<Seq<char>>, payee: Seq<char>) -> bool {
    &&& ids.contains(text_or(t.text_field("id"@), ""@))
    &&& payee.len() > 0
    &&& match t.text_field("payee"@) {
        Some(p) => trimmed(p) == payee,
        None => false,
    }
}

pub open spec fn is_payee_of(entries: Seq<JsonView>, ids: Seq<Seq<char>>, payee: Seq<char>) -> bool {
    exists|i: int| 0 <= i < entries.len() && has_payee(#[trigger] entries[i], ids, payee)
}

pub open spec fn in_order(v: Seq<Seq<char>>) -> bool {
    forall|i: int, j: int| 0 <= i < j < v.len() ==> text_before(#[trigger] v[i], #[trigger] v[j])
}

/// The payees of the transactions with these ids: each once, in order.
pub open spec fn are_payees(doc: JsonView, ids: Seq<Seq<char>>, payees: Seq<Seq<char>>) -> bool {
    &&& in_order(payees)
    &&& forall|p: Seq<char>| #[trigger]
        payees.contains(p) <==> match doc.items_field("transactions"@) {
            Some(entries) => is_payee_of(entries, ids, p),
            None => false,
        }
}

/// Texts in order are known by what they hold.
proof fn lemma_order_known(a: Seq<Seq<char>>, b: Seq<Seq<char>>, k: int)
    requires
        in_order(a),
        in_order(b),
        forall|p: Seq<char>| #[trigger] a.contains(p) <==> b.contains(p),
        0 <= k <= a.len(),
    ensures
        k <= b.len(),
        forall|i: int| 0 <= i < k ==> a[i] == b[i],
    decreases k,
{
    if k > 0 {
        lemma_order_known(a, b, k - 1);
        let x = a[k - 1];
        assert(a.contains(x));
        assert(b.contains(x));
        let j = choose|j: int| 0 <= j < b.len() && b[j] == x;
        lemma_before_irreflexive(x);
        if j < k - 1 {
            assert(a[j] == x);
        } else if j > k - 1 {
            let y = b[k - 1];
            assert(b.contains(y));
            assert(a.contains(y));
            let i = choose|i: int| 0 <= i < a.len() && a[i] == y;
            lemma_before_irreflexive(y);
            assert(text_before(y, x));
            if i < k - 1 {
                assert(b[i] == y);
            } else if i > k - 1 {
                assert(text_before(x, y));
                lemma_before_transitive(x, y, x);
            }
        }
    }
}

/// The payees of some transactions are one list and no other.
pub proof fn law_payees_are_one_list(
    doc: JsonView,
    ids: Seq<Seq<char>>,
    a: Seq<Seq<char>>,
    b: Seq<Seq<char>>,
)
    requires
        are_payees(doc, ids, a),
        are_payees(doc, ids, b),
    ensures
        a == b,
{
    lemma_order_known(a, b, a.len() as int);
    lemma_order_known(b, a, b.len() as int);
    assert(a =~= b);
}

pub open spec fn payees_of(doc: JsonView, ids: Seq<Seq<char>>) -> Seq<Seq<char>> {
    choose|payees: Seq<Seq<char>>| are_payees(doc, ids, payees)
}

fn has_id(ids: &Vec<String>, id: &str) -> (r: bool)
    ensures
        r == views(ids@).contains(id@),
{
    let mut i: usize = 0;
    while i < ids.len()
        invariant
            i <= ids@.len(),
            forall|j: int| 0 <= j < i ==> (#[trigger] views(ids@)[j]) != id@,
        decreases ids@.len() - i,
    {
        assert(views(ids@)[i as int] == ids@[i as int]@);
        if same_text(ids[i].as_str(), id) {
            return true;
        }
        i = i + 1;
    }
    false
}

/// One payee more, in its place.
fn insert_payee(payees: &mut Vec<String>, payee: &str)
    requires
        in_order(views(old(payees)@)),
    ensures
        in_order(views(final(payees)@)),
        forall|p: Seq<char>| #[trigger]
            views(final(payees)@).contains(p) <==> (views(old(payees)@).contains(p) || p == payee@),
{
    let ghost was = views(payees@);
    let n: usize = payees.len();
    let mut i: usize = 0;
    while i < n && before(payees[i].as_str(), payee)
        invariant
            i <= n == payees@.len(),
            was == views(payees@),
            forall|j: int| 0 <= j < i ==> text_before(#[trigger] was[j], payee@),
        decreases n - i,
    {
        assert(was[i as int] == payees@[i as int]@);
        i = i + 1;
    }
    if i < n {
        assert(was[i as int] == payees@[i as int]@);
    }
    if i < n && same_text(payees[i].as_str(), payee) {
        assert(was.contains(payee@));
        return;
    }
    payees.insert(i, payee.to_string());
    proof {
        let now = views(payees@);
        assert(now =~= was.insert(i as int, payee@));
        if i < n {
            lemma_before_total(was[i as int], payee@);
        }
        assert forall|a: int, b: int| 0 <= a < b < now.len() implies text_before(
            #[trigger] now[a],
            #[trigger] now[b],
        ) by {
            let a2 = if a < i { a } else { a - 1 };
            let b2 = if b < i { b } else { b - 1 };
            if a == i {
                assert(now[b] == was[b2]);
                if b2 > i {
                    assert(text_before(was[i as int], was[b2]));
                    lemma_before_transitive(payee@, was[i as int], was[b2]);
                }
            } else if b == i {
                assert(now[a] == was[a]);
            } else {
                assert(now[a] == was[a2] && now[b] == was[b2]);
            }
        }
        assert forall|p: Seq<char>| #[trigger] now.contains(p) <==> (was.contains(p) || p
            == payee@) by {
            if now.contains(p) {
                let k = choose|k: int| 0 <= k < now.len() && now[k] == p;
                if k < i {
                    assert(was[k] == p);
                } else if k > i {
                    assert(was[k - 1] == p);
                }
            }
            if was.contains(p) {
                let k = choose|k: int| 0 <= k < was.len() && was[k] == p;
                if k < i {
                    assert(now[k] == p);
                } else {
                    assert(now[k + 1] == p);
                }
            }
            assert(now[i as int] == payee@);
        }
    }
}

/// The payees of the transactions with these ids, each once and in order.
pub fn payees_for_ids(doc: &Json, ids: &Vec<String>) -> (r: Vec<String>)
    ensures
        are_payees(doc@, views(ids@), views(r@)),
        views(r@) == payees_of(doc@, views(ids@)),
{
    let payees = collect_payees(doc, ids);
    proof {
        law_payees_are_one_list(
            doc@,
            views(ids@),
            views(payees@),
            payees_of(doc@, views(ids@)),
        );
    }
    payees
}

fn collect_payees(doc: &Json, ids: &Vec<String>) -> (r: Vec<String>)
    ensures
        are_payees(doc@, views(ids@), views(r@)),
{
    let mut payees: Vec<String> = Vec::new();
    let entries = match doc.array_field("transactions") {
        Some(entries) => entries,
        None => return payees,
    };
    let ghost all = item_views(entries@);
    let ghost wanted = views(ids@);
    let n: usize = entries.len();
    let mut i: usize = 0;
    while i < n
        invariant
            i <= n == entries@.len(),
            all == item_views(entries@),
            wanted == views(ids@),
            in_order(views(payees@)),
            forall|p: Seq<char>| #[trigger]
                views(payees@).contains(p) <==> exists|k: int|
                    0 <= k < i && has_payee(#[trigger] all[k], wanted, p),
        decreases n - i,
    {
        let t = &entries[i];
        assert(all[i as int] == t@);
        let ghost was = views(payees@);
        let found: Option<&str> = if has_id(ids, str_or(t.str_field("id"), "")) {
            match t.str_field("payee") {
                Some(p) => {
                    let p = trim(p);
                    if p.is_empty() {
                        None
                    } else {
                        Some(p)
                    }
                },
                None => None,
            }
        } else {
            None
        };
        if let Some(p) = found {
            insert_payee(&mut payees, p);
        }
        proof {
            assert(forall|p: Seq<char>| has_payee(all[i as int], wanted, p) <==> text_view(found) == Some(p));
            assert forall|p: Seq<char>| #[trigger]
                views(payees@).contains(p) <==> exists|k: int|
                    0 <= k < i + 1 && has_payee(#[trigger] all[k], wanted, p) by {
                if views(payees@).contains(p) {
                    if was.contains(p) {
                        let k = choose|k: int| 0 <= k < i && has_payee(#[trigger] all[k], wanted, p);
                        assert(has_payee(all[k], wanted, p));
                    } else {
                        assert(has_payee(all[i as int], wanted, p));
                    }
                }
                if exists|k: int| 0 <= k < i + 1 && has_payee(#[trigger] all[k], wanted, p) {
                    let k = choose|k: int| 0 <= k < i + 1 && has_payee(#[trigger] all[k], wanted, p);
                    if k < i {
                        assert(was.contains(p));
                    }
                }
            }
        }
        i = i + 1;
    }
    payees
}

} // verus!
