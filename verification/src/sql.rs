//! What the queries share: nullable columns, joins, sums and orders.
//!
//! A column that may be null is an `Option`. A condition on it holds only where
//! it is known to hold, so a null equals nothing, not even another null.

use crate::models::in_i64;
use crate::text::{
    before, lemma_before_irreflexive, lemma_before_total, lemma_before_transitive, same_text,
    string_view, text_before, text_or, text_view,
};
use vstd::prelude::*;
use vstd::string::*;

verus! {

/// Why a query has no result.
#[derive(Debug, Clone, Copy, PartialEq, Eq, Structural)]
pub enum DbError {
    /// The column of this index is null in a row that is handed out, where a
    /// value is called for.
    NullColumn(usize),
    /// A sum left the range of 64 bits.
    IntegerOverflow,
}

// ── Conditions ───────────────────────────────────────────────────────────────

/// `column = 0`
pub open spec fn is_zero(column: Option<i64>) -> bool {
    column == Some(0i64)
}

/// `column = 0 OR column IS NULL`
pub open spec fn unset(column: Option<i64>) -> bool {
    column is None || column == Some(0i64)
}

/// The flag that a nullable number stands for, null counting as zero.
pub open spec fn flag(column: Option<i64>) -> bool {
    !unset(column)
}

/// `a = b` on nullable texts.
pub open spec fn equal(a: Option<Seq<char>>, b: Option<Seq<char>>) -> bool {
    a is Some && a == b
}

pub fn zero(column: &Option<i64>) -> (r: bool)
    ensures
        r == is_zero(*column),
{
    match column {
        Some(v) => *v == 0,
        None => false,
    }
}

pub fn not_set(column: &Option<i64>) -> (r: bool)
    ensures
        r == unset(*column),
{
    match column {
        Some(v) => *v == 0,
        None => true,
    }
}

pub fn is_flag(column: &Option<i64>) -> (r: bool)
    ensures
        r == flag(*column),
{
    !not_set(column)
}

pub fn equal_text(a: Option<&str>, b: Option<&str>) -> (r: bool)
    ensures
        r == equal(text_view(a), text_view(b)),
{
    match (a, b) {
        (Some(x), Some(y)) => same_text(x, y),
        _ => false,
    }
}

/// Equality of two nullable numbers, nulls being alike.
pub fn same_number(a: &Option<i64>, b: &Option<i64>) -> (r: bool)
    ensures
        r == (*a == *b),
{
    match (a, b) {
        (Some(x), Some(y)) => *x == *y,
        (None, None) => true,
        _ => false,
    }
}

/// `COALESCE(a, b)`
pub open spec fn coalesce(a: Option<Seq<char>>, b: Option<Seq<char>>) -> Option<Seq<char>> {
    if a is Some {
        a
    } else {
        b
    }
}

pub fn string_or(a: &Option<String>, other: &str) -> (r: String)
    ensures
        r@ == text_or(string_view(*a), other@),
{
    match a {
        Some(t) => t.clone(),
        None => other.to_string(),
    }
}

// ── Joins ────────────────────────────────────────────────────────────────────

/// A row that others refer to by its id.
pub trait Keyed: Sized {
    spec fn key(&self) -> Option<Seq<char>>;

    spec fn present(&self) -> bool;

    /// Whether the row takes part in joins and has this id.
    fn meets(&self, key: Option<&str>) -> (r: bool)
        ensures
            r == (self.present() && equal(text_view(key), self.key())),
    ;
}

pub open spec fn meets_key<R: Keyed>(row: &R, key: Option<Seq<char>>) -> bool {
    row.present() && equal(key, row.key())
}

/// The rows that take part in joins and have the id `key`, in table order.
pub open spec fn hits<'a, R: Keyed>(rows: Seq<R>, key: Option<Seq<char>>) -> Seq<&'a R>
    decreases rows.len(),
{
    if rows.len() == 0 {
        Seq::empty()
    } else if meets_key(&rows.last(), key) {
        hits(rows.drop_last(), key).push(&rows.last())
    } else {
        hits(rows.drop_last(), key)
    }
}

/// The partners of a row in a left join: those that match, or null once.
pub open spec fn left_join<'a, R: Keyed>(rows: Seq<R>, key: Option<Seq<char>>) -> Seq<
    Option<&'a R>,
> {
    let found = hits(rows, key);
    if found.len() == 0 {
        seq![None]
    } else {
        found.map_values(|r: &'a R| Some(r))
    }
}

pub fn join_inner<'a, R: Keyed>(rows: &'a Vec<R>, key: Option<&str>) -> (r: Vec<&'a R>)
    ensures
        r@ == hits(rows@, text_view(key)),
{
    let mut out: Vec<&'a R> = Vec::new();
    let n: usize = rows.len();
    let mut i: usize = 0;
    let ghost k = text_view(key);
    assert(rows@.take(0) =~= Seq::<R>::empty());
    while i < n
        invariant
            i <= n == rows@.len(),
            k == text_view(key),
            out@ =~= hits(rows@.take(i as int), k),
        decreases n - i,
    {
        assert(rows@.take(i + 1).drop_last() =~= rows@.take(i as int));
        if rows[i].meets(key) {
            out.push(&rows[i]);
        }
        i = i + 1;
    }
    assert(rows@.take(n as int) =~= rows@);
    out
}

pub fn join_left<'a, R: Keyed>(rows: &'a Vec<R>, key: Option<&str>) -> (r: Vec<Option<&'a R>>)
    ensures
        r@ == left_join(rows@, text_view(key)),
{
    let found = join_inner(rows, key);
    let mut out: Vec<Option<&'a R>> = Vec::new();
    let n: usize = found.len();
    if n == 0 {
        out.push(None);
        return out;
    }
    let mut i: usize = 0;
    while i < n
        invariant
            i <= n == found@.len(),
            out@ =~= found@.take(i as int).map_values(|r: &'a R| Some(r)),
        decreases n - i,
    {
        out.push(Some(found[i]));
        i = i + 1;
    }
    assert(found@.take(n as int) =~= found@);
    out
}

// ── Sums ─────────────────────────────────────────────────────────────────────

/// A sum in progress.
#[derive(Clone, Copy)]
pub enum Tally {
    /// No value so far.
    Empty,
    Sum(i64),
    Overflow,
}

pub open spec fn tally_add(acc: Tally, value: Option<i64>) -> Tally {
    match (acc, value) {
        (_, None) => acc,
        (Tally::Empty, Some(v)) => Tally::Sum(v),
        (Tally::Sum(s), Some(v)) => if in_i64(s + v) {
            Tally::Sum((s + v) as i64)
        } else {
            Tally::Overflow
        },
        (Tally::Overflow, _) => acc,
    }
}

/// `SUM` over a column: nulls do not count, and a running total that leaves the
/// range of 64 bits is an overflow.
pub open spec fn tally(acc: Tally, values: Seq<Option<i64>>) -> Tally
    decreases values.len(),
{
    if values.len() == 0 {
        acc
    } else {
        tally_add(tally(acc, values.drop_last()), values.last())
    }
}

pub fn add_value(acc: Tally, value: Option<i64>) -> (r: Tally)
    ensures
        r == tally_add(acc, value),
{
    match value {
        None => acc,
        Some(v) => match acc {
            Tally::Empty => Tally::Sum(v),
            Tally::Sum(s) => match s.checked_add(v) {
                Some(t) => Tally::Sum(t),
                None => Tally::Overflow,
            },
            Tally::Overflow => acc,
        },
    }
}

/// The sum of the values that are not null.
pub open spec fn value_sum(values: Seq<Option<i64>>) -> int
    decreases values.len(),
{
    if values.len() == 0 {
        0
    } else {
        value_sum(values.drop_last()) + match values.last() {
            Some(v) => v as int,
            None => 0,
        }
    }
}

/// `COALESCE(SUM(..), 0)`
pub open spec fn sum_or_zero(t: Tally) -> Result<int, DbError> {
    match t {
        Tally::Empty => Ok(0),
        Tally::Sum(s) => Ok(s as int),
        Tally::Overflow => Err(DbError::IntegerOverflow),
    }
}

pub fn finish_sum(t: Tally) -> (r: Result<i64, DbError>)
    ensures
        match r {
            Ok(v) => sum_or_zero(t) == Ok::<int, DbError>(v as int),
            Err(e) => sum_or_zero(t) == Err::<int, DbError>(e),
        },
{
    match t {
        Tally::Empty => Ok(0),
        Tally::Sum(s) => Ok(s),
        Tally::Overflow => Err(DbError::IntegerOverflow),
    }
}

/// A sum that did not overflow is the sum of the values.
pub proof fn lemma_tally_is_sum(values: Seq<Option<i64>>, total: int)
    requires
        sum_or_zero(tally(Tally::Empty, values)) == Ok::<int, DbError>(total),
    ensures
        total == value_sum(values),
    decreases values.len(),
{
    if values.len() > 0 {
        match tally(Tally::Empty, values.drop_last()) {
            Tally::Empty => lemma_tally_is_sum(values.drop_last(), 0),
            Tally::Sum(s) => lemma_tally_is_sum(values.drop_last(), s as int),
            Tally::Overflow => {},
        }
    }
}

// ── Orders ───────────────────────────────────────────────────────────────────

/// What rows are ordered by: two numbers, then a text. Nulls come first.
pub struct SortKey {
    pub first: i128,
    pub second: i128,
    pub text: Option<String>,
}

pub struct SortKeyView {
    pub first: int,
    pub second: int,
    pub text: Option<Seq<char>>,
}

impl View for SortKey {
    type V = SortKeyView;

    open spec fn view(&self) -> SortKeyView {
        SortKeyView {
            first: self.first as int,
            second: self.second as int,
            text: string_view(self.text),
        }
    }
}

/// The place of a nullable number in ascending order.
pub open spec fn ascending(column: Option<i64>) -> int {
    match column {
        Some(v) => v as int,
        None => i64::MIN - 1,
    }
}

pub fn rank(column: &Option<i64>) -> (r: i128)
    ensures
        r == ascending(*column),
        -9223372036854775809 <= r <= 9223372036854775807,
{
    match column {
        Some(v) => *v as i128,
        None => -9223372036854775809,
    }
}

pub open spec fn optional_before(a: Option<Seq<char>>, b: Option<Seq<char>>) -> bool {
    match (a, b) {
        (None, Some(_)) => true,
        (Some(x), Some(y)) => text_before(x, y),
        _ => false,
    }
}

pub open spec fn key_before(a: SortKeyView, b: SortKeyView) -> bool {
    ||| a.first < b.first
    ||| a.first == b.first && a.second < b.second
    ||| a.first == b.first && a.second == b.second && optional_before(a.text, b.text)
}

fn comes_before(a: &SortKey, b: &SortKey) -> (r: bool)
    ensures
        r == key_before(a@, b@),
{
    if a.first != b.first {
        a.first < b.first
    } else if a.second != b.second {
        a.second < b.second
    } else {
        match (&a.text, &b.text) {
            (None, Some(_)) => true,
            (Some(x), Some(y)) => before(x, y),
            _ => false,
        }
    }
}

pub proof fn lemma_key_order(a: SortKeyView, b: SortKeyView, c: SortKeyView)
    ensures
        !key_before(a, a),
        key_before(a, b) ==> !key_before(b, a),
        key_before(a, b) && key_before(b, c) ==> key_before(a, c),
        !key_before(b, a) && !key_before(c, b) ==> !key_before(c, a),
{
    if a.text is Some {
        lemma_before_irreflexive(a.text->0);
        if b.text is Some {
            lemma_before_total(a.text->0, b.text->0);
            if text_before(a.text->0, b.text->0) && text_before(b.text->0, a.text->0) {
                lemma_before_transitive(a.text->0, b.text->0, a.text->0);
            }
            if c.text is Some {
                lemma_before_total(b.text->0, c.text->0);
                lemma_before_total(a.text->0, c.text->0);
                lemma_before_irreflexive(c.text->0);
                if text_before(a.text->0, b.text->0) && text_before(b.text->0, c.text->0) {
                    lemma_before_transitive(a.text->0, b.text->0, c.text->0);
                }
                if text_before(a.text->0, b.text->0) && text_before(c.text->0, a.text->0) {
                    lemma_before_transitive(c.text->0, a.text->0, b.text->0);
                }
                if text_before(b.text->0, c.text->0) && text_before(c.text->0, a.text->0) {
                    lemma_before_transitive(b.text->0, c.text->0, a.text->0);
                }
            }
        }
    }
}

/// Row `x` is listed before row `y`: its key comes first, or the keys are level
/// and it stands earlier in the table.
pub open spec fn listed_before(keys: Seq<SortKeyView>, x: int, y: int) -> bool {
    key_before(keys[x], keys[y]) || (!key_before(keys[y], keys[x]) && x < y)
}

/// `p` lists every row once, in the order of the keys.
pub open spec fn is_order(keys: Seq<SortKeyView>, p: Seq<int>) -> bool {
    &&& p.len() == keys.len()
    &&& forall|i: int| 0 <= i < p.len() ==> 0 <= #[trigger] p[i] < keys.len()
    &&& forall|x: int| 0 <= x < keys.len() ==> #[trigger] p.contains(x)
    &&& forall|i: int, j: int| 0 <= i < j < p.len() ==> listed_before(keys, #[trigger] p[i], #[trigger] p[j])
}

/// The rows of a table in the order of their keys.
pub open spec fn order_of(keys: Seq<SortKeyView>) -> Seq<int> {
    choose|p: Seq<int>| is_order(keys, p)
}

/// There is no more than one order of a table.
pub proof fn law_order_unique(keys: Seq<SortKeyView>, p: Seq<int>, q: Seq<int>)
    requires
        is_order(keys, p),
        is_order(keys, q),
    ensures
        p == q,
{
    lemma_orders_agree(keys, p, q, p.len() as int);
    assert(p =~= q);
}

proof fn lemma_orders_agree(keys: Seq<SortKeyView>, p: Seq<int>, q: Seq<int>, k: int)
    requires
        is_order(keys, p),
        is_order(keys, q),
        0 <= k <= p.len(),
    ensures
        forall|i: int| 0 <= i < k ==> p[i] == q[i],
    decreases k,
{
    if k > 0 {
        lemma_orders_agree(keys, p, q, k - 1);
        let a = p[k - 1];
        let b = q[k - 1];
        if a != b {
            assert(q.contains(a) && p.contains(b));
            let j = choose|j: int| 0 <= j < q.len() && q[j] == a;
            let i = choose|i: int| 0 <= i < p.len() && p[i] == b;
            lemma_key_order(keys[a], keys[b], keys[a]);
            if j < k - 1 {
                assert(p[j] == a);
                assert(listed_before(keys, p[j], p[k - 1]));
                lemma_key_order(keys[a], keys[a], keys[a]);
            } else if i < k - 1 {
                assert(q[i] == b);
                assert(listed_before(keys, q[i], q[k - 1]));
                lemma_key_order(keys[b], keys[b], keys[b]);
            } else {
                assert(listed_before(keys, q[k - 1], q[j]));
                assert(listed_before(keys, p[k - 1], p[i]));
                lemma_key_order(keys[b], keys[a], keys[b]);
            }
        }
    }
}

/// An order of a table is the order of it.
pub proof fn law_order_of(keys: Seq<SortKeyView>, p: Seq<int>)
    requires
        is_order(keys, p),
    ensures
        order_of(keys) == p,
{
    law_order_unique(keys, p, order_of(keys));
}

/// The first row of an order that has to stand behind `key`.
spec fn insert_place(keys: Seq<SortKeyView>, p: Seq<int>, key: SortKeyView) -> int
    decreases p.len(),
{
    if p.len() == 0 {
        0
    } else if key_before(key, keys[p[0]]) {
        0
    } else {
        1 + insert_place(keys, p.drop_first(), key)
    }
}

proof fn lemma_insert_place(keys: Seq<SortKeyView>, p: Seq<int>, key: SortKeyView)
    ensures
        0 <= insert_place(keys, p, key) <= p.len(),
        forall|i: int|
            0 <= i < insert_place(keys, p, key) ==> !key_before(key, keys[#[trigger] p[i]]),
        insert_place(keys, p, key) < p.len() ==> key_before(
            key,
            keys[p[insert_place(keys, p, key)]],
        ),
    decreases p.len(),
{
    if p.len() > 0 && !key_before(key, keys[p[0]]) {
        let rest = p.drop_first();
        lemma_insert_place(keys, rest, key);
        assert forall|i: int| 0 <= i < insert_place(keys, p, key) implies !key_before(
            key,
            keys[#[trigger] p[i]],
        ) by {
            if i > 0 {
                assert(p[i] == rest[i - 1]);
            }
        }
    }
}

/// Every table has an order.
pub proof fn lemma_order_exists(keys: Seq<SortKeyView>)
    ensures
        is_order(keys, order_of(keys)),
    decreases keys.len(),
{
    if keys.len() == 0 {
        assert(is_order(keys, Seq::<int>::empty()));
    } else {
        let before = keys.drop_last();
        let n = before.len() as int;
        lemma_order_exists(before);
        let p = order_of(before);
        let j = insert_place(keys, p, keys[n]);
        lemma_insert_place(keys, p, keys[n]);
        let q = p.insert(j, n);
        assert forall|i: int| 0 <= i < q.len() implies 0 <= #[trigger] q[i] < keys.len() by {
            if i < j {
                assert(q[i] == p[i]);
            } else if i > j {
                assert(q[i] == p[i - 1]);
            }
        }
        assert forall|x: int| 0 <= x < keys.len() implies #[trigger] q.contains(x) by {
            if x == n {
                assert(q[j] == n);
            } else {
                assert(p.contains(x));
                let k = choose|k: int| 0 <= k < p.len() && p[k] == x;
                if k < j {
                    assert(q[k] == x);
                } else {
                    assert(q[k + 1] == x);
                }
            }
        }
        assert forall|a: int, b: int| 0 <= a < b < q.len() implies listed_before(
            keys,
            #[trigger] q[a],
            #[trigger] q[b],
        ) by {
            let a2 = if a < j { a } else { a - 1 };
            let b2 = if b < j { b } else { b - 1 };
            if a != j && b != j {
                assert(q[a] == p[a2] && q[b] == p[b2]);
                assert(listed_before(before, p[a2], p[b2]));
            } else if b == j {
                assert(q[a] == p[a]);
            } else {
                assert(q[b] == p[b2]);
                if b2 > j {
                    assert(listed_before(before, p[j], p[b2]));
                    lemma_key_order(keys[p[j]], keys[p[b2]], keys[n]);
                    lemma_key_order(keys[p[j]], keys[p[b2]], keys[p[j]]);
                }
            }
        }
        assert(is_order(keys, q));
    }
}

pub open spec fn key_views(keys: Seq<SortKey>) -> Seq<SortKeyView> {
    keys.map_values(|k: SortKey| k@)
}

pub open spec fn ints(p: Seq<usize>) -> Seq<int> {
    p.map_values(|i: usize| i as int)
}

/// `p` lists the rows `lo..hi` once each, in the order of the keys.
spec fn orders_range(keys: Seq<SortKeyView>, p: Seq<usize>, lo: int, hi: int) -> bool {
    &&& p.len() == hi - lo
    &&& forall|i: int| 0 <= i < p.len() ==> lo <= #[trigger] p[i] < hi
    &&& forall|x: usize| lo <= x < hi ==> #[trigger] p.contains(x)
    &&& forall|i: int, j: int|
        0 <= i < j < p.len() ==> listed_before(keys, #[trigger] p[i] as int, #[trigger] p[j] as int)
}

/// The one order of the rows that have these keys.
pub fn stable_order(keys: &Vec<SortKey>) -> (p: Vec<usize>)
    ensures
        ints(p@) == order_of(key_views(keys@)),
        is_order(key_views(keys@), ints(p@)),
{
    let n: usize = keys.len();
    let p = order_range(keys, 0, n);
    proof {
        let k = key_views(keys@);
        let q = ints(p@);
        assert forall|x: int| 0 <= x < k.len() implies #[trigger] q.contains(x) by {
            assert(p@.contains(x as usize));
            let i = choose|i: int| 0 <= i < p@.len() && p@[i] == x as usize;
            assert(q[i] == x);
        }
        assert(is_order(k, q));
        law_order_of(k, q);
    }
    p
}

fn order_range(keys: &Vec<SortKey>, lo: usize, hi: usize) -> (p: Vec<usize>)
    requires
        lo <= hi <= keys@.len(),
    ensures
        orders_range(key_views(keys@), p@, lo as int, hi as int),
    decreases hi - lo,
{
    if lo == hi {
        return Vec::new();
    }
    if hi - lo == 1 {
        let mut p: Vec<usize> = Vec::new();
        p.push(lo);
        assert(p@[0] == lo);
        return p;
    }
    let mid: usize = lo + (hi - lo) / 2;
    let a = order_range(keys, lo, mid);
    let b = order_range(keys, mid, hi);
    merge(keys, &a, &b, lo, mid, hi)
}

fn merge(keys: &Vec<SortKey>, a: &Vec<usize>, b: &Vec<usize>, lo: usize, mid: usize, hi: usize) -> (out:
    Vec<usize>)
    requires
        lo <= mid <= hi <= keys@.len(),
        orders_range(key_views(keys@), a@, lo as int, mid as int),
        orders_range(key_views(keys@), b@, mid as int, hi as int),
    ensures
        orders_range(key_views(keys@), out@, lo as int, hi as int),
{
    let mut out: Vec<usize> = Vec::new();
    let mut i: usize = 0;
    let mut j: usize = 0;
    let ghost k = key_views(keys@);
    while i < a.len() || j < b.len()
        invariant
            lo <= mid <= hi <= keys@.len(),
            k == key_views(keys@),
            orders_range(k, a@, lo as int, mid as int),
            orders_range(k, b@, mid as int, hi as int),
            i <= a@.len(),
            j <= b@.len(),
            out@.len() == i + j,
            forall|x: int| 0 <= x < out@.len() ==> lo <= #[trigger] out@[x] < hi,
            forall|x: int| 0 <= x < i ==> #[trigger] out@.contains(a@[x]),
            forall|x: int| 0 <= x < j ==> #[trigger] out@.contains(b@[x]),
            forall|x: int, y: int|
                0 <= x < out@.len() && i <= y < a@.len() ==> listed_before(
                    k,
                    #[trigger] out@[x] as int,
                    #[trigger] a@[y] as int,
                ),
            forall|x: int, y: int|
                0 <= x < out@.len() && j <= y < b@.len() ==> listed_before(
                    k,
                    #[trigger] out@[x] as int,
                    #[trigger] b@[y] as int,
                ),
            forall|x: int, y: int|
                0 <= x < y < out@.len() ==> listed_before(
                    k,
                    #[trigger] out@[x] as int,
                    #[trigger] out@[y] as int,
                ),
        decreases a@.len() - i + b@.len() - j,
    {
        let ghost was = out@;
        let left = j >= b.len() || (i < a.len() && !comes_before(&keys[b[j]], &keys[a[i]]));
        let next: usize = if left {
            a[i]
        } else {
            b[j]
        };
        proof {
            if i < a@.len() && j < b@.len() {
                let x = a@[i as int] as int;
                let y = b@[j as int] as int;
                lemma_key_order(k[x], k[y], k[x]);
                assert forall|z: int| j <= z < b@.len() && left implies listed_before(
                    k,
                    x,
                    #[trigger] b@[z] as int,
                ) by {
                    if z > j {
                        assert(listed_before(k, y, b@[z] as int));
                        lemma_key_order(k[x], k[y], k[b@[z] as int]);
                        lemma_key_order(k[b@[z] as int], k[x], k[y]);
                        lemma_key_order(k[y], k[b@[z] as int], k[x]);
                    }
                }
                assert forall|z: int| i <= z < a@.len() && !left implies listed_before(
                    k,
                    y,
                    #[trigger] a@[z] as int,
                ) by {
                    if z > i {
                        assert(listed_before(k, x, a@[z] as int));
                        lemma_key_order(k[y], k[x], k[a@[z] as int]);
                        lemma_key_order(k[a@[z] as int], k[y], k[x]);
                        lemma_key_order(k[x], k[a@[z] as int], k[y]);
                    }
                }
            }
        }
        out.push(next);
        if left {
            i = i + 1;
        } else {
            j = j + 1;
        }
        proof {
            assert(out@[out@.len() - 1] == next);
            assert forall|x: int| 0 <= x < i implies #[trigger] out@.contains(a@[x]) by {
                if was.contains(a@[x]) {
                    let z = choose|z: int| 0 <= z < was.len() && was[z] == a@[x];
                    assert(out@[z] == a@[x]);
                }
            }
            assert forall|x: int| 0 <= x < j implies #[trigger] out@.contains(b@[x]) by {
                if was.contains(b@[x]) {
                    let z = choose|z: int| 0 <= z < was.len() && was[z] == b@[x];
                    assert(out@[z] == b@[x]);
                }
            }
        }
    }
    proof {
        assert forall|x: usize| lo <= x < hi implies #[trigger] out@.contains(x) by {
            if x < mid {
                assert(a@.contains(x));
            } else {
                assert(b@.contains(x));
            }
        }
    }
    out
}

} // verus!
