//! Text primitives: trimming, ASCII case folding, searching, ordering and
//! decimal numbers, each stated over the characters of a string.

use vstd::prelude::*;
use vstd::string::*;
use vstd::utf8::*;

verus! {

// ── Characters ───────────────────────────────────────────────────────────────

/// The characters with the Unicode property `White_Space`.
pub open spec fn is_space(c: char) -> bool {
    ||| '\u{9}' <= c <= '\u{d}'
    ||| c == '\u{20}'
    ||| c == '\u{85}'
    ||| c == '\u{a0}'
    ||| c == '\u{1680}'
    ||| '\u{2000}' <= c <= '\u{200a}'
    ||| c == '\u{2028}'
    ||| c == '\u{2029}'
    ||| c == '\u{202f}'
    ||| c == '\u{205f}'
    ||| c == '\u{3000}'
}

pub open spec fn is_digit(c: char) -> bool {
    '0' <= c <= '9'
}

/// The ASCII lower case of one character.
pub open spec fn lower_char(c: char) -> char {
    if 'A' <= c <= 'Z' {
        ((c as u8) + 32) as char
    } else {
        c
    }
}

pub fn space(c: char) -> (r: bool)
    ensures
        r == is_space(c),
{
    ('\u{9}' <= c && c <= '\u{d}') || c == '\u{20}' || c == '\u{85}' || c == '\u{a0}' || c
        == '\u{1680}' || ('\u{2000}' <= c && c <= '\u{200a}') || c == '\u{2028}' || c
        == '\u{2029}' || c == '\u{202f}' || c == '\u{205f}' || c == '\u{3000}'
}

fn to_lower_char(c: char) -> (r: char)
    ensures
        r == lower_char(c),
{
    if 'A' <= c && c <= 'Z' {
        (c as u8 + 32) as char
    } else {
        c
    }
}

// ── Strings and their characters ─────────────────────────────────────────────

/// `String::push` appends one character at the end of the string.
pub assume_specification[ String::push ](s: &mut String, c: char)
    ensures
        final(s)@ == old(s)@.push(c),
;

pub fn chars_of(s: &str) -> (v: Vec<char>)
    ensures
        v@ == s@,
{
    let mut v: Vec<char> = Vec::new();
    for c in it: s.chars()
        invariant
            v@ == s@.take(it.index()),
            it.seq() == s@,
    {
        v.push(c);
        assert(s@.take(it.index() + 1) =~= s@.take(it.index()).push(c));
    }
    assert(s@.take(s@.len() as int) =~= s@);
    v
}

/// The characters `from..to` of `v` as a string.
pub fn string_of(v: &Vec<char>, from: usize, to: usize) -> (s: String)
    requires
        from <= to <= v@.len(),
    ensures
        s@ == v@.subrange(from as int, to as int),
{
    let mut s: String = String::new();
    let mut i: usize = from;
    while i < to
        invariant
            from <= i <= to <= v@.len(),
            s@ == v@.subrange(from as int, i as int),
        decreases to - i,
    {
        s.push(v[i]);
        i = i + 1;
        assert(v@.subrange(from as int, i as int) =~= v@.subrange(from as int, i - 1).push(
            v@[i - 1],
        ));
    }
    s
}

pub fn same_text(a: &str, b: &str) -> (r: bool)
    ensures
        r == (a@ == b@),
{
    let x = a.as_bytes();
    let y = b.as_bytes();
    proof {
        encode_utf8_decode_utf8(a@);
        encode_utf8_decode_utf8(b@);
    }
    let n: usize = x.len();
    if n != y.len() {
        return false;
    }
    let mut i: usize = 0;
    while i < n
        invariant
            i <= n == x@.len(),
            n == y@.len(),
            x@ == a.spec_bytes(),
            y@ == b.spec_bytes(),
            forall|j: int| 0 <= j < i ==> x@[j] == y@[j],
        decreases n - i,
    {
        if x[i] != y[i] {
            return false;
        }
        i = i + 1;
    }
    assert(x@ =~= y@);
    true
}

pub open spec fn text_view(t: Option<&str>) -> Option<Seq<char>> {
    match t {
        Some(s) => Some(s@),
        None => None,
    }
}

pub open spec fn string_view(t: Option<String>) -> Option<Seq<char>> {
    match t {
        Some(s) => Some(s@),
        None => None,
    }
}

/// Equality of two nullable texts.
pub fn same_optional(a: &Option<String>, b: &Option<String>) -> (r: bool)
    ensures
        r == (string_view(*a) == string_view(*b)),
{
    match (a, b) {
        (Some(x), Some(y)) => same_text(x, y),
        (None, None) => true,
        _ => false,
    }
}

pub fn same_str(a: Option<&str>, b: Option<&str>) -> (r: bool)
    ensures
        r == (text_view(a) == text_view(b)),
{
    match (a, b) {
        (Some(x), Some(y)) => same_text(x, y),
        (None, None) => true,
        _ => false,
    }
}

pub fn copy_optional(a: &Option<String>) -> (r: Option<String>)
    ensures
        string_view(r) == string_view(*a),
{
    match a {
        Some(x) => Some(x.clone()),
        None => None,
    }
}

pub fn as_text(a: &Option<String>) -> (r: Option<&str>)
    ensures
        text_view(r) == string_view(*a),
{
    match a {
        Some(x) => Some(x.as_str()),
        None => None,
    }
}

pub open spec fn text_or(a: Option<Seq<char>>, other: Seq<char>) -> Seq<char> {
    match a {
        Some(t) => t,
        None => other,
    }
}

pub fn str_or<'a>(a: Option<&'a str>, other: &'a str) -> (r: &'a str)
    ensures
        r@ == text_or(text_view(a), other@),
{
    match a {
        Some(t) => t,
        None => other,
    }
}

pub open spec fn texts(r: Result<String, String>) -> Result<Seq<char>, Seq<char>> {
    match r {
        Ok(t) => Ok(t@),
        Err(t) => Err(t@),
    }
}

/// `a` followed by `b` followed by `c`.
pub fn join3(a: &str, b: &str, c: &str) -> (r: String)
    ensures
        r@ == a@ + b@ + c@,
{
    let mut s: String = a.to_string();
    s.append(b);
    s.append(c);
    s
}

// ── Trimming ─────────────────────────────────────────────────────────────────

pub open spec fn trim_front(s: Seq<char>) -> Seq<char>
    decreases s.len(),
{
    if s.len() > 0 && is_space(s[0]) {
        trim_front(s.drop_first())
    } else {
        s
    }
}

pub open spec fn trim_back(s: Seq<char>) -> Seq<char>
    decreases s.len(),
{
    if s.len() > 0 && is_space(s.last()) {
        trim_back(s.drop_last())
    } else {
        s
    }
}

/// The text without its leading and trailing white space.
pub open spec fn trimmed(s: Seq<char>) -> Seq<char> {
    trim_back(trim_front(s))
}

pub fn trim(s: &str) -> (r: &str)
    ensures
        r@ == trimmed(s@),
{
    let v = chars_of(s);
    let n: usize = v.len();
    let mut a: usize = 0;
    assert(v@.skip(0) =~= v@);
    while a < n && space(v[a])
        invariant
            a <= n == v@.len(),
            trim_front(v@) == trim_front(v@.skip(a as int)),
        decreases n - a,
    {
        assert(v@.skip(a as int).drop_first() =~= v@.skip(a + 1));
        a = a + 1;
    }
    assert(trim_front(v@) == v@.skip(a as int));
    let mut b: usize = n;
    assert(v@.skip(a as int) =~= v@.subrange(a as int, n as int));
    while a < b && space(v[b - 1])
        invariant
            a <= b <= n == v@.len(),
            trim_back(v@.skip(a as int)) == trim_back(v@.subrange(a as int, b as int)),
        decreases b,
    {
        assert(v@.subrange(a as int, b as int).drop_last() =~= v@.subrange(a as int, b - 1));
        b = b - 1;
    }
    s.substring_char(a, b)
}

proof fn lemma_trim_front(s: Seq<char>)
    ensures
        trim_front(s).len() > 0 ==> !is_space(trim_front(s)[0]),
    decreases s.len(),
{
    if s.len() > 0 && is_space(s[0]) {
        lemma_trim_front(s.drop_first());
    }
}

proof fn lemma_trim_back(s: Seq<char>)
    ensures
        trim_back(s).len() > 0 ==> trim_back(s)[0] == s[0] && !is_space(trim_back(s).last()),
        trim_back(s).len() <= s.len(),
    decreases s.len(),
{
    if s.len() > 0 && is_space(s.last()) {
        lemma_trim_back(s.drop_last());
    }
}

/// A text that was trimmed is trimmed.
pub proof fn law_trimmed_once(s: Seq<char>)
    ensures
        trimmed(trimmed(s)) == trimmed(s),
{
    lemma_trim_front(s);
    lemma_trim_back(trim_front(s));
}

proof fn lemma_front_of(s: Seq<char>) -> (a: int)
    ensures
        0 <= a <= s.len(),
        trim_front(s) == s.skip(a),
        forall|i: int| 0 <= i < a ==> is_space(#[trigger] s[i]),
        a < s.len() ==> !is_space(s[a]),
    decreases s.len(),
{
    if s.len() > 0 && is_space(s[0]) {
        let rest = s.drop_first();
        let a = lemma_front_of(rest) + 1;
        assert(s.skip(a) =~= rest.skip(a - 1));
        assert forall|i: int| 0 <= i < a implies is_space(#[trigger] s[i]) by {
            if i > 0 {
                assert(s[i] == rest[i - 1]);
            }
        }
        a
    } else {
        assert(s.skip(0) =~= s);
        0
    }
}

proof fn lemma_back_of(s: Seq<char>) -> (b: int)
    ensures
        0 <= b <= s.len(),
        trim_back(s) == s.take(b),
        forall|i: int| b <= i < s.len() ==> is_space(#[trigger] s[i]),
        b > 0 ==> !is_space(s[b - 1]),
    decreases s.len(),
{
    if s.len() > 0 && is_space(s.last()) {
        let before = s.drop_last();
        let b = lemma_back_of(before);
        assert(s.take(b) =~= before.take(b));
        assert forall|i: int| b <= i < s.len() implies is_space(#[trigger] s[i]) by {
            if i < before.len() {
                assert(s[i] == before[i]);
            }
        }
        b
    } else {
        assert(s.take(s.len() as int) =~= s);
        s.len() as int
    }
}

/// What is trimmed is the middle of a text: what stands around it is white space,
/// and it neither starts nor ends with any.
pub proof fn law_trimmed_is_the_middle(s: Seq<char>) -> (ends: (int, int))
    ensures
        0 <= ends.0 <= ends.1 <= s.len(),
        trimmed(s) == s.subrange(ends.0, ends.1),
        forall|i: int| 0 <= i < ends.0 ==> is_space(#[trigger] s[i]),
        forall|i: int| ends.1 <= i < s.len() ==> is_space(#[trigger] s[i]),
        ends.0 < ends.1 ==> !is_space(s[ends.0]) && !is_space(s[ends.1 - 1]),
{
    let a = lemma_front_of(s);
    let rest = s.skip(a);
    let b = lemma_back_of(rest);
    assert(rest.take(b) =~= s.subrange(a, a + b));
    assert forall|i: int| a + b <= i < s.len() implies is_space(#[trigger] s[i]) by {
        assert(s[i] == rest[i - a]);
    }
    if b > 0 {
        assert(s[a] == rest[0] && s[a + b - 1] == rest[b - 1]);
    }
    (a, a + b)
}

/// The text without the copies of `c` at its end.
pub open spec fn without_trailing(s: Seq<char>, c: char) -> Seq<char>
    decreases s.len(),
{
    if s.len() > 0 && s.last() == c {
        without_trailing(s.drop_last(), c)
    } else {
        s
    }
}

pub fn strip_trailing(s: &str, c: char) -> (r: String)
    ensures
        r@ == without_trailing(s@, c),
{
    let v = chars_of(s);
    let n: usize = v.len();
    let mut b: usize = n;
    assert(v@.subrange(0, n as int) =~= v@);
    while 0 < b && v[b - 1] == c
        invariant
            b <= n == v@.len(),
            without_trailing(v@, c) == without_trailing(v@.subrange(0, b as int), c),
        decreases b,
    {
        assert(v@.subrange(0, b as int).drop_last() =~= v@.subrange(0, b - 1));
        b = b - 1;
    }
    string_of(&v, 0, b)
}

// ── ASCII case ───────────────────────────────────────────────────────────────

pub open spec fn lowered(s: Seq<char>) -> Seq<char> {
    s.map_values(|c: char| lower_char(c))
}

/// Equality of two texts up to the case of ASCII letters.
pub open spec fn same_letters(a: Seq<char>, b: Seq<char>) -> bool {
    lowered(a) == lowered(b)
}

fn lower_chars(s: &str) -> (r: Vec<char>)
    ensures
        r@ == lowered(s@),
{
    let v = chars_of(s);
    let mut r: Vec<char> = Vec::new();
    let n: usize = v.len();
    let mut i: usize = 0;
    while i < n
        invariant
            i <= n == v@.len(),
            r@ == lowered(v@.take(i as int)),
        decreases n - i,
    {
        r.push(to_lower_char(v[i]));
        i = i + 1;
        assert(v@.take(i as int) =~= v@.take(i - 1).push(v@[i - 1]));
        assert(lowered(v@.take(i as int)) =~= lowered(v@.take(i - 1)).push(lower_char(v@[i - 1])));
    }
    assert(v@.take(n as int) =~= v@);
    r
}

pub fn lower(s: &str) -> (r: String)
    ensures
        r@ == lowered(s@),
{
    let v = lower_chars(s);
    let n: usize = v.len();
    assert(v@.subrange(0, n as int) =~= v@);
    string_of(&v, 0, n)
}

pub fn same_ignoring_case(a: &str, b: &str) -> (r: bool)
    ensures
        r == same_letters(a@, b@),
{
    lower(a) == lower(b)
}

// ── Searching ────────────────────────────────────────────────────────────────

/// `needle` stands in `hay` at position `at`.
pub open spec fn stands_at(hay: Seq<char>, needle: Seq<char>, at: int) -> bool {
    0 <= at && at + needle.len() <= hay.len() && hay.subrange(at, at + needle.len()) == needle
}

pub open spec fn has_text(hay: Seq<char>, needle: Seq<char>) -> bool {
    exists|at: int| #[trigger] stands_at(hay, needle, at)
}

fn matches_at(hay: &Vec<char>, needle: &Vec<char>, at: usize) -> (r: bool)
    requires
        at + needle@.len() <= hay@.len(),
    ensures
        r == stands_at(hay@, needle@, at as int),
{
    let n: usize = needle.len();
    let h: usize = hay.len();
    let mut i: usize = 0;
    while i < n
        invariant
            i <= n == needle@.len(),
            h == hay@.len(),
            at + needle@.len() <= hay@.len(),
            forall|j: int| 0 <= j < i ==> hay@[at + j] == needle@[j],
        decreases n - i,
    {
        if hay[at + i] != needle[i] {
            assert(hay@.subrange(at as int, at + n)[i as int] != needle@[i as int]);
            return false;
        }
        i = i + 1;
    }
    assert(hay@.subrange(at as int, at + n) =~= needle@);
    true
}

fn find_chars(hay: &Vec<char>, needle: &Vec<char>) -> (r: bool)
    ensures
        r == has_text(hay@, needle@),
{
    let h: usize = hay.len();
    let n: usize = needle.len();
    if n > h {
        return false;
    }
    let mut at: usize = 0;
    while at <= h - n
        invariant
            h == hay@.len(),
            n == needle@.len(),
            n <= h,
            at <= h - n + 1,
            forall|k: int| 0 <= k < at ==> !#[trigger] stands_at(hay@, needle@, k),
        decreases h - n + 1 - at,
    {
        if matches_at(hay, needle, at) {
            return true;
        }
        if at == h - n {
            return false;
        }
        at = at + 1;
    }
    false
}

pub fn contains_text(hay: &str, needle: &str) -> (r: bool)
    ensures
        r == has_text(hay@, needle@),
{
    find_chars(&chars_of(hay), &chars_of(needle))
}

/// Whether `hay` holds `needle` up to the case of ASCII letters.
pub fn contains_ignoring_case(hay: &str, needle: &str) -> (r: bool)
    ensures
        r == has_text(lowered(hay@), lowered(needle@)),
{
    find_chars(&lower_chars(hay), &lower_chars(needle))
}

pub fn contains_char(s: &str, c: char) -> (r: bool)
    ensures
        r == s@.contains(c),
{
    let v = chars_of(s);
    let n: usize = v.len();
    let mut i: usize = 0;
    while i < n
        invariant
            i <= n == v@.len(),
            v@ == s@,
            forall|j: int| 0 <= j < i ==> v@[j] != c,
        decreases n - i,
    {
        if v[i] == c {
            assert(s@[i as int] == c);
            return true;
        }
        i = i + 1;
    }
    false
}

pub fn starts_with(s: &str, prefix: &str) -> (r: bool)
    ensures
        r == prefix@.is_prefix_of(s@),
{
    let v = chars_of(s);
    let p = chars_of(prefix);
    if p.len() > v.len() {
        return false;
    }
    let r = matches_at(&v, &p, 0);
    proof {
        assert(r == (s@.subrange(0, prefix@.len() as int) == prefix@));
    }
    r
}

// ── Splitting ────────────────────────────────────────────────────────────────

/// The position of the first `c` of `s`, or its length.
pub open spec fn first_char(s: Seq<char>, c: char) -> int
    decreases s.len(),
{
    if s.len() == 0 || s[0] == c {
        0
    } else {
        1 + first_char(s.drop_first(), c)
    }
}

/// What stands before and after the first `c`; nothing where there is none.
pub open spec fn split_once(s: Seq<char>, c: char) -> Option<(Seq<char>, Seq<char>)> {
    let at = first_char(s, c);
    if at < s.len() {
        Some((s.take(at), s.skip(at + 1)))
    } else {
        None
    }
}

/// The pieces of `s` between the copies of `c`.
pub open spec fn pieces(s: Seq<char>, c: char) -> Seq<Seq<char>>
    decreases s.len(),
{
    let at = first_char(s, c);
    if 0 <= at < s.len() {
        seq![s.take(at)] + pieces(s.skip(at + 1), c)
    } else {
        seq![s]
    }
}

pub proof fn lemma_first_char(s: Seq<char>, c: char, at: int)
    requires
        0 <= at <= s.len(),
        forall|j: int| 0 <= j < at ==> s[j] != c,
        at < s.len() ==> s[at] == c,
    ensures
        first_char(s, c) == at,
    decreases s.len(),
{
    if s.len() > 0 && s[0] != c {
        lemma_first_char(s.drop_first(), c, at - 1);
    }
}

proof fn lemma_first_char_is(s: Seq<char>, c: char)
    ensures
        0 <= first_char(s, c) <= s.len(),
        forall|j: int| 0 <= j < first_char(s, c) ==> #[trigger] s[j] != c,
        first_char(s, c) < s.len() ==> s[first_char(s, c)] == c,
    decreases s.len(),
{
    if s.len() > 0 && s[0] != c {
        let rest = s.drop_first();
        lemma_first_char_is(rest, c);
        assert forall|j: int| 0 <= j < first_char(s, c) implies #[trigger] s[j] != c by {
            if j > 0 {
                assert(s[j] == rest[j - 1]);
            }
        }
    }
}

/// A text is split at the first `c`; where it has none, it is not split.
pub proof fn law_split_at_the_first(s: Seq<char>, c: char)
    ensures
        match split_once(s, c) {
            Some((a, b)) => s == a + seq![c] + b && !a.contains(c),
            None => !s.contains(c),
        },
{
    lemma_first_char_is(s, c);
    match split_once(s, c) {
        Some((a, b)) => assert(s =~= a + seq![c] + b),
        None => {},
    }
}

/// Pieces with a `c` between each two.
pub open spec fn with_between(parts: Seq<Seq<char>>, c: char) -> Seq<char>
    decreases parts.len(),
{
    if parts.len() == 0 {
        Seq::empty()
    } else if parts.len() == 1 {
        parts[0]
    } else {
        parts[0] + seq![c] + with_between(parts.drop_first(), c)
    }
}

/// The pieces of a text make the text, and none of them holds a `c`.
pub proof fn law_pieces_make_the_text(s: Seq<char>, c: char)
    ensures
        pieces(s, c).len() > 0,
        with_between(pieces(s, c), c) == s,
        forall|i: int| 0 <= i < pieces(s, c).len() ==> !(#[trigger] pieces(s, c)[i]).contains(c),
    decreases s.len(),
{
    lemma_first_char_is(s, c);
    let at = first_char(s, c);
    let parts = pieces(s, c);
    if at < s.len() {
        let rest = s.skip(at + 1);
        law_pieces_make_the_text(rest, c);
        assert(parts.drop_first() =~= pieces(rest, c));
        assert(s =~= s.take(at) + seq![c] + rest);
        assert forall|i: int| 0 <= i < parts.len() implies !(#[trigger] parts[i]).contains(c) by {
            if i > 0 {
                assert(parts[i] == pieces(rest, c)[i - 1]);
            }
        }
    }
}

/// The position of the first `c` at or behind `from`, or the length.
fn index_from(v: &Vec<char>, c: char, from: usize) -> (at: usize)
    requires
        from <= v@.len(),
    ensures
        from <= at <= v@.len(),
        at - from == first_char(v@.skip(from as int), c),
{
    let n: usize = v.len();
    let mut i: usize = from;
    while i < n && v[i] != c
        invariant
            from <= i <= n == v@.len(),
            forall|j: int| from <= j < i ==> v@[j] != c,
        decreases n - i,
    {
        i = i + 1;
    }
    proof {
        let s = v@.skip(from as int);
        assert forall|j: int| 0 <= j < i - from implies s[j] != c by {
            assert(s[j] == v@[from + j]);
        }
        lemma_first_char(s, c, i - from);
    }
    i
}

pub fn split_at_char<'a>(s: &'a str, c: char) -> (r: Option<(&'a str, &'a str)>)
    ensures
        match r {
            Some((a, b)) => split_once(s@, c) == Some((a@, b@)),
            None => split_once(s@, c) is None,
        },
{
    let v = chars_of(s);
    let n: usize = v.len();
    let at = index_from(&v, c, 0);
    assert(v@.skip(0) =~= v@);
    if at < n {
        let a = s.substring_char(0, at);
        let b = s.substring_char(at + 1, n);
        assert(a@ =~= s@.take(at as int));
        assert(b@ =~= s@.skip(at + 1));
        Some((a, b))
    } else {
        None
    }
}

pub open spec fn views(v: Seq<String>) -> Seq<Seq<char>> {
    v.map_values(|s: String| s@)
}

pub fn split_pieces(s: &str, c: char) -> (r: Vec<String>)
    ensures
        views(r@) == pieces(s@, c),
{
    let v = chars_of(s);
    let n: usize = v.len();
    let mut out: Vec<String> = Vec::new();
    let mut from: usize = 0;
    assert(v@.skip(0) =~= v@);
    assert(views(out@) + pieces(v@.skip(0), c) =~= pieces(s@, c));
    loop
        invariant
            from <= n == v@.len(),
            views(out@) + pieces(v@.skip(from as int), c) == pieces(s@, c),
        decreases n - from,
    {
        let at = index_from(&v, c, from);
        let ghost rest = v@.skip(from as int);
        let piece = string_of(&v, from, at);
        let ghost before = out@;
        out.push(piece);
        proof {
            assert(views(out@) =~= views(before).push(piece@));
        }
        if at < n {
            proof {
                assert(piece@ =~= rest.take(at - from));
                assert(rest.skip(at - from + 1) =~= v@.skip(at + 1));
                assert(views(out@) + pieces(v@.skip(at + 1), c) =~= views(before) + pieces(rest, c));
            }
            from = at + 1;
        } else {
            proof {
                assert(piece@ =~= rest);
                assert(views(out@) =~= views(before) + pieces(rest, c));
            }
            return out;
        }
    }
}

// ── Order ────────────────────────────────────────────────────────────────────

/// Whether `a` stands before `b` in the order of their code points.
pub open spec fn text_before(a: Seq<char>, b: Seq<char>) -> bool
    decreases a.len(),
{
    if b.len() == 0 {
        false
    } else if a.len() == 0 {
        true
    } else if a[0] == b[0] {
        text_before(a.drop_first(), b.drop_first())
    } else {
        a[0] < b[0]
    }
}

pub fn before(a: &str, b: &str) -> (r: bool)
    ensures
        r == text_before(a@, b@),
{
    let x = chars_of(a);
    let y = chars_of(b);
    let n: usize = x.len();
    let m: usize = y.len();
    let mut i: usize = 0;
    assert(x@.skip(0) =~= x@ && y@.skip(0) =~= y@);
    while i < n && i < m && x[i] == y[i]
        invariant
            i <= n == x@.len(),
            i <= m == y@.len(),
            text_before(x@, y@) == text_before(x@.skip(i as int), y@.skip(i as int)),
        decreases n - i,
    {
        assert(x@.skip(i as int).drop_first() =~= x@.skip(i + 1));
        assert(y@.skip(i as int).drop_first() =~= y@.skip(i + 1));
        i = i + 1;
    }
    if i >= m {
        false
    } else if i >= n {
        true
    } else {
        x[i] < y[i]
    }
}

pub proof fn lemma_before_irreflexive(a: Seq<char>)
    ensures
        !text_before(a, a),
    decreases a.len(),
{
    if a.len() > 0 {
        lemma_before_irreflexive(a.drop_first());
    }
}

pub proof fn lemma_before_transitive(a: Seq<char>, b: Seq<char>, c: Seq<char>)
    requires
        text_before(a, b),
        text_before(b, c),
    ensures
        text_before(a, c),
    decreases a.len(),
{
    if a.len() > 0 && b.len() > 0 && c.len() > 0 && a[0] == b[0] && b[0] == c[0] {
        lemma_before_transitive(a.drop_first(), b.drop_first(), c.drop_first());
    }
}

/// The first place where two texts differ orders them.
pub proof fn lemma_before_at(a: Seq<char>, b: Seq<char>, k: int)
    requires
        0 <= k < a.len(),
        k < b.len(),
        forall|j: int| 0 <= j < k ==> a[j] == b[j],
        a[k] < b[k],
    ensures
        text_before(a, b),
    decreases k,
{
    if k > 0 {
        assert(a[0] == b[0]);
        assert forall|j: int| 0 <= j < k - 1 implies a.drop_first()[j] == b.drop_first()[j] by {
            assert(a[j + 1] == b[j + 1]);
        }
        lemma_before_at(a.drop_first(), b.drop_first(), k - 1);
    }
}

pub proof fn lemma_before_total(a: Seq<char>, b: Seq<char>)
    ensures
        text_before(a, b) || text_before(b, a) || a == b,
    decreases a.len(),
{
    if a.len() > 0 && b.len() > 0 && a[0] == b[0] {
        lemma_before_total(a.drop_first(), b.drop_first());
        if a.drop_first() == b.drop_first() {
            assert(a =~= seq![a[0]] + a.drop_first());
            assert(b =~= seq![b[0]] + b.drop_first());
        }
    } else if a.len() == 0 && b.len() == 0 {
        assert(a =~= b);
    }
}

// ── Decimal numbers ──────────────────────────────────────────────────────────

pub open spec fn digit_char(d: int) -> char {
    ((48 + d) as u8) as char
}

/// The decimal digits of `n`, without leading zeros.
pub open spec fn digits(n: nat) -> Seq<char>
    decreases n,
{
    if n < 10 {
        seq![digit_char(n as int)]
    } else {
        digits(n / 10).push(digit_char((n % 10) as int))
    }
}

pub open spec fn zeros(k: int) -> Seq<char> {
    Seq::new(
        if k > 0 {
            k as nat
        } else {
            0
        },
        |i: int| '0',
    )
}

/// The decimal form of `n`, filled with zeros behind the sign up to `width`
/// characters.
pub open spec fn padded(n: int, width: int) -> Seq<char> {
    if n < 0 {
        seq!['-'] + zeros(width - 1 - digits((-n) as nat).len()) + digits((-n) as nat)
    } else {
        zeros(width - digits(n as nat).len()) + digits(n as nat)
    }
}

/// The decimal form of `n`.
pub open spec fn decimal(n: int) -> Seq<char> {
    padded(n, 0)
}

fn digit_of(d: u64) -> (c: char)
    requires
        d < 10,
    ensures
        c == digit_char(d as int),
{
    (48u8 + d as u8) as char
}

fn digit_chars(n: u64) -> (v: Vec<char>)
    ensures
        v@ == digits(n as nat),
    decreases n,
{
    if n < 10 {
        let mut v: Vec<char> = Vec::new();
        v.push(digit_of(n));
        assert(v@ =~= digits(n as nat));
        v
    } else {
        let mut v = digit_chars(n / 10);
        v.push(digit_of(n % 10));
        v
    }
}

pub fn format_padded(n: i64, width: usize) -> (s: String)
    ensures
        s@ == padded(n as int, width as int),
{
    let mut s: String = String::new();
    let abs: u64 = if n < 0 {
        (-(n as i128)) as u64
    } else {
        n as u64
    };
    let d = digit_chars(abs);
    let len: usize = d.len();
    let mut used: usize = 0;
    if n < 0 {
        s.push('-');
        used = 1;
    }
    let ghost sign = s@;
    assert(sign + zeros(0) =~= sign);
    let mut filled: usize = 0;
    while used < width && len < width - used && filled < width - used - len
        invariant
            used <= 1,
            len == d@.len(),
            filled == 0 || (used < width && len < width - used && filled <= width - used - len),
            s@ == sign + zeros(filled as int),
        decreases width - filled,
    {
        s.push('0');
        filled = filled + 1;
        assert(sign + zeros(filled as int) =~= (sign + zeros(filled - 1)).push('0'));
    }
    let tail = string_of(&d, 0, len);
    assert(tail@ =~= d@);
    s.append(tail.as_str());
    proof {
        assert(zeros(filled as int) =~= zeros(width - used - len));
        if n < 0 {
            assert(sign =~= seq!['-']);
        } else {
            assert(s@ =~= zeros(width - len) + d@);
        }
    }
    s
}

pub fn format_int(n: i64) -> (s: String)
    ensures
        s@ == decimal(n as int),
{
    format_padded(n, 0)
}

/// The decimal form of an unsigned number.
pub fn format_uint(n: u64) -> (s: String)
    ensures
        s@ == digits(n as nat),
{
    let d = digit_chars(n);
    let len: usize = d.len();
    assert(d@.subrange(0, len as int) =~= d@);
    string_of(&d, 0, len)
}

pub open spec fn all_digits(s: Seq<char>) -> bool {
    forall|i: int| 0 <= i < s.len() ==> is_digit(#[trigger] s[i])
}

pub open spec fn digits_value(s: Seq<char>) -> int
    decreases s.len(),
{
    if s.len() == 0 {
        0
    } else {
        digits_value(s.drop_last()) * 10 + (s.last() as int - 48)
    }
}

/// The number that a decimal text stands for: an optional sign and at least one
/// digit, within the range of a signed 64-bit integer.
pub open spec fn parsed_int(s: Seq<char>) -> Option<int> {
    let negative = s.len() > 0 && s[0] == '-';
    let body = if s.len() > 0 && (s[0] == '-' || s[0] == '+') {
        s.drop_first()
    } else {
        s
    };
    let value = if negative {
        -digits_value(body)
    } else {
        digits_value(body)
    };
    if body.len() > 0 && all_digits(body) && i64::MIN <= value <= i64::MAX {
        Some(value)
    } else {
        None
    }
}

proof fn lemma_digits_value_bounds(s: Seq<char>, k: int)
    requires
        0 <= k <= s.len(),
        all_digits(s),
    ensures
        0 <= digits_value(s.take(k)) <= digits_value(s),
    decreases s.len(),
{
    if k == s.len() {
        assert(s.take(k) =~= s);
        if s.len() > 0 {
            lemma_digits_value_bounds(s.drop_last(), s.len() - 1);
            assert(s.drop_last().take(s.len() - 1) =~= s.drop_last());
            assert(is_digit(s[s.len() - 1]));
        }
    } else {
        lemma_digits_value_bounds(s.drop_last(), k);
        assert(s.drop_last().take(k) =~= s.take(k));
        assert(is_digit(s[s.len() - 1]));
    }
}

pub fn parse_int(text: &str) -> (r: Option<i64>)
    ensures
        match r {
            Some(n) => parsed_int(text@) == Some(n as int),
            None => parsed_int(text@) is None,
        },
{
    let v = chars_of(text);
    let n: usize = v.len();
    if n == 0 {
        return None;
    }
    let negative = v[0] == '-';
    let from: usize = if negative || v[0] == '+' {
        1
    } else {
        0
    };
    if from == n {
        return None;
    }
    let ghost body = v@.skip(from as int);
    proof {
        assert(from == 1 ==> body =~= text@.drop_first());
        assert(from == 0 ==> body =~= text@);
        assert(body.take(0) =~= Seq::<char>::empty());
    }
    let mut total: i128 = 0;
    let mut i: usize = from;
    while i < n
        invariant
            from <= i <= n == v@.len(),
            body == v@.skip(from as int),
            v@ == text@,
            from == (if text@[0] == '-' || text@[0] == '+' { 1int } else { 0int }),
            from == 1 ==> body == text@.drop_first(),
            from == 0 ==> body == text@,
            negative == (text@[0] == '-'),
            n > 0,
            0 <= total <= 9223372036854775808,
            total == digits_value(body.take(i - from)),
            forall|j: int| 0 <= j < i - from ==> is_digit(#[trigger] body[j]),
        decreases n - i,
    {
        let c = v[i];
        assert(body[i - from] == c);
        if !('0' <= c && c <= '9') {
            return None;
        }
        let d: i128 = (c as u8 - 48) as i128;
        total = total * 10 + d;
        proof {
            let k = i - from;
            assert(body.take(k + 1).drop_last() =~= body.take(k));
            assert(digits_value(body.take(k + 1)) == total);
        }
        if total > 9223372036854775808 {
            proof {
                if all_digits(body) {
                    lemma_digits_value_bounds(body, i - from + 1);
                }
            }
            return None;
        }
        i = i + 1;
    }
    assert(body.take(n - from) =~= body);
    if negative {
        Some((-total) as i64)
    } else if total > 9223372036854775807 {
        None
    } else {
        Some(total as i64)
    }
}

/// How many digits a text starts with.
pub open spec fn digit_run(s: Seq<char>) -> int
    decreases s.len(),
{
    if s.len() > 0 && is_digit(s[0]) {
        1 + digit_run(s.drop_first())
    } else {
        0
    }
}

/// The number that the digits at the front of a text make.
pub open spec fn leading_digits(s: Seq<char>) -> int {
    digits_value(s.take(digit_run(s)))
}

pub open spec fn no_more_than(n: int, most: int) -> int {
    if n > most {
        most
    } else {
        n
    }
}

/// The number at the front of a text: blanks, a sign and digits, as many as
/// there are. One that is too large becomes the largest of its sign.
pub open spec fn leading_int(s: Seq<char>) -> int
    decreases s.len(),
{
    if s.len() == 0 {
        0
    } else if is_blank(s[0]) {
        leading_int(s.drop_first())
    } else if s[0] == '-' {
        -no_more_than(leading_digits(s.drop_first()), -i64::MIN)
    } else if s[0] == '+' {
        no_more_than(leading_digits(s.drop_first()), i64::MAX as int)
    } else {
        no_more_than(leading_digits(s), i64::MAX as int)
    }
}

pub open spec fn is_blank(c: char) -> bool {
    c == ' ' || '\t' <= c <= '\r'
}

/// The number that the digits from `from` make, capped above the range of 64
/// bits.
fn read_digits(v: &Vec<char>, from: usize) -> (r: i128)
    requires
        from <= v@.len(),
    ensures
        0 <= r <= 9223372036854775808,
        r == no_more_than(leading_digits(v@.skip(from as int)), 9223372036854775808),
{
    let n: usize = v.len();
    let mut total: i128 = 0;
    let mut i: usize = from;
    let ghost body = v@.skip(from as int);
    assert(body.take(0) =~= Seq::<char>::empty());
    assert(body.skip(0) =~= body);
    while i < n && '0' <= v[i] && v[i] <= '9'
        invariant
            from <= i <= n == v@.len(),
            body == v@.skip(from as int),
            0 <= total <= 9223372036854775808,
            total == no_more_than(digits_value(body.take(i - from)), 9223372036854775808),
            digits_value(body.take(i - from)) >= 0,
            digit_run(body) == i - from + digit_run(body.skip(i - from)),
        decreases n - i,
    {
        let d: i128 = (v[i] as u8 - 48) as i128;
        total = total * 10 + d;
        if total > 9223372036854775808 {
            total = 9223372036854775808;
        }
        proof {
            let k = i - from;
            assert(body.take(k + 1).drop_last() =~= body.take(k));
            assert(body.take(k + 1).last() == v@[i as int]);
            assert(body.skip(k).drop_first() =~= body.skip(k + 1));
            assert(body.skip(k)[0] == v@[i as int]);
        }
        i = i + 1;
    }
    proof {
        let k = i - from;
        if i < n {
            assert(body.skip(k)[0] == v@[i as int]);
        }
        assert(digit_run(body.skip(k)) == 0);
    }
    total
}

fn at_most_max(n: i128) -> (r: i64)
    requires
        0 <= n <= 9223372036854775808,
    ensures
        r == no_more_than(n as int, i64::MAX as int),
{
    if n > 9223372036854775807 {
        9223372036854775807
    } else {
        n as i64
    }
}

pub fn read_leading_int(text: &str) -> (r: i64)
    ensures
        r == leading_int(text@),
{
    let v = chars_of(text);
    let n: usize = v.len();
    let mut i: usize = 0;
    assert(v@.skip(0) =~= v@);
    while i < n && (v[i] == ' ' || ('\t' <= v[i] && v[i] <= '\r'))
        invariant
            i <= n == v@.len(),
            v@ == text@,
            leading_int(text@) == leading_int(v@.skip(i as int)),
        decreases n - i,
    {
        assert(v@.skip(i as int)[0] == v@[i as int]);
        assert(v@.skip(i as int).drop_first() =~= v@.skip(i + 1));
        i = i + 1;
    }
    if i == n {
        return 0;
    }
    assert(v@.skip(i as int)[0] == v@[i as int]);
    assert(v@.skip(i as int).drop_first() =~= v@.skip(i + 1));
    if v[i] == '-' {
        (-read_digits(&v, i + 1)) as i64
    } else if v[i] == '+' {
        at_most_max(read_digits(&v, i + 1))
    } else {
        at_most_max(read_digits(&v, i))
    }
}

/// The text without its `c`s.
pub open spec fn without_char(s: Seq<char>, c: char) -> Seq<char>
    decreases s.len(),
{
    if s.len() == 0 {
        s
    } else if s.last() == c {
        without_char(s.drop_last(), c)
    } else {
        without_char(s.drop_last(), c).push(s.last())
    }
}

pub fn remove_char(s: &str, c: char) -> (r: String)
    ensures
        r@ == without_char(s@, c),
{
    let v = chars_of(s);
    let mut out: Vec<char> = Vec::new();
    let n: usize = v.len();
    let mut i: usize = 0;
    assert(v@.take(0) =~= Seq::<char>::empty());
    while i < n
        invariant
            i <= n == v@.len(),
            out@ =~= without_char(v@.take(i as int), c),
        decreases n - i,
    {
        assert(v@.take(i + 1).drop_last() =~= v@.take(i as int));
        if v[i] != c {
            out.push(v[i]);
        }
        i = i + 1;
    }
    assert(v@.take(n as int) =~= v@);
    let len: usize = out.len();
    assert(out@.subrange(0, len as int) =~= out@);
    string_of(&out, 0, len)
}

/// Reading the digits of a number gives the number back.
pub proof fn lemma_digits_round_trip(n: nat)
    ensures
        digits(n).len() > 0,
        all_digits(digits(n)),
        digits_value(digits(n)) == n,
    decreases n,
{
    if n < 10 {
        let s = digits(n);
        assert(s.drop_last() =~= Seq::<char>::empty());
        assert(digits_value(s.drop_last()) == 0);
        assert(s.last() == digit_char(n as int));
    } else {
        lemma_digits_round_trip(n / 10);
        let s = digits(n);
        assert(s.drop_last() =~= digits(n / 10));
        assert(s.last() == digit_char((n % 10) as int));
        assert forall|i: int| 0 <= i < s.len() implies is_digit(#[trigger] s[i]) by {
            if i < s.len() - 1 {
                assert(s[i] == digits(n / 10)[i]);
            }
        }
    }
}

/// Zeros in front change no number.
pub proof fn lemma_zeros_value(k: int, s: Seq<char>)
    requires
        all_digits(s),
    ensures
        all_digits(zeros(k) + s),
        digits_value(zeros(k) + s) == digits_value(s),
    decreases s.len() + (if k > 0 { k } else { 0 }),
{
    let t = zeros(k) + s;
    assert forall|i: int| 0 <= i < t.len() implies is_digit(#[trigger] t[i]) by {
        if i >= zeros(k).len() {
            assert(t[i] == s[i - zeros(k).len()]);
        }
    }
    if s.len() > 0 {
        lemma_zeros_value(k, s.drop_last());
        assert(t.drop_last() =~= zeros(k) + s.drop_last());
        assert(t.last() == s.last());
    } else if k > 0 {
        lemma_zeros_value(k - 1, s);
        assert(t.drop_last() =~= zeros(k - 1) + s);
        assert(t.last() == '0');
    } else {
        assert(t =~= s);
    }
}

/// A number written with leading zeros and read again is the same number.
pub proof fn lemma_padded_round_trip(n: int, width: int)
    requires
        0 <= n <= i64::MAX,
    ensures
        parsed_int(padded(n, width)) == Some(n),
        all_digits(padded(n, width)),
        padded(n, width).len() > 0,
{
    lemma_digits_round_trip(n as nat);
    lemma_zeros_value(width - digits(n as nat).len(), digits(n as nat));
    let s = padded(n, width);
    assert(is_digit(s[0]));
}

} // verus!
