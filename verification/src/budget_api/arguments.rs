//! Arguments of the calls, read and written.

use crate::text::{
    contains_char, contains_text, has_text, join3, lower, lowered, same_text, str_or, text_or,
    text_view, texts, trim, trimmed,
};
use vstd::prelude::*;
use vstd::string::*;
use vstd::utf8::*;

verus! {

// ── Choices ──────────────────────────────────────────────────────────────────

pub open spec fn text_result(r: Result<&str, String>) -> Result<Seq<char>, Seq<char>> {
    match r {
        Ok(t) => Ok(t@),
        Err(t) => Err(t@),
    }
}

/// The strategy for paying off loans: "avalanche", which is the default, or
/// "snowball".
pub open spec fn loan_strategy(s: Option<Seq<char>>) -> Result<Seq<char>, Seq<char>> {
    let given = lowered(trimmed(text_or(s, "avalanche"@)));
    if given == ""@ || given == "avalanche"@ {
        Ok("avalanche"@)
    } else if given == "snowball"@ {
        Ok("snowball"@)
    } else {
        Err("strategy must be avalanche|snowball, got '"@ + given + "'"@)
    }
}

pub fn parse_loan_strategy(s: Option<&str>) -> (r: Result<&'static str, String>)
    ensures
        text_result(r) == loan_strategy(text_view(s)),
{
    let given = lower(trim(str_or(s, "avalanche")));
    if same_text(given.as_str(), "") || same_text(given.as_str(), "avalanche") {
        Ok("avalanche")
    } else if same_text(given.as_str(), "snowball") {
        Ok("snowball")
    } else {
        Err(join3("strategy must be avalanche|snowball, got '", given.as_str(), "'"))
    }
}

/// The format of a statement; "auto" is the default.
pub open spec fn import_format(s: Option<Seq<char>>) -> Result<Seq<char>, Seq<char>> {
    let given = lowered(trimmed(text_or(s, "auto"@)));
    if given == ""@ || given == "auto"@ {
        Ok("auto"@)
    } else if given == "discover-card"@ || given == "discover-bank"@ || given == "generic"@ {
        Ok(given)
    } else {
        Err("format must be auto|discover-card|discover-bank|generic, got '"@ + given + "'"@)
    }
}

pub fn parse_import_format(s: Option<&str>) -> (r: Result<&'static str, String>)
    ensures
        text_result(r) == import_format(text_view(s)),
{
    let given = lower(trim(str_or(s, "auto")));
    if same_text(given.as_str(), "") || same_text(given.as_str(), "auto") {
        Ok("auto")
    } else if same_text(given.as_str(), "discover-card") {
        Ok("discover-card")
    } else if same_text(given.as_str(), "discover-bank") {
        Ok("discover-bank")
    } else if same_text(given.as_str(), "generic") {
        Ok("generic")
    } else {
        Err(
            join3(
                "format must be auto|discover-card|discover-bank|generic, got '",
                given.as_str(),
                "'",
            ),
        )
    }
}

/// The name of a file in the import inbox: it leads to no other directory.
pub open spec fn inbox_filename(name: Seq<char>) -> Result<Seq<char>, Seq<char>> {
    let name = trimmed(name);
    if name.len() == 0 {
        Err("inbox_file is required"@)
    } else if name.contains('/') || name.contains('\\') || has_text(name, ".."@) {
        Err("inbox_file must be a basename in the Liberado Budget import inbox"@)
    } else {
        Ok(name)
    }
}

pub fn parse_inbox_filename(name: &str) -> (r: Result<String, String>)
    ensures
        texts(r) == inbox_filename(name@),
{
    let name = trim(name);
    if name.is_empty() {
        return Err("inbox_file is required".to_string());
    }
    if contains_char(name, '/') || contains_char(name, '\\') || contains_text(name, "..") {
        return Err(
            "inbox_file must be a basename in the Liberado Budget import inbox".to_string(),
        );
    }
    Ok(name.to_string())
}

/// A limit within 1 and 2000.
pub open spec fn clamped_limit(limit: Option<i64>, default: int) -> int {
    let wanted = match limit {
        Some(l) => l as int,
        None => default,
    };
    if wanted < 1 {
        1
    } else if wanted > 2000 {
        2000
    } else {
        wanted
    }
}

pub fn clamp_limit(limit: Option<i64>, default: i64) -> (r: i64)
    ensures
        r == clamped_limit(limit, default as int),
{
    let wanted: i64 = match limit {
        Some(l) => l,
        None => default,
    };
    if wanted < 1 {
        1
    } else if wanted > 2000 {
        2000
    } else {
        wanted
    }
}

/// A limit is kept within 1 and 2000, and one that is there already is kept as it
/// is.
pub proof fn law_limits_are_clamped(limit: Option<i64>, default: int)
    ensures
        1 <= clamped_limit(limit, default) <= 2000,
        limit is Some && 1 <= limit->0 <= 2000 ==> clamped_limit(limit, default) == limit->0,
{
}

// ── Query strings ────────────────────────────────────────────────────────────

/// The bytes that stand for themselves in a query.
pub open spec fn is_unreserved(b: u8) -> bool {
    ||| 65 <= b <= 90
    ||| 97 <= b <= 122
    ||| 48 <= b <= 57
    ||| b == 45
    ||| b == 95
    ||| b == 46
    ||| b == 126
}

pub open spec fn hex_digit(d: int) -> char {
    if d < 10 {
        (48 + d) as char
    } else {
        (55 + d) as char
    }
}

pub open spec fn encoded_byte(b: u8) -> Seq<char> {
    if is_unreserved(b) {
        seq![b as char]
    } else {
        seq!['%', hex_digit(b as int / 16), hex_digit(b as int % 16)]
    }
}

pub open spec fn encoded_bytes(bytes: Seq<u8>) -> Seq<char>
    decreases bytes.len(),
{
    if bytes.len() == 0 {
        Seq::empty()
    } else {
        encoded_bytes(bytes.drop_last()) + encoded_byte(bytes.last())
    }
}

/// The text as it stands in a query: the bytes of its UTF-8 form, escaped where
/// they have a meaning there.
pub open spec fn encoded(s: Seq<char>) -> Seq<char> {
    encoded_bytes(encode_utf8(s))
}

fn to_hex_digit(d: u8) -> (r: char)
    requires
        d < 16,
    ensures
        r == hex_digit(d as int),
{
    if d < 10 {
        (48 + d) as char
    } else {
        (55 + d) as char
    }
}

pub fn encode_query(s: &str) -> (r: String)
    ensures
        r@ == encoded(s@),
{
    let bytes = s.as_bytes();
    let n: usize = bytes.len();
    let mut out = String::new();
    let mut i: usize = 0;
    assert(bytes@.take(0) =~= Seq::<u8>::empty());
    while i < n
        invariant
            i <= n == bytes@.len(),
            out@ =~= encoded_bytes(bytes@.take(i as int)),
        decreases n - i,
    {
        assert(bytes@.take(i + 1).drop_last() =~= bytes@.take(i as int));
        let b: u8 = bytes[i];
        if (65 <= b && b <= 90) || (97 <= b && b <= 122) || (48 <= b && b <= 57) || b == 45 || b
            == 95 || b == 46 || b == 126 {
            out.push(b as char);
        } else {
            out.push('%');
            out.push(to_hex_digit(b / 16));
            out.push(to_hex_digit(b % 16));
        }
        i = i + 1;
    }
    assert(bytes@.take(n as int) =~= bytes@);
    out
}

// ── Laws ─────────────────────────────────────────────────────────────────────

/// An argument cannot end its place in a query or a path: what is written of it
/// holds only letters, digits and `-`, `_`, `.`, `~` and `%`.
pub proof fn law_query_is_closed(s: Seq<char>, i: int)
    requires
        0 <= i < encoded(s).len(),
    ensures
        ({
            let c = encoded(s)[i];
            ||| 'A' <= c <= 'Z'
            ||| 'a' <= c <= 'z'
            ||| '0' <= c <= '9'
            ||| c == '-'
            ||| c == '_'
            ||| c == '.'
            ||| c == '~'
            ||| c == '%'
        }),
{
    lemma_encoded_chars(encode_utf8(s), i);
}

proof fn lemma_encoded_chars(bytes: Seq<u8>, i: int)
    requires
        0 <= i < encoded_bytes(bytes).len(),
    ensures
        ({
            let c = encoded_bytes(bytes)[i];
            ||| 'A' <= c <= 'Z'
            ||| 'a' <= c <= 'z'
            ||| '0' <= c <= '9'
            ||| c == '-'
            ||| c == '_'
            ||| c == '.'
            ||| c == '~'
            ||| c == '%'
        }),
    decreases bytes.len(),
{
    let before = encoded_bytes(bytes.drop_last());
    if i < before.len() {
        lemma_encoded_chars(bytes.drop_last(), i);
    } else {
        let k = i - before.len();
        assert(encoded_bytes(bytes)[i] == encoded_byte(bytes.last())[k]);
    }
}

/// What a hexadecimal digit stands for.
pub open spec fn hex_value(c: char) -> int {
    if '0' <= c <= '9' {
        c as int - 48
    } else if 'A' <= c <= 'F' {
        c as int - 55
    } else {
        c as int - 87
    }
}

/// The bytes that a written argument stands for: `%` and two digits for one byte,
/// any other character for itself.
pub open spec fn decoded(s: Seq<char>) -> Seq<u8>
    decreases s.len(),
{
    if s.len() == 0 {
        Seq::empty()
    } else if s[0] == '%' && s.len() >= 3 {
        seq![(hex_value(s[1]) * 16 + hex_value(s[2])) as u8] + decoded(s.skip(3))
    } else {
        seq![s[0] as u8] + decoded(s.skip(1))
    }
}

pub open spec fn is_plain(c: char) -> bool {
    ||| 'A' <= c <= 'Z'
    ||| 'a' <= c <= 'z'
    ||| '0' <= c <= '9'
    ||| c == '-'
    ||| c == '_'
    ||| c == '.'
    ||| c == '~'
}

pub open spec fn is_upper_hex(c: char) -> bool {
    '0' <= c <= '9' || 'A' <= c <= 'F'
}

/// Characters that stand for themselves, and `%` with two upper-case digits behind
/// it; nothing else.
pub open spec fn is_query_text(s: Seq<char>) -> bool
    decreases s.len(),
{
    ||| s.len() == 0
    ||| is_plain(s[0]) && is_query_text(s.skip(1))
    ||| {
        &&& s.len() >= 3
        &&& s[0] == '%'
        &&& is_upper_hex(s[1])
        &&& is_upper_hex(s[2])
        &&& is_query_text(s.skip(3))
    }
}

/// The bytes can be written from the front.
proof fn lemma_encoded_front(bytes: Seq<u8>)
    requires
        bytes.len() > 0,
    ensures
        encoded_bytes(bytes) == encoded_byte(bytes[0]) + encoded_bytes(bytes.drop_first()),
    decreases bytes.len(),
{
    let before = bytes.drop_last();
    if before.len() == 0 {
        assert(bytes.drop_first() =~= Seq::empty());
        assert(encoded_bytes(before) =~= Seq::empty());
    } else {
        lemma_encoded_front(before);
        assert(before.drop_first() =~= bytes.drop_first().drop_last());
        assert(bytes.drop_first().last() == bytes.last());
    }
    assert(encoded_bytes(bytes) =~= encoded_byte(bytes[0]) + encoded_bytes(bytes.drop_first()));
}

proof fn lemma_decoded(bytes: Seq<u8>)
    ensures
        decoded(encoded_bytes(bytes)) == bytes,
        is_query_text(encoded_bytes(bytes)),
    decreases bytes.len(),
{
    if bytes.len() > 0 {
        let rest = bytes.drop_first();
        lemma_encoded_front(bytes);
        lemma_decoded(rest);
        let e = encoded_bytes(bytes);
        let one = encoded_byte(bytes[0]);
        let b: u8 = bytes[0];
        assert(e.skip(one.len() as int) =~= encoded_bytes(rest));
        if is_unreserved(b) {
            assert(e[0] == b as char);
            assert(e[0] as u8 == b);
        } else {
            assert(e[0] == '%' && e[1] == one[1] && e[2] == one[2]);
            assert(hex_value(e[1]) == b as int / 16);
            assert(hex_value(e[2]) == b as int % 16);
        }
        assert(decoded(e) =~= seq![b] + rest);
        assert(seq![b] + rest =~= bytes);
    } else {
        assert(decoded(encoded_bytes(bytes)) =~= bytes);
    }
}

/// What is written of an argument stands for the argument: the bytes that it
/// decodes to are the UTF-8 form of the text.
pub proof fn law_query_decodes(s: Seq<char>)
    ensures
        decoded(encoded(s)) == encode_utf8(s),
        valid_utf8(decoded(encoded(s))),
        decode_utf8(decoded(encoded(s))) == s,
{
    lemma_decoded(encode_utf8(s));
    encode_utf8_valid_utf8(s);
    encode_utf8_decode_utf8(s);
}

/// What is written of an argument is characters that stand for themselves and
/// escapes in upper case.
pub proof fn law_query_form(s: Seq<char>)
    ensures
        is_query_text(encoded(s)),
{
    lemma_decoded(encode_utf8(s));
}

proof fn lemma_plain_bytes(bytes: Seq<u8>)
    requires
        forall|i: int| 0 <= i < bytes.len() ==> is_unreserved(#[trigger] bytes[i]),
    ensures
        encoded_bytes(bytes) == bytes.map_values(|b: u8| b as char),
    decreases bytes.len(),
{
    if bytes.len() > 0 {
        lemma_plain_bytes(bytes.drop_last());
        assert(is_unreserved(bytes[bytes.len() - 1]));
    }
    assert(encoded_bytes(bytes) =~= bytes.map_values(|b: u8| b as char));
}

/// A text whose characters all stand for themselves is written as it is.
pub proof fn law_plain_query_unchanged(s: Seq<char>)
    requires
        forall|i: int| 0 <= i < s.len() ==> is_plain(#[trigger] s[i]),
    ensures
        encoded(s) == s,
{
    assert(is_ascii_chars(s));
    is_ascii_chars_encode_utf8(s);
    let bytes = encode_utf8(s);
    assert forall|i: int| 0 <= i < bytes.len() implies is_unreserved(#[trigger] bytes[i]) by {
        assert(is_plain(s[i]));
        assert(bytes[i] == s[i] as u8);
    }
    lemma_plain_bytes(bytes);
    assert forall|i: int| 0 <= i < s.len() implies #[trigger] encoded(s)[i] == s[i] by {
        assert(is_plain(s[i]));
        assert(bytes[i] == s[i] as u8);
    }
    assert(encoded(s) =~= s);
}

/// Two arguments that are written alike are the same argument.
pub proof fn law_query_distinct(a: Seq<char>, b: Seq<char>)
    requires
        encoded(a) == encoded(b),
    ensures
        a == b,
{
    law_query_decodes(a);
    law_query_decodes(b);
}

} // verus!
