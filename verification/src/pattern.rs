//! Matching names against a pattern.

use crate::text::{chars_of, has_text, join3, lowered, same_letters, stands_at};
use vstd::prelude::*;
use vstd::string::*;

verus! {

/// The characters that make a pattern a regular expression.
pub open spec fn is_metacharacter(c: char) -> bool {
    ||| c == '.'
    ||| c == '*'
    ||| c == '+'
    ||| c == '?'
    ||| c == '['
    ||| c == ']'
    ||| c == '('
    ||| c == ')'
    ||| c == '{'
    ||| c == '}'
    ||| c == '|'
    ||| c == '^'
    ||| c == '$'
    ||| c == '\\'
}

/// A pattern without metacharacters is plain text.
pub open spec fn is_plain(pattern: Seq<char>) -> bool {
    forall|i: int| 0 <= i < pattern.len() ==> !is_metacharacter(#[trigger] pattern[i])
}

/// Whether `pattern` is to be read as a regular expression rather than as plain
/// text.
pub fn has_regex_metacharacters(pattern: &str) -> (r: bool)
    ensures
        r == !is_plain(pattern@),
{
    let v = chars_of(pattern);
    let n: usize = v.len();
    let mut i: usize = 0;
    while i < n
        invariant
            i <= n == v@.len(),
            v@ == pattern@,
            forall|j: int| 0 <= j < i ==> !is_metacharacter(#[trigger] v@[j]),
        decreases n - i,
    {
        let c = v[i];
        if c == '.' || c == '*' || c == '+' || c == '?' || c == '[' || c == ']' || c == '(' || c
            == ')' || c == '{' || c == '}' || c == '|' || c == '^' || c == '$' || c == '\\' {
            assert(is_metacharacter(pattern@[i as int]));
            return true;
        }
        i = i + 1;
    }
    false
}

/// The characters that `regex::escape` puts a backslash in front of.
pub open spec fn is_escaped(c: char) -> bool {
    is_metacharacter(c) || c == '#' || c == '&' || c == '-' || c == '~'
}

/// The text with a backslash in front of each character that has a meaning in a
/// regular expression.
pub open spec fn escaped(s: Seq<char>) -> Seq<char>
    decreases s.len(),
{
    if s.len() == 0 {
        s
    } else if is_escaped(s.last()) {
        escaped(s.drop_last()).push('\\').push(s.last())
    } else {
        escaped(s.drop_last()).push(s.last())
    }
}

/// `regex::escape`: each meta character of the text gets a backslash in front,
/// the others stay.
#[verifier::external_body]
fn escape(text: &str) -> (r: String)
    ensures
        r@ == escaped(text@),
{
    regex::escape(text)
}

/// The expression `rest`, whatever the case of the letters.
pub open spec fn folding(rest: Seq<char>) -> Seq<char> {
    "(?i)"@ + rest
}

/// The expression that finds `text` anywhere, whatever the case of its letters.
pub open spec fn plain_expression(text: Seq<char>) -> Seq<char> {
    folding(".*"@ + escaped(text) + ".*"@)
}

/// The expression switches no flag of its own, so that it cannot switch the case
/// of letters back on.
pub open spec fn keeps_flags(rest: Seq<char>) -> bool {
    !has_text(rest, "(?"@)
}

pub open spec fn is_ascii_text(s: Seq<char>) -> bool {
    forall|i: int| 0 <= i < s.len() ==> #[trigger] s[i] <= '\u{7f}'
}

/// What `regex::Regex` makes of an expression and a text: whether it matches
/// somewhere, or nothing where the expression does not compile.
pub uninterp spec fn search_result(expression: Seq<char>, hay: Seq<char>) -> Option<bool>;

/// `regex::Regex::new` followed by `is_match`. The result depends on the
/// expression and the text alone; it is nothing where the expression is invalid
/// or compiles to more than the size limit. The expression for a plain ASCII
/// text, where it compiles, matches the ASCII texts that hold it up to case.
/// Behind the flag `(?i)`, which lets letters match both upper and lower case, an
/// expression that switches no flags makes the same of texts that differ only in
/// the case of ASCII letters. Of the case of other letters nothing is said.
#[verifier::external_body]
fn search(expression: &str, hay: &str) -> (r: Option<bool>)
    ensures
        r == search_result(expression@, hay@),
        forall|text: Seq<char>|
            expression@ == #[trigger] plain_expression(text) && is_ascii_text(text)
                && is_ascii_text(hay@) && r is Some ==> r == Some(
                has_text(lowered(hay@), lowered(text)),
            ),
        forall|rest: Seq<char>, other: Seq<char>|
            expression@ == #[trigger] folding(rest) && keeps_flags(rest) && same_letters(
                hay@,
                other,
            ) ==> r == #[trigger] search_result(expression@, other),
{
    match regex::Regex::new(expression) {
        Ok(re) => Some(re.is_match(hay)),
        Err(_) => None,
    }
}

/// The expression that a pattern stands for.
pub open spec fn expression_of(pattern: Seq<char>) -> Seq<char> {
    if is_plain(pattern) {
        plain_expression(pattern)
    } else {
        folding(pattern)
    }
}

/// The regular expression for `pattern`: plain text is searched for anywhere, a
/// pattern with metacharacters is taken as it is, and neither minds the case of
/// letters.
pub fn pattern_expression(pattern: &str) -> (r: String)
    ensures
        r@ == expression_of(pattern@),
{
    if has_regex_metacharacters(pattern) {
        "(?i)".to_string().concat(pattern)
    } else {
        let rest = join3(".*", escape(pattern).as_str(), ".*");
        "(?i)".to_string().concat(rest.as_str())
    }
}

/// What is escaped of a plain text has no group.
proof fn lemma_escaped_plain(s: Seq<char>)
    requires
        is_plain(s),
    ensures
        forall|i: int| 0 <= i < escaped(s).len() ==> #[trigger] escaped(s)[i] != '(',
    decreases s.len(),
{
    if s.len() > 0 {
        assert forall|i: int| 0 <= i < s.drop_last().len() implies !is_metacharacter(
            #[trigger] s.drop_last()[i],
        ) by {
            assert(s.drop_last()[i] == s[i]);
        }
        lemma_escaped_plain(s.drop_last());
        assert(!is_metacharacter(s[s.len() - 1]));
        let before = escaped(s.drop_last());
        assert forall|i: int| 0 <= i < escaped(s).len() implies #[trigger] escaped(s)[i] != '(' by {
            if i < before.len() {
                assert(escaped(s)[i] == before[i]);
            }
        }
    }
}

proof fn lemma_plain_keeps_flags(pattern: Seq<char>)
    requires
        is_plain(pattern),
    ensures
        keeps_flags(".*"@ + escaped(pattern) + ".*"@),
{
    reveal_strlit(".*");
    reveal_strlit("(?");
    lemma_escaped_plain(pattern);
    let rest = ".*"@ + escaped(pattern) + ".*"@;
    assert forall|at: int| !#[trigger] stands_at(rest, "(?"@, at) by {
        if stands_at(rest, "(?"@, at) {
            assert(rest.subrange(at, at + 2)[0] == rest[at]);
        }
    }
}

/// Whether a search found a match; an expression that does not compile finds
/// nothing.
pub open spec fn found(outcome: Option<bool>) -> bool {
    outcome == Some(true)
}

pub fn search_found(outcome: Option<bool>) -> (r: bool)
    ensures
        r == found(outcome),
{
    match outcome {
        Some(b) => b,
        None => false,
    }
}

/// Whether `pattern` matches `hay`. An empty pattern matches nothing.
pub open spec fn pattern_matches(hay: Seq<char>, pattern: Seq<char>) -> bool {
    pattern.len() > 0 && found(search_result(expression_of(pattern), hay))
}

/// Matches `haystack` against `pattern`, whatever the case of letters.
///
/// Plain text (no metacharacters) is a case-insensitive substring. Patterns with
/// metacharacters are full regular expressions; one may switch flags itself, and
/// with them the case of letters. One that does not compile, and the empty one,
/// match nothing.
pub fn regex_matches(haystack: &str, pattern: &str) -> (r: bool)
    ensures
        r == pattern_matches(haystack@, pattern@),
        is_plain(pattern@) && is_ascii_text(pattern@) && is_ascii_text(haystack@) && pattern@.len()
            > 0 && search_result(plain_expression(pattern@), haystack@) is Some ==> r == has_text(
            lowered(haystack@),
            lowered(pattern@),
        ),
        forall|other: Seq<char>|
            same_letters(haystack@, other) && keeps_flags(pattern@) ==> r
                == #[trigger] pattern_matches(other, pattern@),
{
    if pattern.is_empty() {
        return false;
    }
    let expression = pattern_expression(pattern);
    proof {
        if is_plain(pattern@) {
            lemma_plain_keeps_flags(pattern@);
        }
    }
    search_found(search(expression.as_str(), haystack))
}

} // verus!
