//! Character classes used to split rows into words.

use vstd::prelude::*;

verus! {

/// ASCII punctuation: `!` to `/`, `:` to `@`, `[` to `` ` ``, `{` to `~`.
pub open spec fn is_ascii_punctuation(c: char) -> bool {
    ('!' <= c <= '/') || (':' <= c <= '@') || ('[' <= c <= '`') || ('{' <= c <= '~')
}

/// Whether `char::is_numeric` holds of `c` (Unicode numeric categories).
pub uninterp spec fn char_is_numeric(c: char) -> bool;

/// `char::is_numeric`: the character has a Unicode numeric general category.
/// Its result is named `char_is_numeric`; nothing more is stated.
#[verifier::external_body]
fn is_numeric_char(c: char) -> (r: bool)
    ensures
        r == char_is_numeric(c),
{
    c.is_numeric()
}

/// Whether `c` is ASCII punctuation.
pub fn is_ascii_punctuation_char(c: char) -> (r: bool)
    ensures
        r == is_ascii_punctuation(c),
{
    ('!' <= c && c <= '/') || (':' <= c && c <= '@') || ('[' <= c && c <= '`') || ('{' <= c && c <= '~')
}

/// Every character is ASCII punctuation other than `_`.
pub open spec fn all_punctuation(s: Seq<char>) -> bool {
    forall|i: int| 0 <= i < s.len() ==> is_ascii_punctuation(#[trigger] s[i]) && s[i] != '_'
}

/// Every character is numeric.
pub open spec fn all_numeric(s: Seq<char>) -> bool {
    forall|i: int| 0 <= i < s.len() ==> char_is_numeric(#[trigger] s[i])
}

/// A cell symbol that separates words: a space or a tab.
pub open spec fn is_space_symbol(s: Seq<char>) -> bool {
    s == seq![' '] || s == seq!['\t']
}

/// Whether every character of `s` is punctuation other than `_`.
pub fn is_punctuation_str(s: &str) -> (r: bool)
    ensures
        r == all_punctuation(s@),
{
    let n = s.unicode_len();
    let mut i: usize = 0;
    while i < n
        invariant
            n == s@.len(),
            i <= n,
            forall|j: int| 0 <= j < i ==> is_ascii_punctuation(#[trigger] s@[j]) && s@[j] != '_',
        decreases n - i,
    {
        let c = s.get_char(i);
        if !(is_ascii_punctuation_char(c) && c != '_') {
            return false;
        }
        i = i + 1;
    }
    true
}

/// Whether every character of `s` is numeric.
pub fn is_numeric_str(s: &str) -> (r: bool)
    ensures
        r == all_numeric(s@),
{
    let n = s.unicode_len();
    let mut i: usize = 0;
    while i < n
        invariant
            n == s@.len(),
            i <= n,
            forall|j: int| 0 <= j < i ==> char_is_numeric(#[trigger] s@[j]),
        decreases n - i,
    {
        let c = s.get_char(i);
        if !is_numeric_char(c) {
            return false;
        }
        i = i + 1;
    }
    true
}

/// Whether `s` is a single space or a single tab.
pub fn is_space_str(s: &str) -> (r: bool)
    ensures
        r == is_space_symbol(s@),
{
    if s.unicode_len() != 1 {
        assert(s@ != seq![' '] && s@ != seq!['\t']);
        return false;
    }
    let c = s.get_char(0);
    let r = c == ' ' || c == '\t';
    proof {
        if r {
            assert(s@ =~= seq![c]);
        } else {
            assert(s@[0] != seq![' '][0]);
            assert(s@[0] != seq!['\t'][0]);
        }
    }
    r
}

} // verus!
