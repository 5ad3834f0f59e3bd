//! Character-level access to strings.

use vstd::prelude::*;

verus! {

/// A decimal digit.
pub open spec fn is_digit(c: char) -> bool {
    '0' <= c <= '9'
}

/// A letter of the Latin alphabet, of either case.
pub open spec fn is_letter(c: char) -> bool {
    'a' <= c <= 'z' || 'A' <= c <= 'Z'
}

/// A space, a line feed or a tab.
pub open spec fn is_blank(c: char) -> bool {
    c == ' ' || c == '\n' || c == '\t'
}

/// `String::push` of the standard library, which vstd leaves without a
/// contract. Its documentation says that it appends the given character to the
/// end of the string; the contract says so over the string's characters.
pub assume_specification[ std::string::String::push ](s: &mut std::string::String, c: char)
    ensures
        final(s)@ == old(s)@.push(c),
;

/// The characters of `s`, in order.
pub fn chars_of(s: &str) -> (chars: Vec<char>)
    ensures
        chars@ == s@,
{
    broadcast use vstd::string::group_string_axioms;

    let mut chars: Vec<char> = Vec::new();
    for c in it: s.chars()
        invariant
            it.seq() == s@,
            chars@ == s@.take(it.index()),
    {
        chars.push(c);
    }
    chars
}

/// Whether `chars` spells `word`.
pub fn same_text(chars: &Vec<char>, word: &str) -> (same: bool)
    ensures
        same == (chars@ == word@),
{
    let n: usize = word.unicode_len();
    if chars.len() != n {
        return false;
    }
    let mut i: usize = 0;
    while i < n
        invariant
            i <= n,
            n == word@.len(),
            n == chars@.len(),
            forall|k: int| 0 <= k < i ==> chars@[k] == word@[k],
        decreases n - i,
    {
        if chars[i] != word.get_char(i) {
            return false;
        }
        i = i + 1;
    }
    assert(chars@ =~= word@);
    true
}

} // verus!
