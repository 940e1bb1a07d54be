//! Small helpers on strings, stated over their characters.

use vstd::prelude::*;
use vstd::string::StrSliceExecFns;

verus! {

/// The characters of each string of a sequence.
pub open spec fn texts(strings: Seq<String>) -> Seq<Seq<char>> {
    strings.map_values(|s: String| s@)
}

/// `text` ends with `suffix`.
pub open spec fn ends_with(text: Seq<char>, suffix: Seq<char>) -> bool {
    suffix.len() <= text.len() && text.subrange(text.len() - suffix.len(), text.len() as int)
        == suffix
}

/// Tells whether `text` ends with `suffix`.
pub fn has_suffix(text: &str, suffix: &str) -> (found: bool)
    ensures
        found == ends_with(text@, suffix@),
{
    let text_len = text.unicode_len();
    let suffix_len = suffix.unicode_len();
    if suffix_len > text_len {
        return false;
    }
    let skip = text_len - suffix_len;
    let ghost tail = text@.subrange(text@.len() - suffix@.len(), text@.len() as int);
    let mut i: usize = 0;
    while i < suffix_len
        invariant
            text_len == text@.len(),
            suffix_len == suffix@.len(),
            skip == text_len - suffix_len,
            tail == text@.subrange(text@.len() - suffix@.len(), text@.len() as int),
            i <= suffix_len,
            forall|j: int| 0 <= j < i ==> tail[j] == suffix@[j],
        decreases suffix_len - i,
    {
        if text.get_char(skip + i) != suffix.get_char(i) {
            return false;
        }
        i = i + 1;
    }
    assert(tail =~= suffix@);
    true
}

/// Tells whether `wanted` is one of `names`.
pub fn is_listed(names: &Vec<String>, wanted: &String) -> (found: bool)
    ensures
        found == texts(names@).contains(wanted@),
{
    let mut i: usize = 0;
    while i < names.len()
        invariant
            i <= names@.len(),
            forall|j: int| 0 <= j < i ==> texts(names@)[j] != wanted@,
        decreases names@.len() - i,
    {
        if names[i] == *wanted {
            assert(texts(names@)[i as int] == wanted@);
            return true;
        }
        i = i + 1;
    }
    false
}

} // verus!
