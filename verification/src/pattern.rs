//! The pattern language in which a message definition says which telegrams it
//! applies to. A pattern is held against one field of a request, rendered as
//! upper-case hexadecimal.

use vstd::prelude::*;
use vstd::string::StrSliceExecFns;

verus! {

/// Whether `pattern` accepts `value`.
///
/// The pattern `*` accepts every value. A pattern that begins with `^` accepts
/// the values that begin with the rest of the pattern. Any other pattern
/// accepts the values of its own length that agree with it at every position
/// where it does not hold `*`.
pub open spec fn pattern_matches(value: Seq<char>, pattern: Seq<char>) -> bool {
    if pattern == "*"@ {
        true
    } else if pattern.len() > 0 && pattern[0] == '^' {
        pattern.skip(1).is_prefix_of(value)
    } else {
        &&& pattern.len() == value.len()
        &&& forall|i: int|
            0 <= i < pattern.len() ==> pattern[i] == '*' || pattern[i] == value[i]
    }
}

/// Whether two strings hold the same characters.
pub fn same_text(a: &str, b: &str) -> (same: bool)
    ensures
        same == (a@ == b@),
{
    let n = a.unicode_len();
    if n != b.unicode_len() {
        return false;
    }
    let mut i: usize = 0;
    while i < n
        invariant
            i <= n,
            n == a@.len(),
            n == b@.len(),
            forall|k: int| 0 <= k < i ==> a@[k] == b@[k],
        decreases n - i,
    {
        if a.get_char(i) != b.get_char(i) {
            return false;
        }
        i += 1;
    }
    proof {
        assert(a@ =~= b@);
    }
    true
}

/// Holds `field_pattern` against `value_hex`.
pub fn match_field(value_hex: &str, field_pattern: &str) -> (matched: bool)
    ensures
        matched == pattern_matches(value_hex@, field_pattern@),
{
    if same_text(field_pattern, "*") {
        return true;
    }
    let pattern_len = field_pattern.unicode_len();
    let value_len = value_hex.unicode_len();
    if pattern_len > 0 && field_pattern.get_char(0) == '^' {
        let ghost prefix = field_pattern@.skip(1);
        if pattern_len - 1 > value_len {
            return false;
        }
        let mut i: usize = 0;
        while i < pattern_len - 1
            invariant
                i <= pattern_len - 1 <= value_len,
                pattern_len == field_pattern@.len(),
                value_len == value_hex@.len(),
                prefix == field_pattern@.skip(1),
                field_pattern@ != "*"@,
                field_pattern@[0] == '^',
                forall|k: int| 0 <= k < i ==> prefix[k] == value_hex@[k],
            decreases pattern_len - 1 - i,
        {
            if field_pattern.get_char(i + 1) != value_hex.get_char(i) {
                assert(prefix[i as int] != value_hex@.subrange(0, prefix.len() as int)[i as int]);
                return false;
            }
            i += 1;
        }
        proof {
            assert(prefix =~= value_hex@.subrange(0, prefix.len() as int));
        }
        return true;
    }
    if pattern_len != value_len {
        return false;
    }
    let mut i: usize = 0;
    while i < pattern_len
        invariant
            i <= pattern_len,
            pattern_len == field_pattern@.len(),
            value_len == value_hex@.len(),
            pattern_len == value_len,
            field_pattern@ != "*"@,
            !(pattern_len > 0 && field_pattern@[0] == '^'),
            forall|k: int|
                0 <= k < i ==> field_pattern@[k] == '*' || field_pattern@[k] == value_hex@[k],
        decreases pattern_len - i,
    {
        let c = field_pattern.get_char(i);
        if c != '*' && c != value_hex.get_char(i) {
            return false;
        }
        i += 1;
    }
    true
}

} // verus!
