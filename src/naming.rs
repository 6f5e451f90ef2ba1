use vstd::prelude::*;
use crate::model::AppError;

verus! {

/// A character allowed in a resource name: an ASCII letter or digit, or `-`.
pub open spec fn is_name_char(c: char) -> bool {
    ('a' <= c && c <= 'z') || ('A' <= c && c <= 'Z') || ('0' <= c && c <= '9') || c == '-'
}

/// A resource name matches `[A-Za-z0-9-]+`.
pub open spec fn is_valid_name(s: Seq<char>) -> bool {
    s.len() > 0 && forall|i: int| 0 <= i < s.len() ==> #[trigger] is_name_char(s[i])
}

pub fn name_char_ok(c: char) -> (r: bool)
    ensures
        r == is_name_char(c),
{
    ('a' <= c && c <= 'z') || ('A' <= c && c <= 'Z') || ('0' <= c && c <= '9') || c == '-'
}

/// Decides whether `name` is a valid resource name.
pub fn name_is_valid(name: &str) -> (r: bool)
    ensures
        r == is_valid_name(name@),
{
    let n = name.unicode_len();
    if n == 0 {
        return false;
    }
    let mut i: usize = 0;
    while i < n
        invariant
            n == name@.len(),
            i <= n,
            forall|j: int| 0 <= j < i ==> #[trigger] is_name_char(name@[j]),
        decreases n - i,
    {
        let c = name.get_char(i);
        if !name_char_ok(c) {
            return false;
        }
        i = i + 1;
    }
    true
}

/// Checks a resource name, rejecting it with `InvalidGiftName` unless it
/// matches `[A-Za-z0-9-]+`.
pub fn validate_name(name: &str) -> (r: Result<(), AppError>)
    ensures
        r is Ok <==> is_valid_name(name@),
        r is Err ==> r->Err_0 is InvalidGiftName,
{
    if name_is_valid(name) {
        Ok(())
    } else {
        Err(AppError::InvalidGiftName(
            String::from_str("Gift name should only contain letters, numbers, and hyphens"),
        ))
    }
}

/// Character-wise equality of two strings.
pub fn same_text(a: &str, b: &str) -> (r: bool)
    ensures
        r == (a@ == b@),
{
    let n = a.unicode_len();
    if n != b.unicode_len() {
        return false;
    }
    let mut i: usize = 0;
    while i < n
        invariant
            n == a@.len(),
            n == b@.len(),
            i <= n,
            forall|j: int| 0 <= j < i ==> a@[j] == b@[j],
        decreases n - i,
    {
        if a.get_char(i) != b.get_char(i) {
            return false;
        }
        i = i + 1;
    }
    assert(a@ =~= b@);
    true
}

} // verus!
