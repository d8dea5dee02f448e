//! Small verified helpers on text.
use vstd::prelude::*;
use crate::error::{bad_request, AppError, AppResult};

verus! {

/// Character-wise equality of two string slices.
pub fn same_text(a: &str, b: &str) -> (r: bool)
    ensures
        r == (a@ == b@),
{
    let n = a.unicode_len();
    if n != b.unicode_len() {
        return false;
    }
    let mut i: usize = 0;
    while i < n
        invariant
            n == a@.len(),
            n == b@.len(),
            i <= n,
            forall|k: int| 0 <= k < i ==> a@[k] == b@[k],
        decreases n - i,
    {
        if a.get_char(i) != b.get_char(i) {
            return false;
        }
        i = i + 1;
    }
    assert(a@ =~= b@);
    true
}

/// What `str::trim` leaves of `s`: it drops leading and trailing Unicode
/// whitespace.
pub uninterp spec fn trimmed(s: Seq<char>) -> Seq<char>;

/// What `str::to_lowercase` makes of `s`.
pub uninterp spec fn lowercased(s: Seq<char>) -> Seq<char>;

/// Relies on `str::trim`: the result depends on the characters alone and is a
/// slice of `s`, so never longer.
#[verifier::external_body]
pub(crate) fn trim(s: &str) -> (r: &str)
    ensures
        r@ == trimmed(s@),
        r@.len() <= s@.len(),
{
    s.trim()
}

/// Relies on `str::to_lowercase`: the result depends on the characters alone,
/// and every character lowercases to at least one, so it is empty exactly
/// when `s` is.
#[verifier::external_body]
pub(crate) fn lowercase(s: &str) -> (r: String)
    ensures
        r@ == lowercased(s@),
        s@.len() == 0 <==> r@.len() == 0,
{
    s.to_lowercase()
}

/// The trimmed text of `s`, owned.
pub fn trimmed_string(s: &str) -> (r: String)
    ensures
        r@ == trimmed(s@),
{
    String::from_str(trim(s))
}

/// `s` with surrounding whitespace removed, or BadRequest with `msg` when
/// nothing is left.
pub fn required_text(s: &str, msg: &str) -> (r: AppResult<String>)
    ensures
        trimmed(s@).len() == 0 ==> (r matches Err(AppError::BadRequest(m)) && m@ == msg@),
        trimmed(s@).len() != 0 ==> (r matches Ok(t) && t@ == trimmed(s@)),
{
    let t = trim(s);
    if t.is_empty() {
        return Err(bad_request(msg));
    }
    Ok(String::from_str(t))
}

} // verus!
