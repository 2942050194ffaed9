//! Channel-handle normalization.
//!
//! A handle is searched for as `@name`: a leading `@` is prepended when
//! absent and the handle is used unchanged when it is already there, so
//! normalization is idempotent.

use vstd::prelude::*;

verus! {

/// The search query derived from a handle: the handle itself when it
/// already starts with `@`, otherwise `@` prepended to it.
pub open spec fn normalized_handle(h: Seq<char>) -> Seq<char> {
    if h.len() > 0 && h[0] == '@' {
        h
    } else {
        seq!['@'] + h
    }
}

/// Normalizing twice gives the same query as normalizing once.
pub proof fn lemma_normalize_idempotent(h: Seq<char>)
    ensures
        normalized_handle(normalized_handle(h)) == normalized_handle(h),
{
    let n = normalized_handle(h);
    if !(h.len() > 0 && h[0] == '@') {
        assert(n[0] == '@');
    }
}

/// Builds the channel-search query for a handle.
pub fn normalize_handle(handle: &str) -> (q: String)
    ensures
        q@ == normalized_handle(handle@),
{
    let n = handle.unicode_len();
    if n > 0 && handle.get_char(0) == '@' {
        String::from_str(handle)
    } else {
        let mut q = String::from_str("@");
        proof {
            reveal_strlit("@");
            assert(q@ =~= seq!['@']);
        }
        q.append(handle);
        q
    }
}

} // verus!
