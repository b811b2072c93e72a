//! Section names: NUL-padded byte fields and their comparison.

use vstd::prelude::*;

verus! {

/// Length of the longest prefix of `raw` that holds no NUL byte: the index
/// of the first NUL, or the length of `raw` where there is none.
pub open spec fn nul_index(raw: Seq<u8>) -> int
    decreases raw.len(),
{
    if raw.len() == 0 || raw[0] == 0 {
        0
    } else {
        1 + nul_index(raw.drop_first())
    }
}

/// The label held by a padded field: everything before the first NUL byte,
/// or the whole field where no byte is NUL.
pub open spec fn trimmed(raw: Seq<u8>) -> Seq<u8> {
    raw.take(nul_index(raw))
}

/// `nul_index` lies within the field, no byte before it is NUL, and it
/// stops short of the end only at a NUL byte.
pub proof fn lemma_nul_index(raw: Seq<u8>)
    ensures
        0 <= nul_index(raw) <= raw.len(),
        forall|j: int| 0 <= j < nul_index(raw) ==> raw[j] != 0,
        nul_index(raw) < raw.len() ==> raw[nul_index(raw)] == 0,
    decreases raw.len(),
{
    if raw.len() != 0 && raw[0] != 0 {
        let rest = raw.drop_first();
        lemma_nul_index(rest);
        assert forall|j: int| 0 <= j < nul_index(raw) implies raw[j] != 0 by {
            if j > 0 {
                assert(raw[j] == rest[j - 1]);
            }
        }
    }
}

/// An index with the three properties of `lemma_nul_index` is `nul_index`.
pub proof fn lemma_nul_index_unique(raw: Seq<u8>, end: int)
    requires
        0 <= end <= raw.len(),
        forall|j: int| 0 <= j < end ==> raw[j] != 0,
        end < raw.len() ==> raw[end] == 0,
    ensures
        nul_index(raw) == end,
{
    lemma_nul_index(raw);
}

/// Cuts a padded name field at its first NUL byte. A field without a NUL
/// byte is returned whole, and no byte is inspected for being text.
pub fn trim_null_bytes(input: &[u8]) -> (name: &[u8])
    ensures
        name@ == trimmed(input@),
        name@.len() <= input@.len(),
        forall|j: int| 0 <= j < name@.len() ==> name@[j] == input@[j] && name@[j] != 0,
        name@.len() < input@.len() ==> input@[name@.len() as int] == 0,
{
    let mut end: usize = 0;
    while end < input.len() && input[end] != 0
        invariant
            end <= input@.len(),
            forall|j: int| 0 <= j < end ==> input@[j] != 0,
        decreases input@.len() - end,
    {
        end = end + 1;
    }
    proof {
        lemma_nul_index_unique(input@, end as int);
    }
    &input[0..end]
}

/// Byte-for-byte equality of two names.
pub fn same_bytes(left: &[u8], right: &[u8]) -> (same: bool)
    ensures
        same == (left@ == right@),
{
    if left.len() != right.len() {
        return false;
    }
    let mut at: usize = 0;
    while at < left.len()
        invariant
            left@.len() == right@.len(),
            at <= left@.len(),
            forall|j: int| 0 <= j < at ==> left@[j] == right@[j],
        decreases left@.len() - at,
    {
        if left[at] != right[at] {
            return false;
        }
        at = at + 1;
    }
    assert(left@ =~= right@);
    true
}

} // verus!
