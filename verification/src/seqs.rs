use vstd::prelude::*;

verus! {

/// The place of the first element that `accept` holds of, or the length of
/// the sequence where it holds of none.
pub open spec fn first_where<T>(s: Seq<T>, accept: spec_fn(T) -> bool) -> int
    decreases s.len(),
{
    if s.len() == 0 {
        0
    } else if accept(s[0]) {
        0
    } else {
        1 + first_where(s.drop_first(), accept)
    }
}

/// `first_where` is the least place whose element is accepted.
pub proof fn lemma_first_where<T>(s: Seq<T>, accept: spec_fn(T) -> bool)
    ensures
        0 <= first_where(s, accept) <= s.len(),
        first_where(s, accept) < s.len() ==> accept(s[first_where(s, accept)]),
        forall|j: int| 0 <= j < first_where(s, accept) ==> !accept(#[trigger] s[j]),
    decreases s.len(),
{
    if s.len() > 0 && !accept(s[0]) {
        let rest = s.drop_first();
        lemma_first_where(rest, accept);
        assert forall|j: int| 0 <= j < first_where(s, accept) implies !accept(#[trigger] s[j]) by {
            if j > 0 {
                assert(rest[j - 1] == s[j]);
            }
        }
    }
}

/// The least place whose element is accepted is `first_where`.
pub proof fn lemma_first_where_is<T>(s: Seq<T>, accept: spec_fn(T) -> bool, at: int)
    requires
        0 <= at <= s.len(),
        at < s.len() ==> accept(s[at]),
        forall|j: int| 0 <= j < at ==> !accept(#[trigger] s[j]),
    ensures
        first_where(s, accept) == at,
    decreases s.len(),
{
    if s.len() > 0 && at > 0 {
        let rest = s.drop_first();
        assert(!accept(s[0]));
        assert forall|j: int| 0 <= j < at - 1 implies !accept(#[trigger] rest[j]) by {
            assert(rest[j] == s[j + 1]);
        }
        lemma_first_where_is(rest, accept, at - 1);
    }
}

} // verus!
