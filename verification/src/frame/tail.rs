//! What it means that a cursor has only moved forward.
use vstd::prelude::*;

verus! {

/// `rest` is what is left of `s` after some bytes were taken from its front.
#[verifier::opaque]
pub open spec fn is_tail(rest: Seq<u8>, s: Seq<u8>) -> bool {
    rest.len() <= s.len() && rest =~= s.skip(s.len() - rest.len())
}

/// What is left of what is left is left.
pub broadcast proof fn lemma_tail_trans(a: Seq<u8>, b: Seq<u8>, c: Seq<u8>)
    requires
        #[trigger] is_tail(a, b),
        #[trigger] is_tail(b, c),
    ensures
        is_tail(a, c),
{
    reveal(is_tail);
    assert(a =~= c.skip(c.len() - a.len()));
}

/// What is left is not longer than what it was left of.
pub broadcast proof fn lemma_tail_len(a: Seq<u8>, b: Seq<u8>)
    requires
        #[trigger] is_tail(a, b),
    ensures
        a.len() <= b.len(),
{
    reveal(is_tail);
}

/// Taking nothing leaves everything.
pub broadcast proof fn lemma_tail_all(s: Seq<u8>)
    ensures
        #[trigger] is_tail(s, s),
{
    reveal(is_tail);
}

/// Taking `n` bytes leaves the rest.
pub broadcast proof fn lemma_tail_skip(s: Seq<u8>, n: int)
    requires
        0 <= n <= s.len(),
    ensures
        is_tail(#[trigger] s.skip(n), s),
{
    reveal(is_tail);
}

/// Taking everything leaves nothing.
pub proof fn lemma_tail_none(rest: Seq<u8>, s: Seq<u8>)
    requires
        rest.len() == 0,
    ensures
        is_tail(rest, s),
{
    reveal(is_tail);
}

pub broadcast group group_tail {
    lemma_tail_trans,
    lemma_tail_len,
    lemma_tail_all,
    lemma_tail_skip,
}

} // verus!
