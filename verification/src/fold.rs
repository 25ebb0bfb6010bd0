//! Sequence folds that the lowering contracts are stated over: a plain
//! per-element map, and a fail-fast map whose first error aborts the
//! whole fold.

use vstd::prelude::*;

use crate::ir::LowerError;

verus! {

/// A fallible result, seen mathematically: the payload is replaced by its
/// view.
pub open spec fn ok_view<T: DeepView>(r: Result<T, LowerError>) -> Result<
    <T as DeepView>::V,
    LowerError,
> {
    match r {
        Ok(t) => Ok(t.deep_view()),
        Err(e) => Err(e),
    }
}

/// Every element mapped through `f`, in order.
pub open spec fn map_seq<A, B>(f: spec_fn(A) -> B, s: Seq<A>) -> Seq<B>
    decreases s.len(),
{
    if s.len() == 0 {
        Seq::empty()
    } else {
        map_seq(f, s.subrange(0, s.len() - 1)).push(f(s[s.len() - 1]))
    }
}

/// Every element mapped through a fallible `f`, in order; the leftmost
/// error, if any, is the fold's result.
pub open spec fn lower_seq<A, B>(f: spec_fn(A) -> Result<B, LowerError>, s: Seq<A>) -> Result<
    Seq<B>,
    LowerError,
>
    decreases s.len(),
{
    if s.len() == 0 {
        Ok(Seq::empty())
    } else {
        match lower_seq(f, s.subrange(0, s.len() - 1)) {
            Err(e) => Err(e),
            Ok(pre) => match f(s[s.len() - 1]) {
                Err(e) => Err(e),
                Ok(b) => Ok(pre.push(b)),
            },
        }
    }
}

/// Unfolds one step of `lower_seq` on a prefix.
pub proof fn lemma_lower_seq_step<A, B>(f: spec_fn(A) -> Result<B, LowerError>, s: Seq<A>, j: int)
    requires
        0 < j <= s.len(),
    ensures
        lower_seq(f, s.subrange(0, j)) == (match lower_seq(f, s.subrange(0, j - 1)) {
            Err(e) => Err::<Seq<B>, LowerError>(e),
            Ok(pre) => match f(s[j - 1]) {
                Err(e) => Err::<Seq<B>, LowerError>(e),
                Ok(b) => Ok::<Seq<B>, LowerError>(pre.push(b)),
            },
        }),
{
    let p = s.subrange(0, j);
    assert(p.subrange(0, p.len() - 1) =~= s.subrange(0, j - 1));
    assert(p[p.len() - 1] == s[j - 1]);
}

/// Once a prefix fails, the whole fold fails with the same error.
pub proof fn lemma_lower_seq_err<A, B>(f: spec_fn(A) -> Result<B, LowerError>, s: Seq<A>, j: int)
    requires
        0 <= j <= s.len(),
        lower_seq(f, s.subrange(0, j)) is Err,
    ensures
        lower_seq(f, s) == lower_seq(f, s.subrange(0, j)),
    decreases s.len() - j,
{
    if j == s.len() {
        assert(s.subrange(0, j) =~= s);
    } else {
        lemma_lower_seq_step(f, s, j + 1);
        lemma_lower_seq_err(f, s, j + 1);
    }
}

/// A successful fold maps every element successfully, index by index.
pub proof fn lemma_lower_seq_ok<A, B>(f: spec_fn(A) -> Result<B, LowerError>, s: Seq<A>)
    requires
        lower_seq(f, s) is Ok,
    ensures
        lower_seq(f, s)->Ok_0.len() == s.len(),
        forall|i: int|
            0 <= i < s.len() ==> f(#[trigger] s[i]) is Ok && lower_seq(f, s)->Ok_0[i] == f(
                s[i],
            )->Ok_0,
    decreases s.len(),
{
    if s.len() > 0 {
        let pre = s.subrange(0, s.len() - 1);
        lemma_lower_seq_ok(f, pre);
        let pre_res = lower_seq(f, pre)->Ok_0;
        let res = lower_seq(f, s)->Ok_0;
        assert(res == pre_res.push(f(s[s.len() - 1])->Ok_0));
        assert forall|i: int| 0 <= i < s.len() implies f(#[trigger] s[i]) is Ok && res[i] == f(
            s[i],
        )->Ok_0 by {
            if i < s.len() - 1 {
                assert(pre[i] == s[i]);
                assert(res[i] == pre_res[i]);
            }
        }
    }
}

} // verus!
