//! Sorting of lowered declaration sequences by name: a stable insertion
//! sort with an exact functional specification, so that the builder's
//! output is pinned down value by value.

use vstd::prelude::*;

use crate::ir::{Node, NodeV};
use crate::order::{lex_le, str_le};

verus! {

/// A lowered declaration that carries a name to sort by.
pub trait Named: DeepView + Sized {
    /// The name of a lowered value, read off its view.
    spec fn view_name(v: <Self as DeepView>::V) -> Seq<char>;

    /// The name of this value.
    fn name_ref(&self) -> (r: &String)
        ensures
            r@ == Self::view_name(self.deep_view()),
    ;
}

/// The sort key of a node: its declaration's name.
pub open spec fn node_name<T: Named>(n: NodeV<<T as DeepView>::V>) -> Seq<char> {
    T::view_name(n.elem)
}

/// Inserts a node before the first element it orders no later than;
/// elements with an equal name stay ahead of it.
pub open spec fn spec_insert_sorted<T: Named>(
    x: NodeV<<T as DeepView>::V>,
    s: Seq<NodeV<<T as DeepView>::V>>,
) -> Seq<NodeV<<T as DeepView>::V>>
    decreases s.len(),
{
    if s.len() == 0 {
        seq![x]
    } else if lex_le(node_name::<T>(x), node_name::<T>(s[0])) {
        seq![x] + s
    } else {
        seq![s[0]] + spec_insert_sorted::<T>(x, s.subrange(1, s.len() as int))
    }
}

/// The stable insertion sort of a node sequence by name.
pub open spec fn spec_sort_nodes<T: Named>(s: Seq<NodeV<<T as DeepView>::V>>) -> Seq<
    NodeV<<T as DeepView>::V>,
>
    decreases s.len(),
{
    if s.len() == 0 {
        Seq::empty()
    } else {
        spec_insert_sorted::<T>(s[0], spec_sort_nodes::<T>(s.subrange(1, s.len() as int)))
    }
}

/// Inserting at the first position whose element orders no earlier is
/// exactly `spec_insert_sorted`.
pub proof fn lemma_insert_sorted_at<T: Named>(
    x: NodeV<<T as DeepView>::V>,
    s: Seq<NodeV<<T as DeepView>::V>>,
    j: int,
)
    requires
        0 <= j <= s.len(),
        forall|m: int| 0 <= m < j ==> !lex_le(node_name::<T>(x), node_name::<T>(#[trigger] s[m])),
        j < s.len() ==> lex_le(node_name::<T>(x), node_name::<T>(s[j])),
    ensures
        spec_insert_sorted::<T>(x, s) == s.insert(j, x),
    decreases s.len(),
{
    if s.len() == 0 {
        assert(s.insert(0, x) =~= seq![x]);
    } else if j == 0 {
        assert(seq![x] + s =~= s.insert(0, x));
    } else {
        let rest = s.subrange(1, s.len() as int);
        assert(forall|m: int|
            0 <= m < j - 1 ==> !lex_le(node_name::<T>(x), node_name::<T>(#[trigger] rest[m])));
        lemma_insert_sorted_at::<T>(x, rest, j - 1);
        assert(seq![s[0]] + rest.insert(j - 1, x) =~= s.insert(j, x));
    }
}

/// Inserts a node into an already sorted vector, keeping the exact
/// insertion-sort shape.
fn insert_sorted<T: Named>(x: Node<T>, out: &mut Vec<Node<T>>)
    ensures
        final(out).deep_view() == spec_insert_sorted::<T>(x.deep_view(), old(out).deep_view()),
{
    let ghost xv = x.deep_view();
    let ghost sv = out.deep_view();
    let n = out.len();
    let mut j: usize = 0;
    let mut searching = true;
    while searching && j < n
        invariant
            j <= n,
            n == out.len(),
            out.deep_view() == sv,
            sv.len() == n,
            xv == x.deep_view(),
            forall|m: int|
                0 <= m < j ==> !lex_le(node_name::<T>(xv), node_name::<T>(#[trigger] sv[m])),
            !searching ==> j < n && lex_le(node_name::<T>(xv), node_name::<T>(sv[j as int])),
        decreases n - j, (if searching { 1int } else { 0int }),
    {
        if str_le(x.elem.name_ref().as_str(), out[j].elem.name_ref().as_str()) {
            searching = false;
        } else {
            j = j + 1;
        }
    }
    proof {
        lemma_insert_sorted_at::<T>(xv, sv, j as int);
    }
    out.insert(j, x);
    proof {
        assert(out.deep_view() =~= sv.insert(j as int, xv));
    }
}

/// Sorts lowered declarations by name, stably.
pub fn sort_nodes<T: Named>(v: Vec<Node<T>>) -> (r: Vec<Node<T>>)
    ensures
        r.deep_view() == spec_sort_nodes::<T>(v.deep_view()),
{
    let ghost orig = v.deep_view();
    let mut rest = v;
    let mut out: Vec<Node<T>> = Vec::new();
    proof {
        assert(rest.deep_view() =~= orig.subrange(0, rest@.len() as int));
        assert(orig.subrange(rest@.len() as int, orig.len() as int) =~= Seq::<
            NodeV<<T as DeepView>::V>,
        >::empty());
        assert(out.deep_view() =~= spec_sort_nodes::<T>(
            orig.subrange(rest@.len() as int, orig.len() as int),
        ));
    }
    while rest.len() > 0
        invariant
            rest@.len() <= orig.len(),
            rest.deep_view() == orig.subrange(0, rest@.len() as int),
            out.deep_view() == spec_sort_nodes::<T>(
                orig.subrange(rest@.len() as int, orig.len() as int),
            ),
        decreases rest@.len(),
    {
        let ghost k = rest@.len() as int;
        let ghost old_dv = rest.deep_view();
        let ghost old_vv = rest@;
        let x = match rest.pop() {
            Some(x) => x,
            None => {
                proof {
                    assert(false);
                }
                unreached()
            },
        };
        proof {
            assert(rest@ =~= old_vv.subrange(0, k - 1));
            assert(rest.deep_view() =~= orig.subrange(0, k - 1));
            assert(x == old_vv[k - 1]);
            assert(old_dv[k - 1] == old_vv[k - 1].deep_view());
            assert(x.deep_view() == orig[k - 1]);
            let tail = orig.subrange(k - 1, orig.len() as int);
            assert(tail[0] == orig[k - 1]);
            assert(tail.subrange(1, tail.len() as int) =~= orig.subrange(k, orig.len() as int));
        }
        insert_sorted(x, &mut out);
    }
    proof {
        assert(orig.subrange(0, orig.len() as int) =~= orig);
    }
    out
}

} // verus!
