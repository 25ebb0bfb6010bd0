//! Message framing: a progress stream carries several messages in one
//! buffer, separated by a marker. Splitting is exact: pieces appear in
//! order, separators are consumed left to right without overlap, and a
//! buffer without a marker is one piece.

use vstd::prelude::*;

verus! {

/// Whether the separator occurs at position `k` of the text.
pub open spec fn matches_at(s: Seq<char>, sep: Seq<char>, k: int) -> bool {
    0 <= k && k + sep.len() <= s.len() && s.subrange(k, k + sep.len() as int) == sep
}

/// The first position where the separator occurs, if any.
pub open spec fn first_match(s: Seq<char>, sep: Seq<char>) -> Option<int>
    decreases s.len(),
{
    if sep.len() == 0 || s.len() < sep.len() {
        None
    } else if s.subrange(0, sep.len() as int) == sep {
        Some(0)
    } else {
        match first_match(s.subrange(1, s.len() as int), sep) {
            Some(j) => Some(j + 1),
            None => None,
        }
    }
}

/// `first_match` finds a match exactly when one exists, and the earliest
/// one.
pub proof fn lemma_first_match(s: Seq<char>, sep: Seq<char>)
    requires
        sep.len() > 0,
    ensures
        match first_match(s, sep) {
            Some(i) => matches_at(s, sep, i) && forall|k: int|
                0 <= k < i ==> !matches_at(s, sep, k),
            None => forall|k: int| !matches_at(s, sep, k),
        },
    decreases s.len(),
{
    if s.len() < sep.len() {
        assert forall|k: int| !matches_at(s, sep, k) by {}
    } else if s.subrange(0, sep.len() as int) == sep {
    } else {
        let t = s.subrange(1, s.len() as int);
        lemma_first_match(t, sep);
        assert forall|k: int| 0 <= k implies (matches_at(s, sep, k + 1) == matches_at(
            t,
            sep,
            k,
        )) by {
            if k + 1 + sep.len() <= s.len() {
                assert(s.subrange(k + 1, k + 1 + sep.len() as int) =~= t.subrange(
                    k,
                    k + sep.len() as int,
                ));
            }
        }
        assert(!matches_at(s, sep, 0));
        match first_match(t, sep) {
            Some(j) => {
                assert(matches_at(s, sep, j + 1));
                assert forall|k: int| 0 <= k < j + 1 implies !matches_at(s, sep, k) by {
                    if k > 0 {
                        assert(!matches_at(t, sep, k - 1));
                    }
                }
            },
            None => {
                assert forall|k: int| !matches_at(s, sep, k) by {
                    if k > 0 {
                        assert(!matches_at(t, sep, k - 1));
                    }
                }
            },
        }
    }
}

/// The text split on every separator occurrence, scanning left to right
/// without overlap; a text without an occurrence is one piece.
pub open spec fn spec_split(s: Seq<char>, sep: Seq<char>) -> Seq<Seq<char>>
    decreases s.len(),
{
    if sep.len() == 0 {
        seq![s]
    } else {
        match first_match(s, sep) {
            None => seq![s],
            Some(i) => if 0 <= i && i + sep.len() <= s.len() {
                seq![s.subrange(0, i)] + spec_split(
                    s.subrange(i + sep.len() as int, s.len() as int),
                    sep,
                )
            } else {
                seq![s]
            },
        }
    }
}

/// Splits a buffer on a separator, piece by piece in order.
pub fn split_on(buffer: &str, separator: &str) -> (r: Vec<String>)
    requires
        separator@.len() > 0,
    ensures
        r.deep_view() == spec_split(buffer@, separator@),
{
    let s = Ghost(buffer@);
    let sep = Ghost(separator@);
    let n = buffer.unicode_len();
    let m = separator.unicode_len();
    let mut out: Vec<String> = Vec::new();
    let mut piece_start: usize = 0;
    let mut i: usize = 0;
    proof {
        assert(s@.subrange(0, n as int) =~= s@);
        assert(out.deep_view() =~= Seq::<Seq<char>>::empty());
    }
    while m <= n && i <= n - m
        invariant
            piece_start <= i <= n,
            m == sep@.len(),
            n == s@.len(),
            m > 0,
            s@ == buffer@,
            sep@ == separator@,
            forall|k: int| piece_start <= k < i ==> !matches_at(s@, sep@, k),
            spec_split(s@, sep@) == out.deep_view() + spec_split(
                s@.subrange(piece_start as int, n as int),
                sep@,
            ),
        decreases n - i,
    {
        let mut same = true;
        let mut j: usize = 0;
        while same && j < m
            invariant
                j <= m,
                m == sep@.len(),
                n == s@.len(),
                i + m <= n,
                s@ == buffer@,
                sep@ == separator@,
                same ==> forall|jj: int| 0 <= jj < j ==> s@[i + jj] == sep@[jj],
                !same ==> j < m && s@[i + j] != sep@[j as int],
            decreases m - j, (if same { 1int } else { 0int }),
        {
            if buffer.get_char(i + j) != separator.get_char(j) {
                same = false;
            } else {
                j = j + 1;
            }
        }
        let ghost t = s@.subrange(piece_start as int, n as int);
        if same {
            proof {
                assert(s@.subrange(i as int, i + m as int) =~= sep@);
                assert(matches_at(s@, sep@, i as int));
                // The first match of the remaining text is exactly here.
                let j0 = i - piece_start;
                assert(t.subrange(j0 as int, j0 + m as int) =~= s@.subrange(
                    i as int,
                    i + m as int,
                ));
                assert(matches_at(t, sep@, j0 as int));
                assert forall|k: int| 0 <= k < j0 implies !matches_at(t, sep@, k) by {
                    assert(piece_start <= k + piece_start < i);
                    assert(!matches_at(s@, sep@, k + piece_start));
                    if k + sep@.len() <= t.len() {
                        assert(t.subrange(k, k + sep@.len() as int) =~= s@.subrange(
                            k + piece_start,
                            k + piece_start + sep@.len() as int,
                        ));
                    }
                }
                lemma_first_match(t, sep@);
                match first_match(t, sep@) {
                    None => {
                        assert(false);
                    },
                    Some(i2) => {
                        if i2 < j0 {
                            assert(!matches_at(t, sep@, i2));
                            assert(false);
                        }
                        if j0 < i2 {
                            assert(!matches_at(t, sep@, j0 as int));
                            assert(false);
                        }
                    },
                }
                assert(first_match(t, sep@) == Some(j0 as int));
                assert(t.subrange(0, j0 as int) =~= s@.subrange(piece_start as int, i as int));
                assert(t.subrange(j0 + m as int, t.len() as int) =~= s@.subrange(
                    i + m,
                    n as int,
                ));
            }
            let piece = buffer.substring_char(piece_start, i).to_owned();
            let ghost old_out = out.deep_view();
            out.push(piece);
            proof {
                assert(out.deep_view() =~= old_out.push(
                    s@.subrange(piece_start as int, i as int),
                ));
                assert(spec_split(s@, sep@) == out.deep_view() + spec_split(
                    s@.subrange(i + m, n as int),
                    sep@,
                )) by {
                    assert(out.deep_view() + spec_split(s@.subrange(i + m, n as int), sep@)
                        =~= old_out + (seq![s@.subrange(piece_start as int, i as int)]
                        + spec_split(s@.subrange(i + m, n as int), sep@)));
                }
            }
            i = i + m;
            piece_start = i;
        } else {
            proof {
                assert(!matches_at(s@, sep@, i as int));
            }
            i = i + 1;
        }
    }
    proof {
        let t = s@.subrange(piece_start as int, n as int);
        assert forall|k: int| !matches_at(t, sep@, k) by {
            if 0 <= k && k + sep@.len() <= t.len() {
                assert(piece_start + k + m <= n);
                assert(piece_start + k < i);
                assert(!matches_at(s@, sep@, piece_start + k));
                assert(t.subrange(k, k + sep@.len() as int) =~= s@.subrange(
                    piece_start + k,
                    piece_start + k + sep@.len() as int,
                ));
            }
        }
        lemma_first_match(t, sep@);
        match first_match(t, sep@) {
            Some(i2) => {
                assert(!matches_at(t, sep@, i2));
                assert(false);
            },
            None => {},
        }
        assert(spec_split(t, sep@) == seq![t]);
    }
    let last = buffer.substring_char(piece_start, n).to_owned();
    let ghost old_out = out.deep_view();
    out.push(last);
    proof {
        assert(out.deep_view() =~= old_out.push(s@.subrange(piece_start as int, n as int)));
        assert(out.deep_view() =~= old_out + seq![s@.subrange(piece_start as int, n as int)]);
    }
    out
}

/// Splits a progress buffer into its messages on the framing marker; the
/// consumer skips empty pieces.
pub fn split_messages(buffer: &str) -> (r: Vec<String>)
    ensures
        r.deep_view() == spec_split(buffer@, "<END_MSG>\n"@),
{
    proof {
        reveal_strlit("<END_MSG>\n");
    }
    split_on(buffer, "<END_MSG>\n")
}

} // verus!
