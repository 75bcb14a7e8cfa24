//! Byte-lexicographic ordering of lines, and a verified sort pinned to
//! `Seq::sort_by` so that the display order of headers is a function of
//! their contents.

use vstd::prelude::*;
use vstd::relations::{sorted_by, total_ordering};
use vstd::seq_lib::{group_to_multiset_ensures, lemma_sorted_unique};

verus! {

/// Byte-wise lexicographic "less or equal" on byte strings.
pub open spec fn lex_le(a: Seq<u8>, b: Seq<u8>) -> bool
    decreases a.len(),
{
    if a.len() == 0 {
        true
    } else if b.len() == 0 {
        false
    } else if a[0] < b[0] {
        true
    } else if a[0] > b[0] {
        false
    } else {
        lex_le(a.drop_first(), b.drop_first())
    }
}

/// The ordering as a relation value, for `sort_by`.
pub open spec fn lex_leq() -> spec_fn(Seq<u8>, Seq<u8>) -> bool {
    |a: Seq<u8>, b: Seq<u8>| lex_le(a, b)
}

proof fn lemma_lex_refl(a: Seq<u8>)
    ensures
        lex_le(a, a),
    decreases a.len(),
{
    if a.len() > 0 {
        lemma_lex_refl(a.drop_first());
    }
}

proof fn lemma_lex_antisym(a: Seq<u8>, b: Seq<u8>)
    requires
        lex_le(a, b),
        lex_le(b, a),
    ensures
        a == b,
    decreases a.len(),
{
    if a.len() == 0 {
        assert(b.len() == 0);
        assert(a =~= b);
    } else {
        lemma_lex_antisym(a.drop_first(), b.drop_first());
        assert(a =~= seq![a[0]] + a.drop_first());
        assert(b =~= seq![b[0]] + b.drop_first());
        assert(a =~= b);
    }
}

proof fn lemma_lex_trans(a: Seq<u8>, b: Seq<u8>, c: Seq<u8>)
    requires
        lex_le(a, b),
        lex_le(b, c),
    ensures
        lex_le(a, c),
    decreases a.len(),
{
    if a.len() > 0 && b.len() > 0 && c.len() > 0 && a[0] == b[0] && b[0] == c[0] {
        lemma_lex_trans(a.drop_first(), b.drop_first(), c.drop_first());
    }
}

proof fn lemma_lex_total(a: Seq<u8>, b: Seq<u8>)
    ensures
        lex_le(a, b) || lex_le(b, a),
    decreases a.len(),
{
    if a.len() > 0 && b.len() > 0 && a[0] == b[0] {
        lemma_lex_total(a.drop_first(), b.drop_first());
    }
}

/// Lexicographic order on byte strings is a total order.
pub proof fn lemma_lex_total_ordering()
    ensures
        total_ordering(lex_leq()),
{
    let leq = lex_leq();
    assert forall|a: Seq<u8>| #[trigger] leq(a, a) by {
        lemma_lex_refl(a);
    }
    assert forall|a: Seq<u8>, b: Seq<u8>| #[trigger] leq(a, b) && #[trigger] leq(b, a) implies a
        == b by {
        lemma_lex_antisym(a, b);
    }
    assert forall|a: Seq<u8>, b: Seq<u8>, c: Seq<u8>|
        #[trigger] leq(a, b) && #[trigger] leq(b, c) implies leq(a, c) by {
        lemma_lex_trans(a, b, c);
    }
    assert forall|a: Seq<u8>, b: Seq<u8>| #[trigger] leq(a, b) || #[trigger] leq(b, a) by {
        lemma_lex_total(a, b);
    }
}

/// Compares two byte strings lexicographically.
pub fn lex_le_exec(a: &[u8], b: &[u8]) -> (r: bool)
    ensures
        r == lex_le(a@, b@),
{
    let mut i: usize = 0;
    proof {
        assert(a@.skip(0) =~= a@);
        assert(b@.skip(0) =~= b@);
    }
    while i < a.len() && i < b.len()
        invariant
            i <= a@.len(),
            i <= b@.len(),
            lex_le(a@, b@) == lex_le(a@.skip(i as int), b@.skip(i as int)),
        decreases a@.len() - i,
    {
        if a[i] < b[i] {
            proof {
                assert(a@.skip(i as int)[0] == a@[i as int]);
                assert(b@.skip(i as int)[0] == b@[i as int]);
            }
            return true;
        }
        if a[i] > b[i] {
            proof {
                assert(a@.skip(i as int)[0] == a@[i as int]);
                assert(b@.skip(i as int)[0] == b@[i as int]);
            }
            return false;
        }
        i = i + 1;
        proof {
            assert(a@.skip(i - 1).drop_first() =~= a@.skip(i as int));
            assert(b@.skip(i - 1).drop_first() =~= b@.skip(i as int));
            assert(a@.skip(i - 1)[0] == a@[i - 1]);
            assert(b@.skip(i - 1)[0] == b@[i - 1]);
        }
    }
    proof {
        if i >= a@.len() {
            assert(a@.skip(i as int).len() == 0);
        } else {
            assert(b@.skip(i as int).len() == 0);
            assert(a@.skip(i as int).len() > 0);
        }
    }
    a.len() <= b.len()
}

/// The spec-level picture of a list of lines.
pub open spec fn lines_view(s: Seq<Vec<u8>>) -> Seq<Seq<u8>> {
    s.map(|i: int, x: Vec<u8>| x@)
}

/// Sorts lines into byte-lexicographic order; the result is exactly
/// `sort_by` of the input under that order.
pub fn sort_lines(input: Vec<Vec<u8>>) -> (r: Vec<Vec<u8>>)
    ensures
        lines_view(r@) == lines_view(input@).sort_by(lex_leq()),
{
    let ghost iv = lines_view(input@);
    let ghost leq = lex_leq();
    let mut out: Vec<Vec<u8>> = Vec::new();
    proof {
        lemma_lex_total_ordering();
        broadcast use group_to_multiset_ensures;

        assert(lines_view(out@) =~= Seq::<Seq<u8>>::empty());
        assert(iv.subrange(0, 0) =~= Seq::<Seq<u8>>::empty());
        assert(lines_view(out@).to_multiset() =~= iv.subrange(0, 0).to_multiset());
    }
    let mut i: usize = 0;
    while i < input.len()
        invariant
            i <= input@.len(),
            iv == lines_view(input@),
            iv.len() == input@.len(),
            sorted_by(lines_view(out@), lex_leq()),
            lines_view(out@).to_multiset() == iv.subrange(0, i as int).to_multiset(),
        decreases input@.len() - i,
    {
        let x = crate::session::clone_bytes(&input[i]);
        let ghost xv = x@;
        let ghost before = lines_view(out@);
        let ghost out_before = out@;
        let p = insert_position(&out, x.as_slice());
        out.insert(p, x);
        i = i + 1;
        proof {
            broadcast use group_to_multiset_ensures;

            lemma_lex_total_ordering();
            let now = lines_view(out@);
            assert(now.len() == before.len() + 1);
            assert(now[p as int] == xv);
            assert forall|j: int| 0 <= j < now.len() && j != p implies now[j] == (if j < p {
                before[j]
            } else {
                before[j - 1]
            }) by {
                if j < p {
                    assert(out@[j] == out_before[j]);
                } else {
                    assert(out@[j] == out_before[j - 1]);
                }
            }
            assert(sorted_by(now, lex_leq())) by {
                assert forall|a: int, b: int| 0 <= a < b < now.len() implies #[trigger] lex_leq()(
                    now[a],
                    now[b],
                ) by {
                    if a == p {
                        assert(lex_le(xv, before[b - 1]));
                    } else if b == p {
                        assert(lex_le(before[a], xv));
                    } else if a < p && b < p {
                        assert(lex_leq()(before[a], before[b]));
                    } else if a < p && b > p {
                        assert(lex_leq()(before[a], before[b - 1]));
                    } else {
                        assert(lex_leq()(before[a - 1], before[b - 1]));
                    }
                }
            }
            assert(now.remove(p as int) =~= before);
            assert(now.to_multiset().remove(xv) =~= before.to_multiset());
            assert(now.to_multiset().contains(xv));
            assert(now.to_multiset() =~= before.to_multiset().insert(xv));
            assert(iv.subrange(0, i as int) =~= iv.subrange(0, i - 1).push(iv[i - 1]));
            assert(iv.subrange(0, i as int).to_multiset() =~= iv.subrange(
                0,
                i - 1,
            ).to_multiset().insert(iv[i - 1]));
        }
    }
    proof {
        lemma_lex_total_ordering();
        assert(iv.subrange(0, iv.len() as int) =~= iv);
        iv.lemma_sort_by_ensures(lex_leq());
        lemma_sorted_unique(lines_view(out@), iv.sort_by(lex_leq()), lex_leq());
    }
    out
}

/// The first position whose line is strictly greater than `x`; inserting
/// `x` there keeps the list sorted.
fn insert_position(out: &Vec<Vec<u8>>, x: &[u8]) -> (p: usize)
    requires
        sorted_by(lines_view(out@), lex_leq()),
    ensures
        p <= out@.len(),
        forall|j: int| 0 <= j < p ==> lex_le(#[trigger] lines_view(out@)[j], x@),
        forall|j: int| p <= j < out@.len() ==> lex_le(x@, #[trigger] lines_view(out@)[j]),
{
    let ghost ov = lines_view(out@);
    let mut p: usize = 0;
    while p < out.len()
        invariant
            p <= out@.len(),
            ov == lines_view(out@),
            ov.len() == out@.len(),
            sorted_by(ov, lex_leq()),
            forall|j: int| 0 <= j < p ==> lex_le(#[trigger] ov[j], x@),
        decreases out@.len() - p,
    {
        if !lex_le_exec(out[p].as_slice(), x) {
            proof {
                lemma_lex_total(out@[p as int]@, x@);
                assert(lex_le(x@, ov[p as int]));
                assert forall|j: int| p <= j < ov.len() implies lex_le(
                    x@,
                    #[trigger] ov[j],
                ) by {
                    if j > p {
                        assert(lex_leq()(ov[p as int], ov[j]));
                        lemma_lex_trans(x@, ov[p as int], ov[j]);
                    }
                }
            }
            return p;
        }
        p = p + 1;
    }
    p
}

} // verus!
