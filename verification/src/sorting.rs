//! Sorting lists of strings into the order `str` gives them.

use vstd::prelude::*;
use vstd::multiset::Multiset;

use crate::text::{lemma_text_lt_total, lemma_text_lt_transitive, text_le, text_less, text_lt};

verus! {

/// The strings of `s` stand in the order of strings, first to last.
pub open spec fn texts_sorted(s: Seq<String>) -> bool {
    forall|i: int, j: int| 0 <= i < j < s.len() ==> text_le(#[trigger] s[i]@, #[trigger] s[j]@)
}

/// Sorts a list of strings into the order `str` gives them, keeping every string.
pub fn sort_texts(v: &mut Vec<String>)
    ensures
        texts_sorted(final(v)@),
        final(v)@.to_multiset() == old(v)@.to_multiset(),
{
    broadcast use vstd::seq_lib::group_to_multiset_ensures;
    let ghost orig = v@;
    let mut out: Vec<String> = Vec::new();
    while v.len() > 0
        invariant
            texts_sorted(out@),
            out@.to_multiset().add(v@.to_multiset()) == orig.to_multiset(),
        decreases v@.len(),
    {
        let ghost before = v@;
        let x = v.pop().unwrap();
        proof {
            assert(before =~= v@.push(x));
            vstd::seq_lib::to_multiset_build(v@, x);
        }
        let mut p: usize = 0;
        while p < out.len() && !text_less(x.as_str(), out[p].as_str())
            invariant
                p <= out@.len(),
                forall|j: int| 0 <= j < p ==> text_le(#[trigger] out@[j]@, x@),
            decreases out@.len() - p,
        {
            p = p + 1;
        }
        let ghost old_out = out@;
        proof {
            assert forall|j: int| p <= j < old_out.len() implies text_le(x@, #[trigger] old_out[j]@) by {
                lemma_text_lt_total(x@, old_out[j]@);
                lemma_text_lt_total(old_out[p as int]@, old_out[j]@);
                lemma_text_lt_total(x@, x@);
                if text_lt(old_out[j]@, x@) {
                    // x < out[p] <= out[j] < x is impossible
                    if text_lt(old_out[p as int]@, old_out[j]@) {
                        lemma_text_lt_transitive(x@, old_out[p as int]@, old_out[j]@);
                        lemma_text_lt_transitive(x@, old_out[j]@, x@);
                    } else if p as int == j {
                        lemma_text_lt_transitive(x@, old_out[j]@, x@);
                    } else {
                        assert(text_le(old_out[p as int]@, old_out[j]@));
                        lemma_text_lt_total(old_out[j]@, old_out[p as int]@);
                        assert(old_out[p as int]@ == old_out[j]@);
                        lemma_text_lt_transitive(x@, old_out[j]@, x@);
                    }
                }
            }
        }
        out.insert(p, x);
        proof {
            vstd::seq_lib::to_multiset_insert(old_out, p as int, x);
            assert(out@ == old_out.insert(p as int, x));
            assert forall|i: int, j: int| 0 <= i < j < out@.len() implies text_le(
                #[trigger] out@[i]@,
                #[trigger] out@[j]@,
            ) by {
                if j < p {
                } else if i < p && j == p {
                } else if i < p {
                    assert(out@[j] == old_out[j - 1]);
                    // out[i] <= x <= out[j]
                    lemma_text_lt_total(out@[i]@, x@);
                    lemma_text_lt_total(x@, out@[j]@);
                    if text_lt(out@[j]@, out@[i]@) {
                        if text_lt(x@, out@[j]@) {
                            lemma_text_lt_transitive(x@, out@[j]@, out@[i]@);
                        } else {
                            assert(x@ == out@[j]@);
                        }
                    }
                } else if i == p {
                    assert(out@[j] == old_out[j - 1]);
                } else {
                    assert(out@[i] == old_out[i - 1]);
                    assert(out@[j] == old_out[j - 1]);
                }
            }
            assert(out@.to_multiset().add(v@.to_multiset()) =~= orig.to_multiset());
        }
    }
    proof {
        assert(v@.to_multiset() =~= Multiset::empty());
        assert(out@.to_multiset().add(v@.to_multiset()) =~= out@.to_multiset());
    }
    *v = out;
}

} // verus!
