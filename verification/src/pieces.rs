//! Cutting a sequence into consecutive pieces, and putting pieces together.
//!
//! A chromosome is the concatenation of its layers' genes, and a layer's
//! genes are the concatenation of its neurons' genes. The two lemmas here
//! say that cutting and concatenating undo each other.

use vstd::prelude::*;

verus! {

/// The first `count` pieces of `s`, where piece `i` runs from `cut(i)` up
/// to `cut(i + 1)`.
pub open spec fn pieces<T>(s: Seq<T>, cut: spec_fn(int) -> int, count: nat) -> Seq<Seq<T>> {
    Seq::new(count, |i: int| s.subrange(cut(i), cut(i + 1)))
}

/// The first `count + 1` cuts start at zero and never step back.
pub open spec fn cuts_ascend(cut: spec_fn(int) -> int, count: nat) -> bool {
    &&& cut(0) == 0
    &&& forall|i: int| 0 <= i < count ==> #[trigger] cut(i) <= cut(i + 1)
}

/// Cut `i + 1` lies beyond cut `i` by the length of block `i`.
pub open spec fn cuts_follow<T>(cut: spec_fn(int) -> int, blocks: Seq<Seq<T>>) -> bool {
    &&& cut(0) == 0
    &&& forall|i: int| 0 <= i < blocks.len() ==> cut(i + 1) == #[trigger] cut(i) + blocks[i].len()
}

/// Ascending cuts stay between zero and the last of them.
pub proof fn lemma_cuts_bounded(cut: spec_fn(int) -> int, count: nat, i: int)
    requires
        cuts_ascend(cut, count),
        0 <= i <= count,
    ensures
        0 <= cut(i) <= cut(count as int),
    decreases count,
{
    if count > 0 {
        assert(cut(count - 1) <= cut(count - 1 + 1));
        if i < count {
            lemma_cuts_bounded(cut, (count - 1) as nat, i);
        } else {
            lemma_cuts_bounded(cut, (count - 1) as nat, count - 1);
        }
    }
}

/// Concatenating the pieces of a sequence gives back the part of it that
/// was cut.
pub proof fn lemma_flatten_pieces<T>(s: Seq<T>, cut: spec_fn(int) -> int, count: nat)
    requires
        cuts_ascend(cut, count),
        cut(count as int) <= s.len(),
    ensures
        pieces(s, cut, count).flatten() == s.take(cut(count as int)),
    decreases count,
{
    if count == 0 {
        assert(pieces(s, cut, count) == Seq::<Seq<T>>::empty());
        assert(s.take(0) == Seq::<T>::empty());
    } else {
        let before = count - 1;
        let last = s.subrange(cut(before), cut(before + 1));
        lemma_cuts_bounded(cut, count, before);
        lemma_flatten_pieces(s, cut, before as nat);
        assert(pieces(s, cut, count) == pieces(s, cut, before as nat).push(last));
        pieces(s, cut, before as nat).lemma_flatten_push(last);
        assert(s.take(cut(before)) + last == s.take(cut(count as int)));
    }
}

/// Cutting a concatenation where its blocks meet gives back the blocks.
pub proof fn lemma_pieces_of_flatten<T>(blocks: Seq<Seq<T>>, cut: spec_fn(int) -> int)
    requires
        cuts_follow(cut, blocks),
    ensures
        blocks.flatten().len() == cut(blocks.len() as int),
        pieces(blocks.flatten(), cut, blocks.len()) == blocks,
    decreases blocks.len(),
{
    if blocks.len() == 0 {
        assert(pieces(blocks.flatten(), cut, blocks.len()) == blocks);
    } else {
        let front = blocks.drop_last();
        let before = front.len() as int;
        assert(cuts_follow(cut, front)) by {
            assert forall|i: int| 0 <= i < front.len() implies cut(i + 1) == #[trigger] cut(i)
                + front[i].len() by {
                assert(front[i] == blocks[i]);
            }
        }
        lemma_pieces_of_flatten(front, cut);
        assert(blocks == front.push(blocks.last()));
        front.lemma_flatten_push(blocks.last());
        assert(cut(before + 1) == cut(before) + blocks[before].len());
        assert forall|i: int| 0 <= i < blocks.len() implies #[trigger] pieces(
            blocks.flatten(),
            cut,
            blocks.len(),
        )[i] == blocks[i] by {
            if i < before {
                assert(cut(i + 1) == cut(i) + front[i].len());
                assert(pieces(front.flatten(), cut, front.len())[i] == front[i]);
                lemma_cuts_follow_bounded(cut, front, i);
                lemma_cuts_follow_bounded(cut, front, i + 1);
                assert(blocks.flatten().subrange(cut(i), cut(i + 1)) == front.flatten().subrange(
                    cut(i),
                    cut(i + 1),
                ));
            } else {
                assert(blocks.flatten().subrange(cut(before), cut(before + 1)) == blocks.last());
            }
        }
        assert(pieces(blocks.flatten(), cut, blocks.len()) == blocks);
    }
}

/// Cuts that follow blocks stay between zero and the last of them.
pub proof fn lemma_cuts_follow_bounded<T>(cut: spec_fn(int) -> int, blocks: Seq<Seq<T>>, i: int)
    requires
        cuts_follow(cut, blocks),
        0 <= i <= blocks.len(),
    ensures
        0 <= cut(i) <= cut(blocks.len() as int),
{
    assert(cuts_ascend(cut, blocks.len())) by {
        assert forall|k: int| 0 <= k < blocks.len() implies #[trigger] cut(k) <= cut(k + 1) by {
            assert(cut(k + 1) == cut(k) + blocks[k].len());
        }
    }
    lemma_cuts_bounded(cut, blocks.len(), i);
}

} // verus!
