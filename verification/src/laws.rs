//! Laws the engine's contracts combine into: the bound-variable counter
//! discipline, the involution of `Sym`, and the round trip of `Cong`
//! followed by `Refl`.

use vstd::prelude::*;
use crate::item::MmbItem;
use crate::proof_stream::cong_nodes;

verus! {

/// Law: the bound-variable counter only grows by a left shift, and no
/// ordinal at or above 56 is ever handed out: a counter that is a one-hot
/// word still under the limit stays a one-hot word under the limit when it
/// is doubled, and the digit handed out lies strictly below bit 56.
pub proof fn lemma_next_bv_one_hot(bv: u64)
    requires
        bv != 0,
        bv & ((bv - 1) as u64) == 0,
        bv >> 56 == 0,
    ensures
        bv < 0x0100_0000_0000_0000u64,
        (bv * 2) as u64 == bv * 2,
        (bv * 2) as u64 != 0,
        ((bv * 2) as u64) & ((((bv * 2) as u64) - 1) as u64) == 0,
        (bv * 2) as u64 <= 0x0100_0000_0000_0000u64,
{
    assert(bv != 0 && bv & ((bv - 1) as u64) == 0 && bv >> 56 == 0 ==> bv
        < 0x0100_0000_0000_0000u64 && bv * 2 <= 0x0100_0000_0000_0000u64 && ((bv * 2) as u64) != 0
        && ((bv * 2) as u64) & ((((bv * 2) as u64) - 1) as u64) == 0) by (bit_vector);
}

/// Law: two successive `Sym` commands restore the original pending
/// conversion.  `Sym` pops a pending conversion and pushes a fresh node
/// with the sides swapped; after two such steps the top of the stack holds
/// a node with exactly the original content, and the rest of the stack is
/// untouched.
pub proof fn lemma_sym_involutive(store: Seq<MmbItem>, stack: Seq<usize>, a: usize, b: usize)
    requires
        stack.len() > 0,
        stack.last() < store.len(),
        store[stack.last() as int] == MmbItem::CoConv(a, b),
        store.len() + 2 <= usize::MAX,
    ensures
        ({
            let store1 = store.push(MmbItem::CoConv(b, a));
            let stack1 = stack.drop_last().push(store.len() as usize);
            let store2 = store1.push(MmbItem::CoConv(a, b));
            let stack2 = stack1.drop_last().push(store1.len() as usize);
            &&& store1[stack1.last() as int] == MmbItem::CoConv(b, a)
            &&& store2[stack2.last() as int] == store[stack.last() as int]
            &&& stack2.drop_last() == stack.drop_last()
        }),
{
    let store1 = store.push(MmbItem::CoConv(b, a));
    let stack1 = stack.drop_last().push(store.len() as usize);
    assert(stack1.drop_last() =~= stack.drop_last());
    let store2 = store1.push(MmbItem::CoConv(a, b));
    let stack2 = stack1.drop_last().push(store1.len() as usize);
    assert(stack2.drop_last() =~= stack.drop_last());
}

/// Law: `Cong` followed by `Refl` for each pushed pair succeeds exactly
/// when the two applications have the same children, node for node.
/// `Cong` pushes one pending conversion per argument pair; `Refl` accepts a
/// pending conversion exactly when its two sides are the same node; so the
/// whole round trip goes through exactly when the argument lists are
/// identical — that is, when the two sides are the same application.
pub proof fn lemma_cong_refl_roundtrip(store: Seq<MmbItem>, as1: Seq<usize>, as2: Seq<usize>)
    requires
        as1.len() == as2.len(),
        store.len() + as1.len() <= usize::MAX,
    ensures
        forall|k: int|
            0 <= k < as1.len() ==> (#[trigger] (store + cong_nodes(as1, as2))[store.len() + k]
                matches MmbItem::CoConv(x, y) && ((x == y) <==> as1[as1.len() - 1 - k]
                == as2[as2.len() - 1 - k])),
        (forall|k: int|
            0 <= k < as1.len() ==> (#[trigger] (store + cong_nodes(as1, as2))[store.len() + k]
                matches MmbItem::CoConv(x, y) && x == y)) <==> as1 == as2,
{
    let store1 = store + cong_nodes(as1, as2);
    assert forall|k: int|
        0 <= k < as1.len() implies (#[trigger] store1[store.len() + k] matches MmbItem::CoConv(
        x,
        y,
    ) && ((x == y) <==> as1[as1.len() - 1 - k] == as2[as2.len() - 1 - k])) by {
        assert(store1[store.len() + k] == cong_nodes(as1, as2)[k]);
    }
    if forall|k: int|
        0 <= k < as1.len() ==> (#[trigger] store1[store.len() + k] matches MmbItem::CoConv(x, y)
            && x == y) {
        assert forall|i: int| 0 <= i < as1.len() implies as1[i] == as2[i] by {
            let k = as1.len() - 1 - i;
            assert(store1[store.len() + k] matches MmbItem::CoConv(x, y) && x == y);
            assert(store1[store.len() + k] == cong_nodes(as1, as2)[k]);
        }
        assert(as1 =~= as2);
    }
}

} // verus!
