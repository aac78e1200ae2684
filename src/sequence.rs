//! Request identifiers: a one-byte counter that starts anywhere and wraps.

use vstd::prelude::*;

use crate::external::random_byte;

verus! {

/// The identifier handed out `k` allocations after one that handed out `start`.
pub open spec fn id_after(start: u8, k: nat) -> u8 {
    ((start as nat + k) % 256) as u8
}

/// Allocator of request sequence identifiers.
pub struct SeqCounter {
    next: u8,
}

impl SeqCounter {
    /// The identifier that the next allocation returns.
    pub closed spec fn view(&self) -> u8 {
        self.next
    }

    /// A counter whose first identifier is `start`.
    pub fn with_start(start: u8) -> (r: SeqCounter)
        ensures
            r@ == start,
    {
        SeqCounter { next: start }
    }

    /// A counter that starts at an unpredictable identifier.
    pub fn new() -> (r: SeqCounter) {
        SeqCounter { next: random_byte() }
    }
}

/// Hands out the counter's current identifier and advances it by one, modulo 256.
pub fn next_seq_id(counter: &mut SeqCounter) -> (r: u8)
    ensures
        r == old(counter)@,
        final(counter)@ == id_after(old(counter)@, 1),
{
    let r = counter.next;
    counter.next = counter.next.wrapping_add(1);
    r
}

/// Successive allocations: the `k`-th after a start `s` returns `id_after(s, k)`;
/// the first 256 are pairwise distinct, and the 257th repeats the first.
pub proof fn lemma_ids_cycle(start: u8)
    ensures
        forall|i: nat, j: nat| i < j < 256 ==> id_after(start, i) != id_after(start, j),
        id_after(start, 256) == id_after(start, 0),
        forall|k: nat| #[trigger] id_after(start, k + 1) == id_after(id_after(start, k), 1),
{
    assert forall|i: nat, j: nat| i < j < 256 implies id_after(start, i) != id_after(start, j) by {
        assert(((start as nat + i) % 256) != ((start as nat + j) % 256)) by (nonlinear_arith)
            requires i < j < 256;
    }
    assert forall|k: nat| #[trigger] id_after(start, k + 1) == id_after(id_after(start, k), 1) by {
        let a = start as nat + k;
        assert(((a % 256) + 1) % 256 == (a + 1) % 256) by (nonlinear_arith);
    }
}

} // verus!
