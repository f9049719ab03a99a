//! A fixed-capacity set of visibility flags, one per output of a list.

use vstd::prelude::*;

verus! {

/// The number of outputs whose visibility a mask tracks.
pub const MASK_CAPACITY: usize = 32;

/// Flags saying which outputs of a list may be shown. It never grows: a
/// list longer than [`MASK_CAPACITY`] cannot be tracked.
#[derive(Clone, Copy, Debug, PartialEq, Eq)]
pub struct VisibilityMask {
    bits: u32,
}

/// The flags of a mask with every output visible.
pub open spec fn all_set() -> Seq<bool> {
    Seq::new(MASK_CAPACITY as nat, |i: int| true)
}

proof fn lemma_full(i: u32)
    by (bit_vector)
    requires
        i < 32,
    ensures
        (0xffff_ffffu32 >> i) & 1 == 1,
{
}

proof fn lemma_cleared(bits: u32, i: u32, j: u32)
    by (bit_vector)
    requires
        i < 32,
        j < 32,
    ensures
        ((bits & !(1u32 << i)) >> j) & 1 == (if j == i {
            0u32
        } else {
            (bits >> j) & 1
        }),
{
}

impl VisibilityMask {
    /// Whether flag `i` is set.
    pub closed spec fn flag(&self, i: int) -> bool {
        0 <= i < 32 && (self.bits >> (i as u32)) & 1 == 1
    }

    /// A mask with every output visible.
    pub fn all_visible() -> (r: VisibilityMask)
        ensures
            r@ == all_set(),
    {
        let r = VisibilityMask { bits: 0xffff_ffff };
        proof {
            assert forall|i: int| 0 <= i < 32 implies r.flag(i) by {
                lemma_full(i as u32);
            }
            assert(r@ =~= all_set());
        }
        r
    }

    /// Whether output `i` is visible. Outputs beyond the capacity are not.
    pub fn is_visible(&self, i: usize) -> (r: bool)
        ensures
            r == (i < MASK_CAPACITY && self@[i as int]),
    {
        i < MASK_CAPACITY && (self.bits >> (i as u32)) & 1 == 1
    }

    /// Makes output `i` invisible, and leaves every other flag as it is.
    pub fn clear(&mut self, i: usize)
        requires
            i < MASK_CAPACITY,
        ensures
            final(self)@ == old(self)@.update(i as int, false),
    {
        let ghost before = *self;
        self.bits = self.bits & !(1u32 << (i as u32));
        proof {
            let after = *self;
            assert forall|j: int| 0 <= j < 32 implies #[trigger] after@[j] == before@.update(
                i as int,
                false,
            )[j] by {
                lemma_cleared(before.bits, i as u32, j as u32);
            }
            assert(after@ =~= before@.update(i as int, false));
        }
    }
}

impl View for VisibilityMask {
    type V = Seq<bool>;

    /// The flags in order, one per trackable output.
    open spec fn view(&self) -> Seq<bool> {
        Seq::new(MASK_CAPACITY as nat, |i: int| self.flag(i))
    }
}

} // verus!
