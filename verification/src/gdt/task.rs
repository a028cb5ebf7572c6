//! The Task State Segment.
//!
//! The segment itself is the `TaskStateSegment` of the `x86` crate. Verified
//! code sees it through the stack pointers that it holds; what the crate's
//! functions do to them is stated next to each call.

use vstd::prelude::*;
use x86::bits64::task::TaskStateSegment;

verus! {

/// The `TaskStateSegment` of the `x86` crate.
#[verifier::external_type_specification]
#[verifier::external_body]
pub struct ExTaskStateSegment(TaskStateSegment);

/// The seven stack pointers of the interrupt stack table of a segment.
pub uninterp spec fn ist_pointers(tss: TaskStateSegment) -> Seq<u64>;

/// The three stack pointers of a segment for the privilege levels 0 to 2.
pub uninterp spec fn rsp_pointers(tss: TaskStateSegment) -> Seq<u64>;

/// A segment with all ten stack pointers zero.
pub fn empty_tss() -> (tss: TaskStateSegment)
    ensures
        ist_pointers(tss) == Seq::new(7, |i: int| 0u64),
        rsp_pointers(tss) == Seq::new(3, |i: int| 0u64),
{
    tss_new()
}

/// `TaskStateSegment::new` of the `x86` crate: a segment with all ten stack
/// pointers zero.
#[verifier::external_body]
pub(crate) fn tss_new() -> (tss: TaskStateSegment)
    ensures
        ist_pointers(tss) == Seq::new(7, |i: int| 0u64),
        rsp_pointers(tss) == Seq::new(3, |i: int| 0u64),
{
    TaskStateSegment::new()
}

/// `TaskStateSegment::set_ist` of the `x86` crate: entry `index` of the
/// interrupt stack table, which has seven entries, becomes `stack_ptr`, and
/// nothing else changes. It does not return for an index from 7 on, so the
/// call is made only below that.
#[verifier::external_body]
pub(crate) fn tss_set_ist(tss: &mut TaskStateSegment, index: usize, stack_ptr: u64)
    requires
        index < 7,
    ensures
        ist_pointers(*final(tss)).len() == 7,
        ist_pointers(*final(tss))[index as int] == stack_ptr,
        forall|j: int|
            0 <= j < 7 && j != index ==> #[trigger] ist_pointers(*final(tss))[j] == ist_pointers(
                *old(tss),
            )[j],
        rsp_pointers(*final(tss)) == rsp_pointers(*old(tss)),
{
    tss.set_ist(index, stack_ptr);
}

/// `TaskStateSegment::set_rsp` of the `x86` crate for ring 0: of the three
/// stack pointers of the levels 0 to 2, that of level 0 becomes `stack_ptr`,
/// and nothing else changes.
#[verifier::external_body]
pub(crate) fn tss_set_rsp0(tss: &mut TaskStateSegment, stack_ptr: u64)
    ensures
        rsp_pointers(*final(tss)).len() == 3,
        rsp_pointers(*final(tss))[0] == stack_ptr,
        rsp_pointers(*final(tss))[1] == rsp_pointers(*old(tss))[1],
        rsp_pointers(*final(tss))[2] == rsp_pointers(*old(tss))[2],
        ist_pointers(*final(tss)) == ist_pointers(*old(tss)),
{
    tss.set_rsp(x86::Ring::Ring0, stack_ptr);
}

/// Points the segment at the interrupt stacks, whose bottoms are given:
/// entry `i` of the interrupt stack table becomes `stacks[i]`, and the first
/// stack also serves interrupts that arrive at ring 0.
pub fn init_tss(tss: &mut TaskStateSegment, stacks: &[u64; 7])
    ensures
        ist_pointers(*final(tss)) == stacks@,
        rsp_pointers(*final(tss)).len() == 3,
        rsp_pointers(*final(tss))[0] == stacks@[0],
        rsp_pointers(*final(tss))[1] == rsp_pointers(*old(tss))[1],
        rsp_pointers(*final(tss))[2] == rsp_pointers(*old(tss))[2],
{
    for i in 0..7
        invariant
            i > 0 ==> ist_pointers(*tss).len() == 7,
            rsp_pointers(*tss) == rsp_pointers(*old(tss)),
            forall|j: int| 0 <= j < i ==> ist_pointers(*tss)[j] == stacks@[j],
    {
        tss_set_ist(tss, i, stacks[i]);
    }
    // for now use IST[0] as a regular interrupt stack
    tss_set_rsp0(tss, stacks[0]);
    assert(ist_pointers(*tss) =~= stacks@);
}

} // verus!
