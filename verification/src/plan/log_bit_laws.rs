//! What holds of log bits, of immortal objects and of the mutators that a plan goes through.
use crate::plan::gc_work::{
    ClearCommonPlanUnlogBits, CommonPlan, SetCommonPlanUnlogBits, SideLogBits,
};
use crate::policy::immortalspace::{ImmortalSpace, ImmortalSpaceArgs};
use crate::policy::lxr::largeobjectspace::LXRLargeObjectSpace;
use crate::vm::active_plan::{ActivePlan, SynchronizedMutatorIterator};
use crate::vm::vmspace::VMSpace;
use vstd::prelude::*;

verus! {

/// Whether every entry of the log table of the space is `value`.
pub open spec fn all_immortal_bits(space: ImmortalSpace, value: u8) -> bool {
    forall|i: int| 0 <= i < space.unlog@.len() ==> #[trigger] space.unlog@[i] == value
}

/// Whether every entry of the log table of the space is `value`.
pub open spec fn all_large_bits(space: LXRLargeObjectSpace, value: u8) -> bool {
    forall|i: int|
        0 <= i < space.los.field_unlog@.len() ==> #[trigger] space.los.field_unlog@[i] == value
}

/// The packet that sets log bits sets those of every space that it is given, and the one that clears them
/// clears them; marks stay, and no space comes or goes.
#[verifier::spinoff_prover]
pub proof fn law_log_bits_of_all_spaces_are_set_or_cleared(
    setting: &mut SetCommonPlanUnlogBits,
    a: &mut CommonPlan,
    large: &mut Option<LXRLargeObjectSpace>,
    clearing: &mut ClearCommonPlanUnlogBits,
    b: &mut CommonPlan,
    also_large: &mut Option<LXRLargeObjectSpace>,
)
    requires
        a.bits_wf(),
        b.bits_wf(),
        call_ensures(
            SetCommonPlanUnlogBits::do_work::<CommonPlan, LXRLargeObjectSpace>,
            (setting, a, large),
            (),
        ),
        call_ensures(
            ClearCommonPlanUnlogBits::do_work::<CommonPlan, LXRLargeObjectSpace>,
            (clearing, b, also_large),
            (),
        ),
    ensures
        all_immortal_bits(final(a).immortal, 1),
        all_immortal_bits(final(a).nonmoving, 1),
        final(a).immortal.unlog@.len() == old(a).immortal.unlog@.len(),
        final(a).nonmoving.unlog@.len() == old(a).nonmoving.unlog@.len(),
        final(a).immortal.mark == old(a).immortal.mark,
        final(a).nonmoving.mark == old(a).nonmoving.mark,
        *final(large) is Some == *old(large) is Some,
        *final(large) matches Some(s) ==> all_large_bits(s, 1) && s.los.field_unlog@.len() == old(large)->0.los.field_unlog@.len() && s.los.used == old(large)->0.los.used && s.rc == old(large)->0.rc,
        all_immortal_bits(final(b).immortal, 0),
        all_immortal_bits(final(b).nonmoving, 0),
        final(b).immortal.unlog@.len() == old(b).immortal.unlog@.len(),
        final(b).nonmoving.unlog@.len() == old(b).nonmoving.unlog@.len(),
        final(b).immortal.mark == old(b).immortal.mark,
        final(b).nonmoving.mark == old(b).nonmoving.mark,
        *final(also_large) is Some == *old(also_large) is Some,
        *final(also_large) matches Some(s) ==> all_large_bits(s, 0) && s.los.field_unlog@.len()
            == old(also_large)->0.los.field_unlog@.len() && s.los.used == old(also_large)->0.los.used && s.rc == old(also_large)->0.rc,
{
    lemma_both_tables(*a, *final(a), 1);
    lemma_both_tables(*b, *final(b), 0);
}

/// Where every bit of both spaces is the same, every bit of each is.
proof fn lemma_both_tables(before: CommonPlan, after: CommonPlan, value: u8)
    requires
        after.log_bits() == Seq::new(before.log_bits().len(), |i: int| value),
        CommonPlan::same_but_log_bits(before, after),
    ensures
        all_immortal_bits(after.immortal, value),
        all_immortal_bits(after.nonmoving, value),
        after.nonmoving.unlog@.len() == before.nonmoving.unlog@.len(),
{
    let n = after.immortal.unlog@.len();
    assert(after.log_bits().len() == n + after.nonmoving.unlog@.len());
    assert(before.log_bits().len() == before.immortal.unlog@.len() + before.nonmoving.unlog@.len());
    assert forall|i: int| 0 <= i < n implies #[trigger] after.immortal.unlog@[i] == value by {
        assert(after.log_bits()[i] == after.immortal.unlog@[i]);
    }
    assert forall|i: int| 0 <= i < after.nonmoving.unlog@.len() implies #[trigger]
    after.nonmoving.unlog@[i] == value by {
        assert(after.log_bits()[n + i] == after.nonmoving.unlog@[i]);
    }
}

/// A space fills its log table as asked, and keeps its marks.
#[verifier::spinoff_prover]
pub proof fn law_log_bits_of_a_space_are_set_or_cleared(
    filling: &mut ImmortalSpace,
    value: u8,
    setting: &mut ImmortalSpace,
    clearing: &mut ImmortalSpace,
    both: &mut CommonPlan,
    neither: &mut CommonPlan,
)
    requires
        call_ensures(ImmortalSpace::fill_side_log_bits, (filling, value), ()),
        call_ensures(ImmortalSpace::set_side_log_bits, (setting,), ()),
        call_ensures(ImmortalSpace::clear_side_log_bits, (clearing,), ()),
        call_ensures(CommonPlan::set_side_log_bits, (both,), ()),
        call_ensures(CommonPlan::clear_side_log_bits, (neither,), ()),
    ensures
        all_immortal_bits(*final(filling), value),
        final(filling).unlog@.len() == old(filling).unlog@.len(),
        final(filling).mark == old(filling).mark,
        final(filling).mark_state == old(filling).mark_state,
        all_immortal_bits(*final(setting), 1),
        final(setting).unlog@.len() == old(setting).unlog@.len(),
        final(setting).mark == old(setting).mark,
        all_immortal_bits(*final(clearing), 0),
        final(clearing).unlog@.len() == old(clearing).unlog@.len(),
        final(clearing).mark == old(clearing).mark,
        all_immortal_bits(final(both).immortal, 1) && all_immortal_bits(final(both).nonmoving, 1),
        all_immortal_bits(final(neither).immortal, 0) && all_immortal_bits(
            final(neither).nonmoving,
            0,
        ),
{
    lemma_both_tables(*both, *final(both), 1);
    lemma_both_tables(*neither, *final(neither), 0);
}

/// Whether the mark of the 16 bytes that `a` lies in says that the object there was reached.
pub open spec fn immortal_mark(space: ImmortalSpace, a: int) -> bool {
    space.mark@[(a - space.common.start) / 16] == space.mark_state
}

/// A space for a virtual machine's image. In a new one nothing is logged. At the start of a collection no object
/// that was reached counts as reached any more; at its end nothing is given up.
#[verifier::spinoff_prover]
pub proof fn law_immortal_objects_stay(
    args: ImmortalSpaceArgs,
    made: ImmortalSpace,
    preparing: &mut ImmortalSpace,
    releasing: &mut ImmortalSpace,
    also_preparing: &mut ImmortalSpace,
    also_releasing: &mut ImmortalSpace,
    a: int,
)
    requires
        call_ensures(<ImmortalSpace as VMSpace>::new, (args,), made),
        preparing.wf(),
        call_ensures(<ImmortalSpace as VMSpace>::prepare, (preparing,), ()),
        call_ensures(<ImmortalSpace as VMSpace>::release, (releasing,), ()),
        also_preparing.wf(),
        call_ensures(ImmortalSpace::prepare, (also_preparing,), ()),
        call_ensures(ImmortalSpace::release, (also_releasing,), ()),
    ensures
        made.common.start == args.start.0,
        made.mark@.len() == args.granules,
        all_immortal_bits(made, 0),
        immortal_mark(*old(preparing), a) ==> !immortal_mark(*final(preparing), a),
        final(preparing).mark_state <= 1,
        final(preparing).mark_state != old(preparing).mark_state,
        final(preparing).mark == old(preparing).mark,
        final(preparing).unlog == old(preparing).unlog,
        *final(releasing) == *old(releasing),
        immortal_mark(*old(also_preparing), a) ==> !immortal_mark(*final(also_preparing), a),
        final(also_preparing).mark_state != old(also_preparing).mark_state,
        *final(also_releasing) == *old(also_releasing),
{
}

/// Going through the mutators from the start: the first that is asked for is the first there is, whatever was
/// handed out before, then each of the others once and in order, and then there are none. Collecting gives
/// all of them.
#[verifier::spinoff_prover]
pub proof fn law_mutators_are_gone_through_once<A: ActivePlan>(
    plan: A,
    it: SynchronizedMutatorIterator<A>,
    first: &mut SynchronizedMutatorIterator<A>,
    p: &mut A,
    one: Option<usize>,
    second: &mut SynchronizedMutatorIterator<A>,
    q: &mut A,
    two: Option<usize>,
    collecting: &mut SynchronizedMutatorIterator<A>,
    r: &mut A,
    all: Vec<usize>,
)
    requires
        call_ensures(A::mutators, (&plan,), it),
        *first == it,
        call_ensures(SynchronizedMutatorIterator::<A>::next, (first, p), one),
        *second == *final(first),
        *q == *final(p),
        call_ensures(SynchronizedMutatorIterator::<A>::next, (second, q), two),
        *collecting == it,
        call_ensures(SynchronizedMutatorIterator::<A>::collect, (collecting, r), all),
    ensures
        one is Some <==> old(p).threads().len() > 0,
        one matches Some(t) ==> t == old(p).threads()[0],
        two is Some <==> old(p).threads().len() > 1,
        two matches Some(t) ==> t == old(p).threads()[1],
        final(q).threads() == old(p).threads(),
        all@ == old(r).threads(),
{
}

/// An iterator that has been used gives the mutator that comes next, and stays at the end once it is there.
#[verifier::spinoff_prover]
pub proof fn law_mutators_come_in_order<A: ActivePlan>(
    it: &mut SynchronizedMutatorIterator<A>,
    plan: &mut A,
    m: Option<usize>,
)
    requires
        !it.start,
        call_ensures(SynchronizedMutatorIterator::<A>::next, (it, plan), m),
    ensures
        ({
            let at = old(plan).position();
            let all = old(plan).threads();
            &&& at < all.len() ==> m == Some(all[at as int]) && final(plan).position() == at + 1
            &&& at >= all.len() ==> m is None && final(plan).position() == at
        }),
        final(plan).threads() == old(plan).threads(),
        !final(it).start,
{
}

/// In a new space no word is to be logged; it lies where it was asked to, and has an entry for every 16 bytes.
pub proof fn law_new_immortal_space_logs_nothing(args: ImmortalSpaceArgs, space: ImmortalSpace)
    requires
        call_ensures(ImmortalSpace::new, (args,), space),
    ensures
        all_immortal_bits(space, 0),
        space.unlog@.len() == args.granules,
        space.mark@.len() == args.granules,
        space.common.start == args.start@,
        space.common.name == args.name,
        space.common.needs_log_bit == args.needs_log_bit,
        space.common.extra_metadata@.len() == 0,
{
}

} // verus!
