//! What holds of tables: what is written is read, and nothing else changes.
use crate::policy::immix::block::{Block, BlockState};
use crate::policy::immix::line::Line;
use crate::util::address::{Address, ObjectReference};
use crate::util::heap::chunk_map::ChunkMap;
use crate::util::metadata::side_metadata::SideTable;
use crate::util::object_forwarding::{
    state_is_forwarded_or_being_forwarded, ForwardingTable, BEING_FORWARDED, FORWARDED,
    FORWARDING_NOT_TRIGGERED_YET,
};
use crate::util::rc::RefCountHelper;
use crate::util::statistics::counter::array::BoundedArray;
use crate::vm::object_model::{CopySemantics, ObjectModel};
use vstd::arithmetic::div_mod::{lemma_fundamental_div_mod, lemma_mod_multiples_basic};
use vstd::prelude::*;

verus! {

/// A new table holds zeroes. What is stored at one place is loaded from there, and what was at another place
/// still is.
pub proof fn law_table_holds_what_was_stored(
    len: usize,
    made: SideTable,
    table: &mut SideTable,
    i: usize,
    value: u8,
    j: usize,
    was: u8,
    is: u8,
)
    requires
        call_ensures(SideTable::new, (len,), made),
        i < table@.len(),
        j < table@.len(),
        call_ensures(SideTable::load, (&*table, j), was),
        call_ensures(SideTable::store, (table, i, value), ()),
        call_ensures(SideTable::load, (&*final(table), j), is),
    ensures
        made@.len() == len,
        j < len ==> made@[j as int] == 0,
        final(table)@.len() == old(table)@.len(),
        j == i ==> is == value,
        j != i ==> is == was,
        was == old(table)@[j as int],
{
}

/// A range that is filled holds the value everywhere, and the rest of the table is as it was.
pub proof fn law_range_is_filled(
    table: &mut SideTable,
    lo: usize,
    hi: usize,
    value: u8,
    j: usize,
    is: u8,
)
    requires
        lo <= hi <= table@.len(),
        j < table@.len(),
        call_ensures(SideTable::fill, (table, lo, hi, value), ()),
        call_ensures(SideTable::load, (&*final(table), j), is),
    ensures
        final(table)@.len() == old(table)@.len(),
        lo <= j < hi ==> is == value,
        !(lo <= j < hi) ==> is == old(table)@[j as int],
{
}

/// An exchange succeeds exactly if the entry is the one expected. Either way it says what the entry was, and no
/// other entry changes. Of two that expect the same, with a new value that is another, only the first
/// succeeds.
pub proof fn law_exchange_succeeds_once(
    first: &mut SideTable,
    second: &mut SideTable,
    i: usize,
    current: u8,
    new: u8,
    r: Result<u8, u8>,
    again: Result<u8, u8>,
    j: int,
)
    requires
        i < first@.len(),
        call_ensures(SideTable::compare_exchange, (first, i, current, new), r),
        *second == *final(first),
        call_ensures(SideTable::compare_exchange, (second, i, current, new), again),
        0 <= j < first@.len(),
    ensures
        r is Ok <==> old(first)@[i as int] == current,
        r matches Ok(v) ==> v == current && final(first)@[i as int] == new,
        r matches Err(v) ==> v == old(first)@[i as int] && final(first)@ == old(first)@,
        j != i ==> final(first)@[j] == old(first)@[j],
        final(first)@.len() == old(first)@.len(),
        current != new && r is Ok ==> again == Err::<u8, u8>(new),
{
}

/// A chunk that is set holds what was set, and the others what they held.
pub proof fn law_chunk_is_what_was_set(
    chunks: usize,
    made: ChunkMap,
    map: &mut ChunkMap,
    chunk: usize,
    allocated: bool,
    j: int,
)
    requires
        call_ensures(ChunkMap::new, (chunks,), made),
        chunk < map@.len(),
        call_ensures(ChunkMap::set_allocated, (map, chunk, allocated), ()),
        0 <= j < map@.len(),
    ensures
        made.allocated@.len() == chunks,
        j < chunks ==> !made.allocated@[j],
        final(map).allocated@.len() == old(map).allocated@.len(),
        final(map).allocated@[j] == (if j == chunk {
            allocated
        } else {
            old(map).allocated@[j]
        }),
{
}

/// An array of phases: each place that there is holds what was set last, or the default; there are no others.
pub proof fn law_phases_hold_what_was_set<T: Copy, const N: usize>(
    default: T,
    made: BoundedArray<T, N>,
    first: Option<T>,
    array: &mut BoundedArray<T, N>,
    i: usize,
    value: T,
    done: bool,
    j: usize,
    was: Option<T>,
    is: Option<T>,
)
    requires
        call_ensures(BoundedArray::<T, N>::new, (default,), made),
        call_ensures(BoundedArray::<T, N>::get, (&made, j), first),
        array.wf(),
        call_ensures(BoundedArray::<T, N>::get, (&*array, j), was),
        call_ensures(BoundedArray::<T, N>::set, (array, i, value), done),
        call_ensures(BoundedArray::<T, N>::get, (&*final(array), j), is),
    ensures
        first == (if j < N {
            Some(default)
        } else {
            None
        }),
        done <==> i < N,
        j == i && i < N ==> is == Some(value),
        j != i ==> is == was,
        is is Some <==> j < N,
        was is Some <==> j < N,
{
}

/// The forwarding status of the 16 bytes that `a` lies in.
pub open spec fn status_at(table: ForwardingTable, a: int) -> u8 {
    table.status@[(a - table.start) / 16]
}

/// Only one worker gets the right to move an object: the one that finds that nobody has it. From then on the
/// next finds that somebody has. The status found is that of before, and nothing else changes.
#[verifier::spinoff_prover]
pub proof fn law_one_worker_moves_an_object(
    first: &mut ForwardingTable,
    second: &mut ForwardingTable,
    o: ObjectReference,
    status: u8,
    again: u8,
    claimed: bool,
    x: int,
)
    requires
        first.wf(),
        first.start <= o@ < first.start + first.status@.len() * 16,
        call_ensures(ForwardingTable::attempt_to_forward, (first, o), status),
        *second == *final(first),
        call_ensures(ForwardingTable::attempt_to_forward, (second, o), again),
        call_ensures(state_is_forwarded_or_being_forwarded, (again,), claimed),
        first.start <= x < first.start + first.status@.len() * 16,
    ensures
        status == status_at(*old(first), o@),
        status == 0 ==> status_at(*final(first), o@) == 2 && claimed && again == 2,
        status != 0 ==> final(first).status == old(first).status && again == status,
        (x - old(first).start) / 16 != (o@ - old(first).start) / 16 ==> status_at(*final(first), x)
            == status_at(*old(first), x),
        final(first).pointers == old(first).pointers,
        claimed == (again == 2 || again == 3),
        FORWARDING_NOT_TRIGGERED_YET == 0 && BEING_FORWARDED == 2 && FORWARDED == 3,
{
    assert(first.granule(o) == (o@ - first.start) / 16);
}

/// An object that is moved is recorded with its new place, which is read from then on; one for which there is
/// no room can be moved again later. Nothing else changes.
#[verifier::spinoff_prover]
pub proof fn law_new_place_is_recorded<VM: ObjectModel>(
    table: &mut ForwardingTable,
    o: ObjectReference,
    semantics: CopySemantics,
    vm: &mut VM,
    new: Option<ObjectReference>,
    moved: bool,
    read: ObjectReference,
    spun: ObjectReference,
    x: int,
)
    requires
        table.wf(),
        table.start <= o@ < table.start + table.status@.len() * 16,
        status_at(*table, o@) == 2,
        call_ensures(
            ForwardingTable::try_forward_object::<VM>,
            (table, o, semantics, vm),
            new,
        ),
        call_ensures(ForwardingTable::is_forwarded, (&*final(table), o), moved),
        call_ensures(ForwardingTable::read_forwarding_pointer, (&*final(table), o), read),
        call_ensures(
            ForwardingTable::spin_and_get_forwarded_object,
            (&*final(table), o, 2u8),
            spun,
        ),
        table.start <= x < table.start + table.status@.len() * 16,
    ensures
        new == old(vm).copy_target(o, semantics),
        new matches Some(to) ==> moved && read == to && spun == to && final(vm).size_of(to) == old(
            vm,
        ).size_of(o),
        new is None ==> !moved && spun == o && status_at(*final(table), o@) == 0,
        (x - old(table).start) / 16 != (o@ - old(table).start) / 16 ==> status_at(*final(table), x)
            == status_at(*old(table), x) && final(table).pointers@[(x - old(table).start) / 16]
            == old(table).pointers@[(x - old(table).start) / 16],
        final(table).start == old(table).start,
{
    assert(table.granule(o) == (o@ - table.start) / 16);
}

/// In a new table nothing is being moved or was.
pub proof fn law_nothing_is_moved_at_first(
    start: usize,
    granules: usize,
    table: ForwardingTable,
    o: ObjectReference,
    moved: bool,
)
    requires
        call_ensures(ForwardingTable::new, (start, granules), table),
        start <= o@ < start + granules * 16,
        call_ensures(ForwardingTable::is_forwarded, (&table, o), moved),
    ensures
        !moved,
        status_at(table, o@) == 0,
{
}

/// New counts are zero, and no line is covered. The increments buffered are forgotten when asked to, and nothing
/// else is.
pub proof fn law_counts_start_at_zero(
    start: usize,
    lines: usize,
    rc: RefCountHelper,
    o: ObjectReference,
    count: u8,
    dead: bool,
    line: usize,
    resetting: &mut RefCountHelper,
)
    requires
        call_ensures(RefCountHelper::new, (start, lines), rc),
        start <= o@ < start + lines * 256,
        call_ensures(RefCountHelper::count, (&rc, o), count),
        line < lines,
        call_ensures(RefCountHelper::is_line_dead, (&rc, line), dead),
        call_ensures(RefCountHelper::reset_inc_buffer_size, (resetting,), ()),
    ensures
        count == 0,
        dead,
        rc.straddle@[line as int] == 0,
        rc.inc_buffer_size == 0,
        final(resetting).inc_buffer_size == 0,
        final(resetting).counts == old(resetting).counts,
        final(resetting).straddle == old(resetting).straddle,
        final(resetting).start == old(resetting).start,
{
}

/// Rounding an address: down to the last multiple that is not after it, up to the first that is not before it;
/// it is a multiple exactly if both are the address itself.
#[verifier::spinoff_prover]
pub proof fn law_addresses_round_to_the_closest_multiple(
    a: Address,
    align: usize,
    down: Address,
    up: Address,
    is_aligned: bool,
    x: int,
)
    requires
        align > 0,
        a@ + align <= usize::MAX,
        call_ensures(Address::align_down, (&a, align), down),
        call_ensures(Address::align_up, (&a, align), up),
        call_ensures(Address::is_aligned_to, (&a, align), is_aligned),
        x % align as int == 0,
    ensures
        down@ <= a@ <= up@,
        down@ % align as int == 0,
        up@ % align as int == 0,
        x <= a@ ==> x <= down@,
        x >= a@ ==> x >= up@,
        is_aligned <==> down == a,
        is_aligned <==> up == a,
{
    let d = align as int;
    lemma_fundamental_div_mod(a@, d);
    lemma_fundamental_div_mod(x, d);
    let q = a@ / d;
    let r = a@ % d;
    let k = x / d;
    assert(down@ == d * q);
    assert(d * (q + 1) == d * q + d) by (nonlinear_arith);
    lemma_mod_multiples_basic(q, d);
    lemma_mod_multiples_basic(q + 1, d);
    assert(q * d == d * q && (q + 1) * d == d * (q + 1)) by (nonlinear_arith);
    if x <= a@ {
        assert(k <= q) by (nonlinear_arith)
            requires
                d * k <= d * q + r,
                r < d,
                d > 0,
        ;
        assert(d * k <= d * q) by (nonlinear_arith)
            requires
                k <= q,
                d > 0,
        ;
    }
    if x >= a@ {
        if r > 0 {
            assert(k >= q + 1) by (nonlinear_arith)
                requires
                    d * k >= d * q + r,
                    r > 0,
                    d > 0,
            ;
            assert(d * k >= d * (q + 1)) by (nonlinear_arith)
                requires
                    k >= q + 1,
                    d > 0,
            ;
        }
    }
}

/// Addresses and references: the zero address and the null reference are the ones that are found to be so, and
/// going on by some bytes gives the address so many bytes on.
pub proof fn law_addresses_are_numbers(
    zero: Address,
    a: Address,
    bytes: usize,
    further: Address,
    is_zero: bool,
    n: usize,
    null: ObjectReference,
    o: ObjectReference,
    is_null: bool,
    raw: Address,
)
    requires
        call_ensures(Address::zero, (), zero),
        call_ensures(Address::add_bytes, (&a, bytes), further),
        call_ensures(Address::is_zero, (&a,), is_zero),
        call_ensures(Address::as_usize, (&a,), n),
        call_ensures(ObjectReference::null, (), null),
        call_ensures(ObjectReference::is_null, (&o,), is_null),
        call_ensures(ObjectReference::to_raw_address, (&o,), raw),
    ensures
        is_zero <==> a == zero,
        n == a.0,
        zero.0 == 0,
        further.0 == a.0 + bytes,
        is_null <==> o == null,
        null.0 == 0,
        raw.0 == o.0,
{
}

/// A block and a line that contain an object begin at or before it, less than their size before, at a multiple
/// of their size; the line lies in the block.
#[verifier::spinoff_prover]
pub proof fn law_blocks_and_lines_contain_their_objects(
    o: ObjectReference,
    block: Block,
    line: Line,
    of_line: Block,
    unaligned: Block,
    start: Address,
    first: Line,
    index: usize,
)
    requires
        call_ensures(Block::containing, (o,), block),
        call_ensures(Line::containing, (o,), line),
        call_ensures(Line::block, (&line,), of_line),
        call_ensures(Block::from_unaligned_address, (Address(o.0),), unaligned),
        call_ensures(Block::start, (&block,), start),
        call_ensures(Block::first_line, (&block,), first),
        call_ensures(Line::get_index_within_block, (&line,), index),
    ensures
        block.0.0 <= o.0 < block.0.0 + 32768,
        block.0.0 % 32768 == 0,
        line.0.0 <= o.0 < line.0.0 + 256,
        line.0.0 % 256 == 0,
        of_line == block,
        unaligned == block,
        start == block.0,
        first.0 == block.0,
        index < 128,
        line.0.0 == block.0.0 + index * 256,
{
}

/// Lines one after the other: the next is one line on, and there are as many steps to a line as lines in
/// between; there are none to a line that comes before.
#[verifier::spinoff_prover]
pub proof fn law_lines_follow_one_another(
    line: Line,
    n: usize,
    further: Line,
    next: Line,
    steps: Option<usize>,
    back: Option<usize>,
)
    requires
        line.0.0 % 256 == 0,
        line.0.0 + n * 256 <= usize::MAX,
        line.0.0 + 256 <= usize::MAX,
        call_ensures(Line::next_nth, (&line, n), further),
        call_ensures(Line::next, (&line,), next),
        call_ensures(Line::steps_between, (&line, &further), steps),
        call_ensures(Line::steps_between, (&next, &line), back),
    ensures
        further.0.0 == line.0.0 + n * 256,
        next.0.0 == line.0.0 + 256,
        steps == Some(n),
        back is None,
{
}

/// A line counts as covered by an earlier object exactly if its entry says so. The end of a block is where the next
/// begins.
pub proof fn law_lines_and_ends(
    rc: RefCountHelper,
    a: Address,
    line: Line,
    covered: bool,
    block: Block,
    end: Address,
)
    requires
        rc.wf(),
        a.0 % 256 == 0,
        call_ensures(Line::from_aligned_address, (a,), line),
        call_ensures(RefCountHelper::is_straddle_line, (&rc, line), covered),
        call_ensures(Block::end, (&block,), end),
    ensures
        line.0 == a,
        covered <==> rc.straddle@[(a.0 - rc.start) / 256] != 0,
        end.0 == block.0.0 + 32768,
{
}

/// A block is reusable exactly if it was left with holes.
pub proof fn law_reusable_is_a_block_with_holes(state: BlockState, b: bool)
    requires
        call_ensures(BlockState::is_reusable, (&state,), b),
    ensures
        b <==> state matches BlockState::Reusable { unavailable_lines: _ },
{
}

} // verus!
