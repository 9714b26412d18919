//! What the search finds on a bus whose devices behave: every device, each
//! once, in a fixed order.
//!
//! The devices are a set of addresses. On the wire a device that takes part
//! sends its bit and then the complement of it, and the line is low as soon as
//! one device pulls it low; a device drops out when the master names the
//! other value. From that alone this module derives which device a search
//! finds, from which state, and what state it leaves.

use crate::address::Address;
use crate::bus::Reply;
use crate::error::Error;
use crate::search::{
    bit64, lemma_step_keeps_wf, spec_conclude, spec_decide, with_bit, SearchState, SearchView,
    Stage,
};
use vstd::prelude::*;
use vstd::set_lib::lemma_len_subset;

verus! {

/// The bits below `index`, all set.
pub open spec fn below(index: u8) -> u64 {
    if index >= 64 {
        0xffff_ffff_ffff_ffff
    } else {
        ((1u64 << index) - 1) as u64
    }
}

/// Whether two addresses have the same bits below `index`.
pub open spec fn agree_below(a: u64, b: u64, index: u8) -> bool {
    (a ^ b) & below(index) == 0
}

/// Whether `index` is the lowest bit at which two addresses differ, with the
/// zero in `a` and the one in `b`.
pub open spec fn part_at(a: u64, b: u64, index: u8) -> bool {
    index < 64 && agree_below(a, b, index) && !bit64(a, index) && bit64(b, index)
}

/// The order in which a search goes through addresses: at the lowest bit at
/// which two of them differ, the one with the zero comes first.
pub open spec fn comes_before(a: u64, b: u64) -> bool {
    exists|index: u8| part_at(a, b, index)
}

proof fn lemma_agree_step(a: u64, b: u64, index: u8)
    by (bit_vector)
    requires
        index < 64,
    ensures
        agree_below(a, b, (index + 1) as u8) <==> agree_below(a, b, index) && bit64(a, index)
            == bit64(b, index),
{
}

proof fn lemma_agree_lower(a: u64, b: u64, index: u8, lower: u8)
    by (bit_vector)
    requires
        lower <= index,
        agree_below(a, b, index),
    ensures
        agree_below(a, b, lower),
        lower < index && lower < 64 ==> bit64(a, lower) == bit64(b, lower),
{
}

proof fn lemma_agree_relation(a: u64, b: u64, c: u64, index: u8)
    by (bit_vector)
    ensures
        agree_below(a, a, index),
        agree_below(a, b, index) == agree_below(b, a, index),
        agree_below(a, b, index) && agree_below(b, c, index) ==> agree_below(a, c, index),
        agree_below(a, b, 0),
{
}

proof fn lemma_agree_all(a: u64, b: u64)
    by (bit_vector)
    requires
        agree_below(a, b, 64),
    ensures
        a == b,
{
}

proof fn lemma_with_bit(word: u64, index: u8, other: u8)
    by (bit_vector)
    requires
        index < 64,
        other < 64,
    ensures
        bit64(with_bit(word, index), index),
        other != index ==> bit64(with_bit(word, index), other) == bit64(word, other),
        !bit64(0, other),
{
}

proof fn lemma_with_bit_agrees(word: u64, index: u8, any: u64, lower: u8)
    by (bit_vector)
    requires
        index < 64,
        lower <= index,
    ensures
        agree_below(with_bit(word, index), any, lower) == agree_below(word, any, lower),
        agree_below(with_bit(word, index), word, lower),
{
}

/// Two different addresses differ at a lowest bit.
proof fn lemma_lowest_difference(a: u64, b: u64, index: u8)
    requires
        a != b,
        index <= 64,
        agree_below(a, b, index),
    ensures
        comes_before(a, b) || comes_before(b, a),
    decreases 64 - index,
{
    if index == 64 {
        lemma_agree_all(a, b);
    } else if bit64(a, index) == bit64(b, index) {
        lemma_agree_step(a, b, index);
        lemma_lowest_difference(a, b, (index + 1) as u8);
    } else if bit64(b, index) {
        assert(part_at(a, b, index));
    } else {
        lemma_agree_relation(a, b, a, index);
        assert(part_at(b, a, index));
    }
}

/// The order of the search is a strict total order on addresses: of two
/// different addresses exactly one comes before the other, none comes before
/// itself, and what comes before an address comes before all that come after
/// it.
pub proof fn lemma_search_order_is_total(a: u64, b: u64, c: u64)
    ensures
        !comes_before(a, a),
        a != b ==> (comes_before(a, b) <==> !comes_before(b, a)),
        comes_before(a, b) && comes_before(b, c) ==> comes_before(a, c),
{
    if a != b {
        lemma_agree_relation(a, b, a, 0);
        lemma_lowest_difference(a, b, 0);
        if comes_before(a, b) && comes_before(b, a) {
            let i = choose|i: u8| part_at(a, b, i);
            let j = choose|j: u8| part_at(b, a, j);
            if i < j {
                lemma_agree_lower(b, a, j, i);
            } else if j < i {
                lemma_agree_lower(a, b, i, j);
            }
        }
    }
    if comes_before(a, b) && comes_before(b, c) {
        let i = choose|i: u8| part_at(a, b, i);
        let j = choose|j: u8| part_at(b, c, j);
        if i <= j {
            lemma_agree_lower(b, c, j, i);
            lemma_agree_relation(a, b, c, i);
            assert(part_at(a, c, i));
        } else {
            lemma_agree_lower(a, b, i, j);
            lemma_agree_relation(a, b, c, j);
            assert(part_at(a, c, j));
        }
    }
}

/// Whether every device that still takes part at bit `index` holds `value`
/// there. The devices that take part are those that agree below `index` with
/// what the master has named so far.
pub open spec fn all_hold(devices: Set<u64>, named: u64, index: u8, value: bool) -> bool {
    forall|d: u64| #[trigger]
        devices.contains(d) && agree_below(d, named, index) ==> bit64(d, index) == value
}

/// What a bus replies to the pending action of a search. The `devices` are
/// those that take part in the search; `bystanders` says whether there are
/// others on the bus, which answer a reset and then keep out of the search,
/// as devices without an alarm do when only alarms are searched for.
///
/// A reset is answered if there is a device at all. In a read slot the line
/// stays high only if no device pulls it low: the bit reads as one if all
/// devices that take part hold a one, and its complement reads as one if all
/// of them hold a zero.
pub open spec fn faithful_reply(devices: Set<u64>, bystanders: bool, search: SearchView)
    -> Reply {
    match search.stage {
        Stage::Reset => Reply::Presence(bystanders || exists|d: u64| devices.contains(d)),
        Stage::Command => Reply::Done,
        Stage::Bit => Reply::Bit(all_hold(devices, search.progress.address, search.index, true)),
        Stage::Complement => Reply::Bit(
            all_hold(devices, search.progress.address, search.index, false),
        ),
        Stage::Direction => Reply::Done,
    }
}

/// The search after `steps` actions on a bus with these devices.
pub open spec fn drive(devices: Set<u64>, bystanders: bool, search: SearchView, steps: nat)
    -> SearchView
    decreases steps,
{
    if steps == 0 {
        search
    } else {
        drive(
            devices,
            bystanders,
            search.step(faithful_reply(devices, bystanders, search)),
            (steps - 1) as nat,
        )
    }
}

/// The number of actions of a whole search: the reset, the eight bits of the
/// command, and two reads and a write for each of the 64 bits of the address.
pub open spec fn search_length() -> nat {
    201
}

/// How a search ends on a bus with these devices.
pub open spec fn search_on(
    devices: Set<u64>,
    bystanders: bool,
    prior: Option<SearchState>,
    alarm_only: bool,
)
    -> Option<Result<Option<(Address, SearchState)>, Error>> {
    drive(devices, bystanders, SearchView::fresh(prior, alarm_only), search_length()).outcome
}

proof fn lemma_drive_splits(
    devices: Set<u64>,
    bystanders: bool,
    search: SearchView,
    first: nat,
    then: nat,
)
    ensures
        drive(devices, bystanders, search, first + then) == drive(
            devices,
            bystanders,
            drive(devices, bystanders, search, first),
            then,
        ),
    decreases first,
{
    if first > 0 {
        lemma_drive_splits(
            devices,
            bystanders,
            search.step(faithful_reply(devices, bystanders, search)),
            (first - 1) as nat,
            then,
        );
    }
}

proof fn lemma_drive_keeps_wf(devices: Set<u64>, bystanders: bool, search: SearchView, steps: nat)
    requires
        search.wf(),
    ensures
        drive(devices, bystanders, search, steps).wf(),
    decreases steps,
{
    if steps > 0 {
        lemma_step_keeps_wf(search, faithful_reply(devices, bystanders, search));
        lemma_drive_keeps_wf(
            devices,
            bystanders,
            search.step(faithful_reply(devices, bystanders, search)),
            (steps - 1) as nat,
        );
    }
}

proof fn lemma_drive_finished(devices: Set<u64>, bystanders: bool, search: SearchView, steps: nat)
    requires
        search.outcome is Some,
    ensures
        drive(devices, bystanders, search, steps) == search,
    decreases steps,
{
    if steps > 0 {
        lemma_drive_finished(devices, bystanders, search, (steps - 1) as nat);
    }
}

/// The reset and the command byte: on a bus with a device, nine actions
/// bring a search to the first bit of the address.
proof fn lemma_opening(
    devices: Set<u64>,
    bystanders: bool,
    prior: Option<SearchState>,
    alarm_only: bool,
)
    requires
        bystanders || exists|d: u64| devices.contains(d),
        prior matches Some(p) ==> p.wf() && !p.exhausted(),
    ensures
        drive(devices, bystanders, SearchView::fresh(prior, alarm_only), 9) == (SearchView {
            stage: Stage::Bit,
            ..SearchView::fresh(prior, alarm_only)
        }),
{
    reveal_with_fuel(drive, 10);
}

/// One bit of the address: two reads and a write. The search acts on what
/// the devices that take part hold at this bit.
proof fn lemma_round(devices: Set<u64>, bystanders: bool, search: SearchView)
    requires
        search.wf(),
        search.outcome is None,
        search.stage == Stage::Bit,
    ensures
        ({
            let bit = all_hold(devices, search.progress.address, search.index, true);
            let complement = all_hold(devices, search.progress.address, search.index, false);
            let after = drive(devices, bystanders, search, 3);
            match spec_decide(search.prior, search.index, bit, complement) {
                None => after.outcome == Some(
                    Err::<Option<(Address, SearchState)>, Error>(Error::UnexpectedResponse),
                ),
                Some(choice) => {
                    &&& after.wf()
                    &&& after.prior == search.prior
                    &&& after.progress == search.progress.record(search.index, choice)
                    &&& if search.index < 63 {
                        after.stage == Stage::Bit && after.index == search.index + 1
                            && after.outcome is None
                    } else {
                        after.outcome == Some(spec_conclude(after.progress))
                    }
                },
            }
        }),
{
    reveal_with_fuel(drive, 4);
    lemma_drive_keeps_wf(devices, bystanders, search, 3);
}

/// Whether a search that finds `address` leaves a branch behind at bit
/// `index`: the address holds a zero there, and some device that agrees with
/// it below holds a one.
pub open spec fn branch_left(devices: Set<u64>, address: u64, index: u8) -> bool {
    exists|d: u64| devices.contains(d) && part_at(address, d, index)
}

/// Whether `state` is the state in which a search leaves the bus when it has
/// found the device `state.address` among these: it marks exactly the
/// branches left behind on the way to that device.
pub open spec fn state_of(devices: Set<u64>, state: SearchState) -> bool {
    &&& state.wf()
    &&& devices.contains(state.address)
    &&& forall|i: u8|
        i < 64 ==> (#[trigger] bit64(state.discrepancies, i) <==> branch_left(
            devices,
            state.address,
            i,
        ))
}

/// Every address among the devices carries its checksum.
pub open spec fn all_valid(devices: Set<u64>) -> bool {
    forall|d: u64| #[trigger] devices.contains(d) ==> Address(d).spec_is_valid()
}

/// What holds of a search that has acted on the bits below `index`, and that
/// has gone by what it read from bit `from` on: what it has named is the
/// beginning of some device's address, it has marked the branches it left
/// behind, and from bit `from` on no device lies on a zero branch that it
/// passed by.
spec fn track(devices: Set<u64>, progress: SearchState, index: u8, from: u8) -> bool {
    &&& progress.address & below(index) == progress.address
    &&& exists|d: u64| devices.contains(d) && agree_below(d, progress.address, index)
    &&& forall|j: u8|
        j < index ==> (#[trigger] bit64(progress.discrepancies, j) <==> branch_left(
            devices,
            progress.address,
            j,
        ))
    &&& forall|d: u64, j: u8|
        devices.contains(d) && from <= j < index ==> !#[trigger] part_at(d, progress.address, j)
}

proof fn lemma_high_clear(word: u64, index: u8)
    by (bit_vector)
    requires
        index < 64,
        word & below(index) == word,
    ensures
        !bit64(word, index),
        word & below((index + 1) as u8) == word,
        with_bit(word, index) & below((index + 1) as u8) == with_bit(word, index),
{
}

proof fn lemma_nothing_named(index: u8)
    by (bit_vector)
    ensures
        0u64 & below(index) == 0u64,
{
}

proof fn lemma_marks_in_order(marks: u64, last: u8, index: u8)
    by (bit_vector)
    requires
        index < 64,
        last < 64,
    ensures
        (marks == 0 || (marks >> last == 1 && last < index)) ==> !bit64(marks, index),
        marks >> last == 1 ==> bit64(marks, last),
        marks >> last == 1 && bit64(marks, index) ==> index <= last,
{
}

/// Two addresses that agree up to and including a bit leave the same branch
/// behind there.
proof fn lemma_branch_transfer(devices: Set<u64>, a: u64, b: u64, index: u8)
    requires
        index < 64,
        agree_below(a, b, (index + 1) as u8),
    ensures
        branch_left(devices, a, index) == branch_left(devices, b, index),
        forall|d: u64| part_at(d, a, index) == part_at(d, b, index),
{
    lemma_agree_lower(a, b, (index + 1) as u8, index);
    lemma_agree_relation(a, b, a, index);
    if branch_left(devices, a, index) {
        let d = choose|d: u64| devices.contains(d) && part_at(a, d, index);
        lemma_agree_relation(b, a, d, index);
        assert(part_at(b, d, index));
    }
    if branch_left(devices, b, index) {
        let d = choose|d: u64| devices.contains(d) && part_at(b, d, index);
        lemma_agree_relation(a, b, d, index);
        assert(part_at(a, d, index));
    }
    assert forall|d: u64| part_at(d, a, index) == part_at(d, b, index) by {
        lemma_agree_relation(d, a, b, index);
        lemma_agree_relation(d, b, a, index);
    }
}

/// What the search does at a bit where it goes by what it reads.
spec fn read_choice(devices: Set<u64>, progress: SearchState, index: u8) -> Option<
    crate::search::Choice,
> {
    spec_decide(
        None,
        index,
        all_hold(devices, progress.address, index, true),
        all_hold(devices, progress.address, index, false),
    )
}

/// Acting on one more bit by what is read keeps the search on track.
proof fn lemma_track_step(devices: Set<u64>, progress: SearchState, index: u8, from: u8)
    requires
        index < 64,
        from <= index,
        track(devices, progress, index, from),
        progress.wf(),
        progress.discrepancies == 0 || progress.last_discrepancy_index < index,
    ensures
        read_choice(devices, progress, index) is Some,
        track(
            devices,
            progress.record(index, read_choice(devices, progress, index)->0),
            (index + 1) as u8,
            from,
        ),
{
    let a = progress.address;
    let marks = progress.discrepancies;
    let bit = all_hold(devices, a, index, true);
    let complement = all_hold(devices, a, index, false);
    let w = choose|d: u64| devices.contains(d) && agree_below(d, a, index);
    assert(devices.contains(w));
    let choice = read_choice(devices, progress, index)->0;
    let next = progress.record(index, choice);
    let up = (index + 1) as u8;
    lemma_high_clear(a, index);
    lemma_marks_in_order(marks, progress.last_discrepancy_index, index);
    lemma_with_bit(a, index, index);
    lemma_with_bit(marks, index, index);
    lemma_with_bit_agrees(a, index, a, index);
    // The address named so far and the one named next agree below this bit.
    assert(agree_below(next.address, a, index));
    // Some device goes along with what is named next.
    let along = if bit {
        w
    } else if complement {
        w
    } else {
        choose|d: u64| devices.contains(d) && agree_below(d, a, index) && bit64(d, index) != true
    };
    assert(devices.contains(along) && agree_below(along, a, index));
    assert(bit64(along, index) == bit64(next.address, index));
    lemma_agree_relation(along, a, next.address, index);
    lemma_agree_relation(next.address, a, a, index);
    lemma_agree_step(along, next.address, index);
    assert(agree_below(along, next.address, up));
    // The branches left behind below this bit are as before.
    assert forall|j: u8| j < up implies (#[trigger] bit64(next.discrepancies, j) <==> branch_left(
        devices,
        next.address,
        j,
    )) by {
        if j < index {
            lemma_with_bit(marks, index, j);
            lemma_agree_lower(next.address, a, index, (j + 1) as u8);
            lemma_branch_transfer(devices, next.address, a, j);
            assert(bit64(marks, j) <==> branch_left(devices, a, j));
        } else {
            if branch_left(devices, next.address, index) {
                let d = choose|d: u64| devices.contains(d) && part_at(next.address, d, index);
                lemma_agree_relation(d, next.address, a, index);
                assert(agree_below(d, a, index));
                assert(!complement);
                assert(!bit);
            }
            if !bit && !complement {
                let d = choose|d: u64|
                    devices.contains(d) && agree_below(d, a, index) && bit64(d, index) != false;
                lemma_agree_relation(d, a, a, index);
                assert(part_at(next.address, d, index));
            }
        }
    }
    // No device lies on a zero branch that the search passed by.
    assert forall|d: u64, j: u8| devices.contains(d) && from <= j < up implies !#[trigger] part_at(
        d,
        next.address,
        j,
    ) by {
        if j < index {
            lemma_agree_lower(next.address, a, index, (j + 1) as u8);
            lemma_branch_transfer(devices, next.address, a, j);
            assert(!part_at(d, a, j));
        } else if part_at(d, next.address, index) {
            lemma_agree_relation(d, next.address, a, index);
            assert(agree_below(d, a, index));
            assert(bit);
        }
    }
}

/// What holds of the outcome of a search that was on track: it has found a
/// device, it leaves the state of that device, and the device begins as the
/// search had named (`named` below bit `index`) and is the first to do so
/// from bit `from` on.
spec fn lands(
    devices: Set<u64>,
    outcome: Option<Result<Option<(Address, SearchState)>, Error>>,
    named: u64,
    index: u8,
    from: u8,
) -> bool {
    &&& outcome matches Some(Ok(Some(found)))
    &&& found.0.0 == found.1.address
    &&& state_of(devices, found.1)
    &&& agree_below(found.1.address, named, index)
    &&& forall|d: u64, j: u8|
        devices.contains(d) && from <= j < 64 ==> !#[trigger] part_at(d, found.1.address, j)
}

/// A search that is on track when it has acted on all 64 bits has found a
/// device.
proof fn lemma_conclusion(devices: Set<u64>, progress: SearchState, from: u8)
    requires
        all_valid(devices),
        progress.wf(),
        track(devices, progress, 64, from),
    ensures
        lands(devices, Some(spec_conclude(progress)), progress.address, 64, from),
{
    let d = choose|d: u64| devices.contains(d) && agree_below(d, progress.address, 64);
    lemma_agree_all(d, progress.address);
    assert(devices.contains(progress.address));
}

/// From a bit on which the search goes by what it reads, and on track, it
/// goes on to find a device.
proof fn lemma_descent(devices: Set<u64>, bystanders: bool, search: SearchView, from: u8)
    requires
        all_valid(devices),
        search.wf(),
        search.outcome is None,
        search.stage == Stage::Bit,
        search.prior matches Some(q) ==> q.last_discrepancy_index < search.index,
        from <= search.index,
        track(devices, search.progress, search.index, from),
    ensures
        lands(
            devices,
            drive(devices, bystanders, search, (3 * (64 - search.index)) as nat).outcome,
            search.progress.address,
            search.index,
            from,
        ),
    decreases 64 - search.index,
{
    let index = search.index;
    let rest = (3 * (63 - index)) as nat;
    lemma_track_step(devices, search.progress, index, from);
    lemma_round(devices, bystanders, search);
    lemma_drive_splits(devices, bystanders, search, 3, rest);
    let after = drive(devices, bystanders, search, 3);
    let next = after.progress;
    assert(spec_decide(
        search.prior,
        index,
        all_hold(devices, search.progress.address, index, true),
        all_hold(devices, search.progress.address, index, false),
    ) == read_choice(devices, search.progress, index));
    lemma_with_bit_agrees(search.progress.address, index, search.progress.address, index);
    assert(agree_below(next.address, search.progress.address, index));
    if index < 63 {
        lemma_descent(devices, bystanders, after, from);
        let found = drive(devices, bystanders, after, rest).outcome->0->Ok_0->0;
        lemma_agree_lower(found.1.address, next.address, (index + 1) as u8, index);
        lemma_agree_relation(found.1.address, next.address, search.progress.address, index);
    } else {
        lemma_conclusion(devices, next, from);
    }
}

/// On a bus with a device, the first search finds the device that comes
/// first of all, and leaves the state of that device.
pub proof fn lemma_first_search_finds_first_device(
    devices: Set<u64>,
    bystanders: bool,
    alarm_only: bool,
)
    requires
        all_valid(devices),
        exists|d: u64| devices.contains(d),
    ensures
        search_on(devices, bystanders, None, alarm_only) matches Some(Ok(Some(found))) && found.0.0
            == found.1.address && state_of(devices, found.1) && forall|d: u64|
            devices.contains(d) ==> !comes_before(d, found.0.0),
{
    let start = SearchView::fresh(None, alarm_only);
    lemma_opening(devices, bystanders, None, alarm_only);
    lemma_drive_splits(devices, bystanders, start, 9, 192);
    let ready = drive(devices, bystanders, start, 9);
    let d = choose|d: u64| devices.contains(d);
    lemma_agree_relation(d, 0, 0, 0);
    lemma_nothing_named(0);
    assert(track(devices, ready.progress, 0, 0));
    lemma_descent(devices, bystanders, ready, 0);
    let found = search_on(devices, bystanders, None, alarm_only)->0->Ok_0->0;
    assert forall|d: u64| devices.contains(d) implies !comes_before(d, found.0.0) by {
        if comes_before(d, found.0.0) {
            let j = choose|j: u8| part_at(d, found.0.0, j);
            assert(part_at(d, found.1.address, j));
        }
    }
}

/// What holds of a search that retraces an earlier one, as long as it is
/// below the bit at which it is to take the other branch: it has named what
/// the earlier search named, and it has marked the branches that the earlier
/// one left behind.
spec fn retracing(devices: Set<u64>, search: SearchView, earlier: SearchState) -> bool {
    &&& search.wf()
    &&& search.outcome is None
    &&& search.stage == Stage::Bit
    &&& search.prior == Some(earlier)
    &&& search.index <= earlier.last_discrepancy_index
    &&& search.progress.address & below(search.index) == search.progress.address
    &&& agree_below(search.progress.address, earlier.address, search.index)
    &&& forall|j: u8|
        j < search.index ==> (#[trigger] bit64(search.progress.discrepancies, j) <==> branch_left(
            devices,
            search.progress.address,
            j,
        ))
}

/// What holds of the outcome of a search that resumes an earlier one: it has
/// found a device, it leaves the state of that device, and the device parts
/// from the one found earlier at the highest branch that was left behind,
/// and is the first beyond that branch.
spec fn lands_beyond(
    devices: Set<u64>,
    outcome: Option<Result<Option<(Address, SearchState)>, Error>>,
    earlier: SearchState,
) -> bool {
    &&& outcome matches Some(Ok(Some(found)))
    &&& found.0.0 == found.1.address
    &&& state_of(devices, found.1)
    &&& part_at(earlier.address, found.1.address, earlier.last_discrepancy_index)
    &&& forall|d: u64, j: u8|
        devices.contains(d) && earlier.last_discrepancy_index < j < 64 ==> !#[trigger] part_at(
            d,
            found.1.address,
            j,
        )
}

/// The bit at which a resumed search leaves the path of the earlier one:
/// the devices disagree there as they did before, and the search takes the
/// one branch and goes on by what it reads.
proof fn lemma_branch_off(
    devices: Set<u64>,
    bystanders: bool,
    search: SearchView,
    earlier: SearchState,
)
    requires
        all_valid(devices),
        state_of(devices, earlier),
        !earlier.exhausted(),
        retracing(devices, search, earlier),
        search.index == earlier.last_discrepancy_index,
    ensures
        lands_beyond(
            devices,
            drive(devices, bystanders, search, (3 * (64 - search.index)) as nat).outcome,
            earlier,
        ),
{
    let index = search.index;
    let a = search.progress.address;
    let marks = search.progress.discrepancies;
    let rest = (3 * (63 - index)) as nat;
    lemma_marks_in_order(earlier.discrepancies, index, index);
    assert(bit64(earlier.discrepancies, index));
    assert(branch_left(devices, earlier.address, index));
    let other = choose|d: u64| devices.contains(d) && part_at(earlier.address, d, index);
    lemma_agree_relation(earlier.address, a, a, index);
    lemma_agree_relation(other, earlier.address, a, index);
    assert(agree_below(earlier.address, a, index));
    assert(agree_below(other, a, index));
    assert(!all_hold(devices, a, index, true));
    assert(!all_hold(devices, a, index, false));
    lemma_round(devices, bystanders, search);
    lemma_drive_splits(devices, bystanders, search, 3, rest);
    let after = drive(devices, bystanders, search, 3);
    let next = after.progress;
    assert(next.address == with_bit(a, index));
    assert(next.discrepancies == marks);
    lemma_high_clear(a, index);
    lemma_with_bit(a, index, index);
    lemma_with_bit_agrees(a, index, other, index);
    lemma_agree_relation(other, a, next.address, index);
    lemma_agree_relation(next.address, other, a, index);
    lemma_agree_step(other, next.address, index);
    lemma_marks_in_order(marks, search.progress.last_discrepancy_index, index);
    let up = (index + 1) as u8;
    assert(agree_below(other, next.address, up));
    assert forall|j: u8| j < up implies (#[trigger] bit64(next.discrepancies, j) <==> branch_left(
        devices,
        next.address,
        j,
    )) by {
        if j < index {
            lemma_agree_lower(next.address, a, index, (j + 1) as u8);
            lemma_branch_transfer(devices, next.address, a, j);
            assert(bit64(marks, j) <==> branch_left(devices, a, j));
        }
    }
    assert(track(devices, next, up, up));
    // What is named now parts from the earlier device at this bit.
    lemma_agree_relation(a, next.address, a, index);
    lemma_agree_relation(earlier.address, a, next.address, index);
    assert(agree_below(earlier.address, next.address, index));
    if index < 63 {
        lemma_descent(devices, bystanders, after, up);
        let found = drive(devices, bystanders, after, rest).outcome->0->Ok_0->0;
        lemma_agree_lower(found.1.address, next.address, up, index);
        lemma_agree_relation(earlier.address, next.address, found.1.address, index);
        lemma_agree_relation(found.1.address, next.address, next.address, index);
    } else {
        lemma_conclusion(devices, next, up);
    }
}

/// A resumed search follows the earlier one up to the highest branch that
/// was left behind, and goes on from there.
proof fn lemma_retrace(
    devices: Set<u64>,
    bystanders: bool,
    search: SearchView,
    earlier: SearchState,
)
    requires
        all_valid(devices),
        state_of(devices, earlier),
        !earlier.exhausted(),
        retracing(devices, search, earlier),
    ensures
        lands_beyond(
            devices,
            drive(devices, bystanders, search, (3 * (64 - search.index)) as nat).outcome,
            earlier,
        ),
    decreases earlier.last_discrepancy_index - search.index,
{
    let index = search.index;
    if index == earlier.last_discrepancy_index {
        lemma_branch_off(devices, bystanders, search, earlier);
    } else {
        let a = search.progress.address;
        let marks = search.progress.discrepancies;
        let rest = (3 * (63 - index)) as nat;
        lemma_round(devices, bystanders, search);
        lemma_drive_splits(devices, bystanders, search, 3, rest);
        let after = drive(devices, bystanders, search, 3);
        let next = after.progress;
        let up = (index + 1) as u8;
        lemma_high_clear(a, index);
        lemma_with_bit(a, index, index);
        lemma_with_bit(marks, index, index);
        lemma_with_bit_agrees(a, index, a, index);
        lemma_with_bit_agrees(a, index, earlier.address, index);
        lemma_marks_in_order(marks, search.progress.last_discrepancy_index, index);
        assert(agree_below(next.address, a, index));
        assert(agree_below(next.address, earlier.address, index));
        assert(bit64(next.address, index) == bit64(earlier.address, index));
        lemma_agree_step(next.address, earlier.address, index);
        assert forall|j: u8| j < up implies (#[trigger] bit64(next.discrepancies, j)
            <==> branch_left(devices, next.address, j)) by {
            if j < index {
                lemma_with_bit(marks, index, j);
                lemma_agree_lower(next.address, a, index, (j + 1) as u8);
                lemma_branch_transfer(devices, next.address, a, j);
                assert(bit64(marks, j) <==> branch_left(devices, a, j));
            } else {
                lemma_branch_transfer(devices, next.address, earlier.address, index);
                assert(bit64(earlier.discrepancies, index) <==> branch_left(
                    devices,
                    earlier.address,
                    index,
                ));
            }
        }
        lemma_retrace(devices, bystanders, after, earlier);
    }
}

/// A search that resumes from the state of a device finds the device that
/// comes next, and leaves the state of that one; after the last device it
/// finds nothing.
///
/// The device found comes after the earlier one, and no device lies between
/// the two. Together with the first search, which finds the first device of
/// all, this makes a run of searches, each resumed from the state that the
/// one before it left, go through the devices in their order: every device
/// is found, and none twice.
pub proof fn lemma_next_search_finds_next_device(
    devices: Set<u64>,
    bystanders: bool,
    earlier: SearchState,
    alarm_only: bool,
)
    requires
        all_valid(devices),
        state_of(devices, earlier),
    ensures
        match search_on(devices, bystanders, Some(earlier), alarm_only) {
            Some(Ok(None)) => forall|d: u64|
                devices.contains(d) ==> !comes_before(earlier.address, d),
            Some(Ok(Some(found))) => {
                &&& found.0.0 == found.1.address
                &&& state_of(devices, found.1)
                &&& comes_before(earlier.address, found.0.0)
                &&& forall|d: u64|
                    devices.contains(d) && comes_before(earlier.address, d) ==> !comes_before(
                        d,
                        found.0.0,
                    )
            },
            _ => false,
        },
{
    let start = SearchView::fresh(Some(earlier), alarm_only);
    let last = earlier.last_discrepancy_index;
    if earlier.exhausted() {
        lemma_drive_finished(devices, bystanders, start, search_length());
        assert forall|d: u64| devices.contains(d) implies !comes_before(earlier.address, d) by {
            if comes_before(earlier.address, d) {
                let j = choose|j: u8| part_at(earlier.address, d, j);
                assert(branch_left(devices, earlier.address, j));
                assert(bit64(earlier.discrepancies, j));
                lemma_with_bit(0, j, j);
            }
        }
    } else {
        lemma_opening(devices, bystanders, Some(earlier), alarm_only);
        lemma_drive_splits(devices, bystanders, start, 9, 192);
        let ready = drive(devices, bystanders, start, 9);
        lemma_nothing_named(0);
        lemma_agree_relation(0, earlier.address, 0, 0);
        lemma_retrace(devices, bystanders, ready, earlier);
        let found = search_on(devices, bystanders, Some(earlier), alarm_only)->0->Ok_0->0;
        let next = found.1.address;
        assert(part_at(earlier.address, next, last));
        assert forall|d: u64|
            devices.contains(d) && comes_before(earlier.address, d) implies !comes_before(
            d,
            next,
        ) by {
            let j = choose|j: u8| part_at(earlier.address, d, j);
            assert(branch_left(devices, earlier.address, j));
            assert(bit64(earlier.discrepancies, j));
            lemma_marks_in_order(earlier.discrepancies, last, j);
            if comes_before(d, next) {
                let k = choose|k: u8| part_at(d, next, k);
                if j < last {
                    // The two part below the branch, where the device found
                    // still follows the earlier one.
                    lemma_agree_lower(earlier.address, next, last, j);
                    lemma_agree_relation(next, earlier.address, d, j);
                    assert(part_at(next, d, j));
                    lemma_search_order_is_total(d, next, d);
                } else {
                    // The two part at the branch or beyond it.
                    lemma_agree_relation(d, earlier.address, next, last);
                    lemma_agree_step(d, next, last);
                    if k <= last {
                        lemma_agree_lower(d, next, (last + 1) as u8, k);
                    } else {
                        assert(!part_at(d, next, k));
                    }
                }
            }
        }
    }
}

/// How search number `n` ends when each search but the first resumes from the
/// state that the one before it left. Once a search has found nothing, or has
/// failed, that is how all later ones end.
pub open spec fn sweep(devices: Set<u64>, bystanders: bool, alarm_only: bool, n: nat) -> Option<
    Result<Option<(Address, SearchState)>, Error>,
>
    decreases n,
{
    if n == 0 {
        search_on(devices, bystanders, None, alarm_only)
    } else {
        match sweep(devices, bystanders, alarm_only, (n - 1) as nat) {
            Some(Ok(Some(found))) => search_on(devices, bystanders, Some(found.1), alarm_only),
            ended => ended,
        }
    }
}

/// The devices that come before an address.
pub open spec fn devices_before(devices: Set<u64>, address: u64) -> Set<u64> {
    devices.filter(|d: u64| comes_before(d, address))
}

/// On a bus without devices a search finds nothing. If no device takes part
/// but others answer the reset, the search reads what it cannot use.
proof fn lemma_empty_bus(devices: Set<u64>, bystanders: bool, alarm_only: bool)
    requires
        forall|d: u64| !devices.contains(d),
    ensures
        search_on(devices, bystanders, None, alarm_only) == Some(
            if bystanders {
                Err::<Option<(Address, SearchState)>, Error>(Error::UnexpectedResponse)
            } else {
                Ok(None)
            },
        ),
{
    let start = SearchView::fresh(None, alarm_only);
    if bystanders {
        lemma_opening(devices, bystanders, None, alarm_only);
        lemma_drive_splits(devices, bystanders, start, 9, 192);
        let ready = drive(devices, bystanders, start, 9);
        lemma_round(devices, bystanders, ready);
        lemma_drive_splits(devices, bystanders, ready, 3, 189);
        lemma_drive_finished(devices, bystanders, drive(devices, bystanders, ready, 3), 189);
    } else {
        reveal_with_fuel(drive, 2);
        lemma_drive_finished(
            devices,
            bystanders,
            start.step(faithful_reply(devices, bystanders, start)),
            200,
        );
    }
}

/// The searches of a sweep go through the devices in their order: search
/// number `n`, counted from zero, finds the device that has exactly `n`
/// devices before it, and when every device has been found the next search
/// finds nothing. No search of a sweep fails, but for one case: where
/// devices answer the reset and none of them takes part, every search ends
/// with `UnexpectedResponse`.
pub proof fn lemma_sweep_goes_in_order(
    devices: Set<u64>,
    bystanders: bool,
    alarm_only: bool,
    n: nat,
)
    requires
        devices.finite(),
        all_valid(devices),
    ensures
        n < devices.len() ==> (sweep(devices, bystanders, alarm_only, n) matches Some(Ok(Some(found)))
            && found.0.0 == found.1.address && state_of(devices, found.1) && devices_before(
            devices,
            found.0.0,
        ).len() == n),
        n >= devices.len() && !(bystanders && devices.len() == 0) ==> sweep(
            devices,
            bystanders,
            alarm_only,
            n,
        ) == Some(Ok::<Option<(Address, SearchState)>, Error>(None)),
        bystanders && devices.len() == 0 ==> sweep(devices, bystanders, alarm_only, n) == Some(
            Err::<Option<(Address, SearchState)>, Error>(Error::UnexpectedResponse),
        ),
    decreases n,
{
    broadcast use vstd::set::group_set_axioms;

    if n == 0 {
        if devices.len() == 0 {
            assert forall|d: u64| !devices.contains(d) by {
                if devices.contains(d) {
                    assert(devices.remove(d).insert(d) =~= devices);
                }
            }
            lemma_empty_bus(devices, bystanders, alarm_only);
        } else {
            assert(devices.contains(devices.choose()));
            lemma_first_search_finds_first_device(devices, bystanders, alarm_only);
            let found = search_on(devices, bystanders, None, alarm_only)->0->Ok_0->0;
            assert(devices_before(devices, found.0.0) =~= Set::<u64>::empty());
        }
    } else {
        lemma_sweep_goes_in_order(devices, bystanders, alarm_only, (n - 1) as nat);
        if n - 1 < devices.len() {
            let earlier = sweep(devices, bystanders, alarm_only, (n - 1) as nat)->0->Ok_0->0;
            let y = earlier.0.0;
            let before_y = devices_before(devices, y);
            lemma_next_search_finds_next_device(devices, bystanders, earlier.1, alarm_only);
            match search_on(devices, bystanders, Some(earlier.1), alarm_only) {
                Some(Ok(None)) => {
                    assert forall|d: u64| devices.contains(d) implies before_y.insert(y).contains(
                        d,
                    ) by {
                        lemma_search_order_is_total(d, y, d);
                    }
                    assert(before_y.insert(y) =~= devices);
                },
                Some(Ok(Some(found))) => {
                    let z = found.0.0;
                    let before_z = devices_before(devices, z);
                    assert forall|d: u64| before_z.contains(d) == before_y.insert(y).contains(
                        d,
                    ) by {
                        lemma_search_order_is_total(d, y, z);
                    }
                    assert(before_z =~= before_y.insert(y));
                    assert(before_z.subset_of(devices.remove(z)));
                    lemma_len_subset(before_z, devices.remove(z));
                },
                _ => {},
            }
        }
    }
}

/// A sweep finds every device, and each of them once: the device with `n`
/// devices before it is found by search number `n` and by no other.
pub proof fn lemma_sweep_finds_every_device_once(
    devices: Set<u64>,
    bystanders: bool,
    alarm_only: bool,
    device: u64,
)
    requires
        devices.finite(),
        all_valid(devices),
        devices.contains(device),
    ensures
        sweep(devices, bystanders, alarm_only, devices_before(devices, device).len()) matches Some(
            Ok(Some(found)),
        ) && found.0.0 == device,
        forall|n: nat|
            (#[trigger] sweep(devices, bystanders, alarm_only, n) matches Some(Ok(Some(found))) && found.0.0
                == device) ==> n == devices_before(devices, device).len(),
{
    broadcast use vstd::set::group_set_axioms;

    let before = devices_before(devices, device);
    let count = before.len();
    assert(before.subset_of(devices.remove(device)));
    lemma_len_subset(before, devices.remove(device));
    lemma_sweep_goes_in_order(devices, bystanders, alarm_only, count);
    let found = sweep(devices, bystanders, alarm_only, count)->0->Ok_0->0;
    let y = found.0.0;
    if y != device {
        let before_y = devices_before(devices, y);
        lemma_search_order_is_total(y, device, y);
        if comes_before(y, device) {
            assert forall|d: u64| before_y.insert(y).contains(d) implies before.contains(d) by {
                lemma_search_order_is_total(d, y, device);
            }
            lemma_len_subset(before_y.insert(y), before);
        } else {
            assert forall|d: u64| before.insert(device).contains(d) implies before_y.contains(
                d,
            ) by {
                lemma_search_order_is_total(d, device, y);
            }
            lemma_len_subset(before.insert(device), before_y);
        }
    }
    assert forall|n: nat|
        (#[trigger] sweep(devices, bystanders, alarm_only, n) matches Some(Ok(Some(other))) && other.0.0
            == device) implies n == count by {
        lemma_sweep_goes_in_order(devices, bystanders, alarm_only, n);
    }
}

} // verus!
