//! What holds of every request of the backend from its first call to its last.

use crate::slave_handler::{
    acceptable, answers, be64_at, entry_at, entry_steps, kept, le64_at, list_view, map_steps,
    mappable, stepped, word_at, ByteOrder, SlaveEntry, SlaveEvent, SlaveRequestView, SlaveStep,
    VhostUserRequestCode,
};
use vstd::arithmetic::div_mod::{lemma_div_denominator, lemma_small_mod};
use vstd::prelude::*;

verus! {

/// Where `events` leave `request`.
pub open spec fn request_after<D>(
    request: SlaveRequestView,
    events: Seq<SlaveEvent<D>>,
) -> SlaveRequestView
    decreases events.len(),
{
    if events.len() == 0 {
        request
    } else {
        stepped(request_after(request, events.drop_last()), events.last())
    }
}

/// The mappings of a handler that has had `desc_table` before `events`.
pub open spec fn table_after<D>(desc_table: Seq<D>, events: Seq<SlaveEvent<D>>) -> Seq<D>
    decreases events.len(),
{
    if events.len() == 0 {
        desc_table
    } else {
        kept(table_after(desc_table, events.drop_last()), events.last())
    }
}

/// Each of `events` is what the step at its place has yielded.
pub open spec fn all_answer<D>(steps: Seq<SlaveStep>, events: Seq<SlaveEvent<D>>) -> bool {
    &&& events.len() <= steps.len()
    &&& forall|i: int| 0 <= i < events.len() ==> answers(steps[i], #[trigger] events[i])
}

/// How many of the first `count` entries of a request to map are in use.
pub open spec fn used_entries(order: ByteOrder, bytes: Seq<u8>, count: int) -> int
    decreases count,
{
    if count <= 0 {
        0
    } else {
        used_entries(order, bytes, count - 1) + if entry_at(order, bytes, count - 1).len != 0 {
            1int
        } else {
            0
        }
    }
}

/// How many of `steps` map a part of a file.
pub open spec fn mappings(steps: Seq<SlaveStep>) -> int
    decreases steps.len(),
{
    if steps.len() == 0 {
        0
    } else {
        mappings(steps.drop_last()) + if steps.last() is MapFile {
            1int
        } else {
            0
        }
    }
}

/// The mappings of two rows of steps add up.
proof fn lemma_mappings_concat(a: Seq<SlaveStep>, b: Seq<SlaveStep>)
    ensures
        mappings(a + b) == mappings(a) + mappings(b),
    decreases b.len(),
{
    if b.len() == 0 {
        assert(a + b =~= a);
    } else {
        lemma_mappings_concat(a, b.drop_last());
        assert((a + b).drop_last() =~= a + b.drop_last());
    }
}

/// A request to map makes one mapping for each entry in use where files came with
/// it, and none where no files came.
pub proof fn law_one_mapping_for_each_entry(
    order: ByteOrder,
    bytes: Seq<u8>,
    fds: Option<Seq<i32>>,
    count: int,
)
    ensures
        mappings(map_steps(order, bytes, fds, count)) == if fds is Some {
            used_entries(order, bytes, count)
        } else {
            0
        },
    decreases count,
{
    if count > 0 {
        law_one_mapping_for_each_entry(order, bytes, fds, count - 1);
        let steps = entry_steps(entry_at(order, bytes, count - 1), fds);
        lemma_mappings_concat(map_steps(order, bytes, fds, count - 1), steps);
        reveal_with_fuel(mappings, 4);
        assert(mappings(steps) == if fds is Some && entry_at(order, bytes, count - 1).len != 0 {
            1int
        } else {
            0
        });
    }
}

/// The handler keeps the mapping of every call that has made one, behind those
/// that it has had before.
pub proof fn law_every_mapping_is_kept<D>(
    steps: Seq<SlaveStep>,
    events: Seq<SlaveEvent<D>>,
    desc_table: Seq<D>,
)
    requires
        all_answer(steps, events),
    ensures
        desc_table.is_prefix_of(table_after(desc_table, events)),
        table_after(desc_table, events).len() == desc_table.len() + mappings(
            steps.take(events.len() as int),
        ),
    decreases events.len(),
{
    let made = steps.take(events.len() as int);
    if events.len() > 0 {
        let before = events.drop_last();
        assert(all_answer(steps, before)) by {
            assert forall|i: int| 0 <= i < before.len() implies answers(
                steps[i],
                #[trigger] before[i],
            ) by {
                assert(answers(steps[i], events[i]));
            }
        }
        law_every_mapping_is_kept(steps, before, desc_table);
        assert(made.drop_last() =~= steps.take(before.len() as int));
        assert(answers(steps[events.len() - 1], events[events.len() - 1]));
    }
}

/// A call that maps comes right after the lookup of its entry.
proof fn lemma_map_after_lookup(
    order: ByteOrder,
    bytes: Seq<u8>,
    fds: Option<Seq<i32>>,
    count: int,
)
    ensures
        forall|k: int|
            0 <= k < map_steps(order, bytes, fds, count).len() && (#[trigger] map_steps(
                order,
                bytes,
                fds,
                count,
            )[k]) is MapFile ==> 1 <= k && map_steps(order, bytes, fds, count)[k - 1] is LookUp,
    decreases count,
{
    if count > 0 {
        lemma_map_after_lookup(order, bytes, fds, count - 1);
        let before = map_steps(order, bytes, fds, count - 1);
        let all = map_steps(order, bytes, fds, count);
        assert forall|k: int| 0 <= k < all.len() && (#[trigger] all[k]) is MapFile implies 1 <= k
            && all[k - 1] is LookUp by {
            if k < before.len() {
                assert(all[k] == before[k]);
                assert(all[k - 1] == before[k - 1]);
            }
        }
    }
}

/// Where the calls of a request stand after `events`.
proof fn lemma_request_after<D>(request: SlaveRequestView, events: Seq<SlaveEvent<D>>)
    ensures
        request_after(request, events).steps == request.steps,
        request_after(request, events).next == request.next + events.len(),
    decreases events.len(),
{
    if events.len() > 0 {
        lemma_request_after(request, events.drop_last());
    }
}

/// Every mapping is made at the address that was looked up just before it.
pub proof fn law_mapped_where_found<D>(
    request: SlaveRequestView,
    order: ByteOrder,
    bytes: Seq<u8>,
    fds: Option<Seq<i32>>,
    count: int,
    events: Seq<SlaveEvent<D>>,
)
    requires
        request.steps == map_steps(order, bytes, fds, count),
        request.next == 0,
        all_answer(request.steps, events),
        events.len() < request.steps.len(),
        request.steps[events.len() as int] is MapFile,
    ensures
        events.len() > 0,
        request.steps[events.len() - 1] is LookUp,
        events.last() == SlaveEvent::<D>::HostAddress(request_after(request, events).address),
        request_after(request, events).next == events.len(),
{
    lemma_map_after_lookup(order, bytes, fds, count);
    lemma_request_after(request, events);
    assert(answers(request.steps[events.len() - 1], events[events.len() - 1]));
}

/// The digits to the base 256 of a number below 2^64.
proof fn lemma_digits(
    w: int,
    b0: int,
    b1: int,
    b2: int,
    b3: int,
    b4: int,
    b5: int,
    b6: int,
    b7: int,
)
    requires
        0 <= b0 < 256 && 0 <= b1 < 256 && 0 <= b2 < 256 && 0 <= b3 < 256,
        0 <= b4 < 256 && 0 <= b5 < 256 && 0 <= b6 < 256 && 0 <= b7 < 256,
        w == b0 + 0x100 * b1 + 0x1_0000 * b2 + 0x100_0000 * b3 + 0x1_0000_0000 * b4
            + 0x100_0000_0000 * b5 + 0x1_0000_0000_0000 * b6 + 0x100_0000_0000_0000 * b7,
    ensures
        0 <= w <= u64::MAX,
        b0 == w % 256,
        b1 == w / 0x100 % 256,
        b2 == w / 0x1_0000 % 256,
        b3 == w / 0x100_0000 % 256,
        b4 == w / 0x1_0000_0000 % 256,
        b5 == w / 0x100_0000_0000 % 256,
        b6 == w / 0x1_0000_0000_0000 % 256,
        b7 == w / 0x100_0000_0000_0000 % 256,
{
    let r7 = b7;
    let r6 = b6 + 256 * r7;
    let r5 = b5 + 256 * r6;
    let r4 = b4 + 256 * r5;
    let r3 = b3 + 256 * r4;
    let r2 = b2 + 256 * r3;
    let r1 = b1 + 256 * r2;
    assert(w == b0 + 256 * r1);
    assert(w / 256 == r1 && r1 / 256 == r2 && r2 / 256 == r3 && r3 / 256 == r4);
    assert(r4 / 256 == r5 && r5 / 256 == r6 && r6 / 256 == r7);
    lemma_div_denominator(w, 0x100, 0x100);
    lemma_div_denominator(w, 0x1_0000, 0x100);
    lemma_div_denominator(w, 0x100_0000, 0x100);
    lemma_div_denominator(w, 0x1_0000_0000, 0x100);
    lemma_div_denominator(w, 0x100_0000_0000, 0x100);
    lemma_div_denominator(w, 0x1_0000_0000_0000, 0x100);
}

/// `byte` is the digit `k` of `w` to the base 256.
pub open spec fn is_digit(w: u64, k: int, byte: u8) -> bool {
    let w = w as int;
    byte as int == (if k == 0 {
        w
    } else if k == 1 {
        w / 0x100
    } else if k == 2 {
        w / 0x1_0000
    } else if k == 3 {
        w / 0x100_0000
    } else if k == 4 {
        w / 0x1_0000_0000
    } else if k == 5 {
        w / 0x100_0000_0000
    } else if k == 6 {
        w / 0x1_0000_0000_0000
    } else {
        w / 0x100_0000_0000_0000
    }) % 256
}

/// The eight bytes of a number are its digits to the base 256, from the least
/// significant on or up to it. So each of them counts, and with its own weight.
pub proof fn law_bytes_are_digits(bytes: Seq<u8>, at: int, k: int)
    requires
        0 <= at,
        at + 8 <= bytes.len(),
        0 <= k < 8,
    ensures
        is_digit(word_at(ByteOrder::Little, bytes, at), k, bytes[at + k]),
        is_digit(word_at(ByteOrder::Big, bytes, at), 7 - k, bytes[at + k]),
{
    lemma_digits(
        le64_at(bytes, at),
        bytes[at] as int,
        bytes[at + 1] as int,
        bytes[at + 2] as int,
        bytes[at + 3] as int,
        bytes[at + 4] as int,
        bytes[at + 5] as int,
        bytes[at + 6] as int,
        bytes[at + 7] as int,
    );
    lemma_digits(
        be64_at(bytes, at),
        bytes[at + 7] as int,
        bytes[at + 6] as int,
        bytes[at + 5] as int,
        bytes[at + 4] as int,
        bytes[at + 3] as int,
        bytes[at + 2] as int,
        bytes[at + 1] as int,
        bytes[at] as int,
    );
}

/// Where each byte of an entry stands: of entry `i`, byte `k` of the offset in the
/// file at `8 * i + k`, that of the offset in the cache 64 bytes behind it, that of
/// the length 128 bytes and that of the flags 192 bytes behind it.
pub proof fn law_entry_byte_by_byte(bytes: Seq<u8>, i: int, k: int)
    requires
        bytes.len() >= 256,
        0 <= i < 8,
        0 <= k < 8,
    ensures
        is_digit(entry_at(ByteOrder::Little, bytes, i).fd_off, k, bytes[8 * i + k]),
        is_digit(entry_at(ByteOrder::Little, bytes, i).c_off, k, bytes[64 + 8 * i + k]),
        is_digit(entry_at(ByteOrder::Little, bytes, i).len, k, bytes[128 + 8 * i + k]),
        is_digit(entry_at(ByteOrder::Little, bytes, i).flags, k, bytes[192 + 8 * i + k]),
        is_digit(entry_at(ByteOrder::Big, bytes, i).fd_off, 7 - k, bytes[8 * i + k]),
        is_digit(entry_at(ByteOrder::Big, bytes, i).c_off, 7 - k, bytes[64 + 8 * i + k]),
        is_digit(entry_at(ByteOrder::Big, bytes, i).len, 7 - k, bytes[128 + 8 * i + k]),
        is_digit(entry_at(ByteOrder::Big, bytes, i).flags, 7 - k, bytes[192 + 8 * i + k]),
{
    law_bytes_are_digits(bytes, 8 * i, k);
    law_bytes_are_digits(bytes, 64 + 8 * i, k);
    law_bytes_are_digits(bytes, 128 + 8 * i, k);
    law_bytes_are_digits(bytes, 192 + 8 * i, k);
}

/// What is left of a number that is held in a `usize`.
proof fn lemma_usize_cut(x: u64)
    ensures
        x as usize as int == x as int % (usize::MAX as int + 1),
{
    let room = usize::MAX as int + 1;
    if usize::BITS == 32 {
        assert(room == 0x1_0000_0000);
        assert(x as usize == x as u32);
        assert(x as u32 == x % 0x1_0000_0000) by (bit_vector);
        assert(x as int % room == x as int % 0x1_0000_0000);
    } else {
        assert(room == u64::MAX + 1);
        lemma_small_mod(x as nat, room as nat);
    }
}

/// The place of the first call for entry `i`: one call for each entry in use before
/// it, or three where files came with the request.
pub open spec fn entry_place(
    order: ByteOrder,
    bytes: Seq<u8>,
    fds: Option<Seq<i32>>,
    i: int,
) -> int {
    if fds is Some {
        3 * used_entries(order, bytes, i)
    } else {
        used_entries(order, bytes, i)
    }
}

/// The calls that one mappable entry needs.
proof fn lemma_entry_calls(entry: SlaveEntry, fds: Option<Seq<i32>>)
    requires
        mappable(entry, fds),
        entry.len != 0,
    ensures
        ({
            let steps = entry_steps(entry, fds);
            let room = usize::MAX as int + 1;
            &&& steps[0] matches SlaveStep::LookUp { addr } && addr as int == (0x5_5000_0000
                + entry.c_off) % room
            &&& fds is Some ==> {
                &&& steps[1] matches SlaveStep::MapFile { fd, len, offset } && fd == fds->0[0]
                    && len as int == entry.len as int % room && offset as int == entry.fd_off as int
                    % room
                &&& steps[2] == (SlaveStep::Close { fd: fds->0[0] })
            }
        }),
{
    let sum = (0x5_5000_0000 + entry.c_off) as u64;
    assert(sum == 0x5_5000_0000 + entry.c_off);
    lemma_usize_cut(sum);
    lemma_usize_cut(entry.len);
    lemma_usize_cut(entry.fd_off);
}

/// How many calls one entry needs.
proof fn lemma_entry_steps_len(entry: SlaveEntry, fds: Option<Seq<i32>>)
    ensures
        entry_steps(entry, fds).len() == if entry.len == 0 {
            0int
        } else if fds is Some {
            3
        } else {
            1
        },
{
}

/// How many calls the first `count` entries need.
proof fn lemma_map_steps_len(order: ByteOrder, bytes: Seq<u8>, fds: Option<Seq<i32>>, count: int)
    ensures
        0 <= used_entries(order, bytes, count),
        map_steps(order, bytes, fds, count).len() == entry_place(order, bytes, fds, count),
    decreases count,
{
    if count > 0 {
        lemma_map_steps_len(order, bytes, fds, count - 1);
        lemma_entry_steps_len(entry_at(order, bytes, count - 1), fds);
    }
}

/// The call `j` for entry `i` among those for the first `count` entries.
proof fn lemma_entry_place(
    order: ByteOrder,
    bytes: Seq<u8>,
    fds: Option<Seq<i32>>,
    i: int,
    j: int,
    count: int,
)
    requires
        0 <= i < count,
        0 <= j < entry_steps(entry_at(order, bytes, i), fds).len(),
    ensures
        0 <= entry_place(order, bytes, fds, i),
        entry_place(order, bytes, fds, i) + j < map_steps(order, bytes, fds, count).len(),
        map_steps(order, bytes, fds, count)[entry_place(order, bytes, fds, i) + j] == entry_steps(
            entry_at(order, bytes, i),
            fds,
        )[j],
    decreases count,
{
    lemma_map_steps_len(order, bytes, fds, count - 1);
    let before = map_steps(order, bytes, fds, count - 1);
    let last = entry_steps(entry_at(order, bytes, count - 1), fds);
    assert(map_steps(order, bytes, fds, count) == before + last);
    if i < count - 1 {
        lemma_entry_place(order, bytes, fds, i, j, count - 1);
    }
}

/// The calls for each entry of a request to map. An entry in use is looked up at
/// the start of the cache plus its offset there. Where files came with the request,
/// the first of them is mapped there, with the length of the entry and from its
/// offset in the file, and then closed. An entry without a length needs no call.
/// Numbers are cut down to what an address of this machine holds.
pub proof fn law_calls_for_each_entry(
    order: ByteOrder,
    bytes: Seq<u8>,
    fds: Option<Seq<i32>>,
    i: int,
)
    requires
        acceptable(VhostUserRequestCode::ResetOwner, order, bytes, fds),
        0 <= i < 8,
    ensures
        ({
            let steps = map_steps(order, bytes, fds, 8);
            let entry = entry_at(order, bytes, i);
            let at = entry_place(order, bytes, fds, i);
            let room = usize::MAX as int + 1;
            &&& steps.len() == entry_place(order, bytes, fds, 8)
            &&& entry.len == 0 ==> entry_place(order, bytes, fds, i + 1) == at
            &&& entry.len != 0 ==> {
                &&& 0 <= at < steps.len()
                &&& steps[at] matches SlaveStep::LookUp { addr } && addr as int == (0x5_5000_0000
                    + entry.c_off) % room
            }
            &&& entry.len != 0 && fds is None ==> entry_place(order, bytes, fds, i + 1) == at + 1
            &&& entry.len != 0 && fds is Some ==> {
                &&& entry_place(order, bytes, fds, i + 1) == at + 3
                &&& at + 2 < steps.len()
                &&& steps[at + 1] matches SlaveStep::MapFile { fd, len, offset } && fd == fds->0[0]
                    && len as int == entry.len as int % room && offset as int == entry.fd_off as int
                    % room
                &&& steps[at + 2] == (SlaveStep::Close { fd: fds->0[0] })
            }
        }),
{
    let entry = entry_at(order, bytes, i);
    lemma_map_steps_len(order, bytes, fds, 8);
    assert(used_entries(order, bytes, i + 1) == used_entries(order, bytes, i) + if entry.len != 0 {
        1int
    } else {
        0
    });
    if entry.len != 0 {
        lemma_entry_steps_len(entry, fds);
        lemma_entry_calls(entry, fds);
        lemma_entry_place(order, bytes, fds, i, 0, 8);
        if fds is Some {
            lemma_entry_place(order, bytes, fds, i, 1, 8);
            lemma_entry_place(order, bytes, fds, i, 2, 8);
        }
    }
}

/// Two entries in use are looked up exactly as far apart as their offsets in the
/// cache, where addresses of this machine hold both.
pub proof fn law_entries_lie_apart(
    order: ByteOrder,
    bytes: Seq<u8>,
    fds: Option<Seq<i32>>,
    i: int,
    j: int,
)
    requires
        acceptable(VhostUserRequestCode::ResetOwner, order, bytes, fds),
        0 <= i < 8,
        0 <= j < 8,
        entry_at(order, bytes, i).len != 0,
        entry_at(order, bytes, j).len != 0,
        0x5_5000_0000 + entry_at(order, bytes, i).c_off <= usize::MAX,
        0x5_5000_0000 + entry_at(order, bytes, j).c_off <= usize::MAX,
    ensures
        ({
            let steps = map_steps(order, bytes, fds, 8);
            let a = steps[entry_place(order, bytes, fds, i)];
            let b = steps[entry_place(order, bytes, fds, j)];
            a->LookUp_addr - b->LookUp_addr == entry_at(order, bytes, i).c_off - entry_at(
                order,
                bytes,
                j,
            ).c_off
        }),
{
    law_calls_for_each_entry(order, bytes, fds, i);
    law_calls_for_each_entry(order, bytes, fds, j);
    let room = (usize::MAX + 1) as nat;
    lemma_small_mod((0x5_5000_0000 + entry_at(order, bytes, i).c_off) as nat, room);
    lemma_small_mod((0x5_5000_0000 + entry_at(order, bytes, j).c_off) as nat, room);
}

/// When a request can be acted on. One to map needs all of its 256 bytes; for each
/// entry in use the start of the cache plus the offset must be a number of 64
/// bits, and where a list of files came there must be a file in it. Any other can
/// always be acted on.
pub proof fn law_what_is_acceptable(
    code: VhostUserRequestCode,
    order: ByteOrder,
    bytes: Seq<u8>,
    fds: Option<Seq<i32>>,
)
    ensures
        !(code is ResetOwner) ==> acceptable(code, order, bytes, fds),
        code is ResetOwner ==> (acceptable(code, order, bytes, fds) <==> bytes.len() >= 256 && (
        forall|i: int|
            0 <= i < 8 && (#[trigger] entry_at(order, bytes, i)).len != 0 ==> 0x5_5000_0000
                + entry_at(order, bytes, i).c_off <= u64::MAX && (fds is None || fds->0.len() > 0))),
{
    if code is ResetOwner && bytes.len() >= 256 && (forall|i: int|
        0 <= i < 8 && (#[trigger] entry_at(order, bytes, i)).len != 0 ==> 0x5_5000_0000 + entry_at(
            order,
            bytes,
            i,
        ).c_off <= u64::MAX && (fds is None || fds->0.len() > 0)) {
        assert(acceptable(code, order, bytes, fds));
    }
}

/// Looking up yields an address, mapping a mapping, and closing nothing.
pub proof fn law_what_a_call_yields<D>(step: SlaveStep, address: u64, mapping: D)
    ensures
        answers(step, SlaveEvent::<D>::HostAddress(address)) <==> step is LookUp,
        answers(step, SlaveEvent::Mapped(mapping)) <==> step is MapFile,
        answers(step, SlaveEvent::<D>::Done) <==> step is Close,
{
}

/// The mapping that a call has made is the last that the handler has, and what it
/// had before stays in its place. Other calls leave the mappings alone.
pub proof fn law_mapping_goes_to_the_end<D>(desc_table: Seq<D>, event: SlaveEvent<D>, i: int)
    requires
        0 <= i < desc_table.len(),
    ensures
        kept(desc_table, event)[i] == desc_table[i],
        event matches SlaveEvent::Mapped(mapping) ==> kept(desc_table, event).len()
            == desc_table.len() + 1 && kept(desc_table, event)[desc_table.len() as int] == mapping,
        !(event is Mapped) ==> kept(desc_table, event) == desc_table,
{
}

/// What an event does to a request: the next call follows, and only a lookup puts
/// a new address in its place.
pub proof fn law_request_event_by_event<D>(request: SlaveRequestView, event: SlaveEvent<D>)
    ensures
        stepped(request, event).steps == request.steps,
        stepped(request, event).next == request.next + 1,
        event matches SlaveEvent::HostAddress(address) ==> stepped(request, event).address
            == address,
        !(event is HostAddress) ==> stepped(request, event).address == request.address,
{
}

/// The contents of a list are its items in order, and a missing list has none.
pub proof fn law_list_by_item(list: Vec<i32>, i: int)
    requires
        0 <= i < list@.len(),
    ensures
        list_view(None) is None,
        list_view(Some(list)) matches Some(items) && items.len() == list@.len() && items[i]
            == list@[i],
{
}

} // verus!
