//! What holds of every activation from its first call to its last.

use crate::activate::{
    advanced, all_queue_steps, answers, append_step, begun, failure, handed_out,
    lemma_region_steps_push, owner_steps, plan, queue_steps, region_steps, sender_of, slave_steps,
    vring_steps, ActivateEvent, ActivateStep, ActivationView, Queue, Ring, Rings, BACKEND_FEATURES,
};
use crate::device::{bits_within, Fs, Interrupt, MemoryRegion};
use crate::error::{ActivateError, Error};
use crate::setup::{created, FsParams};
use vstd::prelude::*;

verus! {

/// Where a row of events leaves an activation and its device.
pub enum Run<S, N, E> {
    /// No call has failed.
    UnderWay { activation: ActivationView<S, N> },
    /// A call has failed. The activation has ended with `error` and has given the
    /// device back.
    Ended { error: ActivateError<E>, fs: Fs<S, N> },
}

/// Where `events` leave `activation`.
pub open spec fn run<S, N, E>(
    activation: ActivationView<S, N>,
    events: Seq<ActivateEvent<E>>,
) -> Run<S, N, E>
    decreases events.len(),
{
    if events.len() == 0 {
        Run::UnderWay { activation }
    } else {
        let step = activation.steps[activation.next];
        match events[0] {
            ActivateEvent::Failed(e) => Run::Ended {
                error: failure(step, e),
                fs: activation.fs,
            },
            _ => run(advanced(activation, events[0]), events.drop_first()),
        }
    }
}

/// No event tells of a failure.
pub open spec fn all_succeeded<E>(events: Seq<ActivateEvent<E>>) -> bool {
    forall|i: int| 0 <= i < events.len() ==> !((#[trigger] events[i]) is Failed)
}

/// The address that a lookup has found.
pub open spec fn address<E>(event: ActivateEvent<E>) -> u64 {
    event->HostAddress_0
}

/// The place of the memory table in the plan of `fs`.
pub open spec fn mem_table_at<S, N>(fs: Fs<S, N>) -> int {
    (2 + slave_steps(fs).len() + region_steps(fs.mem@).len()) as int
}

/// The place of the first call for the queue `index` in the plan of `fs`.
pub open spec fn queue_at<S, N>(fs: Fs<S, N>, index: int) -> int {
    mem_table_at(fs) + 1 + 8 * index
}

/// A part of a row of successes is a row of successes.
proof fn lemma_part_succeeded<E>(events: Seq<ActivateEvent<E>>, from: int, to: int)
    requires
        all_succeeded(events),
        0 <= from <= to <= events.len(),
    ensures
        all_succeeded(events.subrange(from, to)),
{
    let part = events.subrange(from, to);
    assert forall|i: int| 0 <= i < part.len() implies !((#[trigger] part[i]) is Failed) by {
        assert(!(events[from + i] is Failed));
    }
}

/// One more event after those that succeeded.
proof fn lemma_run_push<S, N, E>(
    activation: ActivationView<S, N>,
    events: Seq<ActivateEvent<E>>,
    last: ActivateEvent<E>,
)
    requires
        all_succeeded(events),
    ensures
        run(activation, events) matches Run::UnderWay { activation: a } && run(
            activation,
            events.push(last),
        ) == run(a, seq![last]),
        run(activation, events)->UnderWay_activation.steps == activation.steps,
        run(activation, events)->UnderWay_activation.next == activation.next + events.len(),
    decreases events.len(),
{
    if events.len() == 0 {
        assert(events.push(last) =~= seq![last]);
    } else {
        assert(!(events[0] is Failed));
        lemma_part_succeeded(events, 1, events.len() as int);
        lemma_run_push(advanced(activation, events[0]), events.drop_first(), last);
        assert(events.push(last).drop_first() =~= events.drop_first().push(last));
    }
}

/// As long as no call fails, the calls are made in the order of the plan, one for
/// each event.
pub proof fn law_calls_in_order<S, N, E>(
    activation: ActivationView<S, N>,
    events: Seq<ActivateEvent<E>>,
)
    requires
        all_succeeded(events),
    ensures
        run(activation, events) matches Run::UnderWay { activation: after }
            && after.steps == activation.steps && after.next == activation.next + events.len(),
{
    lemma_run_push(activation, events, ActivateEvent::Done);
}

/// The first call that fails ends the activation with the error of that call. The
/// device keeps what the calls before it have left.
pub proof fn law_first_failure_ends<S, N, E>(
    activation: ActivationView<S, N>,
    events: Seq<ActivateEvent<E>>,
    e: E,
)
    requires
        all_succeeded(events),
    ensures
        run(activation, events.push(ActivateEvent::Failed(e))) == (Run::<S, N, E>::Ended {
            error: failure(activation.steps[activation.next + events.len()], e),
            fs: run(activation, events)->UnderWay_activation.fs,
        }),
{
    lemma_run_push(activation, events, ActivateEvent::Failed(e));
}

/// The calls for each queue stand together, eight for each, in the order of the
/// queues.
proof fn lemma_queue_steps_at(
    queues: Seq<Queue>,
    queue_evts: Seq<i32>,
    interrupt_fd: i32,
    count: int,
)
    requires
        0 <= count,
    ensures
        all_queue_steps(queues, queue_evts, interrupt_fd, count).len() == 8 * count,
        forall|index: int, j: int|
            0 <= index < count && 0 <= j < 8 ==> all_queue_steps(
                queues,
                queue_evts,
                interrupt_fd,
                count,
            )[8 * index + j] == #[trigger] queue_steps(
                index,
                queues[index],
                queue_evts[index],
                interrupt_fd,
            )[j],
    decreases count,
{
    if count > 0 {
        lemma_queue_steps_at(queues, queue_evts, interrupt_fd, count - 1);
        let before = all_queue_steps(queues, queue_evts, interrupt_fd, count - 1);
        let all = all_queue_steps(queues, queue_evts, interrupt_fd, count);
        assert forall|index: int, j: int| 0 <= index < count && 0 <= j < 8 implies all[8 * index
            + j] == #[trigger] queue_steps(
            index,
            queues[index],
            queue_evts[index],
            interrupt_fd,
        )[j] by {
            if index < count - 1 {
                assert(all[8 * index + j] == before[8 * index + j]);
            }
        }
    }
}

/// None of the calls for the queues sets features, concerns the memory table, or
/// sends a handler.
proof fn lemma_queue_steps_kinds(
    queues: Seq<Queue>,
    queue_evts: Seq<i32>,
    interrupt_fd: i32,
    count: int,
)
    ensures
        forall|k: int|
            0 <= k < all_queue_steps(queues, queue_evts, interrupt_fd, count).len() ==> {
                let step = #[trigger] all_queue_steps(queues, queue_evts, interrupt_fd, count)[k];
                &&& !(step is SetFeatures) && !(step is SetMemTable) && !(step is AppendRegion)
                &&& !(step is SendSlaveHandler) && !(step is SendFsHandler)
            },
    decreases count,
{
    if count > 0 {
        lemma_queue_steps_kinds(queues, queue_evts, interrupt_fd, count - 1);
    }
}

/// Every call that fills the memory table is that of a region with a file.
proof fn lemma_region_steps_kinds(mem: Seq<MemoryRegion>)
    ensures
        forall|k: int|
            0 <= k < region_steps(mem).len() ==> {
                let step = #[trigger] region_steps(mem)[k];
                step is AppendRegion && step->AppendRegion_fd != -1
            },
{
    let has_file = |region: MemoryRegion| region.fd != -1;
    assert forall|k: int| 0 <= k < region_steps(mem).len() implies {
        let step = #[trigger] region_steps(mem)[k];
        step is AppendRegion && step->AppendRegion_fd != -1
    } by {
        broadcast use vstd::seq_lib::group_filter_ensures;

        assert(has_file(mem.filter(has_file)[k]));
        assert(region_steps(mem)[k] == append_step(mem.filter(has_file)[k]));
    }
}

/// The features and the memory table are set once each, at their places. Each
/// handler is sent once, and only where the device still has what it serves.
proof fn lemma_plan_shape<S, N>(fs: Fs<S, N>, queues: Seq<Queue>, queue_evts: Seq<i32>)
    ensures
        2 <= mem_table_at(fs) < plan(fs, queues, queue_evts).len(),
        plan(fs, queues, queue_evts).len() == mem_table_at(fs) + 1 + vring_steps(
            fs,
            queues,
            queue_evts,
        ).len(),
        forall|k: int|
            0 <= k < plan(fs, queues, queue_evts).len() ==> {
                let step = #[trigger] plan(fs, queues, queue_evts)[k];
                &&& step is SetFeatures <==> k == 1
                &&& step is SetMemTable <==> k == mem_table_at(fs)
                &&& step is AppendRegion ==> step->AppendRegion_fd != -1
                &&& step is SendSlaveHandler ==> k == 3 && fs.sl_req_fd is Some
                &&& step is SendFsHandler ==> k == plan(fs, queues, queue_evts).len() - 2 && k
                    > mem_table_at(fs) && fs.interrupt is Some
            },
{
    let steps = plan(fs, queues, queue_evts);
    let table = mem_table_at(fs);
    let last = vring_steps(fs, queues, queue_evts);
    lemma_region_steps_kinds(fs.mem@);
    if let Some(interrupt) = fs.interrupt {
        lemma_queue_steps_kinds(queues, queue_evts, interrupt.fd, queues.len() as int);
    }
    assert forall|k: int| 0 <= k < steps.len() implies {
        let step = #[trigger] steps[k];
        &&& step is SetFeatures <==> k == 1
        &&& step is SetMemTable <==> k == table
        &&& step is AppendRegion ==> step->AppendRegion_fd != -1
        &&& step is SendSlaveHandler ==> k == 3 && fs.sl_req_fd is Some
        &&& step is SendFsHandler ==> k == steps.len() - 2 && k > table && fs.interrupt is Some
    } by {
        if k < 2 {
            assert(steps[k] == owner_steps(fs.acked_features)[k]);
        } else if k < 2 + slave_steps(fs).len() {
            assert(steps[k] == slave_steps(fs)[k - 2]);
        } else if k < table {
            assert(steps[k] == region_steps(fs.mem@)[k - 2 - slave_steps(fs).len()]);
        } else if k > table {
            assert(steps[k] == last[k - table - 1]);
        }
    }
}

/// The device once the first `count` calls of its activation have succeeded.
pub open spec fn after_calls<S, N>(fs: Fs<S, N>, count: int) -> Fs<S, N> {
    Fs {
        sl_req_fd: if count >= 2 {
            None
        } else {
            fs.sl_req_fd
        },
        sl_req_fd2: if count >= 2 && fs.sl_req_fd is Some {
            None
        } else {
            fs.sl_req_fd2
        },
        interrupt: if count > mem_table_at(fs) {
            None
        } else {
            fs.interrupt
        },
        ..fs
    }
}

/// The device hands out its socket with the second call and the event for
/// interrupts with the memory table, and keeps everything else. From then on the
/// activation holds the event.
pub proof fn law_what_is_handed_out<S, N, E>(
    fs: Fs<S, N>,
    queues: Seq<Queue>,
    queue_evts: Seq<i32>,
    events: Seq<ActivateEvent<E>>,
)
    requires
        all_succeeded(events),
        events.len() <= plan(fs, queues, queue_evts).len(),
    ensures
        run(begun(fs, queues, queue_evts), events) matches Run::UnderWay { activation }
            && activation.fs == after_calls(fs, events.len() as int) && activation.interrupt
            == if events.len() > mem_table_at(fs) {
            fs.interrupt
        } else {
            None
        },
    decreases events.len(),
{
    let start = begun(fs, queues, queue_evts);
    lemma_plan_shape(fs, queues, queue_evts);
    if events.len() > 0 {
        let before = events.drop_last();
        lemma_part_succeeded(events, 0, before.len() as int);
        law_what_is_handed_out(fs, queues, queue_evts, before);
        lemma_run_push(start, before, events.last());
        assert(before.push(events.last()) =~= events);
        assert(!(events.last() is Failed));
        let a = run(start, before)->UnderWay_activation;
        let step = start.steps[before.len() as int];
        reveal_with_fuel(run, 2);
        assert(seq![events.last()].drop_first() =~= seq![]);
        assert(run(start, events) == (Run::<S, N, E>::UnderWay {
            activation: advanced(a, events.last()),
        }));
        assert(handed_out(a.fs, step) == after_calls(fs, events.len() as int));
    }
}

/// When the backend is given the addresses of a queue, they are those that were
/// found for the descriptor table, the used ring and the available ring of that
/// same queue.
pub proof fn law_addresses_of_the_queue<S, N, E>(
    fs: Fs<S, N>,
    queues: Seq<Queue>,
    queue_evts: Seq<i32>,
    index: int,
    events: Seq<ActivateEvent<E>>,
)
    requires
        fs.interrupt is Some,
        0 <= index < queues.len(),
        all_succeeded(events),
        events.len() == queue_at(fs, index) + 4,
        events[queue_at(fs, index) + 1] is HostAddress,
        events[queue_at(fs, index) + 2] is HostAddress,
        events[queue_at(fs, index) + 3] is HostAddress,
    ensures
        ({
            let steps = plan(fs, queues, queue_evts);
            let at = queue_at(fs, index);
            &&& steps[at + 1] == (ActivateStep::LookUp {
                ring: Ring::Desc,
                addr: queues[index].desc_table,
            })
            &&& steps[at + 2] == (ActivateStep::LookUp {
                ring: Ring::Used,
                addr: queues[index].used_ring,
            })
            &&& steps[at + 3] == (ActivateStep::LookUp {
                ring: Ring::Avail,
                addr: queues[index].avail_ring,
            })
            &&& steps[at + 4] == (ActivateStep::SetVringAddr {
                index: index as u32,
                flags: 0,
                log: 0,
            })
            &&& run(begun(fs, queues, queue_evts), events) matches Run::UnderWay { activation }
                && activation.rings == (Rings {
                desc: address(events[at + 1]),
                used: address(events[at + 2]),
                avail: address(events[at + 3]),
            })
        }),
{
    let start = begun(fs, queues, queue_evts);
    let at = queue_at(fs, index);
    let irq = fs.interrupt->0.fd;
    lemma_plan_shape(fs, queues, queue_evts);
    lemma_queue_steps_at(queues, queue_evts, irq, queues.len() as int);
    let mine = queue_steps(index, queues[index], queue_evts[index], irq);
    let all = all_queue_steps(queues, queue_evts, irq, queues.len() as int);
    assert forall|j: int| 0 <= j < 8 implies start.steps[at + j] == #[trigger] mine[j] by {
        assert(all[8 * index + j] == mine[j]);
        assert(vring_steps(fs, queues, queue_evts)[8 * index + j] == all[8 * index + j]);
    }
    assert(mine[1] == start.steps[at + 1]);
    assert(mine[2] == start.steps[at + 2]);
    assert(mine[3] == start.steps[at + 3]);
    assert(mine[4] == start.steps[at + 4]);
    lemma_run_take(start, events, at + 1);
    lemma_run_take(start, events, at + 2);
    lemma_run_take(start, events, at + 3);
    assert(events.take(at + 4) =~= events);
}

/// One step of a run that has not failed.
proof fn lemma_run_take<S, N, E>(
    activation: ActivationView<S, N>,
    events: Seq<ActivateEvent<E>>,
    k: int,
)
    requires
        all_succeeded(events),
        0 <= k < events.len(),
    ensures
        run(activation, events.take(k)) matches Run::UnderWay { activation: a } && a.steps
            == activation.steps && a.next == activation.next + k && run(
            activation,
            events.take(k + 1),
        ) == (Run::<S, N, E>::UnderWay { activation: advanced(a, events[k]) }),
{
    let before = events.take(k);
    lemma_part_succeeded(events, 0, k);
    lemma_run_push(activation, before, events[k]);
    assert(before.push(events[k]) =~= events.take(k + 1));
    assert(!(events[k] is Failed));
    reveal_with_fuel(run, 2);
    assert(seq![events[k]].drop_first() =~= seq![]);
}

/// Once a device has been activated, activating it again opens no second way for
/// requests of the backend and brings up no queue: only the owner, the features
/// and the memory table are set anew.
pub proof fn law_second_activation<S, N>(
    fs: Fs<S, N>,
    queues: Seq<Queue>,
    queue_evts: Seq<i32>,
    queues2: Seq<Queue>,
    queue_evts2: Seq<i32>,
)
    ensures
        plan(
            after_calls(fs, plan(fs, queues, queue_evts).len() as int),
            queues2,
            queue_evts2,
        ) == owner_steps(fs.acked_features) + region_steps(fs.mem@) + seq![
            ActivateStep::SetMemTable,
        ],
{
    lemma_plan_shape(fs, queues, queue_evts);
    let after = after_calls(fs, plan(fs, queues, queue_evts).len() as int);
    assert(plan(after, queues2, queue_evts2) =~= owner_steps(fs.acked_features) + region_steps(
        fs.mem@,
    ) + seq![ActivateStep::SetMemTable]);
}

/// The backend never learns of a region that has no file.
pub proof fn law_only_regions_with_a_file<S, N>(
    fs: Fs<S, N>,
    queues: Seq<Queue>,
    queue_evts: Seq<i32>,
    k: int,
)
    requires
        0 <= k < plan(fs, queues, queue_evts).len(),
        plan(fs, queues, queue_evts)[k] is AppendRegion,
    ensures
        plan(fs, queues, queue_evts)[k]->AppendRegion_fd != -1,
{
    lemma_plan_shape(fs, queues, queue_evts);
}

/// The backend is given what the guest has taken and one feature more. So it is
/// given nothing else that it has not offered.
pub proof fn law_features_of_the_backend<S, N>(
    fs: Fs<S, N>,
    queues: Seq<Queue>,
    queue_evts: Seq<i32>,
)
    requires
        fs.wf(),
    ensures
        plan(fs, queues, queue_evts)[1] matches ActivateStep::SetFeatures { features }
            && bits_within(fs.acked_features, features) && bits_within(
            features,
            fs.avail_features | BACKEND_FEATURES,
        ),
{
    let acked = fs.acked_features;
    let avail = fs.avail_features;
    assert(plan(fs, queues, queue_evts)[1] == owner_steps(acked)[1]);
    assert(acked & !(acked | 0x400u64) == 0) by (bit_vector);
    assert(acked & !avail == 0 ==> (acked | 0x400u64) & !(avail | 0x400u64) == 0) by (bit_vector);
}

/// The first activation of a new device opens the way for requests of the backend
/// and brings up every queue.
pub proof fn law_first_activation<S, N>(
    fs: Fs<S, N>,
    params: FsParams<S>,
    avail_features: u64,
    sl_req_fds: (i32, i32),
    interrupt: Interrupt<N>,
    queues: Seq<Queue>,
    queue_evts: Seq<i32>,
)
    requires
        created(fs, params, avail_features, sl_req_fds, interrupt),
    ensures
        slave_steps(fs) == seq![
            ActivateStep::SetSlaveReqFd { fd: sl_req_fds.1 },
            ActivateStep::SendSlaveHandler { fd: sl_req_fds.0 },
            ActivateStep::WatchSlave {
                epoll_fd: params.epoll_config_vu.epoll_raw_fd,
                fd: sl_req_fds.0,
                token: params.epoll_config_vu.first_token,
            },
        ],
        vring_steps(fs, queues, queue_evts).len() == 8 * queues.len() + 2,
        forall|index: int, j: int|
            0 <= index < queues.len() && 0 <= j < 8 ==> plan(fs, queues, queue_evts)[queue_at(
                fs,
                index,
            ) + j] == #[trigger] queue_steps(
                index,
                queues[index],
                queue_evts[index],
                interrupt.fd,
            )[j],
{
    lemma_plan_shape(fs, queues, queue_evts);
    lemma_queue_steps_at(queues, queue_evts, interrupt.fd, queues.len() as int);
    let all = all_queue_steps(queues, queue_evts, interrupt.fd, queues.len() as int);
    assert forall|index: int, j: int| 0 <= index < queues.len() && 0 <= j < 8 implies plan(
        fs,
        queues,
        queue_evts,
    )[queue_at(fs, index) + j] == #[trigger] queue_steps(
        index,
        queues[index],
        queue_evts[index],
        interrupt.fd,
    )[j] by {
        assert(vring_steps(fs, queues, queue_evts)[8 * index + j] == all[8 * index + j]);
    }
}

/// An activation of a device as far as it has come.
pub struct Attempt<S, N> {
    /// The device before it.
    pub fs: Fs<S, N>,
    /// The queues of the guest.
    pub queues: Seq<Queue>,
    /// The events that the guest signals.
    pub queue_evts: Seq<i32>,
    /// How many of its calls have succeeded.
    pub count: int,
}

impl<S, N> Attempt<S, N> {
    /// The call at `k` was made: it has succeeded, or it is the first one that has
    /// not.
    pub open spec fn made(self, k: int) -> bool {
        0 <= k <= self.count && k < plan(self.fs, self.queues, self.queue_evts).len()
    }

    /// The call at `k`.
    pub open spec fn call(self, k: int) -> ActivateStep {
        plan(self.fs, self.queues, self.queue_evts)[k]
    }
}

/// `attempts` are activations of one device, one after the other, each of which has
/// gone through or failed at some call. Between them the device keeps what it has
/// not handed out; its features and its configuration space may change.
pub open spec fn one_device<S, N>(attempts: Seq<Attempt<S, N>>) -> bool {
    forall|i: int, j: int|
        0 <= i && j == i + 1 && j < attempts.len() ==> {
            let after = after_calls((#[trigger] attempts[i]).fs, attempts[i].count);
            let next = (#[trigger] attempts[j]).fs;
            &&& next.sl_req_fd == after.sl_req_fd
            &&& next.sl_req_fd2 == after.sl_req_fd2
            &&& next.interrupt == after.interrupt
        }
}

/// What an activation has handed out is gone in every later one.
proof fn lemma_stays_handed_out<S, N>(attempts: Seq<Attempt<S, N>>, i: int, j: int)
    requires
        one_device(attempts),
        0 <= i < j < attempts.len(),
    ensures
        after_calls(attempts[i].fs, attempts[i].count).sl_req_fd is None
            ==> attempts[j].fs.sl_req_fd is None,
        after_calls(attempts[i].fs, attempts[i].count).interrupt is None
            ==> attempts[j].fs.interrupt is None,
    decreases j - i,
{
    if i + 1 < j {
        lemma_stays_handed_out(attempts, i, j - 1);
        let before = attempts[j - 1];
        assert(attempts[j].fs.sl_req_fd == after_calls(before.fs, before.count).sl_req_fd);
    } else {
        assert(attempts[j].fs.sl_req_fd == after_calls(
            attempts[i].fs,
            attempts[i].count,
        ).sl_req_fd);
    }
}

/// However often a device is activated, and wherever its activations fail, each of
/// its channels gets at most one handler: one for the requests of the backend, and
/// one for its interrupts.
pub proof fn law_one_handler_for_each_channel<S, N>(
    attempts: Seq<Attempt<S, N>>,
    i: int,
    k: int,
    j: int,
    l: int,
)
    requires
        one_device(attempts),
        0 <= i < attempts.len(),
        0 <= j < attempts.len(),
        attempts[i].made(k),
        attempts[j].made(l),
    ensures
        attempts[i].call(k) is SendSlaveHandler && attempts[j].call(l) is SendSlaveHandler ==> i
            == j && k == l,
        attempts[i].call(k) is SendFsHandler && attempts[j].call(l) is SendFsHandler ==> i == j && k
            == l,
{
    let a = attempts[i];
    let b = attempts[j];
    lemma_plan_shape(a.fs, a.queues, a.queue_evts);
    lemma_plan_shape(b.fs, b.queues, b.queue_evts);
    if i < j {
        lemma_stays_handed_out(attempts, i, j);
    } else if j < i {
        lemma_stays_handed_out(attempts, j, i);
    }
}

/// A device that has handed out its socket opens no second way for requests of the
/// backend, and one that has handed out its event brings up no queue a second
/// time, at whatever call its activation has failed.
pub proof fn law_activation_after_a_failure<S, N>(
    fs: Fs<S, N>,
    count: int,
    queues: Seq<Queue>,
    queue_evts: Seq<i32>,
)
    ensures
        plan(after_calls(fs, count), queues, queue_evts) == owner_steps(fs.acked_features) + (
        if count >= 2 {
            seq![]
        } else {
            slave_steps(fs)
        }) + region_steps(fs.mem@) + seq![ActivateStep::SetMemTable] + (if count > mem_table_at(
            fs,
        ) {
            seq![]
        } else {
            vring_steps(fs, queues, queue_evts)
        }),
{
}

/// The first activation of a new device sends exactly two handlers: first that of
/// the requests of the backend, on the channel of `epoll_config_vu`, and then that
/// of its interrupts, on the channel of `epoll_config`. Right after each, what it
/// serves is watched where that same configuration says.
pub proof fn law_handlers_of_a_first_activation<S, N>(
    fs: Fs<S, N>,
    params: FsParams<S>,
    avail_features: u64,
    sl_req_fds: (i32, i32),
    interrupt: Interrupt<N>,
    queues: Seq<Queue>,
    queue_evts: Seq<i32>,
)
    requires
        created(fs, params, avail_features, sl_req_fds, interrupt),
    ensures
        ({
            let steps = plan(fs, queues, queue_evts);
            let first = 3int;
            let second = steps.len() - 2;
            &&& first + 1 < second
            &&& forall|k: int|
                0 <= k < steps.len() ==> (sender_of(fs, #[trigger] steps[k]) is Some <==> k == first
                    || k == second)
            &&& steps[first] == (ActivateStep::SendSlaveHandler { fd: sl_req_fds.0 })
            &&& sender_of(fs, steps[first]) == Some(params.epoll_config_vu.sender)
            &&& steps[first + 1] == (ActivateStep::WatchSlave {
                epoll_fd: params.epoll_config_vu.epoll_raw_fd,
                fd: sl_req_fds.0,
                token: params.epoll_config_vu.first_token,
            })
            &&& steps[second] == ActivateStep::SendFsHandler
            &&& sender_of(fs, steps[second]) == Some(params.epoll_config.sender)
            &&& steps[second + 1] == (ActivateStep::WatchInterrupt {
                epoll_fd: params.epoll_config.epoll_raw_fd,
                fd: interrupt.fd,
                token: params.epoll_config.first_token,
            })
        }),
{
    let steps = plan(fs, queues, queue_evts);
    let last = vring_steps(fs, queues, queue_evts);
    lemma_plan_shape(fs, queues, queue_evts);
    assert(steps[3] == slave_steps(fs)[1]);
    assert(steps[4] == slave_steps(fs)[2]);
    assert(steps[steps.len() - 2] == last[last.len() - 2]);
    assert(steps[steps.len() - 1] == last[last.len() - 1]);
}

/// Calls that succeed leave the channels of the device as they are.
pub proof fn law_channels_stay<S, N>(fs: Fs<S, N>, count: int, step: ActivateStep)
    ensures
        sender_of(after_calls(fs, count), step) == sender_of(fs, step),
{
}

/// How many of the first `count` regions have a file.
pub open spec fn files_before(mem: Seq<MemoryRegion>, count: int) -> int
    decreases count,
{
    if count <= 0 {
        0
    } else {
        files_before(mem, count - 1) + if mem[count - 1].fd != -1 {
            1int
        } else {
            0
        }
    }
}

/// The calls for the regions of the first `count` regions, one by one.
proof fn lemma_region_steps_at(mem: Seq<MemoryRegion>, count: int)
    requires
        0 <= count <= mem.len(),
    ensures
        region_steps(mem.take(count)).len() == files_before(mem, count),
        0 <= files_before(mem, count) <= count,
        forall|i: int|
            0 <= i < count && (#[trigger] mem[i]).fd != -1 ==> 0 <= files_before(mem, i)
                < files_before(mem, count) && region_steps(mem.take(count))[files_before(mem, i)]
                == append_step(mem[i]),
    decreases count,
{
    if count == 0 {
        reveal(Seq::filter);
        assert(mem.take(0) =~= seq![]);
    } else {
        lemma_region_steps_at(mem, count - 1);
        lemma_region_steps_push(mem.take(count - 1), mem[count - 1]);
        assert(mem.take(count - 1).push(mem[count - 1]) =~= mem.take(count));
    }
}

/// The calls of an activation that come before the queues, one by one. The backend
/// is given the features of the guest and the one with the value 0x400. Where both
/// ends of the socket are there, the backend gets its own end, and the other is
/// served and watched. Every region with a file is told, in order, as it lies in
/// the guest, in this process and in its file, and then the table is set.
pub proof fn law_calls_before_the_queues<S, N>(
    fs: Fs<S, N>,
    queues: Seq<Queue>,
    queue_evts: Seq<i32>,
)
    ensures
        ({
            let steps = plan(fs, queues, queue_evts);
            let both = fs.sl_req_fd is Some && fs.sl_req_fd2 is Some;
            let regions_at = if both {
                5int
            } else {
                2
            };
            let table_at = regions_at + files_before(fs.mem@, fs.mem@.len() as int);
            &&& table_at < steps.len()
            &&& steps[0] is SetOwner
            &&& steps[1] == (ActivateStep::SetFeatures { features: fs.acked_features | 0x400 })
            &&& both ==> steps[2] == (ActivateStep::SetSlaveReqFd { fd: fs.sl_req_fd2->0 })
            &&& both ==> steps[3] == (ActivateStep::SendSlaveHandler { fd: fs.sl_req_fd->0 })
            &&& both ==> steps[4] == (ActivateStep::WatchSlave {
                epoll_fd: fs.epoll_config_vu.epoll_raw_fd,
                fd: fs.sl_req_fd->0,
                token: fs.epoll_config_vu.first_token,
            })
            &&& forall|i: int|
                0 <= i < fs.mem@.len() && (#[trigger] fs.mem@[i]).fd != -1 ==> {
                    let at = regions_at + files_before(fs.mem@, i);
                    &&& regions_at <= at < table_at
                    &&& steps[at] matches ActivateStep::AppendRegion { region, fd }
                    &&& fd == fs.mem@[i].fd
                    &&& region.guest_phys_addr as int == fs.mem@[i].guest_base as int
                    &&& region.memory_size as int == fs.mem@[i].size as int
                    &&& region.userspace_addr as int == fs.mem@[i].addr as int
                    &&& region.mmap_offset as int == fs.mem@[i].offset as int
                }
            &&& steps[table_at] is SetMemTable
            &&& table_at == mem_table_at(fs)
        }),
{
    let steps = plan(fs, queues, queue_evts);
    let slave = slave_steps(fs);
    let regions = region_steps(fs.mem@);
    lemma_plan_shape(fs, queues, queue_evts);
    lemma_region_steps_at(fs.mem@, fs.mem@.len() as int);
    assert(fs.mem@.take(fs.mem@.len() as int) =~= fs.mem@);
    assert(steps[0] == owner_steps(fs.acked_features)[0]);
    assert(steps[1] == owner_steps(fs.acked_features)[1]);
    if fs.sl_req_fd is Some && fs.sl_req_fd2 is Some {
        assert(steps[2] == slave[0]);
        assert(steps[3] == slave[1]);
        assert(steps[4] == slave[2]);
    }
    assert forall|i: int| 0 <= i < fs.mem@.len() && (#[trigger] fs.mem@[i]).fd != -1 implies steps[2
        + slave.len() + files_before(fs.mem@, i)] == append_step(fs.mem@[i]) by {
        let at = files_before(fs.mem@, i);
        assert(steps[2 + slave.len() + at] == regions[at]);
    }
}

/// What a call takes of the index of a queue.
proof fn lemma_index_cut(index: int)
    requires
        0 <= index <= usize::MAX,
    ensures
        index as u32 as int == index % 0x1_0000_0000,
        index as u8 as int == index % 0x100,
{
    let wide = index as u64;
    assert(wide as u32 == wide % 0x1_0000_0000) by (bit_vector);
    assert(wide as u8 == wide % 0x100) by (bit_vector);
}

/// The calls for every queue, one by one, and those after the last queue. Each
/// queue gets its size, where its parts lie, the start 0, the event that the
/// backend signals and the event of that very queue that the guest signals. An
/// index is told modulo what the call can hold.
pub proof fn law_calls_for_each_queue<S, N>(
    fs: Fs<S, N>,
    queues: Seq<Queue>,
    queue_evts: Seq<i32>,
)
    requires
        queues.len() <= usize::MAX,
    ensures
        fs.interrupt is None ==> plan(fs, queues, queue_evts).len() == mem_table_at(fs) + 1,
        fs.interrupt matches Some(interrupt) ==> {
            let steps = plan(fs, queues, queue_evts);
            let start = mem_table_at(fs) + 1;
            let end = start + 8 * queues.len();
            &&& steps.len() == end + 2
            &&& steps[end] is SendFsHandler
            &&& steps[end + 1] == (ActivateStep::WatchInterrupt {
                epoll_fd: fs.epoll_config.epoll_raw_fd,
                fd: interrupt.fd,
                token: fs.epoll_config.first_token,
            })
            &&& forall|i: int|
                0 <= i < queues.len() ==> {
                    let queue = #[trigger] queues[i];
                    let at = start + 8 * i;
                    &&& steps[at] matches ActivateStep::SetVringNum { index, num } && index as int
                        == i % 0x1_0000_0000 && num as int == queue.max_size as int
                    &&& steps[at + 1] == (ActivateStep::LookUp {
                        ring: Ring::Desc,
                        addr: queue.desc_table,
                    })
                    &&& steps[at + 2] == (ActivateStep::LookUp {
                        ring: Ring::Used,
                        addr: queue.used_ring,
                    })
                    &&& steps[at + 3] == (ActivateStep::LookUp {
                        ring: Ring::Avail,
                        addr: queue.avail_ring,
                    })
                    &&& steps[at + 4] matches ActivateStep::SetVringAddr { index, flags, log }
                        && index as int == i % 0x1_0000_0000 && flags == 0 && log == 0
                    &&& steps[at + 5] matches ActivateStep::SetVringBase { index, base }
                        && index as int == i % 0x1_0000_0000 && base == 0
                    &&& steps[at + 6] matches ActivateStep::SetVringCall { short_index, fd }
                        && short_index as int == i % 0x100 && fd == interrupt.fd
                    &&& steps[at + 7] matches ActivateStep::SetVringKick { short_index, fd }
                        && short_index as int == i % 0x100 && fd == queue_evts[i]
                }
        },
{
    lemma_plan_shape(fs, queues, queue_evts);
    if let Some(interrupt) = fs.interrupt {
        let steps = plan(fs, queues, queue_evts);
        let start = mem_table_at(fs) + 1;
        let all = all_queue_steps(queues, queue_evts, interrupt.fd, queues.len() as int);
        let last = vring_steps(fs, queues, queue_evts);
        lemma_queue_steps_at(queues, queue_evts, interrupt.fd, queues.len() as int);
        let n = queues.len() as int;
        assert(steps[start + 8 * n] == last[8 * n]);
        assert(steps[start + 8 * n + 1] == last[8 * n + 1]);
        assert forall|i: int| 0 <= i < queues.len() implies {
            let queue = #[trigger] queues[i];
            let at = start + 8 * i;
            &&& steps[at] matches ActivateStep::SetVringNum { index, num } && index as int == i
                % 0x1_0000_0000 && num as int == queue.max_size as int
            &&& steps[at + 1] == (ActivateStep::LookUp { ring: Ring::Desc, addr: queue.desc_table })
            &&& steps[at + 2] == (ActivateStep::LookUp { ring: Ring::Used, addr: queue.used_ring })
            &&& steps[at + 3] == (ActivateStep::LookUp {
                ring: Ring::Avail,
                addr: queue.avail_ring,
            })
            &&& steps[at + 4] matches ActivateStep::SetVringAddr { index, flags, log }
                && index as int == i % 0x1_0000_0000 && flags == 0 && log == 0
            &&& steps[at + 5] matches ActivateStep::SetVringBase { index, base } && index as int
                == i % 0x1_0000_0000 && base == 0
            &&& steps[at + 6] matches ActivateStep::SetVringCall { short_index, fd }
                && short_index as int == i % 0x100 && fd == interrupt.fd
            &&& steps[at + 7] matches ActivateStep::SetVringKick { short_index, fd }
                && short_index as int == i % 0x100 && fd == queue_evts[i]
        } by {
            let mine = queue_steps(i, queues[i], queue_evts[i], interrupt.fd);
            lemma_index_cut(i);
            assert forall|j: int| 0 <= j < 8 implies steps[start + 8 * i + j]
                == #[trigger] mine[j] by {
                assert(all[8 * i + j] == mine[j]);
                assert(last[8 * i + j] == all[8 * i + j]);
                assert(steps[start + 8 * i + j] == last[8 * i + j]);
            }
            assert(mine[0] == steps[start + 8 * i + 0]);
            assert(mine[1] == steps[start + 8 * i + 1]);
            assert(mine[2] == steps[start + 8 * i + 2]);
            assert(mine[3] == steps[start + 8 * i + 3]);
            assert(mine[4] == steps[start + 8 * i + 4]);
            assert(mine[5] == steps[start + 8 * i + 5]);
            assert(mine[6] == steps[start + 8 * i + 6]);
            assert(mine[7] == steps[start + 8 * i + 7]);
        }
    }
}

/// On a device with at most 256 queues no queue gets the events, the size, the
/// addresses or the start of another: each of these calls is made once for an
/// index, at its place among the calls of that queue.
pub proof fn law_one_call_for_each_queue<S, N>(
    fs: Fs<S, N>,
    queues: Seq<Queue>,
    queue_evts: Seq<i32>,
    k: int,
)
    requires
        queues.len() <= 256,
        0 <= k < plan(fs, queues, queue_evts).len(),
    ensures
        ({
            let start = mem_table_at(fs) + 1;
            match plan(fs, queues, queue_evts)[k] {
                ActivateStep::SetVringNum { index, .. } => k == start + 8 * index && index
                    < queues.len(),
                ActivateStep::SetVringAddr { index, .. } => k == start + 8 * index + 4 && index
                    < queues.len(),
                ActivateStep::SetVringBase { index, .. } => k == start + 8 * index + 5 && index
                    < queues.len(),
                ActivateStep::SetVringCall { short_index, .. } => k == start + 8 * short_index + 6
                    && short_index < queues.len(),
                ActivateStep::SetVringKick { short_index, fd } => k == start + 8 * short_index + 7
                    && short_index < queues.len() && fd == queue_evts[short_index as int],
                _ => true,
            }
        }),
{
    let steps = plan(fs, queues, queue_evts);
    let start = mem_table_at(fs) + 1;
    let n = queues.len() as int;
    lemma_plan_shape(fs, queues, queue_evts);
    lemma_region_steps_kinds(fs.mem@);
    law_calls_for_each_queue(fs, queues, queue_evts);
    if k < 2 {
        assert(steps[k] == owner_steps(fs.acked_features)[k]);
    } else if k < 2 + slave_steps(fs).len() {
        assert(steps[k] == slave_steps(fs)[k - 2]);
    } else if k < start - 1 {
        assert(steps[k] == region_steps(fs.mem@)[k - 2 - slave_steps(fs).len()]);
    } else if k >= start && k < start + 8 * n {
        let i = (k - start) / 8;
        let j = (k - start) % 8;
        let at = start + 8 * i;
        assert(k == at + j && 0 <= i < n && 0 <= j < 8);
        assert(queues[i].max_size as int <= 0xffff);
        assert(i % 0x1_0000_0000 == i && i % 0x100 == i);
        assert(steps[at] is SetVringNum && steps[at + 1] is LookUp && steps[at + 2] is LookUp
            && steps[at + 3] is LookUp && steps[at + 4] is SetVringAddr && steps[at
            + 5] is SetVringBase && steps[at + 6] is SetVringCall && steps[at + 7] is SetVringKick);
        assert(j == 0 || j == 1 || j == 2 || j == 3 || j == 4 || j == 5 || j == 6 || j == 7);
    } else if k >= start {
        assert(k == start + 8 * n || k == start + 8 * n + 1);
    }
}

/// The error of each call that can fail names that call and carries its cause.
pub proof fn law_errors_name_the_call<E>(step: ActivateStep, e: E)
    ensures
        match step {
            ActivateStep::SetOwner => failure(step, e) == ActivateError::BadVhostActivate(
                Error::VhostUserSetOwner(e),
            ),
            ActivateStep::SetFeatures { .. } => failure(step, e)
                == ActivateError::BadVhostActivate(Error::VhostUserSetFeatures(e)),
            ActivateStep::SetSlaveReqFd { .. } => failure(step, e)
                == ActivateError::BadVhostActivate(Error::VhostUserSetSlaveReqFd(e)),
            ActivateStep::SetMemTable => failure(step, e) == ActivateError::BadVhostActivate(
                Error::VhostUserSetMemTable(e),
            ),
            ActivateStep::SetVringNum { .. } => failure(step, e)
                == ActivateError::BadVhostActivate(Error::VhostUserSetVringNum(e)),
            ActivateStep::LookUp { ring, .. } => failure(step, e)
                == ActivateError::BadVhostActivate(
                match ring {
                    Ring::Desc => Error::DescriptorTableAddress(e),
                    Ring::Used => Error::UsedAddress(e),
                    Ring::Avail => Error::AvailAddress(e),
                },
            ),
            ActivateStep::SetVringAddr { .. } => failure(step, e)
                == ActivateError::BadVhostActivate(Error::VhostUserSetVringAddr(e)),
            ActivateStep::SetVringBase { .. } => failure(step, e)
                == ActivateError::BadVhostActivate(Error::VhostUserSetVringBase(e)),
            ActivateStep::SetVringCall { .. } => failure(step, e)
                == ActivateError::BadVhostActivate(Error::VhostUserSetVringCall(e)),
            ActivateStep::SetVringKick { .. } => failure(step, e)
                == ActivateError::BadVhostActivate(Error::VhostUserSetVringKick(e)),
            ActivateStep::WatchSlave { .. } => failure(step, e) == ActivateError::EpollCtl(e),
            ActivateStep::WatchInterrupt { .. } => failure(step, e) == ActivateError::EpollCtl(e),
            _ => true,
        },
{
}

/// Looking up yields an address or fails, sending a handler and adding a region
/// succeed, and every other call succeeds or fails.
pub proof fn law_what_a_call_can_yield<E>(step: ActivateStep, addr: u64, e: E)
    ensures
        answers(step, ActivateEvent::<E>::HostAddress(addr)) <==> step is LookUp,
        answers(step, ActivateEvent::<E>::Done) <==> !(step is LookUp),
        answers(step, ActivateEvent::Failed(e)) <==> !(step is AppendRegion)
            && !(step is SendSlaveHandler) && !(step is SendFsHandler),
{
}

/// A call that succeeds changes nothing of the device but what is handed out: both
/// ends of the socket with the features, unless the own end is gone, and the event
/// for interrupts with the memory table.
pub proof fn law_call_by_call<S, N>(fs: Fs<S, N>, step: ActivateStep)
    ensures
        handed_out(fs, step).queue_sizes == fs.queue_sizes,
        handed_out(fs, step).shm_sizes == fs.shm_sizes,
        handed_out(fs, step).avail_features == fs.avail_features,
        handed_out(fs, step).acked_features == fs.acked_features,
        handed_out(fs, step).config_space == fs.config_space,
        handed_out(fs, step).epoll_config == fs.epoll_config,
        handed_out(fs, step).epoll_config_vu == fs.epoll_config_vu,
        handed_out(fs, step).mem == fs.mem,
        step is SetFeatures ==> handed_out(fs, step).sl_req_fd is None,
        step is SetFeatures && fs.sl_req_fd is Some ==> handed_out(fs, step).sl_req_fd2 is None,
        step is SetFeatures && fs.sl_req_fd is None ==> handed_out(fs, step).sl_req_fd2
            == fs.sl_req_fd2,
        !(step is SetFeatures) ==> handed_out(fs, step).sl_req_fd == fs.sl_req_fd,
        !(step is SetFeatures) ==> handed_out(fs, step).sl_req_fd2 == fs.sl_req_fd2,
        step is SetMemTable ==> handed_out(fs, step).interrupt is None,
        !(step is SetMemTable) ==> handed_out(fs, step).interrupt == fs.interrupt,
{
}

/// What an event does to an activation: the next call follows, a lookup puts the
/// address it found in its place and in no other, and with the memory table the
/// event for interrupts passes from the device to the activation.
pub proof fn law_event_by_event<S, N, E>(
    activation: ActivationView<S, N>,
    event: ActivateEvent<E>,
)
    requires
        answers(activation.steps[activation.next], event),
        !(event is Failed),
    ensures
        ({
            let step = activation.steps[activation.next];
            let after = advanced(activation, event);
            &&& after.steps == activation.steps
            &&& after.next == activation.next + 1
            &&& after.rings.desc == if step matches ActivateStep::LookUp { ring: Ring::Desc, .. } {
                address(event)
            } else {
                activation.rings.desc
            }
            &&& after.rings.used == if step matches ActivateStep::LookUp { ring: Ring::Used, .. } {
                address(event)
            } else {
                activation.rings.used
            }
            &&& after.rings.avail == if step matches ActivateStep::LookUp {
                ring: Ring::Avail,
                ..
            } {
                address(event)
            } else {
                activation.rings.avail
            }
            &&& step is SetMemTable ==> after.interrupt == activation.fs.interrupt
            &&& step is SetMemTable ==> after.fs.interrupt is None
            &&& !(step is SetMemTable) ==> after.interrupt == activation.interrupt
            &&& !(step is SetMemTable) ==> after.fs.interrupt == activation.fs.interrupt
        }),
{
}

/// Each handler has the channel of its own configuration, and no other call has
/// one.
pub proof fn law_channel_of_each_handler<S, N>(fs: Fs<S, N>, step: ActivateStep)
    ensures
        step is SendSlaveHandler ==> sender_of(fs, step) == Some(fs.epoll_config_vu.sender),
        step is SendFsHandler ==> sender_of(fs, step) == Some(fs.epoll_config.sender),
        !(step is SendSlaveHandler) && !(step is SendFsHandler) ==> sender_of(fs, step) is None,
{
}

/// An activation begins on the device itself, with no call made.
pub proof fn law_activation_begins<S, N>(fs: Fs<S, N>, queues: Seq<Queue>, queue_evts: Seq<i32>)
    ensures
        begun(fs, queues, queue_evts).fs == fs,
        begun(fs, queues, queue_evts).steps == plan(fs, queues, queue_evts),
        begun(fs, queues, queue_evts).next == 0,
        begun(fs, queues, queue_evts).interrupt is None,
{
}

} // verus!
