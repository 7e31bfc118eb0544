//! The activation of a device.
//!
//! Activating a device takes a row of calls, each of which is made only once those
//! before it have succeeded. [`Fs::activate`] lays the row out, and [`Activation`]
//! goes through it: it says which call comes next, and takes what became of it.

use crate::device::{Fs, Interrupt, MemoryRegion};
use crate::error::{ActivateError, Error};
use crate::fs_handler::FsEpollHandler;
use vstd::prelude::*;

verus! {

/// The features that the backend is given besides those of the guest.
pub const BACKEND_FEATURES: u64 = 0x400;

/// A queue as the guest has set it up.
#[derive(Clone, Copy, Debug, PartialEq)]
pub struct Queue {
    /// The largest size that the device allows.
    pub max_size: u16,
    /// The guest address of the descriptor table.
    pub desc_table: usize,
    /// The guest address of the available ring.
    pub avail_ring: usize,
    /// The guest address of the used ring.
    pub used_ring: usize,
}

/// A region of guest memory as the backend is told of it.
#[derive(Clone, Copy, Debug, PartialEq)]
pub struct VhostUserMemoryRegion {
    /// The address in the guest.
    pub guest_phys_addr: u64,
    /// The bytes of the region.
    pub memory_size: u64,
    /// The address in this process.
    pub userspace_addr: u64,
    /// Where the region starts in its file.
    pub mmap_offset: u64,
}

/// A part of a queue that lies in guest memory.
#[derive(Clone, Copy, Debug, PartialEq)]
pub enum Ring {
    /// The descriptor table.
    Desc,
    /// The used ring.
    Used,
    /// The available ring.
    Avail,
}

/// Where the parts of a queue lie in this process.
#[derive(Clone, Copy, Debug, PartialEq)]
pub struct Rings {
    /// The descriptor table.
    pub desc: u64,
    /// The used ring.
    pub used: u64,
    /// The available ring.
    pub avail: u64,
}

/// A call that the activation needs.
#[derive(Clone, Copy, Debug, PartialEq)]
pub enum ActivateStep {
    /// Become the owner of the backend.
    SetOwner,
    /// Give the backend its features.
    SetFeatures { features: u64 },
    /// Give the backend its end of the socket for its own requests.
    SetSlaveReqFd { fd: i32 },
    /// Send the handler of those requests, which serves the socket `fd`, to
    /// [`Fs::handler_sender`].
    SendSlaveHandler { fd: i32 },
    /// Watch the socket `fd` for input.
    WatchSlave { epoll_fd: i32, fd: i32, token: u64 },
    /// Add a region to the memory table.
    AppendRegion { region: VhostUserMemoryRegion, fd: i32 },
    /// Give the backend the memory table.
    SetMemTable,
    /// Give the backend the size of a queue.
    SetVringNum { index: u32, num: u32 },
    /// Find where a guest address lies in this process.
    LookUp { ring: Ring, addr: usize },
    /// Give the backend the addresses of a queue, which were looked up just before.
    SetVringAddr { index: u32, flags: u32, log: u64 },
    /// Give the backend the index to start at.
    SetVringBase { index: u32, base: u32 },
    /// Give the backend the event to signal.
    SetVringCall { short_index: u8, fd: i32 },
    /// Give the backend the event to wait for.
    SetVringKick { short_index: u8, fd: i32 },
    /// Send the handler of the interrupts of the backend to [`Fs::handler_sender`].
    SendFsHandler,
    /// Watch the event of these interrupts, `fd`, for input.
    WatchInterrupt { epoll_fd: i32, fd: i32, token: u64 },
}

/// What became of a call.
pub enum ActivateEvent<E> {
    /// It succeeded.
    Done,
    /// The address lies here in this process.
    HostAddress(u64),
    /// It failed.
    Failed(E),
}

/// The channel of `fs` that takes the handler that `step` sends: that of
/// `epoll_config_vu` for the requests of the backend, and that of `epoll_config`
/// for its interrupts.
pub open spec fn sender_of<S, N>(fs: Fs<S, N>, step: ActivateStep) -> Option<S> {
    match step {
        ActivateStep::SendSlaveHandler { .. } => Some(fs.epoll_config_vu.sender),
        ActivateStep::SendFsHandler => Some(fs.epoll_config.sender),
        _ => None,
    }
}

/// `event` can be what became of `step`. Adding to the memory table and sending a
/// handler do not fail, and only looking up an address yields one.
pub open spec fn answers<E>(step: ActivateStep, event: ActivateEvent<E>) -> bool {
    match step {
        ActivateStep::LookUp { .. } => event !is Done,
        ActivateStep::AppendRegion { .. } => event is Done,
        ActivateStep::SendSlaveHandler { .. } => event is Done,
        ActivateStep::SendFsHandler => event is Done,
        _ => event !is HostAddress,
    }
}

/// The error that ends the activation when `step`, which is one that can fail,
/// fails with `e`.
pub open spec fn failure<E>(step: ActivateStep, e: E) -> ActivateError<E> {
    match step {
        ActivateStep::SetOwner => ActivateError::BadVhostActivate(Error::VhostUserSetOwner(e)),
        ActivateStep::SetFeatures { .. } => ActivateError::BadVhostActivate(
            Error::VhostUserSetFeatures(e),
        ),
        ActivateStep::SetSlaveReqFd { .. } => ActivateError::BadVhostActivate(
            Error::VhostUserSetSlaveReqFd(e),
        ),
        ActivateStep::SetMemTable => ActivateError::BadVhostActivate(
            Error::VhostUserSetMemTable(e),
        ),
        ActivateStep::SetVringNum { .. } => ActivateError::BadVhostActivate(
            Error::VhostUserSetVringNum(e),
        ),
        ActivateStep::LookUp { ring: Ring::Desc, .. } => ActivateError::BadVhostActivate(
            Error::DescriptorTableAddress(e),
        ),
        ActivateStep::LookUp { ring: Ring::Used, .. } => ActivateError::BadVhostActivate(
            Error::UsedAddress(e),
        ),
        ActivateStep::LookUp { ring: Ring::Avail, .. } => ActivateError::BadVhostActivate(
            Error::AvailAddress(e),
        ),
        ActivateStep::SetVringAddr { .. } => ActivateError::BadVhostActivate(
            Error::VhostUserSetVringAddr(e),
        ),
        ActivateStep::SetVringBase { .. } => ActivateError::BadVhostActivate(
            Error::VhostUserSetVringBase(e),
        ),
        ActivateStep::SetVringCall { .. } => ActivateError::BadVhostActivate(
            Error::VhostUserSetVringCall(e),
        ),
        ActivateStep::SetVringKick { .. } => ActivateError::BadVhostActivate(
            Error::VhostUserSetVringKick(e),
        ),
        ActivateStep::WatchSlave { .. } => ActivateError::EpollCtl(e),
        ActivateStep::WatchInterrupt { .. } => ActivateError::EpollCtl(e),
        _ => arbitrary(),
    }
}

/// The first two calls.
pub open spec fn owner_steps(acked_features: u64) -> Seq<ActivateStep> {
    seq![
        ActivateStep::SetOwner,
        ActivateStep::SetFeatures { features: acked_features | BACKEND_FEATURES },
    ]
}

/// The calls that open the way for requests of the backend. There are none once
/// either end of the socket has been handed out.
pub open spec fn slave_steps<S, N>(fs: Fs<S, N>) -> Seq<ActivateStep> {
    match (fs.sl_req_fd, fs.sl_req_fd2) {
        (Some(fd), Some(fd2)) => seq![
            ActivateStep::SetSlaveReqFd { fd: fd2 },
            ActivateStep::SendSlaveHandler { fd },
            ActivateStep::WatchSlave {
                epoll_fd: fs.epoll_config_vu.epoll_raw_fd,
                fd,
                token: fs.epoll_config_vu.first_token,
            },
        ],
        _ => seq![],
    }
}

/// The call that adds `region` to the memory table.
pub open spec fn append_step(region: MemoryRegion) -> ActivateStep {
    ActivateStep::AppendRegion {
        region: VhostUserMemoryRegion {
            guest_phys_addr: region.guest_base as u64,
            memory_size: region.size as u64,
            userspace_addr: region.addr as u64,
            mmap_offset: region.offset as u64,
        },
        fd: region.fd,
    }
}

/// The calls that add every region that has a file, in order.
pub open spec fn region_steps(mem: Seq<MemoryRegion>) -> Seq<ActivateStep> {
    mem.filter(|region: MemoryRegion| region.fd != -1).map_values(
        |region: MemoryRegion| append_step(region),
    )
}

/// The calls for the queue `queue` at the index `index`, which is cut down to the
/// width that each call takes. The backend signals `interrupt_fd` and waits for
/// `queue_evt`.
pub open spec fn queue_steps(
    index: int,
    queue: Queue,
    queue_evt: i32,
    interrupt_fd: i32,
) -> Seq<ActivateStep> {
    seq![
        ActivateStep::SetVringNum { index: index as u32, num: queue.max_size as u32 },
        ActivateStep::LookUp { ring: Ring::Desc, addr: queue.desc_table },
        ActivateStep::LookUp { ring: Ring::Used, addr: queue.used_ring },
        ActivateStep::LookUp { ring: Ring::Avail, addr: queue.avail_ring },
        ActivateStep::SetVringAddr { index: index as u32, flags: 0, log: 0 },
        ActivateStep::SetVringBase { index: index as u32, base: 0 },
        ActivateStep::SetVringCall { short_index: index as u8, fd: interrupt_fd },
        ActivateStep::SetVringKick { short_index: index as u8, fd: queue_evt },
    ]
}

/// The calls for the first `count` queues.
pub open spec fn all_queue_steps(
    queues: Seq<Queue>,
    queue_evts: Seq<i32>,
    interrupt_fd: i32,
    count: int,
) -> Seq<ActivateStep>
    decreases count,
{
    if count <= 0 {
        seq![]
    } else {
        all_queue_steps(queues, queue_evts, interrupt_fd, count - 1) + queue_steps(
            count - 1,
            queues[count - 1],
            queue_evts[count - 1],
            interrupt_fd,
        )
    }
}

/// The calls that bring up the queues. There are none once the event for
/// interrupts has been handed out.
pub open spec fn vring_steps<S, N>(
    fs: Fs<S, N>,
    queues: Seq<Queue>,
    queue_evts: Seq<i32>,
) -> Seq<ActivateStep> {
    match fs.interrupt {
        Some(interrupt) => all_queue_steps(
            queues,
            queue_evts,
            interrupt.fd,
            queues.len() as int,
        ) + seq![
            ActivateStep::SendFsHandler,
            ActivateStep::WatchInterrupt {
                epoll_fd: fs.epoll_config.epoll_raw_fd,
                fd: interrupt.fd,
                token: fs.epoll_config.first_token,
            },
        ],
        None => seq![],
    }
}

/// All calls of an activation of `fs`, in order.
pub open spec fn plan<S, N>(
    fs: Fs<S, N>,
    queues: Seq<Queue>,
    queue_evts: Seq<i32>,
) -> Seq<ActivateStep> {
    owner_steps(fs.acked_features) + slave_steps(fs) + region_steps(fs.mem@) + seq![
        ActivateStep::SetMemTable,
    ] + vring_steps(fs, queues, queue_evts)
}

/// Where an activation stands.
pub struct ActivationView<S, N> {
    /// The device.
    pub fs: Fs<S, N>,
    /// All calls, in order.
    pub steps: Seq<ActivateStep>,
    /// How many of them have been made.
    pub next: int,
    /// What the last lookups of each kind have found.
    pub rings: Rings,
    /// The event for interrupts, from the time when the device hands it out.
    pub interrupt: Option<Interrupt<N>>,
}

/// `rings` once `addr` was found for `ring`.
pub open spec fn found(rings: Rings, ring: Ring, addr: u64) -> Rings {
    match ring {
        Ring::Desc => Rings { desc: addr, ..rings },
        Ring::Used => Rings { used: addr, ..rings },
        Ring::Avail => Rings { avail: addr, ..rings },
    }
}

/// The device `fs` once `step` has succeeded. With the features set it hands out
/// its socket, and with the memory table set the event for interrupts. The
/// backend's end of the socket stays where the own end is gone.
pub open spec fn handed_out<S, N>(fs: Fs<S, N>, step: ActivateStep) -> Fs<S, N> {
    match step {
        ActivateStep::SetFeatures { .. } => Fs {
            sl_req_fd: None,
            sl_req_fd2: if fs.sl_req_fd is Some {
                None
            } else {
                fs.sl_req_fd2
            },
            ..fs
        },
        ActivateStep::SetMemTable => Fs { interrupt: None, ..fs },
        _ => fs,
    }
}

/// `activation` once its next step has succeeded with `event`.
pub open spec fn advanced<S, N, E>(
    activation: ActivationView<S, N>,
    event: ActivateEvent<E>,
) -> ActivationView<S, N> {
    let step = activation.steps[activation.next];
    ActivationView {
        fs: handed_out(activation.fs, step),
        steps: activation.steps,
        next: activation.next + 1,
        rings: match (step, event) {
            (ActivateStep::LookUp { ring, .. }, ActivateEvent::HostAddress(addr)) => found(
                activation.rings,
                ring,
                addr,
            ),
            _ => activation.rings,
        },
        interrupt: if step is SetMemTable {
            activation.fs.interrupt
        } else {
            activation.interrupt
        },
    }
}

/// An activation of `fs` before its first call.
pub open spec fn begun<S, N>(
    fs: Fs<S, N>,
    queues: Seq<Queue>,
    queue_evts: Seq<i32>,
) -> ActivationView<S, N> {
    ActivationView {
        fs,
        steps: plan(fs, queues, queue_evts),
        next: 0,
        rings: Rings { desc: 0, used: 0, avail: 0 },
        interrupt: None,
    }
}

/// An activation that is under way. It has the device to itself until it ends.
pub struct Activation<S, N> {
    fs: Fs<S, N>,
    steps: Vec<ActivateStep>,
    next: usize,
    rings: Rings,
    interrupt: Option<Interrupt<N>>,
}

impl<S, N> View for Activation<S, N> {
    type V = ActivationView<S, N>;

    closed spec fn view(&self) -> ActivationView<S, N> {
        ActivationView {
            fs: self.fs,
            steps: self.steps@,
            next: self.next as int,
            rings: self.rings,
            interrupt: self.interrupt,
        }
    }
}

/// Appends the calls for one queue.
fn push_queue_steps(
    steps: &mut Vec<ActivateStep>,
    index: usize,
    queue: Queue,
    queue_evt: i32,
    interrupt_fd: i32,
)
    ensures
        final(steps)@ == old(steps)@ + queue_steps(index as int, queue, queue_evt, interrupt_fd),
{
    let wide: u32 = #[verifier::truncate]
    (index as u32);
    let narrow: u8 = #[verifier::truncate]
    (index as u8);
    steps.push(ActivateStep::SetVringNum { index: wide, num: queue.max_size as u32 });
    steps.push(ActivateStep::LookUp { ring: Ring::Desc, addr: queue.desc_table });
    steps.push(ActivateStep::LookUp { ring: Ring::Used, addr: queue.used_ring });
    steps.push(ActivateStep::LookUp { ring: Ring::Avail, addr: queue.avail_ring });
    steps.push(ActivateStep::SetVringAddr { index: wide, flags: 0, log: 0 });
    steps.push(ActivateStep::SetVringBase { index: wide, base: 0 });
    steps.push(ActivateStep::SetVringCall { short_index: narrow, fd: interrupt_fd });
    steps.push(ActivateStep::SetVringKick { short_index: narrow, fd: queue_evt });
    assert(steps@ =~= old(steps)@ + queue_steps(
        index as int,
        queue,
        queue_evt,
        interrupt_fd,
    ));
}

/// Appends the calls that fill the memory table.
fn push_region_steps(steps: &mut Vec<ActivateStep>, mem: &Vec<MemoryRegion>)
    ensures
        final(steps)@ == old(steps)@ + region_steps(mem@),
{
    let mut i: usize = 0;
    assert(mem@.take(0) =~= seq![]);
    assert(steps@ =~= old(steps)@ + region_steps(mem@.take(0))) by {
        reveal(Seq::filter);
    }
    while i < mem.len()
        invariant
            i <= mem@.len(),
            steps@ == old(steps)@ + region_steps(mem@.take(i as int)),
        decreases mem@.len() - i,
    {
        let region: MemoryRegion = mem[i];
        if region.fd != -1 {
            steps.push(
                ActivateStep::AppendRegion {
                    region: VhostUserMemoryRegion {
                        guest_phys_addr: region.guest_base as u64,
                        memory_size: region.size as u64,
                        userspace_addr: region.addr as u64,
                        mmap_offset: region.offset as u64,
                    },
                    fd: region.fd,
                },
            );
        }
        proof {
            lemma_region_steps_push(mem@.take(i as int), region);
            assert(mem@.take(i as int).push(region) =~= mem@.take(i + 1));
            assert(steps@ =~= old(steps)@ + region_steps(mem@.take(i + 1)));
        }
        i += 1;
    }
    assert(mem@.take(i as int) =~= mem@);
}

/// A region at the end adds its call at the end, where it has a file.
pub proof fn lemma_region_steps_push(mem: Seq<MemoryRegion>, region: MemoryRegion)
    ensures
        region_steps(mem.push(region)) == if region.fd != -1 {
            region_steps(mem).push(append_step(region))
        } else {
            region_steps(mem)
        },
{
    reveal(Seq::filter);
    assert(mem.push(region).drop_last() =~= mem);
    assert(region_steps(mem.push(region)) =~= if region.fd != -1 {
        region_steps(mem).push(append_step(region))
    } else {
        region_steps(mem)
    });
}

impl<S, N> Fs<S, N> {
    /// The channel that takes the handler that `step` sends, where it sends one.
    pub fn handler_sender(&self, step: ActivateStep) -> (sender: Option<&S>)
        ensures
            match sender_of(*self, step) {
                Some(s) => sender == Some(&s),
                None => sender is None,
            },
            step is SendSlaveHandler ==> sender == Some(&self.epoll_config_vu.sender),
            step is SendFsHandler ==> sender == Some(&self.epoll_config.sender),
            !(step is SendSlaveHandler) && !(step is SendFsHandler) ==> sender is None,
    {
        match step {
            ActivateStep::SendSlaveHandler { .. } => Some(&self.epoll_config_vu.sender),
            ActivateStep::SendFsHandler => Some(&self.epoll_config.sender),
            _ => None,
        }
    }

    /// Begins to activate the device with the queues of the guest. There must be a
    /// queue, and an event that the guest signals, for each queue of the device.
    /// Otherwise the device comes back as it was.
    pub fn activate<E>(self, queues: &Vec<Queue>, queue_evts: &Vec<i32>) -> (res: Result<
        Activation<S, N>,
        (Fs<S, N>, ActivateError<E>),
    >)
        ensures
            if queues@.len() == self.queue_sizes@.len() && queue_evts@.len()
                == self.queue_sizes@.len() {
                &&& res matches Ok(activation)
                &&& activation@ == begun(self, queues@, queue_evts@)
                &&& activation@.fs == self
                &&& activation@.steps == plan(self, queues@, queue_evts@)
                &&& activation@.next == 0
                &&& activation@.interrupt is None
            } else {
                res == Err::<Activation<S, N>, (Fs<S, N>, ActivateError<E>)>(
                    (self, ActivateError::BadActivate),
                )
            },
    {
        if queues.len() != self.queue_sizes.len() || queue_evts.len() != self.queue_sizes.len() {
            return Err((self, ActivateError::BadActivate));
        }
        let mut steps: Vec<ActivateStep> = Vec::new();
        steps.push(ActivateStep::SetOwner);
        steps.push(ActivateStep::SetFeatures { features: self.acked_features | BACKEND_FEATURES });
        if let (Some(fd), Some(fd2)) = (self.sl_req_fd, self.sl_req_fd2) {
            steps.push(ActivateStep::SetSlaveReqFd { fd: fd2 });
            steps.push(ActivateStep::SendSlaveHandler { fd });
            steps.push(
                ActivateStep::WatchSlave {
                    epoll_fd: self.epoll_config_vu.epoll_raw_fd,
                    fd,
                    token: self.epoll_config_vu.first_token,
                },
            );
        }
        assert(steps@ =~= owner_steps(self.acked_features) + slave_steps(self));
        push_region_steps(&mut steps, &self.mem);
        steps.push(ActivateStep::SetMemTable);
        let ghost front = steps@;
        assert(front =~= owner_steps(self.acked_features) + slave_steps(self) + region_steps(
            self.mem@,
        ) + seq![ActivateStep::SetMemTable]);
        if let Some(interrupt) = &self.interrupt {
            let interrupt_fd: i32 = interrupt.fd;
            let mut index: usize = 0;
            while index < queues.len()
                invariant
                    index <= queues@.len(),
                    queues@.len() == queue_evts@.len(),
                    steps@ == front + all_queue_steps(
                        queues@,
                        queue_evts@,
                        interrupt_fd,
                        index as int,
                    ),
                decreases queues@.len() - index,
            {
                push_queue_steps(
                    &mut steps,
                    index,
                    queues[index],
                    queue_evts[index],
                    interrupt_fd,
                );
                assert(steps@ =~= front + all_queue_steps(
                    queues@,
                    queue_evts@,
                    interrupt_fd,
                    index + 1,
                ));
                index += 1;
            }
            steps.push(ActivateStep::SendFsHandler);
            steps.push(
                ActivateStep::WatchInterrupt {
                    epoll_fd: self.epoll_config.epoll_raw_fd,
                    fd: interrupt_fd,
                    token: self.epoll_config.first_token,
                },
            );
        }
        assert(steps@ =~= front + vring_steps(self, queues@, queue_evts@));
        Ok(
            Activation {
                fs: self,
                steps,
                next: 0,
                rings: Rings { desc: 0, used: 0, avail: 0 },
                interrupt: None,
            },
        )
    }
}

/// The error that ends the activation when `step` fails with `e`.
fn fail<E>(step: ActivateStep, e: E) -> (error: ActivateError<E>)
    requires
        answers(step, ActivateEvent::Failed(e)),
    ensures
        error == failure(step, e),
{
    let error = match step {
        ActivateStep::SetOwner => Error::VhostUserSetOwner(e),
        ActivateStep::SetFeatures { .. } => Error::VhostUserSetFeatures(e),
        ActivateStep::SetSlaveReqFd { .. } => Error::VhostUserSetSlaveReqFd(e),
        ActivateStep::SetMemTable => Error::VhostUserSetMemTable(e),
        ActivateStep::SetVringNum { .. } => Error::VhostUserSetVringNum(e),
        ActivateStep::LookUp { ring, .. } => match ring {
            Ring::Desc => Error::DescriptorTableAddress(e),
            Ring::Used => Error::UsedAddress(e),
            Ring::Avail => Error::AvailAddress(e),
        },
        ActivateStep::SetVringAddr { .. } => Error::VhostUserSetVringAddr(e),
        ActivateStep::SetVringBase { .. } => Error::VhostUserSetVringBase(e),
        ActivateStep::SetVringCall { .. } => Error::VhostUserSetVringCall(e),
        ActivateStep::SetVringKick { .. } => Error::VhostUserSetVringKick(e),
        _ => return ActivateError::EpollCtl(e),
    };
    ActivateError::BadVhostActivate(error)
}

impl<S, N> Activation<S, N> {
    /// The call to make next, or `None` once the device is activated.
    pub fn step(&self) -> (step: Option<ActivateStep>)
        ensures
            step == if self@.next < self@.steps.len() {
                Some(self@.steps[self@.next])
            } else {
                None
            },
    {
        if self.next < self.steps.len() {
            Some(self.steps[self.next])
        } else {
            None
        }
    }

    /// The device.
    pub fn device(&self) -> (fs: &Fs<S, N>)
        ensures
            *fs == self@.fs,
    {
        &self.fs
    }

    /// Gives the device back once it is activated.
    pub fn finish(self) -> (fs: Fs<S, N>)
        requires
            self@.next == self@.steps.len(),
        ensures
            fs == self@.fs,
    {
        self.fs
    }

    /// Where the parts of the queue lie that were looked up last.
    pub fn rings(&self) -> (rings: Rings)
        ensures
            rings == self@.rings,
    {
        self.rings
    }

    /// The handler of the interrupts of the backend. It takes over the event that
    /// the device has handed out.
    pub fn fs_handler<A>(&mut self, interrupt_status: A, interrupt_evt: N) -> (handler: Option<
        FsEpollHandler<A, N>,
    >)
        ensures
            final(self)@ == (ActivationView { interrupt: None, ..old(self)@ }),
            handler == match old(self)@.interrupt {
                Some(interrupt) => Some(
                    FsEpollHandler { interrupt_status, interrupt_evt, queue_evt: interrupt.evt },
                ),
                None => None,
            },
    {
        match self.interrupt.take() {
            Some(interrupt) => Some(
                FsEpollHandler { interrupt_status, interrupt_evt, queue_evt: interrupt.evt },
            ),
            None => None,
        }
    }

    /// Goes on with what became of the call. The first call that fails ends the
    /// activation and gives the device back.
    pub fn resume<E>(self, event: ActivateEvent<E>) -> (res: Result<
        Activation<S, N>,
        (Fs<S, N>, ActivateError<E>),
    >)
        requires
            0 <= self@.next < self@.steps.len(),
            answers(self@.steps[self@.next], event),
        ensures
            match event {
                ActivateEvent::Failed(e) => res == Err::<
                    Activation<S, N>,
                    (Fs<S, N>, ActivateError<E>),
                >((self@.fs, failure(self@.steps[self@.next], e))),
                _ => {
                    &&& res matches Ok(activation)
                    &&& activation@ == advanced(self@, event)
                    &&& activation@.steps == self@.steps
                    &&& activation@.next == self@.next + 1
                    &&& self@.fs.wf() ==> activation@.fs.wf()
                },
            },
    {
        let mut activation = self;
        let step: ActivateStep = activation.steps[activation.next];
        assert(activation.next < activation.steps.len());
        match event {
            ActivateEvent::Failed(e) => {
                return Err((activation.fs, fail(step, e)));
            },
            ActivateEvent::HostAddress(addr) => {
                if let ActivateStep::LookUp { ring, .. } = step {
                    match ring {
                        Ring::Desc => activation.rings.desc = addr,
                        Ring::Used => activation.rings.used = addr,
                        Ring::Avail => activation.rings.avail = addr,
                    }
                }
            },
            ActivateEvent::Done => {},
        }
        match step {
            ActivateStep::SetFeatures { .. } => {
                if activation.fs.sl_req_fd.take().is_some() {
                    activation.fs.sl_req_fd2 = None;
                }
            },
            ActivateStep::SetMemTable => {
                activation.interrupt = activation.fs.interrupt.take();
            },
            _ => {},
        }
        activation.next += 1;
        Ok(activation)
    }
}

} // verus!
