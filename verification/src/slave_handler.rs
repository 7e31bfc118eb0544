//! The handler of the requests of the backend: to map parts of a file into the
//! shared memory cache, to unmap them, and to write them back.

use crate::error::{DeviceError, DeviceEventT};
use vstd::prelude::*;

verus! {

/// The guest address of the shared memory cache.
pub const CACHE_BASE: u64 = 0x5_5000_0000;

/// The parts of a file that one request can name.
pub const SLAVE_ENTRIES: usize = 8;

/// The bytes of a request to map.
pub const SLAVE_MSG_SIZE: usize = 4 * 8 * SLAVE_ENTRIES;

/// The code in the header of a request, by the name that it has as a request to
/// the backend.
#[derive(Clone, Copy, Debug, PartialEq)]
pub enum VhostUserRequestCode {
    /// From the backend: map parts of a file.
    ResetOwner,
    /// From the backend: unmap parts of the cache.
    SetMemTable,
    /// From the backend: write parts of the cache back.
    SetLogBase,
    /// Any other code.
    Other(u32),
}

/// The order of the bytes in a number. Requests of the backend are in the order of
/// the host.
#[derive(Clone, Copy, Debug, PartialEq)]
pub enum ByteOrder {
    /// Least significant byte first.
    Little,
    /// Most significant byte first.
    Big,
}

/// A part of a file, as a request names it.
#[derive(Clone, Copy, Debug, PartialEq)]
pub struct SlaveEntry {
    /// Where the part starts in the file.
    pub fd_off: u64,
    /// Where it goes in the cache.
    pub c_off: u64,
    /// Its bytes. An entry without any is not in use.
    pub len: u64,
    /// How it is to be mapped.
    pub flags: u64,
}

/// The number in the eight bytes from `at` on, least significant byte first.
pub open spec fn le64_at(bytes: Seq<u8>, at: int) -> int {
    bytes[at] + 0x100 * bytes[at + 1] + 0x1_0000 * bytes[at + 2] + 0x100_0000 * bytes[at + 3]
        + 0x1_0000_0000 * bytes[at + 4] + 0x100_0000_0000 * bytes[at + 5] + 0x1_0000_0000_0000
        * bytes[at + 6] + 0x100_0000_0000_0000 * bytes[at + 7]
}

/// The number in the eight bytes from `at` on, most significant byte first.
pub open spec fn be64_at(bytes: Seq<u8>, at: int) -> int {
    bytes[at + 7] + 0x100 * bytes[at + 6] + 0x1_0000 * bytes[at + 5] + 0x100_0000 * bytes[at + 4]
        + 0x1_0000_0000 * bytes[at + 3] + 0x100_0000_0000 * bytes[at + 2] + 0x1_0000_0000_0000
        * bytes[at + 1] + 0x100_0000_0000_0000 * bytes[at]
}

/// The number in the eight bytes from `at` on.
pub open spec fn word_at(order: ByteOrder, bytes: Seq<u8>, at: int) -> u64 {
    match order {
        ByteOrder::Little => le64_at(bytes, at) as u64,
        ByteOrder::Big => be64_at(bytes, at) as u64,
    }
}

/// The entry `i` of a request. The offsets in the file of all entries come first,
/// then the offsets in the cache, then the lengths, then the flags.
pub open spec fn entry_at(order: ByteOrder, bytes: Seq<u8>, i: int) -> SlaveEntry {
    SlaveEntry {
        fd_off: word_at(order, bytes, 8 * i),
        c_off: word_at(order, bytes, 64 + 8 * i),
        len: word_at(order, bytes, 128 + 8 * i),
        flags: word_at(order, bytes, 192 + 8 * i),
    }
}

/// A call that a request of the backend needs.
#[derive(Clone, Copy, Debug, PartialEq)]
pub enum SlaveStep {
    /// Find where a guest address lies in this process.
    LookUp { addr: usize },
    /// Map a part of the file `fd` over the address that was found last.
    MapFile { fd: i32, len: usize, offset: usize },
    /// Close the file.
    Close { fd: i32 },
}

/// What a call has yielded. A call that fails has no event: the handler cannot go
/// on after it.
pub enum SlaveEvent<D> {
    /// Nothing but success.
    Done,
    /// The address lies here in this process.
    HostAddress(u64),
    /// The mapping.
    Mapped(D),
}

/// `event` can be what `step` has yielded.
pub open spec fn answers<D>(step: SlaveStep, event: SlaveEvent<D>) -> bool {
    match step {
        SlaveStep::LookUp { .. } => event is HostAddress,
        SlaveStep::MapFile { .. } => event is Mapped,
        SlaveStep::Close { .. } => event is Done,
    }
}

/// The calls for one entry of a request to map. `fds` are the files that came with
/// the request; the first of them is mapped, and closed after that.
pub open spec fn entry_steps(entry: SlaveEntry, fds: Option<Seq<i32>>) -> Seq<SlaveStep> {
    if entry.len == 0 {
        seq![]
    } else {
        let look_up = SlaveStep::LookUp { addr: (CACHE_BASE + entry.c_off) as usize };
        match fds {
            Some(fds) => seq![
                look_up,
                SlaveStep::MapFile {
                    fd: fds[0],
                    len: entry.len as usize,
                    offset: entry.fd_off as usize,
                },
                SlaveStep::Close { fd: fds[0] },
            ],
            None => seq![look_up],
        }
    }
}

/// The calls for the first `count` entries of a request to map.
pub open spec fn map_steps(
    order: ByteOrder,
    bytes: Seq<u8>,
    fds: Option<Seq<i32>>,
    count: int,
) -> Seq<SlaveStep>
    decreases count,
{
    if count <= 0 {
        seq![]
    } else {
        map_steps(order, bytes, fds, count - 1) + entry_steps(
            entry_at(order, bytes, count - 1),
            fds,
        )
    }
}

/// An entry can be mapped: its address can be told, and where files came with the
/// request there is a first one.
pub open spec fn mappable(entry: SlaveEntry, fds: Option<Seq<i32>>) -> bool {
    entry.len != 0 ==> {
        &&& CACHE_BASE + entry.c_off <= u64::MAX
        &&& fds matches Some(fds) ==> fds.len() > 0
    }
}

/// The body of a request can be acted on. Only a request to map has one that is
/// looked at: it must be complete, and its entries mappable.
pub open spec fn acceptable(
    code: VhostUserRequestCode,
    order: ByteOrder,
    bytes: Seq<u8>,
    fds: Option<Seq<i32>>,
) -> bool {
    code is ResetOwner ==> {
        &&& bytes.len() >= SLAVE_MSG_SIZE
        &&& forall|i: int|
            0 <= i < SLAVE_ENTRIES ==> mappable(#[trigger] entry_at(order, bytes, i), fds)
    }
}

/// The contents of a list that may be missing.
pub open spec fn list_view(fds: Option<Vec<i32>>) -> Option<Seq<i32>> {
    match fds {
        Some(fds) => Some(fds@),
        None => None,
    }
}

/// Serves the requests of the backend.
///
/// `P` is the socket that they come in by, `M` the guest memory, and `D` a mapping.
pub struct VhostUserEpollHandler<P, M, D> {
    /// The socket.
    pub endp: P,
    /// The guest memory.
    pub mem: M,
    /// The mappings that were made for the backend, in order.
    pub desc_table: Vec<D>,
}

/// A request whose header is to be received.
pub struct HeaderReceiving {
    _woken: (),
}

/// A request whose body is to be received.
pub struct BodyReceiving {
    code: VhostUserRequestCode,
    size: u32,
    fds: Option<Vec<i32>>,
    order: ByteOrder,
}

/// Where a request stands whose calls are being made.
pub struct SlaveRequestView {
    /// All calls, in order.
    pub steps: Seq<SlaveStep>,
    /// How many of them have been made.
    pub next: int,
    /// What the last lookup has found.
    pub address: u64,
}

/// `request` once its next call has yielded `event`.
pub open spec fn stepped<D>(request: SlaveRequestView, event: SlaveEvent<D>) -> SlaveRequestView {
    SlaveRequestView {
        steps: request.steps,
        next: request.next + 1,
        address: match event {
            SlaveEvent::HostAddress(address) => address,
            _ => request.address,
        },
    }
}

/// The mappings `desc_table` once a call has yielded `event`.
pub open spec fn kept<D>(desc_table: Seq<D>, event: SlaveEvent<D>) -> Seq<D> {
    match event {
        SlaveEvent::Mapped(mapping) => desc_table.push(mapping),
        _ => desc_table,
    }
}

/// A request whose calls are being made.
pub struct SlaveRequest {
    steps: Vec<SlaveStep>,
    next: usize,
    address: u64,
}

impl View for SlaveRequest {
    type V = SlaveRequestView;

    closed spec fn view(&self) -> SlaveRequestView {
        SlaveRequestView {
            steps: self.steps@,
            next: self.next as int,
            address: self.address,
        }
    }
}

/// Reads the number in the eight bytes from `at` on, least significant byte first.
fn read_le64(bytes: &Vec<u8>, at: usize) -> (n: u64)
    requires
        at + 8 <= bytes@.len(),
    ensures
        n == le64_at(bytes@, at as int),
{
    assert(at + 8 <= bytes.len());
    bytes[at] as u64 + 0x100 * bytes[at + 1] as u64 + 0x1_0000 * bytes[at + 2] as u64 + 0x100_0000
        * bytes[at + 3] as u64 + 0x1_0000_0000 * bytes[at + 4] as u64 + 0x100_0000_0000
        * bytes[at + 5] as u64 + 0x1_0000_0000_0000 * bytes[at + 6] as u64 + 0x100_0000_0000_0000
        * bytes[at + 7] as u64
}

/// Reads the number in the eight bytes from `at` on, most significant byte first.
fn read_be64(bytes: &Vec<u8>, at: usize) -> (n: u64)
    requires
        at + 8 <= bytes@.len(),
    ensures
        n == be64_at(bytes@, at as int),
{
    assert(at + 8 <= bytes.len());
    bytes[at + 7] as u64 + 0x100 * bytes[at + 6] as u64 + 0x1_0000 * bytes[at + 5] as u64
        + 0x100_0000 * bytes[at + 4] as u64 + 0x1_0000_0000 * bytes[at + 3] as u64 + 0x100_0000_0000
        * bytes[at + 2] as u64 + 0x1_0000_0000_0000 * bytes[at + 1] as u64 + 0x100_0000_0000_0000
        * bytes[at] as u64
}

/// Reads the number in the eight bytes from `at` on.
fn read_word(order: ByteOrder, bytes: &Vec<u8>, at: usize) -> (n: u64)
    requires
        at + 8 <= bytes@.len(),
    ensures
        n == word_at(order, bytes@, at as int),
{
    match order {
        ByteOrder::Little => read_le64(bytes, at),
        ByteOrder::Big => read_be64(bytes, at),
    }
}

/// Reads the entry `i` of a request.
fn read_entry(order: ByteOrder, bytes: &Vec<u8>, i: usize) -> (entry: SlaveEntry)
    requires
        i < SLAVE_ENTRIES,
        bytes@.len() >= SLAVE_MSG_SIZE,
    ensures
        entry == entry_at(order, bytes@, i as int),
{
    SlaveEntry {
        fd_off: read_word(order, bytes, 8 * i),
        c_off: read_word(order, bytes, 64 + 8 * i),
        len: read_word(order, bytes, 128 + 8 * i),
        flags: read_word(order, bytes, 192 + 8 * i),
    }
}

/// Appends the calls for one entry.
fn push_entry_steps(steps: &mut Vec<SlaveStep>, entry: SlaveEntry, fds: &Option<Vec<i32>>)
    requires
        mappable(entry, list_view(*fds)),
    ensures
        final(steps)@ == old(steps)@ + entry_steps(entry, list_view(*fds)),
{
    if entry.len != 0 {
        let addr: usize = #[verifier::truncate]
        ((CACHE_BASE + entry.c_off) as usize);
        steps.push(SlaveStep::LookUp { addr });
        if let Some(fds) = fds {
            let len: usize = #[verifier::truncate]
            (entry.len as usize);
            let offset: usize = #[verifier::truncate]
            (entry.fd_off as usize);
            steps.push(SlaveStep::MapFile { fd: fds[0], len, offset });
            steps.push(SlaveStep::Close { fd: fds[0] });
        }
    }
    assert(steps@ =~= old(steps)@ + entry_steps(entry, list_view(*fds)));
}

impl<P, M, D> VhostUserEpollHandler<P, M, D> {
    /// A handler that has made no mapping yet.
    pub fn new(endp: P, mem: M) -> (handler: Self)
        ensures
            handler.endp == endp,
            handler.mem == mem,
            handler.desc_table@ == Seq::<D>::empty(),
    {
        VhostUserEpollHandler { endp, mem, desc_table: Vec::new() }
    }

    /// Handles an event. There is one: the backend has sent a request.
    pub fn handle_event<E>(&self, device_event: DeviceEventT) -> (res: Result<
        HeaderReceiving,
        DeviceError<E>,
    >)
        ensures
            if device_event == 0 {
                res is Ok
            } else {
                res matches Err(DeviceError::UnknownEvent { device, event }) && device@
                    == "VhostUserEpollHandler"@ && event == device_event
            },
    {
        match device_event {
            0 => Ok(HeaderReceiving { _woken: () }),
            other => Err(
                DeviceError::UnknownEvent { device: "VhostUserEpollHandler", event: other },
            ),
        }
    }
}

impl HeaderReceiving {
    /// Goes on with the header: the code of the request, the size of its body, and
    /// the files that came with it. `order` is the byte order of the host.
    pub fn received(
        self,
        code: VhostUserRequestCode,
        size: u32,
        fds: Option<Vec<i32>>,
        order: ByteOrder,
    ) -> (request: BodyReceiving)
        ensures
            request.code() == code,
            request.size() == size,
            request.fds() == list_view(fds),
            fds matches Some(list) ==> request.fds() == Some(list@),
            fds is None ==> request.fds() is None,
            request.order() == order,
    {
        BodyReceiving { code, size, fds, order }
    }
}

impl BodyReceiving {
    /// The code of the request.
    pub closed spec fn code(self) -> VhostUserRequestCode {
        self.code
    }

    /// The size of the body, as the header tells it.
    pub closed spec fn size(self) -> u32 {
        self.size
    }

    /// The files that came with the request.
    pub closed spec fn fds(self) -> Option<Seq<i32>> {
        list_view(self.fds)
    }

    /// The byte order of the body.
    pub closed spec fn order(self) -> ByteOrder {
        self.order
    }

    /// The bytes of the body to receive, or `None` where there is no body.
    pub fn body_len(&self) -> (len: Option<usize>)
        ensures
            len == if self.size() == 0 {
                None
            } else {
                Some(self.size() as usize)
            },
    {
        match self.size {
            0 => None,
            len => Some(len as usize),
        }
    }

    /// Whether the request can be acted on with the body `body`.
    pub fn accepts(&self, body: &Vec<u8>) -> (accepted: bool)
        ensures
            accepted == acceptable(self.code(), self.order(), body@, self.fds()),
    {
        match self.code {
            VhostUserRequestCode::ResetOwner => {},
            _ => {
                return true;
            },
        }
        if body.len() < SLAVE_MSG_SIZE {
            return false;
        }
        let has_file: bool = match &self.fds {
            Some(fds) => fds.len() > 0,
            None => true,
        };
        let mut i: usize = 0;
        while i < SLAVE_ENTRIES
            invariant
                i <= SLAVE_ENTRIES,
                self.code() is ResetOwner,
                body@.len() >= SLAVE_MSG_SIZE,
                has_file == (self.fds() matches Some(fds) ==> fds.len() > 0),
                forall|j: int|
                    0 <= j < i ==> mappable(#[trigger] entry_at(self.order(), body@, j), self.fds()),
            decreases SLAVE_ENTRIES - i,
        {
            let entry: SlaveEntry = read_entry(self.order, body, i);
            if entry.len != 0 && !(has_file && entry.c_off <= u64::MAX - CACHE_BASE) {
                assert(!mappable(entry_at(self.order(), body@, i as int), self.fds()));
                return false;
            }
            i += 1;
        }
        true
    }

    /// Goes on with the body, which is empty where there is none to receive.
    pub fn received<E>(self, body: &Vec<u8>) -> (res: Result<SlaveRequest, DeviceError<E>>)
        requires
            acceptable(self.code(), self.order(), body@, self.fds()),
        ensures
            match self.code() {
                VhostUserRequestCode::Other(_) => res matches Err(
                    DeviceError::UnknownEvent { device, event },
                ) && device@ == "VhostUserEpollHandler"@ && event == 0,
                code => {
                    &&& res matches Ok(request)
                    &&& request@.steps == if code is ResetOwner {
                        map_steps(self.order(), body@, self.fds(), SLAVE_ENTRIES as int)
                    } else {
                        seq![]
                    }
                    &&& request@.next == 0
                    &&& request@.address == 0
                },
            },
    {
        let mut steps: Vec<SlaveStep> = Vec::new();
        match self.code {
            VhostUserRequestCode::ResetOwner => {
                let mut i: usize = 0;
                while i < SLAVE_ENTRIES
                    invariant
                        i <= SLAVE_ENTRIES,
                        self.code() is ResetOwner,
                        acceptable(self.code(), self.order(), body@, self.fds()),
                        steps@ == map_steps(self.order(), body@, self.fds(), i as int),
                    decreases SLAVE_ENTRIES - i,
                {
                    push_entry_steps(&mut steps, read_entry(self.order, body, i), &self.fds);
                    i += 1;
                }
            },
            VhostUserRequestCode::SetMemTable => {},
            VhostUserRequestCode::SetLogBase => {},
            VhostUserRequestCode::Other(_) => {
                return Err(
                    DeviceError::UnknownEvent { device: "VhostUserEpollHandler", event: 0 },
                );
            },
        }
        assert(!(self.code() is ResetOwner) ==> steps@ =~= seq![]);
        Ok(SlaveRequest { steps, next: 0, address: 0 })
    }
}

impl SlaveRequest {
    /// The call to make next, or `None` once the request is served.
    pub fn step(&self) -> (step: Option<SlaveStep>)
        ensures
            step == if self@.next < self@.steps.len() {
                Some(self@.steps[self@.next])
            } else {
                None
            },
    {
        if self.next < self.steps.len() {
            Some(self.steps[self.next])
        } else {
            None
        }
    }

    /// What the last lookup has found.
    pub fn address(&self) -> (address: u64)
        ensures
            address == self@.address,
    {
        self.address
    }

    /// Goes on with what the call has yielded. The handler keeps every mapping.
    pub fn resume<P, M, D>(
        self,
        handler: &mut VhostUserEpollHandler<P, M, D>,
        event: SlaveEvent<D>,
    ) -> (request: SlaveRequest)
        requires
            0 <= self@.next < self@.steps.len(),
            answers(self@.steps[self@.next], event),
        ensures
            request@ == stepped(self@, event),
            request@.steps == self@.steps,
            request@.next == self@.next + 1,
            event matches SlaveEvent::HostAddress(address) ==> request@.address == address,
            !(event is HostAddress) ==> request@.address == self@.address,
            final(handler).desc_table@ == kept(old(handler).desc_table@, event),
            event matches SlaveEvent::Mapped(mapping) ==> final(handler).desc_table@ == old(
                handler,
            ).desc_table@.push(mapping),
            !(event is Mapped) ==> final(handler).desc_table@ == old(handler).desc_table@,
            final(handler).endp == old(handler).endp,
            final(handler).mem == old(handler).mem,
    {
        let mut request = self;
        assert(request.next < request.steps.len());
        match event {
            SlaveEvent::HostAddress(address) => {
                request.address = address;
            },
            SlaveEvent::Mapped(mapping) => {
                handler.desc_table.push(mapping);
            },
            SlaveEvent::Done => {},
        }
        request.next += 1;
        request
    }
}

} // verus!
