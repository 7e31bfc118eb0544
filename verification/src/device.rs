//! The virtio-fs device: what the guest sees of it, and what it hands out when it
//! is activated.

use crate::config_space::{read_bytes, written, CONFIG_SPACE_SIZE};
use vstd::prelude::*;

verus! {

/// The queues that the device has besides the request queues.
pub const NUM_QUEUE_OFFSET: usize = 2;

/// The events that the device handles.
pub const FS_EVENTS_COUNT: usize = 1;

/// The virtio device type of a file system.
pub const TYPE_FS: u32 = 26;

/// Where the handler of an event goes, and where the event is watched.
///
/// `S` is the sending end of the channel that takes the handlers.
pub struct EpollConfig<S> {
    /// The token of the event.
    pub first_token: u64,
    /// The epoll instance.
    pub epoll_raw_fd: i32,
    /// Takes the handler.
    pub sender: S,
}

impl<S> EpollConfig<S> {
    /// Puts the parts together.
    pub fn new(first_token: u64, epoll_raw_fd: i32, sender: S) -> (config: Self)
        ensures
            config == (EpollConfig { first_token, epoll_raw_fd, sender }),
    {
        EpollConfig { first_token, epoll_raw_fd, sender }
    }
}

/// A region of guest memory, and where it is mapped.
#[derive(Clone, Copy, Debug, PartialEq)]
pub struct MemoryRegion {
    /// The address of the region in the guest.
    pub guest_base: usize,
    /// The bytes of the region.
    pub size: usize,
    /// The address of the mapping in this process.
    pub addr: usize,
    /// Where the mapping starts in the file.
    pub offset: usize,
    /// The file behind the mapping, or -1 where there is none.
    pub fd: i32,
}

/// An event that the backend signals, and its file descriptor.
pub struct Interrupt<N> {
    /// The event.
    pub evt: N,
    /// Its file descriptor.
    pub fd: i32,
}

/// A virtio-fs device.
pub struct Fs<S, N> {
    /// The largest size of each queue.
    pub queue_sizes: Vec<u16>,
    /// The sizes of the shared memory regions.
    pub shm_sizes: Vec<u64>,
    /// The features that the backend offers.
    pub avail_features: u64,
    /// The features that the guest has taken.
    pub acked_features: u64,
    /// The configuration space.
    pub config_space: Vec<u8>,
    /// Where the interrupts of the backend are handled.
    pub epoll_config: EpollConfig<S>,
    /// Where the requests of the backend are handled.
    pub epoll_config_vu: EpollConfig<S>,
    /// The guest memory.
    pub mem: Vec<MemoryRegion>,
    /// The event for interrupts of the backend, until it is handed out.
    pub interrupt: Option<Interrupt<N>>,
    /// The own end of the socket for requests of the backend, until it is handed
    /// out.
    pub sl_req_fd: Option<i32>,
    /// The backend's end of that socket, until it is handed out.
    pub sl_req_fd2: Option<i32>,
}

/// The bits that the guest takes by writing `value` to the features page `page`.
pub open spec fn page_bits(page: u32, value: u32) -> u64 {
    if page == 0 {
        value as u64
    } else if page == 1 {
        (value as u64) << 32
    } else {
        0
    }
}

/// The features taken once `value` was written to `page`: those that are offered
/// join those that were taken before.
pub open spec fn acked(avail: u64, acked: u64, page: u32, value: u32) -> u64 {
    acked | (page_bits(page, value) & avail)
}

/// The 32 bits of `avail` that the features page `page` shows.
pub open spec fn features_page(avail: u64, page: u32) -> u32 {
    if page == 0 {
        (avail % 0x1_0000_0000) as u32
    } else if page == 1 {
        (avail / 0x1_0000_0000) as u32
    } else {
        0
    }
}

/// Every bit of `small` is a bit of `large`.
pub open spec fn bits_within(small: u64, large: u64) -> bool {
    small & !large == 0
}

impl<S, N> Fs<S, N> {
    /// What holds of every device: the configuration space has its size, all
    /// queues are equally large, there is one shared memory region, and the guest
    /// has taken only what was offered.
    pub open spec fn wf(self) -> bool {
        &&& self.config_space@.len() == CONFIG_SPACE_SIZE
        &&& self.queue_sizes@.len() >= NUM_QUEUE_OFFSET
        &&& forall|i: int, j: int|
            0 <= i < self.queue_sizes@.len() && 0 <= j < self.queue_sizes@.len()
                ==> self.queue_sizes@[i] == self.queue_sizes@[j]
        &&& self.shm_sizes@.len() == 1
        &&& bits_within(self.acked_features, self.avail_features)
    }

    /// The virtio device type.
    pub fn device_type(&self) -> (device_type: u32)
        ensures
            device_type == TYPE_FS,
            device_type == 26,
    {
        TYPE_FS
    }

    /// The largest size of each queue.
    pub fn queue_max_sizes(&self) -> (sizes: &[u16])
        ensures
            sizes@ == self.queue_sizes@,
    {
        self.queue_sizes.as_slice()
    }

    /// The sizes of the shared memory regions.
    pub fn shm_sizes(&self) -> (sizes: &[u64])
        ensures
            sizes@ == self.shm_sizes@,
    {
        self.shm_sizes.as_slice()
    }

    /// The features that the device offers, by pages of 32 bits. There are two;
    /// any other page is empty.
    pub fn features(&self, page: u32) -> (features: u32)
        ensures
            features == features_page(self.avail_features, page),
            page == 0 ==> features as int == self.avail_features as int % 0x1_0000_0000,
            page == 1 ==> features as int == self.avail_features as int / 0x1_0000_0000,
            page > 1 ==> features == 0,
    {
        let avail: u64 = self.avail_features;
        match page {
            0 => (avail % 0x1_0000_0000) as u32,
            1 => (avail / 0x1_0000_0000) as u32,
            _ => 0,
        }
    }

    /// Takes the features `value` of the page `page`. What the device does not
    /// offer is left out.
    pub fn ack_features(&mut self, page: u32, value: u32)
        ensures
            *final(self) == (Fs {
                acked_features: acked(
                    old(self).avail_features,
                    old(self).acked_features,
                    page,
                    value,
                ),
                ..*old(self)
            }),
            old(self).wf() ==> final(self).wf(),
    {
        let mut v: u64 = match page {
            0 => value as u64,
            1 => (value as u64) << 32,
            _ => 0,
        };
        let avail: u64 = self.avail_features;
        let before: u64 = self.acked_features;
        let ghost asked = v;
        let unrequested_features: u64 = v & !avail;
        if unrequested_features != 0 {
            v = v & !unrequested_features;
        }
        proof {
            assert(asked & !(asked & !avail) == asked & avail) by (bit_vector);
            assert(asked & !avail == 0 ==> asked == asked & avail) by (bit_vector);
            law_ack_stays_within(avail, before, page, value);
        }
        self.acked_features = before | v;
    }

    /// Reads the configuration space from `offset` on into `data`. What lies
    /// beyond its end is left alone.
    pub fn read_config(&self, offset: u64, data: &mut [u8])
        ensures
            final(data)@ == read_bytes(self.config_space@, offset as int, old(data)@),
            final(data)@.len() == old(data)@.len(),
            forall|i: int|
                0 <= i < old(data)@.len() ==> #[trigger] final(data)@[i] == if offset + i
                    < self.config_space@.len() {
                    self.config_space@[offset + i]
                } else {
                    old(data)@[i]
                },
    {
        let config_len: u64 = self.config_space.len() as u64;
        if offset >= config_len {
            assert(data@ =~= read_bytes(self.config_space@, offset as int, old(data)@));
            return;
        }
        let start: usize = offset as usize;
        let rest: usize = self.config_space.len() - start;
        let count: usize = if data.len() < rest {
            data.len()
        } else {
            rest
        };
        let mut i: usize = 0;
        while i < count
            invariant
                i <= count <= data@.len(),
                start + count <= self.config_space.len(),
                data@.len() == old(data)@.len(),
                forall|j: int| 0 <= j < i ==> data@[j] == self.config_space@[start + j],
                forall|j: int| i <= j < data@.len() ==> data@[j] == old(data)@[j],
            decreases count - i,
        {
            data[i] = self.config_space[start + i];
            i += 1;
        }
        assert(data@ =~= read_bytes(self.config_space@, offset as int, old(data)@));
    }

    /// Writes `data` to the end of the configuration space, from `offset` on. A
    /// write beyond the end is dropped. One that stops before the end is not
    /// supported.
    pub fn write_config(&mut self, offset: u64, data: &[u8])
        requires
            old(self).config_space@.len() <= offset + data@.len() <= u64::MAX,
        ensures
            final(self).config_space@ == written(
                old(self).config_space@,
                offset as int,
                data@,
            ),
            *final(self) == (Fs { config_space: final(self).config_space, ..*old(self) }),
            offset + data@.len() > old(self).config_space@.len() ==> final(self).config_space@
                == old(self).config_space@,
            offset + data@.len() == old(self).config_space@.len() ==> final(self).config_space@
                == old(self).config_space@.take(offset as int) + data@,
            old(self).wf() ==> final(self).wf(),
    {
        let data_len: u64 = data.len() as u64;
        let config_len: u64 = self.config_space.len() as u64;
        if offset + data_len > config_len {
            return;
        }
        let start: usize = offset as usize;
        let mut i: usize = 0;
        while i < data.len()
            invariant
                i <= data@.len(),
                start + data@.len() == self.config_space.len(),
                self.config_space@.len() == old(self).config_space@.len(),
                forall|j: int| 0 <= j < i ==> self.config_space@[start + j] == data@[j],
                forall|j: int|
                    0 <= j < start ==> self.config_space@[j] == old(self).config_space@[j],
                *self == (Fs { config_space: self.config_space, ..*old(self) }),
            decreases data@.len() - i,
        {
            self.config_space[start + i] = data[i];
            i += 1;
        }
        assert(self.config_space@ =~= written(old(self).config_space@, offset as int, data@)) by {
            assert forall|k: int| start <= k < self.config_space@.len() implies self.config_space@[k]
                == data@[k - start] by {
                assert(self.config_space@[start + (k - start)] == data@[k - start]);
            }
        }
    }
}

/// The guest never ends up with a feature that was not offered.
pub proof fn law_ack_stays_within(avail: u64, before: u64, page: u32, value: u32)
    ensures
        bits_within(before, avail) ==> bits_within(acked(avail, before, page, value), avail),
{
    let bits = page_bits(page, value);
    assert(before & !avail == 0 ==> (before | (bits & avail)) & !avail == 0) by (bit_vector);
}

/// What the guest has taken it keeps.
pub proof fn law_ack_keeps(avail: u64, before: u64, page: u32, value: u32)
    ensures
        bits_within(before, acked(avail, before, page, value)),
{
    let bits = page_bits(page, value);
    assert(before & !(before | (bits & avail)) == 0) by (bit_vector);
}

/// Taking the same features again changes nothing.
pub proof fn law_ack_again(avail: u64, before: u64, page: u32, value: u32)
    ensures
        acked(avail, acked(avail, before, page, value), page, value) == acked(
            avail,
            before,
            page,
            value,
        ),
{
    let bits = page_bits(page, value);
    assert((before | (bits & avail)) | (bits & avail) == before | (bits & avail)) by (bit_vector);
}

/// The order in which features are taken does not matter.
pub proof fn law_ack_order(
    avail: u64,
    before: u64,
    page1: u32,
    value1: u32,
    page2: u32,
    value2: u32,
)
    ensures
        acked(avail, acked(avail, before, page1, value1), page2, value2) == acked(
            avail,
            acked(avail, before, page2, value2),
            page1,
            value1,
        ),
{
    let a = page_bits(page1, value1) & avail;
    let b = page_bits(page2, value2) & avail;
    assert((before | a) | b == (before | b) | a) by (bit_vector);
}

/// A guest that takes both pages as they are offered has all that is offered.
pub proof fn law_ack_all(avail: u64, before: u64)
    requires
        bits_within(before, avail),
    ensures
        acked(
            avail,
            acked(avail, before, 0, features_page(avail, 0)),
            1,
            features_page(avail, 1),
        ) == avail,
{
    let low = features_page(avail, 0);
    let high = features_page(avail, 1);
    assert((before | ((low as u64) & avail)) | (((high as u64) << 32u64) & avail) == avail)
        by (bit_vector)
        requires
            before & !avail == 0,
            low == avail % 0x1_0000_0000,
            high == avail / 0x1_0000_0000,
    ;
}

/// The two pages together are the 64 features that are offered.
pub proof fn law_pages_cover_features(avail: u64)
    ensures
        avail == features_page(avail, 0) + 0x1_0000_0000 * features_page(avail, 1),
{
}

/// Feature by feature: `b` is taken after the call where it was before, or where it
/// is offered, lies in the page, and its bit in `value` is set. All others are as
/// before.
pub proof fn law_ack_bit_by_bit(avail: u64, before: u64, page: u32, value: u32, b: u64)
    requires
        b < 64,
    ensures
        page == 0 && b < 32 ==> ((acked(avail, before, page, value) >> b) & 1 == 1 <==> (before >> b)
            & 1 == 1 || ((avail >> b) & 1 == 1 && (value as u64 >> b) & 1 == 1)),
        page == 1 && b >= 32 ==> ((acked(avail, before, page, value) >> b) & 1 == 1 <==> (before
            >> b) & 1 == 1 || ((avail >> b) & 1 == 1 && (value as u64 >> (b - 32) as u64) & 1 == 1)),
        page == 0 && b >= 32 ==> (acked(avail, before, page, value) >> b) & 1 == (before >> b) & 1,
        page == 1 && b < 32 ==> (acked(avail, before, page, value) >> b) & 1 == (before >> b) & 1,
        page > 1 ==> acked(avail, before, page, value) == before,
{
    let v = value as u64;
    assert(v <= 0xffff_ffff);
    if page == 0 {
        assert(b < 32 ==> (((before | (v & avail)) >> b) & 1 == 1 <==> (before >> b) & 1 == 1 || ((
        avail >> b) & 1 == 1 && (v >> b) & 1 == 1))) by (bit_vector)
            requires
                b < 64,
                v <= 0xffff_ffff,
        ;
        assert(b >= 32 ==> ((before | (v & avail)) >> b) & 1 == (before >> b) & 1) by (bit_vector)
            requires
                b < 64,
                v <= 0xffff_ffff,
        ;
    } else if page == 1 {
        let high = v << 32;
        if b >= 32 {
            let c = (b - 32) as u64;
            assert(((before | (high & avail)) >> b) & 1 == 1 <==> (before >> b) & 1 == 1 || ((avail
                >> b) & 1 == 1 && (v >> c) & 1 == 1)) by (bit_vector)
                requires
                    b < 64,
                    b == c + 32,
                    v <= 0xffff_ffff,
                    high == v << 32,
            ;
        } else {
            assert(((before | (high & avail)) >> b) & 1 == (before >> b) & 1) by (bit_vector)
                requires
                    b < 32,
                    high == v << 32,
            ;
        }
    } else {
        assert(before | (0u64 & avail) == before) by (bit_vector);
    }
}

/// A guest that takes nothing gets nothing.
pub proof fn law_ack_of_nothing(avail: u64, before: u64, page: u32)
    ensures
        acked(avail, before, page, 0) == before,
{
    assert(before | (0u64 & avail) == before) by (bit_vector);
    assert(0u64 << 32 == 0u64) by (bit_vector);
}

/// What is offered shows in exactly two pages, the lower half in the first.
pub proof fn law_features_by_page(avail: u64, page: u32)
    ensures
        page == 0 ==> features_page(avail, page) as int == avail as int % 0x1_0000_0000,
        page == 1 ==> features_page(avail, page) as int == avail as int / 0x1_0000_0000,
        page > 1 ==> features_page(avail, page) == 0,
{
}

/// What a well-formed device has: 40 bytes of configuration space, at least two
/// queues, all of one size, one shared memory region, and no feature taken that
/// was not offered.
pub proof fn law_well_formed_device<S, N>(fs: Fs<S, N>, i: int, j: int, b: u64)
    requires
        fs.wf(),
        0 <= i < fs.queue_sizes@.len(),
        0 <= j < fs.queue_sizes@.len(),
        b < 64,
    ensures
        fs.config_space@.len() == 40,
        fs.queue_sizes@.len() >= 2,
        fs.queue_sizes@[i] == fs.queue_sizes@[j],
        fs.shm_sizes@.len() == 1,
        (fs.acked_features >> b) & 1 == 1 ==> (fs.avail_features >> b) & 1 == 1,
{
    let acked = fs.acked_features;
    let avail = fs.avail_features;
    assert((acked >> b) & 1 == 1 ==> (avail >> b) & 1 == 1) by (bit_vector)
        requires
            acked & !avail == 0,
            b < 64,
    ;
}

} // verus!
