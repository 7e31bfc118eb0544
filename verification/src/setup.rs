//! The creation of a device, in the order in which the outside world takes part
//! in it: the connection to the backend, the features of the backend, and then
//! the socket and the event that the device hands out later.

use crate::config_space::{
    build_config_space, config_space, from_le32, law_config_space_bytes, law_num_queues_reads_back,
    read_bytes,
    CONFIG_SPACE_NUM_QUEUES_SIZE, CONFIG_SPACE_TAG_SIZE,
};
use crate::device::{EpollConfig, Fs, Interrupt, MemoryRegion, NUM_QUEUE_OFFSET};
use crate::error::Error;
use vstd::prelude::*;
use vstd::utf8::encode_utf8;

verus! {

/// What a device is made from.
pub struct FsParams<S> {
    /// The vhost-user socket of the backend.
    pub path: String,
    /// The mount tag.
    pub tag: String,
    /// The number of request queues.
    pub req_num_queues: usize,
    /// The largest size of each queue.
    pub queue_size: u16,
    /// The size of the shared memory cache.
    pub cache_size: usize,
    /// The guest memory.
    pub mem: Vec<MemoryRegion>,
    /// Where the interrupts of the backend are handled.
    pub epoll_config: EpollConfig<S>,
    /// Where the requests of the backend are handled.
    pub epoll_config_vu: EpollConfig<S>,
}

/// The number of all queues of a device with `req_num_queues` request queues.
pub open spec fn total_queues(req_num_queues: int) -> int {
    NUM_QUEUE_OFFSET + req_num_queues
}

/// A list with the size of every queue can be held in memory.
pub open spec fn queues_fit(req_num_queues: int) -> bool {
    total_queues(req_num_queues) * 2 <= isize::MAX
}

/// `fs` is the device that `params` describe, untouched by the guest, with what
/// the backend and the system have given for it.
pub open spec fn created<S, N>(
    fs: Fs<S, N>,
    params: FsParams<S>,
    avail_features: u64,
    sl_req_fds: (i32, i32),
    interrupt: Interrupt<N>,
) -> bool {
    &&& fs.queue_sizes@ == Seq::new(
        total_queues(params.req_num_queues as int) as nat,
        |i: int| params.queue_size,
    )
    &&& fs.shm_sizes@ == seq![params.cache_size as u64]
    &&& fs.avail_features == avail_features
    &&& fs.acked_features == 0
    &&& fs.config_space@ == config_space(params.tag@, params.req_num_queues as int)
    &&& fs.epoll_config == params.epoll_config
    &&& fs.epoll_config_vu == params.epoll_config_vu
    &&& fs.mem@ == params.mem@
    &&& fs.interrupt == Some(interrupt)
    &&& fs.sl_req_fd == Some(sl_req_fds.0)
    &&& fs.sl_req_fd2 == Some(sl_req_fds.1)
}

/// A device that waits for the connection to its backend.
pub struct Connecting<S> {
    params: FsParams<S>,
}

/// A device that waits for the features of its backend.
pub struct Negotiating<S> {
    params: FsParams<S>,
}

/// A device that waits for the socket and the event that it hands out later.
pub struct Allocating<S> {
    params: FsParams<S>,
    avail_features: u64,
}

impl<S, N> Fs<S, N> {
    /// Create a new virtio-fs device. The first thing it needs is a connection to
    /// its backend.
    pub fn new(
        path: String,
        tag: String,
        req_num_queues: usize,
        queue_size: u16,
        cache_size: usize,
        mem: Vec<MemoryRegion>,
        epoll_config: EpollConfig<S>,
        epoll_config_vu: EpollConfig<S>,
    ) -> (setup: Connecting<S>)
        requires
            req_num_queues + 2 <= usize::MAX,
        ensures
            setup.params() == (FsParams {
                path,
                tag,
                req_num_queues,
                queue_size,
                cache_size,
                mem,
                epoll_config,
                epoll_config_vu,
            }),
    {
        Connecting {
            params: FsParams {
                path,
                tag,
                req_num_queues,
                queue_size,
                cache_size,
                mem,
                epoll_config,
                epoll_config_vu,
            },
        }
    }
}

impl<S> Connecting<S> {
    /// What the device is made from.
    pub closed spec fn params(self) -> FsParams<S> {
        self.params
    }

    #[verifier::type_invariant]
    spec fn inv(self) -> bool {
        total_queues(self.params.req_num_queues as int) <= usize::MAX
    }

    /// The socket to connect to.
    pub fn path(&self) -> (path: &str)
        ensures
            path@ == self.params().path@,
    {
        self.params.path.as_str()
    }

    /// The number of queues to ask the backend for.
    pub fn num_queues(&self) -> (num_queues: u64)
        ensures
            num_queues == total_queues(self.params().req_num_queues as int),
            num_queues == self.params().req_num_queues + 2,
    {
        proof {
            use_type_invariant(self);
        }
        (NUM_QUEUE_OFFSET + self.params.req_num_queues) as u64
    }

    /// Goes on once connecting has succeeded or failed.
    pub fn connected<E>(self, connection: Result<(), E>) -> (res: Result<
        Negotiating<S>,
        Error<E>,
    >)
        ensures
            match connection {
                Ok(_) => res matches Ok(setup) && setup.params() == self.params(),
                Err(e) => res == Err::<Negotiating<S>, Error<E>>(Error::VhostUserConnect(e)),
            },
    {
        proof {
            use_type_invariant(&self);
        }
        match connection {
            Ok(_) => Ok(Negotiating { params: self.params }),
            Err(e) => Err(Error::VhostUserConnect(e)),
        }
    }
}

impl<S> Negotiating<S> {
    /// What the device is made from.
    pub closed spec fn params(self) -> FsParams<S> {
        self.params
    }

    #[verifier::type_invariant]
    spec fn inv(self) -> bool {
        total_queues(self.params.req_num_queues as int) <= usize::MAX
    }

    /// Goes on once the backend has told its features, or has failed to.
    pub fn negotiated<E>(self, features: Result<u64, E>) -> (res: Result<Allocating<S>, Error<E>>)
        ensures
            match features {
                Ok(avail) => res matches Ok(setup) && setup.params() == self.params()
                    && setup.avail_features() == avail,
                Err(e) => res == Err::<Allocating<S>, Error<E>>(Error::VhostUserGetFeatures(e)),
            },
    {
        proof {
            use_type_invariant(&self);
        }
        match features {
            Ok(avail_features) => Ok(Allocating { params: self.params, avail_features }),
            Err(e) => Err(Error::VhostUserGetFeatures(e)),
        }
    }
}

impl<S> Allocating<S> {
    /// What the device is made from.
    pub closed spec fn params(self) -> FsParams<S> {
        self.params
    }

    /// The features that the backend offers.
    pub closed spec fn avail_features(self) -> u64 {
        self.avail_features
    }

    #[verifier::type_invariant]
    spec fn inv(self) -> bool {
        total_queues(self.params.req_num_queues as int) <= usize::MAX
    }

    /// Ends with the device, once there is a pair of sockets and the event for
    /// interrupts was created, or could not be.
    pub fn allocated<N, E>(
        self,
        sl_req_fds: (i32, i32),
        interrupt: Result<Interrupt<N>, E>,
    ) -> (res: Result<Fs<S, N>, Error<E>>)
        requires
            queues_fit(self.params().req_num_queues as int),
        ensures
            match interrupt {
                Ok(interrupt) => {
                    &&& res matches Ok(fs)
                    &&& fs.wf()
                    &&& created(
                        fs,
                        self.params(),
                        self.avail_features(),
                        sl_req_fds,
                        interrupt,
                    )
                    &&& fs.queue_sizes@.len() == self.params().req_num_queues + 2
                    &&& forall|i: int|
                        0 <= i < fs.queue_sizes@.len() ==> fs.queue_sizes@[i]
                            == self.params().queue_size
                    &&& fs.shm_sizes@.len() == 1
                    &&& fs.shm_sizes@[0] as int == self.params().cache_size as int
                    &&& fs.avail_features == self.avail_features()
                    &&& fs.acked_features == 0
                    &&& fs.epoll_config == self.params().epoll_config
                    &&& fs.epoll_config_vu == self.params().epoll_config_vu
                    &&& fs.mem@ == self.params().mem@
                    &&& fs.interrupt == Some(interrupt)
                    &&& fs.sl_req_fd == Some(sl_req_fds.0)
                    &&& fs.sl_req_fd2 == Some(sl_req_fds.1)
                },
                Err(e) => res == Err::<Fs<S, N>, Error<E>>(Error::VhostIrqCreate(e)),
            },
    {
        proof {
            use_type_invariant(&self);
        }
        let avail_features: u64 = self.avail_features;
        let params = self.params;
        let num_queues: usize = NUM_QUEUE_OFFSET + params.req_num_queues;
        let config_space = build_config_space(params.tag, params.req_num_queues);
        let queue_sizes: Vec<u16> = vec![params.queue_size; num_queues];
        let shm_sizes: Vec<u64> = vec![params.cache_size as u64; 1];
        assert(queue_sizes@ =~= Seq::new(num_queues as nat, |i: int| params.queue_size));
        assert(shm_sizes@ =~= seq![params.cache_size as u64]);
        assert(0u64 & !avail_features == 0) by (bit_vector);
        match interrupt {
            Ok(interrupt) => Ok(
                Fs {
                    queue_sizes,
                    shm_sizes,
                    avail_features,
                    acked_features: 0,
                    config_space,
                    epoll_config: params.epoll_config,
                    epoll_config_vu: params.epoll_config_vu,
                    mem: params.mem,
                    interrupt: Some(interrupt),
                    sl_req_fd: Some(sl_req_fds.0),
                    sl_req_fd2: Some(sl_req_fds.1),
                },
            ),
            Err(e) => Err(Error::VhostIrqCreate(e)),
        }
    }
}

/// The guest of a new device reads the number of request queues, modulo 2^32,
/// behind the tag.
pub proof fn law_guest_reads_num_queues<S, N>(
    fs: Fs<S, N>,
    params: FsParams<S>,
    avail_features: u64,
    sl_req_fds: (i32, i32),
    interrupt: Interrupt<N>,
    buffer: Seq<u8>,
)
    requires
        created(fs, params, avail_features, sl_req_fds, interrupt),
        buffer.len() == CONFIG_SPACE_NUM_QUEUES_SIZE,
    ensures
        from_le32(read_bytes(fs.config_space@, CONFIG_SPACE_TAG_SIZE as int, buffer))
            == params.req_num_queues as int % 0x1_0000_0000,
{
    let num_queues = params.req_num_queues as int;
    law_num_queues_reads_back(params.tag@, num_queues);
    assert(read_bytes(fs.config_space@, CONFIG_SPACE_TAG_SIZE as int, buffer) =~= config_space(
        params.tag@,
        num_queues,
    ).skip(CONFIG_SPACE_TAG_SIZE as int));
}

/// The guest of a new device reads the tag at the start, where it is short enough
/// for its field.
pub proof fn law_guest_reads_tag<S, N>(
    fs: Fs<S, N>,
    params: FsParams<S>,
    avail_features: u64,
    sl_req_fds: (i32, i32),
    interrupt: Interrupt<N>,
    buffer: Seq<u8>,
)
    requires
        created(fs, params, avail_features, sl_req_fds, interrupt),
        encode_utf8(params.tag@).len() <= CONFIG_SPACE_TAG_SIZE,
        buffer.len() == encode_utf8(params.tag@).len(),
    ensures
        read_bytes(fs.config_space@, 0, buffer) == encode_utf8(params.tag@),
{
    assert(read_bytes(fs.config_space@, 0, buffer) =~= encode_utf8(params.tag@));
}

/// A new device is as it was ordered: two queues more than were asked for, all of
/// the size asked for, one shared memory region of exactly the size of the cache,
/// the features of the backend with none taken, and the memory, the event and the
/// sockets that it was given.
pub proof fn law_new_device_is_as_ordered<S, N>(
    fs: Fs<S, N>,
    params: FsParams<S>,
    avail_features: u64,
    sl_req_fds: (i32, i32),
    interrupt: Interrupt<N>,
)
    requires
        created(fs, params, avail_features, sl_req_fds, interrupt),
    ensures
        fs.queue_sizes@.len() == params.req_num_queues + 2,
        forall|i: int|
            0 <= i < fs.queue_sizes@.len() ==> #[trigger] fs.queue_sizes@[i] == params.queue_size,
        fs.shm_sizes@.len() == 1,
        fs.shm_sizes@[0] as int == params.cache_size as int,
        fs.avail_features == avail_features,
        fs.acked_features == 0,
        fs.epoll_config == params.epoll_config,
        fs.epoll_config_vu == params.epoll_config_vu,
        fs.mem@ == params.mem@,
        fs.interrupt == Some(interrupt),
        fs.sl_req_fd == Some(sl_req_fds.0),
        fs.sl_req_fd2 == Some(sl_req_fds.1),
{
}

/// The configuration space of a new device byte by byte: the tag in UTF-8, cut off
/// or filled up with zeros, and the number of request queues, least significant
/// byte first.
pub proof fn law_new_config_space<S, N>(
    fs: Fs<S, N>,
    params: FsParams<S>,
    avail_features: u64,
    sl_req_fds: (i32, i32),
    interrupt: Interrupt<N>,
)
    requires
        created(fs, params, avail_features, sl_req_fds, interrupt),
    ensures
        fs.config_space@.len() == 40,
        forall|i: int|
            0 <= i < 36 ==> #[trigger] fs.config_space@[i] == if i < encode_utf8(params.tag@).len() {
                encode_utf8(params.tag@)[i]
            } else {
                0
            },
        fs.config_space@[36] as int == params.req_num_queues as int % 256,
        fs.config_space@[37] as int == params.req_num_queues as int / 256 % 256,
        fs.config_space@[38] as int == params.req_num_queues as int / 65536 % 256,
        fs.config_space@[39] as int == params.req_num_queues as int / 16777216 % 256,
{
    law_config_space_bytes(params.tag@, params.req_num_queues as int);
}

/// Devices ordered with different cache sizes have shared memory regions of
/// different sizes.
pub proof fn law_cache_size_is_told_apart<S, N>(
    fs1: Fs<S, N>,
    params1: FsParams<S>,
    fs2: Fs<S, N>,
    params2: FsParams<S>,
    avail_features: u64,
    sl_req_fds: (i32, i32),
    interrupt: Interrupt<N>,
)
    requires
        created(fs1, params1, avail_features, sl_req_fds, interrupt),
        created(fs2, params2, avail_features, sl_req_fds, interrupt),
        fs1.shm_sizes@ == fs2.shm_sizes@,
    ensures
        params1.cache_size == params2.cache_size,
{
    law_new_device_is_as_ordered(fs1, params1, avail_features, sl_req_fds, interrupt);
    law_new_device_is_as_ordered(fs2, params2, avail_features, sl_req_fds, interrupt);
}

/// The list of queue sizes fits where two bytes for each of the queues do.
pub proof fn law_when_queues_fit(req_num_queues: int)
    ensures
        queues_fit(req_num_queues) <==> (req_num_queues + 2) * 2 <= isize::MAX,
{
}

} // verus!
