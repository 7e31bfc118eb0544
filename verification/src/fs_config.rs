//! The configurations of the fs devices of a microVM, as the API hands them in.

use std::slice::Iter;
use vstd::prelude::*;
use vstd::std_specs::iter::IteratorSpec;

verus! {

/// The strongly typed body of an fs related request.
#[derive(Debug, PartialEq)]
pub struct FsDeviceConfig {
    /// vhost-user socket path.
    pub sock_path: String,
    /// Mount tag used inside the guest.
    pub tag: String,
    /// Number of virtqueues to use.
    pub num_queues: usize,
    /// Size of each virtqueue.
    pub queue_size: u16,
    /// Size of the shared memory cache.
    pub cache_size: usize,
}

impl Clone for FsDeviceConfig {
    fn clone(&self) -> (copy: Self)
        ensures
            copy == *self,
    {
        FsDeviceConfig {
            sock_path: self.sock_path.clone(),
            tag: self.tag.clone(),
            num_queues: self.num_queues,
            queue_size: self.queue_size,
            cache_size: self.cache_size,
        }
    }
}

/// Errors associated with `FsDeviceConfig`.
#[derive(Debug)]
pub enum FsError {
    /// The update is not allowed after booting the microvm.
    UpdateNotAllowedPostBoot,
}

impl FsError {
    /// The error in words.
    pub fn to_string(&self) -> (text: String)
        ensures
            text@ == "The update operation is not allowed after boot."@,
    {
        match self {
            FsError::UpdateNotAllowedPostBoot => {
                "The update operation is not allowed after boot.".to_owned()
            },
        }
    }
}

/// The first index from `from` on at which `list` holds a configuration with
/// the tag `tag`, or the length of `list` where there is none.
pub open spec fn position_from(list: Seq<FsDeviceConfig>, tag: Seq<char>, from: int) -> int
    decreases list.len() - from,
{
    if from >= list.len() {
        list.len() as int
    } else if list[from].tag@ == tag {
        from
    } else {
        position_from(list, tag, from + 1)
    }
}

/// The index of the first configuration with the tag `tag`, or the length of
/// `list` where there is none.
pub open spec fn position(list: Seq<FsDeviceConfig>, tag: Seq<char>) -> int {
    position_from(list, tag, 0)
}

/// Whether some configuration in `list` has the tag `tag`.
pub open spec fn has_tag(list: Seq<FsDeviceConfig>, tag: Seq<char>) -> bool {
    exists|i: int| 0 <= i < list.len() && (#[trigger] list[i]).tag@ == tag
}

/// The configuration that `list` holds for the tag `tag`.
pub open spec fn lookup(list: Seq<FsDeviceConfig>, tag: Seq<char>) -> Option<FsDeviceConfig> {
    if has_tag(list, tag) {
        Some(list[position(list, tag)])
    } else {
        None
    }
}

/// No tag occurs twice.
pub open spec fn tags_unique(list: Seq<FsDeviceConfig>) -> bool {
    forall|i: int, j: int|
        0 <= i < j < list.len() ==> (#[trigger] list[i]).tag@ != (#[trigger] list[j]).tag@
}

/// `list` once `cfg` is in it: in the place of the first configuration with the
/// same tag, or at the end where there is none.
pub open spec fn added(list: Seq<FsDeviceConfig>, cfg: FsDeviceConfig) -> Seq<FsDeviceConfig> {
    if has_tag(list, cfg.tag@) {
        list.update(position(list, cfg.tag@), cfg)
    } else {
        list.push(cfg)
    }
}

/// A list with all the fs devices.
pub struct FsDeviceConfigs {
    configs: Vec<FsDeviceConfig>,
}

impl View for FsDeviceConfigs {
    type V = Seq<FsDeviceConfig>;

    closed spec fn view(&self) -> Seq<FsDeviceConfig> {
        self.configs@
    }
}

impl FsDeviceConfigs {
    /// Creates an empty list of FsDeviceConfig.
    pub fn new() -> (configs: Self)
        ensures
            configs@ == Seq::<FsDeviceConfig>::empty(),
            tags_unique(configs@),
    {
        FsDeviceConfigs { configs: Vec::new() }
    }

    /// Adds `cfg` to the list. A configuration with the same tag is replaced
    /// where it stands.
    pub fn add(&mut self, cfg: FsDeviceConfig) -> (res: Result<(), FsError>)
        ensures
            res is Ok,
            final(self)@ == added(old(self)@, cfg),
            (forall|i: int| 0 <= i < old(self)@.len() ==> (#[trigger] old(self)@[i]).tag@ != cfg.tag@)
                ==> final(self)@ == old(self)@.push(cfg),
            forall|i: int|
                0 <= i < old(self)@.len() && (#[trigger] old(self)@[i]).tag@ == cfg.tag@ && (forall|
                    j: int,
                |
                    0 <= j < i ==> (#[trigger] old(self)@[j]).tag@ != cfg.tag@) ==> final(self)@
                    == old(self)@.update(i, cfg),
            tags_unique(old(self)@) ==> tags_unique(final(self)@),
    {
        let mut index: usize = 0;
        while index < self.configs.len() && self.configs[index].tag != cfg.tag
            invariant
                index <= self.configs.len(),
                position_from(self.configs@, cfg.tag@, index as int) == position(
                    self.configs@,
                    cfg.tag@,
                ),
            decreases self.configs.len() - index,
        {
            index += 1;
        }
        proof {
            lemma_position(self.configs@, cfg.tag@);
            law_add_replaces_or_appends(self.configs@, cfg);
        }
        if index < self.configs.len() {
            self.configs[index] = cfg;
        } else {
            self.configs.push(cfg);
        }
        Ok(())
    }

    /// Returns an immutable iterator over the fs available configurations.
    pub fn iter(&mut self) -> (iter: Iter<'_, FsDeviceConfig>)
        ensures
            final(self)@ == old(self)@,
            iter.remaining() == old(self)@.as_ref(),
    {
        self.configs.iter()
    }
}

/// What `position` gives is a first match, or the length where nothing matches.
proof fn lemma_position_from(list: Seq<FsDeviceConfig>, tag: Seq<char>, from: int)
    requires
        0 <= from <= list.len(),
    ensures
        from <= position_from(list, tag, from) <= list.len(),
        position_from(list, tag, from) < list.len() ==> list[position_from(list, tag, from)].tag@
            == tag,
        forall|i: int|
            from <= i < position_from(list, tag, from) ==> (#[trigger] list[i]).tag@ != tag,
    decreases list.len() - from,
{
    if from < list.len() && list[from].tag@ != tag {
        lemma_position_from(list, tag, from + 1);
    }
}

/// The position of a tag is its first occurrence, and the length of the list
/// exactly where the tag does not occur.
pub proof fn lemma_position(list: Seq<FsDeviceConfig>, tag: Seq<char>)
    ensures
        0 <= position(list, tag) <= list.len(),
        has_tag(list, tag) <==> position(list, tag) < list.len(),
        has_tag(list, tag) ==> list[position(list, tag)].tag@ == tag,
        forall|i: int| 0 <= i < position(list, tag) ==> (#[trigger] list[i]).tag@ != tag,
{
    lemma_position_from(list, tag, 0);
}

/// What was added is what the list holds for its tag.
pub proof fn law_add_then_lookup(list: Seq<FsDeviceConfig>, cfg: FsDeviceConfig)
    ensures
        lookup(added(list, cfg), cfg.tag@) == Some(cfg),
{
    let after = added(list, cfg);
    lemma_position(list, cfg.tag@);
    lemma_position(after, cfg.tag@);
    let p = if has_tag(list, cfg.tag@) { position(list, cfg.tag@) } else { list.len() as int };
    assert(after[p] == cfg);
    assert(position(after, cfg.tag@) == p) by {
        let q = position(after, cfg.tag@);
        if q < p {
            assert(after[q] == list[q]);
        }
    }
}

/// Adding a configuration leaves what the list holds for every other tag.
pub proof fn law_add_keeps_other_tags(
    list: Seq<FsDeviceConfig>,
    cfg: FsDeviceConfig,
    other: Seq<char>,
)
    requires
        other != cfg.tag@,
    ensures
        lookup(added(list, cfg), other) == lookup(list, other),
{
    let after = added(list, cfg);
    lemma_position(list, cfg.tag@);
    lemma_position(list, other);
    lemma_position(after, other);
    let p = position(list, other);
    let q = position(after, other);
    if has_tag(list, other) {
        assert(after[p] == list[p]);
        if q < p {
            assert(after[q] == list[q]);
        }
        if p < q {
            assert(after[p].tag@ != other);
        }
    } else if has_tag(after, other) {
        assert(after[q] == list[q]);
    }
}

/// Of two configurations with one tag only the later one stays.
pub proof fn law_later_add_wins(
    list: Seq<FsDeviceConfig>,
    first: FsDeviceConfig,
    second: FsDeviceConfig,
)
    requires
        first.tag@ == second.tag@,
    ensures
        added(added(list, first), second) == added(list, second),
{
    let after = added(list, first);
    law_add_then_lookup(list, first);
    lemma_position(list, first.tag@);
    lemma_position(after, first.tag@);
    let p = if has_tag(list, first.tag@) { position(list, first.tag@) } else { list.len() as int };
    assert(position(after, first.tag@) == p) by {
        let q = position(after, first.tag@);
        if q < p {
            assert(after[q] == list[q]);
        }
        assert(after[p] == first);
    }
    assert(added(after, second) =~= added(list, second));
}

/// Adding keeps the place of every tag that is there, and the list grows by one
/// exactly where the tag is new.
pub proof fn law_add_keeps_order(list: Seq<FsDeviceConfig>, cfg: FsDeviceConfig)
    ensures
        added(list, cfg).len() == list.len() + (if has_tag(list, cfg.tag@) { 0int } else { 1 }),
        forall|i: int|
            0 <= i < list.len() ==> (#[trigger] added(list, cfg)[i]).tag@ == list[i].tag@,
{
    lemma_position(list, cfg.tag@);
}

/// A configuration with a new tag goes behind the others, and they stay. One with a
/// known tag takes the place of the first that has it, and all others stay.
pub proof fn law_add_replaces_or_appends(list: Seq<FsDeviceConfig>, cfg: FsDeviceConfig)
    ensures
        (forall|i: int| 0 <= i < list.len() ==> (#[trigger] list[i]).tag@ != cfg.tag@) ==> {
            &&& added(list, cfg).len() == list.len() + 1
            &&& added(list, cfg)[list.len() as int] == cfg
            &&& forall|i: int| 0 <= i < list.len() ==> #[trigger] added(list, cfg)[i] == list[i]
        },
        forall|p: int|
            0 <= p < list.len() && (#[trigger] list[p]).tag@ == cfg.tag@ && (forall|i: int|
                0 <= i < p ==> (#[trigger] list[i]).tag@ != cfg.tag@) ==> {
                &&& added(list, cfg).len() == list.len()
                &&& added(list, cfg)[p] == cfg
                &&& forall|i: int|
                    0 <= i < list.len() && i != p ==> #[trigger] added(list, cfg)[i] == list[i]
                &&& added(list, cfg) == list.update(p, cfg)
            },
{
    lemma_position(list, cfg.tag@);
    let q = position(list, cfg.tag@);
    assert forall|p: int|
        0 <= p < list.len() && (#[trigger] list[p]).tag@ == cfg.tag@ && (forall|i: int|
            0 <= i < p ==> (#[trigger] list[i]).tag@ != cfg.tag@) implies {
        &&& added(list, cfg).len() == list.len()
        &&& added(list, cfg)[p] == cfg
        &&& forall|i: int|
            0 <= i < list.len() && i != p ==> #[trigger] added(list, cfg)[i] == list[i]
        &&& added(list, cfg) == list.update(p, cfg)
    } by {
        assert(has_tag(list, cfg.tag@));
        assert(q == p) by {
            if q < p {
                assert(list[q].tag@ != cfg.tag@);
            }
            if p < q {
                assert(list[p].tag@ != cfg.tag@);
            }
        }
    }
}

/// Any two different places of a list whose tags are unique hold different tags.
pub proof fn law_unique_tags_differ(list: Seq<FsDeviceConfig>, i: int, j: int)
    requires
        tags_unique(list),
        0 <= i < list.len(),
        0 <= j < list.len(),
        list[i].tag@ == list[j].tag@,
    ensures
        i == j,
{
}

} // verus!
