//! The configuration space of the device: the mount tag, and after it the
//! number of request queues.

use vstd::arithmetic::div_mod::lemma_div_denominator;
use vstd::prelude::*;
use vstd::utf8::encode_utf8;

verus! {

/// The bytes of the mount tag.
pub const CONFIG_SPACE_TAG_SIZE: usize = 36;

/// The bytes of the number of queues.
pub const CONFIG_SPACE_NUM_QUEUES_SIZE: usize = 4;

/// The bytes of the whole configuration space.
pub const CONFIG_SPACE_SIZE: usize = CONFIG_SPACE_TAG_SIZE + CONFIG_SPACE_NUM_QUEUES_SIZE;

/// The field of the tag: its bytes, cut off or filled up with zeros.
pub open spec fn tag_field(tag: Seq<u8>) -> Seq<u8> {
    Seq::new(
        CONFIG_SPACE_TAG_SIZE as nat,
        |i: int|
            if i < tag.len() {
                tag[i]
            } else {
                0u8
            },
    )
}

/// The lower 32 bits of `n`, least significant byte first.
pub open spec fn le32(n: int) -> Seq<u8> {
    seq![
        (n % 0x100) as u8,
        (n / 0x100 % 0x100) as u8,
        (n / 0x1_0000 % 0x100) as u8,
        (n / 0x100_0000 % 0x100) as u8,
    ]
}

/// The number that four bytes hold, least significant byte first.
pub open spec fn from_le32(bytes: Seq<u8>) -> int {
    bytes[0] + 0x100 * bytes[1] + 0x1_0000 * bytes[2] + 0x100_0000 * bytes[3]
}

/// The configuration space of a device with the tag `tag` and `num_queues`
/// request queues.
pub open spec fn config_space(tag: Seq<char>, num_queues: int) -> Seq<u8> {
    tag_field(encode_utf8(tag)) + le32(num_queues)
}

/// `data` once the bytes from `offset` on were read into it. What lies beyond the
/// end of the configuration space stays as it was.
pub open spec fn read_bytes(config: Seq<u8>, offset: int, data: Seq<u8>) -> Seq<u8> {
    Seq::new(
        data.len(),
        |i: int|
            if offset + i < config.len() {
                config[offset + i]
            } else {
                data[i]
            },
    )
}

/// The configuration space once `data` was written up to its end from `offset`
/// on. A write beyond the end is dropped.
pub open spec fn written(config: Seq<u8>, offset: int, data: Seq<u8>) -> Seq<u8> {
    if offset + data.len() > config.len() {
        config
    } else {
        config.take(offset) + data
    }
}

/// Lays out the configuration space.
pub fn build_config_space(tag: String, num_queues: usize) -> (config: Vec<u8>)
    ensures
        config@ == config_space(tag@, num_queues as int),
        config@.len() == CONFIG_SPACE_SIZE,
        config@.len() == 40,
{
    let bytes: &[u8] = tag.as_str().as_bytes();
    let mut config: Vec<u8> = Vec::new();
    config.extend_from_slice(bytes);
    assert(config@ =~= encode_utf8(tag@));
    let ghost tag_bytes = config@;
    config.resize(CONFIG_SPACE_TAG_SIZE, 0);
    assert(config@ =~= tag_field(tag_bytes)) by {
        if tag_bytes.len() < CONFIG_SPACE_TAG_SIZE {
            let front = config@.subrange(0, tag_bytes.len() as int);
            assert forall|i: int| 0 <= i < tag_bytes.len() implies config@[i] == tag_bytes[i] by {
                assert(front[i] == tag_bytes[i]);
            }
        }
    }
    config.push((num_queues % 0x100) as u8);
    config.push((num_queues / 0x100 % 0x100) as u8);
    config.push((num_queues / 0x1_0000 % 0x100) as u8);
    config.push((num_queues / 0x100_0000 % 0x100) as u8);
    assert(config@ =~= config_space(tag@, num_queues as int));
    config
}

/// A tag of at most 36 bytes stands in the configuration space as it is, with
/// zeros behind it.
pub proof fn law_tag_reads_back(tag: Seq<char>, num_queues: int)
    requires
        encode_utf8(tag).len() <= CONFIG_SPACE_TAG_SIZE,
    ensures
        config_space(tag, num_queues).take(encode_utf8(tag).len() as int) == encode_utf8(tag),
        forall|i: int|
            encode_utf8(tag).len() <= i < CONFIG_SPACE_TAG_SIZE ==> #[trigger] config_space(
                tag,
                num_queues,
            )[i] == 0,
{
    assert(config_space(tag, num_queues).take(encode_utf8(tag).len() as int) =~= encode_utf8(tag));
}

/// The last four bytes hold the number of queues, modulo 2^32, whatever the tag.
pub proof fn law_num_queues_reads_back(tag: Seq<char>, num_queues: int)
    requires
        0 <= num_queues,
    ensures
        from_le32(config_space(tag, num_queues).skip(CONFIG_SPACE_TAG_SIZE as int)) == num_queues
            % 0x1_0000_0000,
{
    let tail = config_space(tag, num_queues).skip(CONFIG_SPACE_TAG_SIZE as int);
    assert(tail =~= le32(num_queues));
    lemma_div_denominator(num_queues, 0x100, 0x100);
    lemma_div_denominator(num_queues, 0x1_0000, 0x100);
    lemma_div_denominator(num_queues, 0x100_0000, 0x100);
    let q1 = num_queues / 0x100;
    let q2 = num_queues / 0x1_0000;
    let q3 = num_queues / 0x100_0000;
    let q4 = num_queues / 0x1_0000_0000;
    assert(num_queues == 0x100 * q1 + num_queues % 0x100);
    assert(q1 == 0x100 * q2 + q1 % 0x100);
    assert(q2 == 0x100 * q3 + q2 % 0x100);
    assert(q3 == 0x100 * q4 + q3 % 0x100);
    assert(num_queues == 0x1_0000_0000 * q4 + num_queues % 0x1_0000_0000);
}

/// What was written is what is read at the same place.
pub proof fn law_write_then_read(config: Seq<u8>, offset: int, data: Seq<u8>, buffer: Seq<u8>)
    requires
        0 <= offset,
        offset + data.len() == config.len(),
        buffer.len() == data.len(),
    ensures
        read_bytes(written(config, offset, data), offset, buffer) == data,
{
    assert(read_bytes(written(config, offset, data), offset, buffer) =~= data);
}

/// A write keeps the size, and the bytes before it.
pub proof fn law_write_keeps_the_front(config: Seq<u8>, offset: int, data: Seq<u8>)
    requires
        0 <= offset,
        offset + data.len() >= config.len(),
    ensures
        written(config, offset, data).len() == config.len(),
        forall|i: int|
            0 <= i < offset && i < config.len() ==> #[trigger] written(config, offset, data)[i]
                == config[i],
{
}

/// The 40 bytes one by one: 36 of the tag in UTF-8, cut off or filled up with
/// zeros, and then byte by byte the number of queues, least significant byte
/// first.
pub proof fn law_config_space_bytes(tag: Seq<char>, num_queues: int)
    requires
        0 <= num_queues,
    ensures
        config_space(tag, num_queues).len() == 40,
        forall|i: int|
            0 <= i < 36 && i < encode_utf8(tag).len() ==> #[trigger] config_space(tag, num_queues)[i]
                == encode_utf8(tag)[i],
        forall|i: int|
            0 <= i < 36 && i >= encode_utf8(tag).len() ==> #[trigger] config_space(
                tag,
                num_queues,
            )[i] == 0,
        config_space(tag, num_queues)[36] as int == num_queues % 256,
        config_space(tag, num_queues)[37] as int == num_queues / 256 % 256,
        config_space(tag, num_queues)[38] as int == num_queues / 65536 % 256,
        config_space(tag, num_queues)[39] as int == num_queues / 16777216 % 256,
{
    let tail = le32(num_queues);
    let all = config_space(tag, num_queues);
    assert(all[36] == tail[0] && all[37] == tail[1] && all[38] == tail[2] && all[39] == tail[3]);
}

/// Two numbers of queues that differ modulo 2^32 give different configuration
/// spaces.
pub proof fn law_num_queues_is_told_apart(tag: Seq<char>, n: int, m: int)
    requires
        0 <= n,
        0 <= m,
        config_space(tag, n) == config_space(tag, m),
    ensures
        n % 0x1_0000_0000 == m % 0x1_0000_0000,
{
    law_num_queues_reads_back(tag, n);
    law_num_queues_reads_back(tag, m);
}

/// A read keeps the length of the buffer. It fills the byte `i` of it with the byte
/// `offset + i` of the configuration space, and where there is none leaves it.
pub proof fn law_read_byte_by_byte(config: Seq<u8>, offset: int, data: Seq<u8>, i: int)
    requires
        0 <= offset,
        0 <= i < data.len(),
    ensures
        read_bytes(config, offset, data).len() == data.len(),
        offset + i < config.len() ==> read_bytes(config, offset, data)[i] == config[offset + i],
        offset + i >= config.len() ==> read_bytes(config, offset, data)[i] == data[i],
{
}

/// Two reads of neighbouring parts give what one read of both gives.
pub proof fn law_reads_join(config: Seq<u8>, offset: int, first: Seq<u8>, second: Seq<u8>)
    requires
        0 <= offset,
    ensures
        read_bytes(config, offset, first) + read_bytes(config, offset + first.len(), second)
            == read_bytes(config, offset, first + second),
{
    assert(read_bytes(config, offset, first) + read_bytes(config, offset + first.len(), second)
        =~= read_bytes(config, offset, first + second));
}

/// A write up to the end replaces the byte `offset + i` by the byte `i` of the data
/// and leaves those before; one beyond the end replaces none.
pub proof fn law_write_byte_by_byte(config: Seq<u8>, offset: int, data: Seq<u8>, k: int)
    requires
        0 <= offset,
        0 <= k < config.len(),
        offset + data.len() >= config.len(),
    ensures
        written(config, offset, data).len() == config.len(),
        offset + data.len() == config.len() && k >= offset ==> written(config, offset, data)[k]
            == data[k - offset],
        offset + data.len() == config.len() && k < offset ==> written(config, offset, data)[k]
            == config[k],
        offset + data.len() > config.len() ==> written(config, offset, data)[k] == config[k],
{
}

} // verus!
