use virtio_fs::device::{EpollConfig, Fs, Interrupt, FS_EVENTS_COUNT, TYPE_FS};
use virtio_fs::error::Error;
use virtio_fs::setup::Connecting;

fn begin(tag: &str, req_num_queues: usize) -> Connecting<&'static str> {
    Fs::<&'static str, ()>::new(
        String::from("/tmp/fs.sock"),
        String::from(tag),
        req_num_queues,
        1024,
        4096,
        vec![],
        EpollConfig::new(7, 3, "interrupts"),
        EpollConfig::new(8, 4, "requests"),
    )
}

fn device(tag: &str, req_num_queues: usize, features: u64) -> Fs<&'static str, ()> {
    let setup = begin(tag, req_num_queues).connected::<()>(Ok(())).ok().unwrap();
    let setup = setup.negotiated::<()>(Ok(features)).ok().unwrap();
    let made = setup.allocated::<(), ()>((10, 11), Ok(Interrupt { evt: (), fd: 12 }));
    made.ok().unwrap()
}

#[test]
fn an_epoll_config_holds_what_it_was_made_from() {
    let config = EpollConfig::new(5, -1, 'c');
    assert_eq!(config.first_token, 5);
    assert_eq!(config.epoll_raw_fd, -1);
    assert_eq!(config.sender, 'c');
}

#[test]
fn the_backend_is_asked_for_two_queues_more() {
    let setup = begin("shared", 3);
    assert_eq!(setup.path(), "/tmp/fs.sock");
    assert_eq!(setup.num_queues(), 5);
}

#[test]
fn connecting_can_fail() {
    let failed = begin("shared", 1).connected(Err("refused"));
    assert!(matches!(failed, Err(Error::VhostUserConnect("refused"))));
}

#[test]
fn connecting_can_fail_for_any_number_of_queues() {
    let setup = begin("shared", usize::MAX - 2);
    assert_eq!(setup.num_queues(), u64::MAX);
    let failed = setup.connected(Err("refused"));
    assert!(matches!(failed, Err(Error::VhostUserConnect("refused"))));
}

#[test]
fn reading_the_features_can_fail() {
    let setup = begin("shared", 1).connected::<&str>(Ok(())).ok().unwrap();
    let failed = setup.negotiated(Err("gone"));
    assert!(matches!(failed, Err(Error::VhostUserGetFeatures("gone"))));
}

#[test]
fn creating_the_event_can_fail() {
    let setup = begin("shared", 1).connected::<&str>(Ok(())).ok().unwrap();
    let setup = setup.negotiated::<&str>(Ok(0)).ok().unwrap();
    let failed = setup.allocated::<(), &str>((1, 2), Err("no file"));
    assert!(matches!(failed, Err(Error::VhostIrqCreate("no file"))));
}

#[test]
fn a_new_device_is_as_it_was_ordered() {
    let fs = device("shared", 2, 0x1_0000_0003);
    assert_eq!(fs.device_type(), TYPE_FS);
    assert_eq!(fs.device_type(), 26);
    assert_eq!(FS_EVENTS_COUNT, 1);
    assert_eq!(fs.queue_max_sizes().to_vec(), vec![1024u16; 4]);
    assert_eq!(fs.shm_sizes().to_vec(), vec![4096u64]);
    assert_eq!(fs.acked_features, 0);
    assert_eq!(fs.epoll_config.sender, "interrupts");
    assert_eq!(fs.epoll_config_vu.sender, "requests");
    assert_eq!(fs.sl_req_fd, Some(10));
    assert_eq!(fs.sl_req_fd2, Some(11));
    assert_eq!(fs.interrupt.unwrap().fd, 12);
}

#[test]
fn the_config_space_holds_the_tag_and_the_queues() {
    let fs = device("myfs", 0x0102, 0);
    let mut data = [0xffu8; 40];
    fs.read_config(0, &mut data);
    let mut expected = [0u8; 40];
    expected[..4].copy_from_slice(b"myfs");
    expected[36] = 2;
    expected[37] = 1;
    assert_eq!(data, expected);
}

#[test]
fn a_tag_is_held_in_utf8() {
    let fs = device("\u{e9}", 1, 0);
    assert_eq!(fs.config_space[..3], [0xc3u8, 0xa9, 0]);
}

#[test]
fn a_long_tag_is_cut_off() {
    let tag = "abcdefghijklmnopqrstuvwxyz0123456789ABCDEFGH";
    let fs = device(tag, 1, 0);
    assert_eq!(fs.config_space.len(), 40);
    assert_eq!(fs.config_space[..36], tag.as_bytes()[..36]);
    assert_eq!(fs.config_space[36..], [1u8, 0, 0, 0]);
}

#[test]
fn the_number_of_queues_is_little_endian() {
    let fs = device("t", 0x30201, 0);
    assert_eq!(fs.config_space[36..], [1u8, 2, 3, 0]);
}

#[test]
fn reading_stops_at_the_end() {
    let fs = device("t", 9, 0);
    let mut data = [0xaau8; 6];
    fs.read_config(36, &mut data);
    assert_eq!(data, [9, 0, 0, 0, 0xaa, 0xaa]);
}

#[test]
fn reading_beyond_the_end_leaves_the_data() {
    let fs = device("t", 9, 0);
    let mut data = [0xaau8; 2];
    fs.read_config(40, &mut data);
    fs.read_config(u64::MAX, &mut data);
    assert_eq!(data, [0xaa, 0xaa]);
}

#[test]
fn what_is_written_is_read_back() {
    let mut fs = device("tag", 9, 0);
    fs.write_config(37, &[5, 6, 7]);
    let mut data = [0u8; 4];
    fs.read_config(36, &mut data);
    assert_eq!(data, [9, 5, 6, 7]);
    assert_eq!(fs.config_space.len(), 40);
    assert_eq!(fs.config_space[..4], *b"tag\0");
}

#[test]
fn a_write_beyond_the_end_is_dropped() {
    let mut fs = device("tag", 9, 0);
    let before = fs.config_space.clone();
    fs.write_config(38, &[1, 2, 3]);
    assert_eq!(fs.config_space, before);
}

#[test]
fn features_come_in_two_pages() {
    let fs = device("t", 1, 0x1234_5678_9abc_def0);
    assert_eq!(fs.features(0), 0x9abc_def0);
    assert_eq!(fs.features(1), 0x1234_5678);
    assert_eq!(fs.features(2), 0);
}

#[test]
fn only_offered_features_are_taken() {
    let mut fs = device("t", 1, 0x3_0000_0005);
    fs.ack_features(0, 0xf);
    assert_eq!(fs.acked_features, 0x5);
    fs.ack_features(1, 0xf);
    assert_eq!(fs.acked_features, 0x3_0000_0005);
    fs.ack_features(2, 0xffff_ffff);
    assert_eq!(fs.acked_features, 0x3_0000_0005);
    assert_eq!(fs.avail_features, 0x3_0000_0005);
}

#[test]
fn features_are_kept_and_may_be_taken_again() {
    let mut fs = device("t", 1, 0xff);
    fs.ack_features(0, 0x0f);
    fs.ack_features(0, 0x30);
    assert_eq!(fs.acked_features, 0x3f);
    fs.ack_features(0, 0x0f);
    assert_eq!(fs.acked_features, 0x3f);
}

#[test]
fn the_order_of_taking_features_does_not_matter() {
    let mut one = device("t", 1, 0x5_0000_0005);
    one.ack_features(0, 0x7);
    one.ack_features(1, 0x7);
    let mut other = device("t", 1, 0x5_0000_0005);
    other.ack_features(1, 0x7);
    other.ack_features(0, 0x7);
    assert_eq!(one.acked_features, other.acked_features);
}

#[test]
fn all_that_is_offered_can_be_taken() {
    let mut fs = device("t", 1, 0x8000_0001_7000_0002);
    let (low, high) = (fs.features(0), fs.features(1));
    fs.ack_features(0, low);
    fs.ack_features(1, high);
    assert_eq!(fs.acked_features, fs.avail_features);
}
