use virtio_fs::fs_config::{FsDeviceConfig, FsDeviceConfigs, FsError};

fn config(tag: &str, queue_size: u16) -> FsDeviceConfig {
    FsDeviceConfig {
        sock_path: String::from("/tmp/fs.sock"),
        tag: String::from(tag),
        num_queues: 1,
        queue_size,
        cache_size: 4096,
    }
}

#[test]
fn a_new_list_is_empty() {
    let mut configs = FsDeviceConfigs::new();
    assert_eq!(configs.iter().count(), 0);
}

#[test]
fn a_new_tag_goes_to_the_end() {
    let mut configs = FsDeviceConfigs::new();
    assert!(configs.add(config("a", 1)).is_ok());
    assert!(configs.add(config("b", 2)).is_ok());
    let listed: Vec<FsDeviceConfig> = configs.iter().cloned().collect();
    assert_eq!(listed, vec![config("a", 1), config("b", 2)]);
}

#[test]
fn a_known_tag_is_replaced_in_place() {
    let mut configs = FsDeviceConfigs::new();
    configs.add(config("a", 1)).unwrap();
    configs.add(config("b", 2)).unwrap();
    configs.add(config("a", 3)).unwrap();
    let listed: Vec<FsDeviceConfig> = configs.iter().cloned().collect();
    assert_eq!(listed, vec![config("a", 3), config("b", 2)]);
}

#[test]
fn the_later_of_two_adds_stays() {
    let mut twice = FsDeviceConfigs::new();
    twice.add(config("a", 1)).unwrap();
    twice.add(config("a", 2)).unwrap();
    let mut once = FsDeviceConfigs::new();
    once.add(config("a", 2)).unwrap();
    assert!(twice.iter().eq(once.iter()));
}

#[test]
fn the_error_says_what_is_wrong() {
    assert_eq!(
        FsError::UpdateNotAllowedPostBoot.to_string(),
        "The update operation is not allowed after boot."
    );
}
