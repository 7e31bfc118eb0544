use futures::Future;
use hyper::Method;
use virtio_fs::fs_config::{FsDeviceConfig, FsError};
use virtio_fs::request::{ParsedRequest, VmmAction};

fn config() -> FsDeviceConfig {
    FsDeviceConfig {
        sock_path: String::from("/tmp/fs.sock"),
        tag: String::from("shared"),
        num_queues: 2,
        queue_size: 1024,
        cache_size: 1 << 20,
    }
}

#[test]
fn a_config_becomes_an_insertion() {
    let parsed = config().into_parsed_request(Some(String::from("id")), Method::Put);
    match parsed {
        Ok(ParsedRequest::Sync(VmmAction::InsertFsDevice(cfg, _), _)) => assert_eq!(cfg, config()),
        Err(text) => panic!("{}", text),
    }
}

#[test]
fn the_outcome_reaches_the_receiver() {
    match config().into_parsed_request(None, Method::Get) {
        Ok(ParsedRequest::Sync(VmmAction::InsertFsDevice(_, sender), receiver)) => {
            assert!(sender.send(Err(FsError::UpdateNotAllowedPostBoot)).is_ok());
            assert!(matches!(
                receiver.wait(),
                Ok(Err(FsError::UpdateNotAllowedPostBoot))
            ));
        }
        Err(text) => panic!("{}", text),
    }
}
