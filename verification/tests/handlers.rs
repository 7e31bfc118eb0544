use virtio_fs::error::DeviceError;
use virtio_fs::fs_handler::FsEpollHandler;
use virtio_fs::slave_handler::{
    BodyReceiving, ByteOrder, SlaveEvent, SlaveStep, VhostUserEpollHandler, VhostUserRequestCode,
};

fn interrupt_handler() -> FsEpollHandler<u8, ()> {
    FsEpollHandler {
        interrupt_status: 0,
        interrupt_evt: (),
        queue_evt: (),
    }
}

type RequestHandler = VhostUserEpollHandler<(), (), &'static str>;

fn request(code: VhostUserRequestCode, size: u32, fds: Option<Vec<i32>>) -> BodyReceiving {
    let handler: RequestHandler = VhostUserEpollHandler::new((), ());
    let receiving = handler.handle_event::<()>(0).ok().unwrap();
    receiving.received(code, size, fds, ByteOrder::Little)
}

/// A body with the given entries: offset in the file, offset in the cache, length.
fn body(entries: &[(usize, u64, u64, u64)]) -> Vec<u8> {
    let mut bytes = vec![0u8; 256];
    for (i, fd_off, c_off, len) in entries {
        for (field, value) in [fd_off, c_off, len].iter().enumerate() {
            let at = 64 * field + 8 * i;
            bytes[at..at + 8].copy_from_slice(&value.to_le_bytes());
        }
    }
    bytes
}

#[test]
fn the_interrupt_handler_knows_one_event() {
    assert!(interrupt_handler().handle_event::<()>(0).is_ok());
    let unknown = interrupt_handler().handle_event::<()>(3);
    assert!(matches!(
        unknown,
        Err(DeviceError::UnknownEvent { device: "FsEpollHandler", event: 3 })
    ));
}

#[test]
fn a_read_event_interrupts_the_guest() {
    let reading = interrupt_handler().handle_event::<&str>(0).ok().unwrap();
    let setting = reading.queue_read::<&str>(Ok(4)).ok().unwrap();
    assert_eq!(setting.bits(), 1);
    let signaling = setting.status_set();
    assert_eq!(signaling.increment(), 1);
    assert!(signaling.signaled::<&str>(Ok(())).is_ok());
}

#[test]
fn an_event_that_cannot_be_read_is_an_error() {
    let reading = interrupt_handler().handle_event::<&str>(0).ok().unwrap();
    assert!(matches!(
        reading.queue_read(Err("closed")),
        Err(DeviceError::FailedReadingQueue {
            event_type: "queue event",
            underlying: "closed"
        })
    ));
}

#[test]
fn a_guest_that_cannot_be_interrupted_is_an_error() {
    let reading = interrupt_handler().handle_event::<&str>(0).ok().unwrap();
    let signaling = reading.queue_read::<&str>(Ok(1)).ok().unwrap().status_set();
    assert!(matches!(
        signaling.signaled(Err("full")),
        Err(DeviceError::FailedSignalingUsedQueue("full"))
    ));
}

#[test]
fn the_request_handler_knows_one_event() {
    let handler: RequestHandler = VhostUserEpollHandler::new((), ());
    assert!(matches!(
        handler.handle_event::<()>(9),
        Err(DeviceError::UnknownEvent { device: "VhostUserEpollHandler", event: 9 })
    ));
}

#[test]
fn the_body_has_the_size_of_the_header() {
    let code = VhostUserRequestCode::ResetOwner;
    assert_eq!(request(code, 256, None).body_len(), Some(256));
    assert_eq!(request(code, 0, None).body_len(), None);
}

#[test]
fn an_unknown_request_is_an_error() {
    let receiving = request(VhostUserRequestCode::Other(7), 0, None);
    assert!(receiving.accepts(&vec![]));
    assert!(matches!(
        receiving.received::<()>(&vec![]),
        Err(DeviceError::UnknownEvent { device: "VhostUserEpollHandler", event: 0 })
    ));
}

#[test]
fn unmapping_and_writing_back_need_no_call() {
    for code in [VhostUserRequestCode::SetMemTable, VhostUserRequestCode::SetLogBase] {
        let receiving = request(code, 0, None);
        assert!(receiving.accepts(&vec![]));
        let served = receiving.received::<()>(&vec![]).ok().unwrap();
        assert_eq!(served.step(), None);
    }
}

#[test]
fn a_request_to_map_is_served_entry_by_entry() {
    let mut handler: RequestHandler = VhostUserEpollHandler::new((), ());
    let bytes = body(&[(0, 0x10, 0x20, 0x30), (1, 9, 9, 0), (7, 0x1_0000_0000, 0x2000, 0x3000)]);
    let receiving = request(VhostUserRequestCode::ResetOwner, 256, Some(vec![5, 6]));
    assert!(receiving.accepts(&bytes));
    let mut request = receiving.received::<()>(&bytes).ok().unwrap();
    let mut calls = vec![];
    while let Some(step) = request.step() {
        calls.push(step);
        let event = match step {
            SlaveStep::LookUp { addr } => SlaveEvent::HostAddress(addr as u64 + 1),
            SlaveStep::MapFile { len, .. } => {
                let found = if len == 0x30 { 0x5_5000_0021 } else { 0x5_5000_2001 };
                assert_eq!(request.address(), found);
                SlaveEvent::Mapped(if len == 0x30 { "first" } else { "second" })
            }
            SlaveStep::Close { .. } => SlaveEvent::Done,
        };
        request = request.resume(&mut handler, event);
    }
    assert_eq!(
        calls,
        vec![
            SlaveStep::LookUp { addr: 0x5_5000_0020 },
            SlaveStep::MapFile { fd: 5, len: 0x30, offset: 0x10 },
            SlaveStep::Close { fd: 5 },
            SlaveStep::LookUp { addr: 0x5_5000_2000 },
            SlaveStep::MapFile { fd: 5, len: 0x3000, offset: 0x1_0000_0000 },
            SlaveStep::Close { fd: 5 },
        ]
    );
    assert_eq!(handler.desc_table, vec!["first", "second"]);
}

#[test]
fn a_request_to_map_without_files_only_looks_up() {
    let bytes = body(&[(2, 0, 0x40, 1)]);
    let receiving = request(VhostUserRequestCode::ResetOwner, 256, None);
    assert!(receiving.accepts(&bytes));
    let mut handler: RequestHandler = VhostUserEpollHandler::new((), ());
    let request = receiving.received::<()>(&bytes).ok().unwrap();
    assert_eq!(request.step(), Some(SlaveStep::LookUp { addr: 0x5_5000_0040 }));
    let request = request.resume(&mut handler, SlaveEvent::HostAddress(1));
    assert_eq!(request.step(), None);
    assert!(handler.desc_table.is_empty());
}

#[test]
fn a_request_to_map_that_cannot_be_served_is_told_apart() {
    let code = VhostUserRequestCode::ResetOwner;
    assert!(!request(code, 255, None).accepts(&vec![0; 255]));
    assert!(request(code, 256, None).accepts(&vec![0; 256]));
    let too_high = body(&[(3, 0, u64::MAX - 0x5_5000_0000 + 1, 1)]);
    assert!(!request(code, 256, None).accepts(&too_high));
    let highest = body(&[(3, 0, u64::MAX - 0x5_5000_0000, 1)]);
    assert!(request(code, 256, None).accepts(&highest));
    let unused = body(&[(3, 0, u64::MAX, 0)]);
    assert!(request(code, 256, Some(vec![])).accepts(&unused));
    let used = body(&[(3, 0, 0, 1)]);
    assert!(!request(code, 256, Some(vec![])).accepts(&used));
}

#[test]
fn a_request_is_read_in_the_byte_order_of_the_host() {
    let mut bytes = vec![0u8; 256];
    bytes[0..8].copy_from_slice(&0x10u64.to_be_bytes());
    bytes[64..72].copy_from_slice(&0x2030u64.to_be_bytes());
    bytes[128..136].copy_from_slice(&0x0102_0304u64.to_be_bytes());
    let handler: RequestHandler = VhostUserEpollHandler::new((), ());
    let receiving = handler.handle_event::<()>(0).ok().unwrap().received(
        VhostUserRequestCode::ResetOwner,
        256,
        Some(vec![5]),
        ByteOrder::Big,
    );
    assert!(receiving.accepts(&bytes));
    let mut handler: RequestHandler = VhostUserEpollHandler::new((), ());
    let request = receiving.received::<()>(&bytes).ok().unwrap();
    assert_eq!(request.step(), Some(SlaveStep::LookUp { addr: 0x5_5000_2030 }));
    let request = request.resume(&mut handler, SlaveEvent::HostAddress(1));
    assert_eq!(
        request.step(),
        Some(SlaveStep::MapFile { fd: 5, len: 0x0102_0304, offset: 0x10 })
    );
}
