use virtio_fs::activate::{
    ActivateEvent, ActivateStep, Activation, Queue, Ring, Rings, VhostUserMemoryRegion,
};
use virtio_fs::device::{EpollConfig, Fs, Interrupt, MemoryRegion};
use virtio_fs::error::{ActivateError, Error};

fn region(guest_base: usize, fd: i32) -> MemoryRegion {
    MemoryRegion {
        guest_base,
        size: 0x1000,
        addr: 0x7000_0000 + guest_base,
        offset: 0x20,
        fd,
    }
}

fn device() -> Fs<&'static str, &'static str> {
    let setup = Fs::<&'static str, &'static str>::new(
        String::from("/tmp/fs.sock"),
        String::from("shared"),
        0,
        128,
        4096,
        vec![region(0, 5), region(0x4000, -1), region(0x8000, 6)],
        EpollConfig::new(70, 30, "interrupts"),
        EpollConfig::new(80, 40, "requests"),
    );
    let setup = setup.connected::<()>(Ok(())).ok().unwrap();
    let setup = setup.negotiated::<()>(Ok(0xff)).ok().unwrap();
    let made = setup.allocated::<&'static str, ()>((10, 11), Ok(Interrupt { evt: "irq", fd: 12 }));
    made.ok().unwrap()
}

fn queue(base: usize) -> Queue {
    Queue {
        max_size: 128,
        desc_table: base,
        avail_ring: base + 1,
        used_ring: base + 2,
    }
}

type Device = Fs<&'static str, &'static str>;

fn begin(fs: Device) -> Activation<&'static str, &'static str> {
    let begun = fs.activate::<&str>(&vec![queue(100), queue(200)], &vec![21, 22]);
    begun.ok().unwrap()
}

/// Lets every call succeed. A guest address lies at itself plus 0x9000.
fn succeed(step: ActivateStep) -> ActivateEvent<&'static str> {
    match step {
        ActivateStep::LookUp { addr, .. } => ActivateEvent::HostAddress(0x9000 + addr as u64),
        _ => ActivateEvent::Done,
    }
}

fn append(guest_base: u64, fd: i32) -> ActivateStep {
    ActivateStep::AppendRegion {
        region: VhostUserMemoryRegion {
            guest_phys_addr: guest_base,
            memory_size: 0x1000,
            userspace_addr: 0x7000_0000 + guest_base,
            mmap_offset: 0x20,
        },
        fd,
    }
}

fn queue_calls(index: u32, base: usize, kick: i32) -> Vec<ActivateStep> {
    let short_index = index as u8;
    vec![
        ActivateStep::SetVringNum { index, num: 128 },
        ActivateStep::LookUp { ring: Ring::Desc, addr: base },
        ActivateStep::LookUp { ring: Ring::Used, addr: base + 2 },
        ActivateStep::LookUp { ring: Ring::Avail, addr: base + 1 },
        ActivateStep::SetVringAddr { index, flags: 0, log: 0 },
        ActivateStep::SetVringBase { index, base: 0 },
        ActivateStep::SetVringCall { short_index, fd: 12 },
        ActivateStep::SetVringKick { short_index, fd: kick },
    ]
}

fn first_calls(features: u64) -> Vec<ActivateStep> {
    vec![ActivateStep::SetOwner, ActivateStep::SetFeatures { features }]
}

fn all_calls(features: u64) -> Vec<ActivateStep> {
    let mut calls = first_calls(features);
    calls.push(ActivateStep::SetSlaveReqFd { fd: 11 });
    calls.push(ActivateStep::SendSlaveHandler { fd: 10 });
    calls.push(ActivateStep::WatchSlave { epoll_fd: 40, fd: 10, token: 80 });
    calls.push(append(0, 5));
    calls.push(append(0x8000, 6));
    calls.push(ActivateStep::SetMemTable);
    calls.extend(queue_calls(0, 100, 21));
    calls.extend(queue_calls(1, 200, 22));
    calls.push(ActivateStep::SendFsHandler);
    calls.push(ActivateStep::WatchInterrupt { epoll_fd: 30, fd: 12, token: 70 });
    calls
}

/// Makes all calls and tells which they were.
fn run(fs: Device) -> (Device, Vec<ActivateStep>) {
    let mut activation = begin(fs);
    let mut calls = vec![];
    while let Some(step) = activation.step() {
        calls.push(step);
        activation = activation.resume(succeed(step)).ok().unwrap();
    }
    (activation.finish(), calls)
}

/// Lets the call at the index `failing` fail and tells the error.
fn run_to_failure(fs: Device, failing: usize) -> (Device, ActivateError<&'static str>) {
    let mut activation = begin(fs);
    for _ in 0..failing {
        let step = activation.step().unwrap();
        activation = activation.resume(succeed(step)).ok().unwrap();
    }
    match activation.resume(ActivateEvent::Failed("down")) {
        Ok(_) => panic!("the activation went on"),
        Err(ended) => ended,
    }
}

#[test]
fn the_number_of_queues_must_fit() {
    let few = device().activate::<()>(&vec![queue(1)], &vec![21, 22]);
    assert!(matches!(few, Err((_, ActivateError::BadActivate))));
    let few = device().activate::<()>(&vec![queue(1), queue(2)], &vec![21]);
    assert!(matches!(few, Err((_, ActivateError::BadActivate))));
    match device().activate::<()>(&vec![queue(1); 3], &vec![21; 3]) {
        Ok(_) => panic!("three queues on a device with two"),
        Err((fs, error)) => {
            assert_eq!(error, ActivateError::BadActivate);
            assert_eq!(fs.sl_req_fd, Some(10));
            assert!(fs.interrupt.is_some());
        }
    }
}

#[test]
fn the_calls_come_in_order() {
    let mut fs = device();
    fs.ack_features(0, 0x3);
    assert_eq!(run(fs).1, all_calls(0x403));
}

#[test]
fn each_handler_goes_to_its_own_channel() {
    let fs = device();
    let requests = ActivateStep::SendSlaveHandler { fd: 10 };
    assert_eq!(fs.handler_sender(requests), Some(&"requests"));
    assert_eq!(fs.handler_sender(ActivateStep::SendFsHandler), Some(&"interrupts"));
    assert_eq!(fs.handler_sender(ActivateStep::SetMemTable), None);
}

#[test]
fn a_first_activation_sends_two_handlers() {
    let mut activation = begin(device());
    let mut sent = vec![];
    while let Some(step) = activation.step() {
        if let Some(sender) = activation.device().handler_sender(step) {
            sent.push(*sender);
        }
        activation = activation.resume(succeed(step)).ok().unwrap();
    }
    assert_eq!(sent, vec!["requests", "interrupts"]);
}

#[test]
fn an_activated_device_has_handed_everything_out() {
    let (fs, _) = run(device());
    assert_eq!(fs.sl_req_fd, None);
    assert_eq!(fs.sl_req_fd2, None);
    assert!(fs.interrupt.is_none());
    assert_eq!(fs.mem.len(), 3);
}

#[test]
fn a_second_activation_brings_up_nothing_anew() {
    let (fs, _) = run(device());
    let mut calls = first_calls(0x400);
    calls.push(append(0, 5));
    calls.push(append(0x8000, 6));
    calls.push(ActivateStep::SetMemTable);
    assert_eq!(run(fs).1, calls);
}

#[test]
fn the_addresses_are_those_of_the_queue() {
    let mut activation = begin(device());
    let mut seen = vec![];
    while let Some(step) = activation.step() {
        if let ActivateStep::SetVringAddr { index, .. } = step {
            seen.push((index, activation.rings()));
        }
        activation = activation.resume(succeed(step)).ok().unwrap();
    }
    let rings = |base: u64| Rings {
        desc: 0x9000 + base,
        used: 0x9002 + base,
        avail: 0x9001 + base,
    };
    assert_eq!(seen, vec![(0, rings(100)), (1, rings(200))]);
}

#[test]
fn the_interrupt_handler_takes_over_the_event() {
    let mut activation = begin(device());
    assert!(activation.fs_handler(0u8, "guest").is_none());
    while let Some(step) = activation.step() {
        if matches!(step, ActivateStep::SendFsHandler) {
            let handler = activation.fs_handler(9u8, "guest").unwrap();
            assert_eq!(handler.interrupt_status, 9);
            assert_eq!(handler.interrupt_evt, "guest");
            assert_eq!(handler.queue_evt, "irq");
            assert!(activation.fs_handler(9u8, "guest").is_none());
        }
        activation = activation.resume(succeed(step)).ok().unwrap();
    }
}

#[test]
fn each_call_that_fails_has_its_error() {
    let down = "down";
    let errors = vec![
        (0, Error::VhostUserSetOwner(down)),
        (1, Error::VhostUserSetFeatures(down)),
        (2, Error::VhostUserSetSlaveReqFd(down)),
        (7, Error::VhostUserSetMemTable(down)),
        (8, Error::VhostUserSetVringNum(down)),
        (9, Error::DescriptorTableAddress(down)),
        (10, Error::UsedAddress(down)),
        (11, Error::AvailAddress(down)),
        (12, Error::VhostUserSetVringAddr(down)),
        (13, Error::VhostUserSetVringBase(down)),
        (14, Error::VhostUserSetVringCall(down)),
        (15, Error::VhostUserSetVringKick(down)),
        (16, Error::VhostUserSetVringNum(down)),
    ];
    for (failing, error) in errors {
        assert_eq!(
            run_to_failure(device(), failing).1,
            ActivateError::BadVhostActivate(error)
        );
    }
    assert_eq!(run_to_failure(device(), 4).1, ActivateError::EpollCtl(down));
    assert_eq!(run_to_failure(device(), 25).1, ActivateError::EpollCtl(down));
}

#[test]
fn a_failure_leaves_what_was_handed_out_before() {
    let (fs, _) = run_to_failure(device(), 1);
    assert_eq!(fs.sl_req_fd, Some(10));
    assert_eq!(fs.sl_req_fd2, Some(11));
    assert!(fs.interrupt.is_some());

    let (fs, _) = run_to_failure(device(), 2);
    assert_eq!(fs.sl_req_fd, None);
    assert_eq!(fs.sl_req_fd2, None);
    assert!(fs.interrupt.is_some());

    let (fs, _) = run_to_failure(device(), 7);
    assert!(fs.interrupt.is_some());

    let (fs, _) = run_to_failure(device(), 8);
    assert!(fs.interrupt.is_none());
}

#[test]
fn a_lone_end_of_the_socket_is_not_used() {
    let mut fs = device();
    fs.sl_req_fd2 = None;
    let (fs, calls) = run(fs);
    assert!(!calls.contains(&ActivateStep::SendSlaveHandler { fd: 10 }));
    assert_eq!(fs.sl_req_fd, None);

    let mut fs = device();
    fs.sl_req_fd = None;
    let (fs, _) = run(fs);
    assert_eq!(fs.sl_req_fd2, Some(11));
}

#[test]
fn a_long_list_of_queues_wraps_the_short_index() {
    let mut fs = device();
    fs.queue_sizes = vec![128; 258];
    let mut activation = fs
        .activate::<&str>(&vec![queue(100); 258], &vec![21; 258])
        .ok()
        .unwrap();
    let mut last = None;
    while let Some(step) = activation.step() {
        if let ActivateStep::SetVringKick { short_index, .. } = step {
            last = Some(short_index);
        }
        activation = activation.resume(succeed(step)).ok().unwrap();
    }
    assert_eq!(last, Some(1));
}

#[test]
fn failed_activations_send_each_handler_once() {
    for failing in [0, 1, 2, 4, 7, 8, 15, 25] {
        let mut fs = device();
        let mut sent = vec![];
        for attempt in 0..3 {
            let mut activation = begin(fs);
            let mut made = 0;
            while let Some(step) = activation.step() {
                if attempt == 0 && made == failing {
                    break;
                }
                match step {
                    ActivateStep::SendSlaveHandler { .. } => sent.push("requests"),
                    ActivateStep::SendFsHandler => sent.push("interrupts"),
                    _ => {}
                }
                activation = activation.resume(succeed(step)).ok().unwrap();
                made += 1;
            }
            fs = if attempt == 0 {
                match activation.resume(ActivateEvent::Failed("down")) {
                    Ok(_) => panic!("the activation went on"),
                    Err((fs, _)) => fs,
                }
            } else {
                activation.finish()
            };
        }
        let count = |name: &str| sent.iter().filter(|s| **s == name).count();
        assert!(count("requests") <= 1);
        assert!(count("interrupts") <= 1);
        assert_eq!(count("requests"), if failing == 2 { 0 } else { 1 });
        assert_eq!(count("interrupts"), if failing == 8 || failing == 15 { 0 } else { 1 });
    }
}

#[test]
fn a_failed_activation_leaves_the_rest_for_the_next() {
    let (fs, _) = run_to_failure(device(), 4);
    let (_, calls) = run(fs);
    assert_eq!(calls[..3], [
        ActivateStep::SetOwner,
        ActivateStep::SetFeatures { features: 0x400 },
        append(0, 5),
    ]);
    assert!(calls.contains(&ActivateStep::SendFsHandler));
}
