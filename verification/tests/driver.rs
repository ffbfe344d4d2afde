use bluetooth_tool::commands::demux::{route_frame, Status};
use bluetooth_tool::commands::request::{Action, CommandError, Event, Request, Waited};
use bluetooth_tool::commands::command_line;
use bluetooth_tool::ota::run::{Directive, OtaRun};
use bluetooth_tool::ota::sample::{phase_of_frame, DFUState, McuDfuState, OtaError};
use bluetooth_tool::transfer::ble::{check_send, BLE_MTU};

/// A bootloader on the far side of a link that refuses chosen writes.
struct Device {
    phase: u8,
    total_blocks: u32,
    block_size: usize,
    block: Vec<u8>,
    image: Vec<u8>,
    blocks_written: u32,
    writes: usize,
    refuse: Vec<usize>,
    mtu: usize,
    connects: usize,
    log: Vec<Vec<u8>>,
}

impl Device {
    fn new(mtu: usize, refuse: Vec<usize>) -> Device {
        Device {
            phase: 0,
            total_blocks: 0,
            block_size: 0,
            block: Vec::new(),
            image: Vec::new(),
            blocks_written: 0,
            writes: 0,
            refuse,
            mtu,
            connects: 0,
            log: Vec::new(),
        }
    }

    /// Takes one write, or refuses it; answers like the link does.
    fn send(&mut self, frame: &[u8]) -> bool {
        let index = self.writes;
        self.writes += 1;
        if self.refuse.contains(&index) || check_send(frame.len(), self.mtu).is_err() {
            return false;
        }
        self.log.push(frame.to_vec());
        let ack = frame == [0x78, 0x56, 0x34, 0x12];
        match self.phase {
            0 if frame == b"update\r\n" => {}
            0 if frame == [0xAA, 0x55, 0xAA, 0x55] => self.phase = 1,
            1 if !ack => {
                self.total_blocks = u32::from_le_bytes([frame[0], frame[1], frame[2], frame[3]]);
                self.phase = 2;
            }
            2 if !ack => {
                assert_eq!(frame.len(), 68);
                self.block_size =
                    u32::from_le_bytes([frame[64], frame[65], frame[66], frame[67]]) as usize;
                self.block.clear();
                self.phase = 3;
            }
            3 if !ack || !self.block.is_empty() => {
                self.block.extend_from_slice(frame);
                if self.block.len() >= self.block_size {
                    self.phase = 4;
                }
            }
            4 if ack => self.phase = 5,
            5 if ack => {
                self.image.extend_from_slice(&self.block);
                self.blocks_written += 1;
                self.phase = if self.blocks_written == self.total_blocks { 6 } else { 2 };
            }
            _ => {}
        }
        true
    }

    /// The frame that the device notifies its phase with.
    fn notification(&self) -> Vec<u8> {
        vec![self.phase]
    }
}

/// Runs a transfer as an application does: plan, write until a refusal,
/// advance, and do as directed.
fn transfer(device: &mut Device, image: Vec<u8>, retries: u32) -> (Result<(), OtaError>, Vec<u32>) {
    let mut run = OtaRun::new(image, device.mtu, retries, 60_000).unwrap();
    let mut shown = Vec::new();
    for _ in 0..10_000 {
        let target = phase_of_frame(&device.notification()).unwrap();
        let plan = run.plan(target);
        let mut sent = 0;
        for frame in &plan.frames {
            if !device.send(frame) {
                break;
            }
            sent += 1;
        }
        match run.advance(target, sent, 0) {
            Directive::Continue { progress, .. } => shown.extend(progress),
            Directive::Reconnect => {
                device.connects += 1;
                assert_eq!(
                    run.reconnected(true),
                    Directive::Continue { progress: None, restart_watchdog: false }
                );
            }
            Directive::Succeed { percent } => {
                shown.push(percent);
                assert_eq!(run.session().state(), DFUState::Complete);
                assert_eq!(run.session().mcu_state(), McuDfuState::Final);
                return (Ok(()), shown);
            }
            Directive::Fail(error) => return (Err(error), shown),
            Directive::Over => panic!("a run that is over was stepped"),
        }
    }
    panic!("the transfer did not end");
}

fn image(len: usize) -> Vec<u8> {
    (0..len).map(|i| (i * 7 % 256) as u8).collect()
}

#[test]
fn device_receives_the_image_it_was_sent() {
    let mut device = Device::new(BLE_MTU, Vec::new());
    let (result, shown) = transfer(&mut device, image(5000), 3);
    assert_eq!(result, Ok(()));
    assert_eq!(shown, vec![33, 66, 100]);
    assert_eq!(device.total_blocks, 3);
    assert_eq!(device.image, image(5000));
    assert_eq!(device.connects, 0);
    assert_eq!(device.log[0], b"update\r\n".to_vec());
    assert_eq!(device.log[1], vec![0xAA, 0x55, 0xAA, 0x55]);
    assert!(device.log.iter().all(|frame| frame.len() <= BLE_MTU));
}

#[test]
fn device_receives_the_image_despite_refused_writes() {
    // Write 12 is chunk 5 of block 0 after trigger, preamble, two acks with
    // their frames and the ack of the data phase.
    let mut device = Device::new(BLE_MTU, vec![0, 3, 12, 30]);
    let (result, shown) = transfer(&mut device, image(5000), 4);
    assert_eq!(result, Ok(()));
    assert_eq!(shown, vec![33, 66, 100]);
    assert_eq!(device.image, image(5000));
    assert_eq!(device.connects, 4);
    let chunks: Vec<&Vec<u8>> = device.log.iter().filter(|frame| frame.len() == 244).collect();
    assert_eq!(chunks.len(), 8 + 8 + 3);
}

#[test]
fn transfer_fails_when_retries_run_out() {
    let mut device = Device::new(BLE_MTU, vec![5, 6, 7, 8]);
    let (result, shown) = transfer(&mut device, image(5000), 3);
    assert_eq!(result, Err(OtaError::RetryExhausted));
    assert!(shown.is_empty());
    assert_eq!(device.connects, 3);
}

#[test]
fn link_too_small_for_the_header_never_gets_through() {
    let mut device = Device::new(67, Vec::new());
    let (result, shown) = transfer(&mut device, image(100), 3);
    assert_eq!(result, Err(OtaError::RetryExhausted));
    assert!(shown.is_empty());
}

#[test]
fn small_link_carries_the_image_in_many_chunks() {
    let mut device = Device::new(68, Vec::new());
    let (result, shown) = transfer(&mut device, image(4097), 0);
    assert_eq!(result, Ok(()));
    assert_eq!(shown, vec![33, 66, 100]);
    assert_eq!(device.image, image(4097));
}

/// Runs one exchange as an application does, against scripted answers of the
/// link and the frames that arrive during the wait.
fn exchange(
    keep: bool,
    link: [bool; 4],
    frames: &[&[u8]],
) -> (Result<(), CommandError>, Vec<&'static str>, Vec<Vec<u8>>) {
    let mut request = Request::new(command_line(b"ping", None), 3, keep);
    let mut operations = Vec::new();
    let mut streamed = Vec::new();
    let mut unsubscribes = 0;
    let mut action = request.action();
    loop {
        let event = match action {
            Action::Unsubscribe => {
                operations.push("unsubscribe");
                unsubscribes += 1;
                Event::Completed { ok: if unsubscribes == 1 { link[0] } else { link[3] } }
            }
            Action::Subscribe => {
                operations.push("subscribe");
                Event::Completed { ok: link[1] }
            }
            Action::Send => {
                operations.push("send");
                Event::Completed { ok: link[2] }
            }
            Action::Wait => {
                operations.push("wait");
                let mut first: Option<Status> = None;
                for frame in frames {
                    let routed = route_frame(frame);
                    if first.is_none() {
                        first = routed.status;
                    }
                    streamed.extend(routed.streamed);
                }
                Event::Waited(match first {
                    Some(status) => Waited::Status(status),
                    None => Waited::Deadline,
                })
            }
            Action::Finish(result) => return (result, operations, streamed),
        };
        action = request.on_event(event);
    }
}

#[test]
fn exchange_succeeds_on_the_first_status_and_streams_the_rest() {
    let (result, operations, streamed) = exchange(
        false,
        [true; 4],
        &[&[1], &[0x34, 0x12, 9], &[0xfe, 0xca, 5, 6], &[0xad, 0xde]],
    );
    assert_eq!(result, Ok(()));
    assert_eq!(operations, vec!["unsubscribe", "subscribe", "send", "wait", "unsubscribe"]);
    assert_eq!(streamed, vec![vec![1], vec![0x34, 0x12, 9], vec![5, 6]]);
}

#[test]
fn exchange_fails_on_a_first_status_of_refusal() {
    let (result, _, streamed) = exchange(false, [true; 4], &[&[0xad, 0xde, 1], &[0xfe, 0xca]]);
    assert_eq!(result, Err(CommandError::Refused));
    assert_eq!(streamed, vec![vec![1]]);
}

#[test]
fn exchange_times_out_without_a_status() {
    let (result, operations, streamed) = exchange(false, [true; 4], &[&[0xfe], &[]]);
    assert_eq!(result, Err(CommandError::Timeout));
    assert_eq!(operations, vec!["unsubscribe", "subscribe", "send", "wait", "unsubscribe"]);
    assert_eq!(streamed, vec![vec![0xfe], vec![]]);
}

#[test]
fn exchange_keeps_the_listener_for_streaming_commands() {
    let (result, operations, _) = exchange(true, [true; 4], &[&[0xfe, 0xca]]);
    assert_eq!(result, Ok(()));
    assert_eq!(operations, vec!["unsubscribe", "subscribe", "send", "wait"]);
}

#[test]
fn exchange_reports_a_refused_write_after_unsubscribing() {
    let (result, operations, _) = exchange(false, [false, true, false, false], &[&[0xfe, 0xca]]);
    assert_eq!(result, Err(CommandError::Send));
    assert_eq!(operations, vec!["unsubscribe", "subscribe", "send", "unsubscribe"]);
}
