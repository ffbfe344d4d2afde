use bluetooth_tool::ota::sample::{
    phase_of_frame, DFUState, FirmwareBlockHeader, McuDfuState, OtaError, SampleOta, DFU_ACK_PATTERN,
    DFU_PAGE_LEN, DFU_PREAMBLE, DFU_SIGNATURE_LEN,
};

const ACK: [u8; 4] = [0x78, 0x56, 0x34, 0x12];

fn image(len: usize) -> Vec<u8> {
    (0..len).map(|i| (i % 253) as u8).collect()
}

fn session(len: usize, mtu: usize) -> SampleOta {
    SampleOta::new(image(len), mtu).unwrap()
}

/// Takes one step on which the link accepts every frame.
fn step(ota: &mut SampleOta, target: McuDfuState) -> Result<(bool, bool), OtaError> {
    let sent = ota.plan(target).frames.len();
    ota.ota_process(target, sent)
}

/// Walks a fresh session to the header of the first block.
fn to_first_header(ota: &mut SampleOta) {
    assert_eq!(step(ota, McuDfuState::Idle), Ok((true, false)));
    assert_eq!(step(ota, McuDfuState::Idle), Ok((true, false)));
    assert_eq!(step(ota, McuDfuState::Prepare), Ok((true, false)));
    assert_eq!(ota.state(), DFUState::SendBlockHeader);
}

/// Carries the block in transfer through header, data, verify and write.
fn send_block(ota: &mut SampleOta) -> Result<(bool, bool), OtaError> {
    assert_eq!(step(ota, McuDfuState::Header), Ok((true, false)));
    assert_eq!(step(ota, McuDfuState::Data), Ok((true, false)));
    assert_eq!(step(ota, McuDfuState::Verify), Ok((true, false)));
    step(ota, McuDfuState::Write)
}

#[test]
fn wire_constants_have_their_values() {
    assert_eq!(DFU_PAGE_LEN, 2048);
    assert_eq!(DFU_PREAMBLE, [0xAA, 0x55, 0xAA, 0x55]);
    assert_eq!(DFU_ACK_PATTERN, 0x12345678);
    assert_eq!(DFU_SIGNATURE_LEN, 64);
}

#[test]
fn phase_bytes_zero_to_seven_are_the_phases() {
    let phases = [
        McuDfuState::Idle,
        McuDfuState::Prepare,
        McuDfuState::Header,
        McuDfuState::Data,
        McuDfuState::Verify,
        McuDfuState::Write,
        McuDfuState::Final,
        McuDfuState::Fault,
    ];
    for (byte, phase) in phases.iter().enumerate() {
        assert_eq!(McuDfuState::from_byte(byte as u8), *phase);
        assert_eq!(McuDfuState::try_from(byte as u8), Ok(*phase));
        assert_eq!(phase.to_byte(), byte as u8);
    }
}

#[test]
fn unknown_phase_byte_is_idle() {
    assert_eq!(McuDfuState::from_byte(8), McuDfuState::Idle);
    assert_eq!(McuDfuState::from_byte(255), McuDfuState::Idle);
    assert_eq!(McuDfuState::try_from(8u8), Ok(McuDfuState::Idle));
    assert_eq!(McuDfuState::try_from(200u8), Ok(McuDfuState::Idle));
}

#[test]
fn phase_frame_is_read_from_its_first_byte() {
    assert_eq!(phase_of_frame(&[]), None);
    assert_eq!(phase_of_frame(&[3]), Some(McuDfuState::Data));
    assert_eq!(phase_of_frame(&[7, 0, 1]), Some(McuDfuState::Fault));
    assert_eq!(phase_of_frame(&[99]), Some(McuDfuState::Idle));
}

#[test]
fn header_is_signature_then_size() {
    let mut signature = [0u8; 64];
    signature[0] = 0xab;
    signature[63] = 0xcd;
    let header = FirmwareBlockHeader { signature, block_size: 904 };
    let bytes = header.to_bytes();
    assert_eq!(bytes.len(), 68);
    assert_eq!(&bytes[..64], &signature[..]);
    assert_eq!(&bytes[64..], &[0x88, 0x03, 0x00, 0x00]);
    let header = FirmwareBlockHeader { signature: [0u8; 64], block_size: 0x01020304 };
    assert_eq!(&header.to_bytes()[64..], &[4, 3, 2, 1]);
}

#[test]
fn session_is_refused_without_image_or_mtu() {
    assert_eq!(SampleOta::new(Vec::new(), 244).err(), Some(OtaError::EmptyImage));
    assert_eq!(SampleOta::new(Vec::new(), 0).err(), Some(OtaError::EmptyImage));
    assert_eq!(SampleOta::new(vec![1, 2, 3], 0).err(), Some(OtaError::ZeroMtu));
    assert!(SampleOta::new(vec![1], 1).is_ok());
}

#[test]
fn new_session_stands_at_start() {
    let ota = session(5000, 244);
    assert_eq!(ota.state(), DFUState::Start);
    assert_eq!(ota.mcu_state(), McuDfuState::Idle);
    assert_eq!(ota.current_block_index(), 0);
    assert_eq!(ota.current_chunk_index(), 0);
    assert_eq!(ota.total_blocks(), 3);
    assert_eq!(ota.current_block_size(), 2048);
    assert_eq!(ota.chunk_total(), 9);
    assert_eq!(ota.mtu(), 244);
    assert_eq!(ota.image(), &image(5000));
    assert_eq!(ota.progress_percentage(), 0);
}

#[test]
fn start_sends_the_update_command_and_settles() {
    let mut ota = session(5000, 244);
    let plan = ota.plan(McuDfuState::Idle);
    assert_eq!(plan.frames, vec![b"update\r\n".to_vec()]);
    assert_eq!(plan.pause_ms, 1000);
    assert_eq!(ota.planned_frames(McuDfuState::Idle), 1);
    assert_eq!(ota.ota_process(McuDfuState::Idle, 1), Ok((true, false)));
    assert_eq!(ota.state(), DFUState::SendPreamble);
}

#[test]
fn preamble_goes_out_on_idle_without_ack() {
    let mut ota = session(5000, 244);
    step(&mut ota, McuDfuState::Idle).unwrap();
    let plan = ota.plan(McuDfuState::Idle);
    assert_eq!(plan.frames, vec![vec![0xAA, 0x55, 0xAA, 0x55]]);
    assert_eq!(plan.pause_ms, 0);
    assert_eq!(ota.ota_process(McuDfuState::Idle, 1), Ok((true, false)));
    assert_eq!(ota.state(), DFUState::SendTotalBlocks);
    assert_eq!(ota.mcu_state(), McuDfuState::Idle);
}

#[test]
fn total_blocks_follow_the_ack_on_prepare() {
    let mut ota = session(5000, 244);
    step(&mut ota, McuDfuState::Idle).unwrap();
    step(&mut ota, McuDfuState::Idle).unwrap();
    let plan = ota.plan(McuDfuState::Prepare);
    assert_eq!(plan.frames, vec![ACK.to_vec(), vec![3, 0, 0, 0]]);
    assert_eq!(ota.ota_process(McuDfuState::Prepare, 2), Ok((true, false)));
    assert_eq!(ota.state(), DFUState::SendBlockHeader);
    assert_eq!(ota.mcu_state(), McuDfuState::Prepare);
}

#[test]
fn header_carries_the_block_size() {
    let mut ota = session(5000, 244);
    to_first_header(&mut ota);
    let plan = ota.plan(McuDfuState::Header);
    let mut header = vec![0u8; 64];
    header.extend_from_slice(&[0x00, 0x08, 0x00, 0x00]);
    assert_eq!(plan.frames, vec![ACK.to_vec(), header]);
    assert_eq!(ota.ota_process(McuDfuState::Header, 2), Ok((true, false)));
    assert_eq!(ota.state(), DFUState::SendBlockData);
}

#[test]
fn data_is_streamed_in_chunks_of_the_mtu() {
    let mut ota = session(5000, 244);
    to_first_header(&mut ota);
    step(&mut ota, McuDfuState::Header).unwrap();
    let plan = ota.plan(McuDfuState::Data);
    assert_eq!(plan.frames.len(), 10);
    assert_eq!(plan.frames[0], ACK.to_vec());
    let lengths: Vec<usize> = plan.frames[1..].iter().map(|frame| frame.len()).collect();
    assert_eq!(lengths, vec![244, 244, 244, 244, 244, 244, 244, 244, 96]);
    let block: Vec<u8> = plan.frames[1..].concat();
    assert_eq!(block, image(5000)[..2048].to_vec());
    assert_eq!(ota.ota_process(McuDfuState::Data, 10), Ok((true, false)));
    assert_eq!(ota.state(), DFUState::WaitVerify);
    assert_eq!(ota.current_chunk_index(), 0);
}

#[test]
fn verify_and_write_are_acknowledged_only() {
    let mut ota = session(5000, 244);
    to_first_header(&mut ota);
    step(&mut ota, McuDfuState::Header).unwrap();
    step(&mut ota, McuDfuState::Data).unwrap();
    assert_eq!(ota.plan(McuDfuState::Verify).frames, vec![ACK.to_vec()]);
    assert_eq!(step(&mut ota, McuDfuState::Verify), Ok((true, false)));
    assert_eq!(ota.state(), DFUState::WaitWrite);
    assert_eq!(ota.plan(McuDfuState::Write).frames, vec![ACK.to_vec()]);
    assert_eq!(step(&mut ota, McuDfuState::Write), Ok((true, true)));
    assert_eq!(ota.state(), DFUState::SendBlockHeader);
    assert_eq!(ota.current_block_index(), 1);
    assert_eq!(ota.progress_percentage(), 33);
}

#[test]
fn whole_transfer_reaches_complete_and_final() {
    let mut ota = session(5000, 244);
    to_first_header(&mut ota);
    assert_eq!(send_block(&mut ota), Ok((true, true)));
    assert_eq!(ota.progress_percentage(), 33);
    assert_eq!(send_block(&mut ota), Ok((true, true)));
    assert_eq!(ota.progress_percentage(), 66);
    assert_eq!(ota.current_block_index(), 2);
    assert_eq!(ota.current_block_size(), 904);
    assert_eq!(ota.chunk_total(), 4);
    assert_eq!(send_block(&mut ota), Ok((true, false)));
    assert_eq!(ota.state(), DFUState::Complete);
    assert_eq!(ota.current_block_index(), 3);
    assert_eq!(ota.current_block_size(), 0);
    assert_eq!(ota.progress_percentage(), 100);
    assert_eq!(ota.plan(McuDfuState::Final).frames, vec![ACK.to_vec()]);
    assert_eq!(step(&mut ota, McuDfuState::Final), Ok((false, true)));
    assert_eq!(ota.state(), DFUState::Complete);
    assert_eq!(ota.mcu_state(), McuDfuState::Final);
}

#[test]
fn last_block_header_declares_the_shorter_size() {
    let mut ota = session(5000, 244);
    to_first_header(&mut ota);
    send_block(&mut ota).unwrap();
    send_block(&mut ota).unwrap();
    let plan = ota.plan(McuDfuState::Header);
    assert_eq!(&plan.frames[1][64..], &[0x88, 0x03, 0x00, 0x00]);
    step(&mut ota, McuDfuState::Header).unwrap();
    let plan = ota.plan(McuDfuState::Data);
    let lengths: Vec<usize> = plan.frames[1..].iter().map(|frame| frame.len()).collect();
    assert_eq!(lengths, vec![244, 244, 244, 172]);
    assert_eq!(plan.frames[1..].concat(), image(5000)[4096..].to_vec());
}

#[test]
fn repeated_phase_advances_the_state_once() {
    let mut ota = session(5000, 244);
    to_first_header(&mut ota);
    assert_eq!(step(&mut ota, McuDfuState::Header), Ok((true, false)));
    assert_eq!(ota.state(), DFUState::SendBlockData);
    let plan = ota.plan(McuDfuState::Header);
    assert!(plan.frames.is_empty());
    assert_eq!(plan.pause_ms, 10);
    assert_eq!(ota.ota_process(McuDfuState::Header, 0), Ok((false, false)));
    assert_eq!(ota.state(), DFUState::SendBlockData);
    assert_eq!(ota.mcu_state(), McuDfuState::Header);
}

#[test]
fn phase_out_of_turn_is_acknowledged_but_does_not_advance() {
    let mut ota = session(5000, 244);
    to_first_header(&mut ota);
    assert_eq!(ota.plan(McuDfuState::Verify).frames, vec![ACK.to_vec()]);
    assert_eq!(step(&mut ota, McuDfuState::Verify), Ok((false, false)));
    assert_eq!(ota.state(), DFUState::SendBlockHeader);
    assert_eq!(ota.mcu_state(), McuDfuState::Verify);
}

#[test]
fn idle_is_never_acknowledged_nor_gone_by() {
    let mut ota = session(5000, 244);
    to_first_header(&mut ota);
    let plan = ota.plan(McuDfuState::Idle);
    assert!(plan.frames.is_empty());
    assert_eq!(plan.pause_ms, 0);
    assert_eq!(ota.ota_process(McuDfuState::Idle, 0), Ok((false, false)));
    assert_eq!(ota.mcu_state(), McuDfuState::Prepare);
}

#[test]
fn fault_ends_the_session() {
    let mut ota = session(5000, 244);
    to_first_header(&mut ota);
    step(&mut ota, McuDfuState::Header).unwrap();
    assert!(ota.plan(McuDfuState::Fault).frames.is_empty());
    assert_eq!(ota.ota_process(McuDfuState::Fault, 0), Err(OtaError::DeviceFault));
    assert_eq!(ota.state(), DFUState::Fault);
    assert_eq!(ota.mcu_state(), McuDfuState::Fault);
    assert!(ota.plan(McuDfuState::Data).frames.is_empty());
    assert_eq!(ota.ota_process(McuDfuState::Data, 5), Err(OtaError::DeviceFault));
    assert_eq!(ota.state(), DFUState::Fault);
}

#[test]
fn refused_ack_changes_nothing() {
    let mut ota = session(5000, 244);
    to_first_header(&mut ota);
    assert_eq!(ota.ota_process(McuDfuState::Header, 0), Err(OtaError::AckRejected));
    assert_eq!(ota.state(), DFUState::SendBlockHeader);
    assert_eq!(ota.mcu_state(), McuDfuState::Prepare);
    assert_eq!(ota.plan(McuDfuState::Header).frames.len(), 2);
}

#[test]
fn refused_frame_after_ack_is_sent_again_without_ack() {
    let mut ota = session(5000, 244);
    to_first_header(&mut ota);
    let first = ota.plan(McuDfuState::Header);
    assert_eq!(ota.ota_process(McuDfuState::Header, 1), Err(OtaError::SendRejected));
    assert_eq!(ota.state(), DFUState::SendBlockHeader);
    assert_eq!(ota.mcu_state(), McuDfuState::Header);
    let again = ota.plan(McuDfuState::Header);
    assert_eq!(again.frames, first.frames[1..].to_vec());
    assert_eq!(step(&mut ota, McuDfuState::Header), Ok((true, false)));
    assert_eq!(ota.state(), DFUState::SendBlockData);
}

#[test]
fn refused_trigger_is_sent_again() {
    let mut ota = session(5000, 244);
    assert_eq!(ota.ota_process(McuDfuState::Idle, 0), Err(OtaError::SendRejected));
    assert_eq!(ota.state(), DFUState::Start);
    assert_eq!(ota.plan(McuDfuState::Idle).frames, vec![b"update\r\n".to_vec()]);
}

#[test]
fn scenario_write_fails_on_chunk_5_of_block_1() {
    let mut ota = session(5000, 244);
    to_first_header(&mut ota);
    send_block(&mut ota).unwrap();
    assert_eq!(step(&mut ota, McuDfuState::Header), Ok((true, false)));
    let plan = ota.plan(McuDfuState::Data);
    assert_eq!(plan.frames.len(), 10);
    // The ack and the chunks 0 to 4 go out; the write of chunk 5 fails.
    assert_eq!(ota.ota_process(McuDfuState::Data, 6), Err(OtaError::ChunkRejected(5)));
    assert_eq!(ota.state(), DFUState::SendBlockData);
    assert_eq!(ota.current_block_index(), 1);
    assert_eq!(ota.current_chunk_index(), 5);
    assert_eq!(ota.mcu_state(), McuDfuState::Data);
    // After the reconnect the device still reports the same phase.
    let resumed = ota.plan(McuDfuState::Data);
    assert_eq!(resumed.frames, plan.frames[6..].to_vec());
    assert_eq!(resumed.frames[0], image(5000)[2048 + 5 * 244..2048 + 6 * 244].to_vec());
    assert_eq!(resumed.frames.len(), 4);
    assert_eq!(step(&mut ota, McuDfuState::Data), Ok((true, false)));
    assert_eq!(ota.state(), DFUState::WaitVerify);
    assert_eq!(ota.current_block_index(), 1);
    assert_eq!(ota.current_chunk_index(), 0);
}

#[test]
fn one_byte_image_on_a_one_byte_link() {
    let mut ota = SampleOta::new(vec![0x5a], 1).unwrap();
    assert_eq!(ota.total_blocks(), 1);
    to_first_header(&mut ota);
    step(&mut ota, McuDfuState::Header).unwrap();
    let plan = ota.plan(McuDfuState::Data);
    assert_eq!(plan.frames, vec![ACK.to_vec(), vec![0x5a]]);
    step(&mut ota, McuDfuState::Data).unwrap();
    step(&mut ota, McuDfuState::Verify).unwrap();
    assert_eq!(step(&mut ota, McuDfuState::Write), Ok((true, false)));
    assert_eq!(ota.state(), DFUState::Complete);
}

#[test]
fn image_of_whole_pages_has_no_short_block() {
    let mut ota = session(4096, 244);
    assert_eq!(ota.total_blocks(), 2);
    to_first_header(&mut ota);
    assert_eq!(send_block(&mut ota), Ok((true, true)));
    assert_eq!(ota.progress_percentage(), 50);
    assert_eq!(ota.current_block_size(), 2048);
    assert_eq!(send_block(&mut ota), Ok((true, false)));
    assert_eq!(ota.state(), DFUState::Complete);
}
