use bluetooth_tool::ota::layout::{count_pieces, measure_piece, take_piece};

#[test]
fn block_count_rounds_up() {
    assert_eq!(count_pieces(0, 2048), 0);
    assert_eq!(count_pieces(1, 2048), 1);
    assert_eq!(count_pieces(2047, 2048), 1);
    assert_eq!(count_pieces(2048, 2048), 1);
    assert_eq!(count_pieces(2049, 2048), 2);
    assert_eq!(count_pieces(4096, 2048), 2);
    assert_eq!(count_pieces(5000, 2048), 3);
    assert_eq!(count_pieces(usize::MAX, 1), usize::MAX);
    assert_eq!(count_pieces(usize::MAX, usize::MAX), 1);
}

#[test]
fn last_block_holds_the_remainder() {
    assert_eq!(measure_piece(5000, 2048, 2), 5000 - 2 * 2048);
    assert_eq!(measure_piece(4096, 2048, 1), 2048);
    assert_eq!(measure_piece(1, 2048, 0), 1);
}

#[test]
fn piece_past_the_end_is_empty() {
    assert_eq!(measure_piece(5000, 2048, 3), 0);
    assert_eq!(measure_piece(5000, 2048, usize::MAX), 0);
    assert_eq!(measure_piece(0, 2048, 0), 0);
    let bytes = [1u8, 2, 3];
    assert_eq!(take_piece(&bytes, 2, 2), &[] as &[u8]);
}

#[test]
fn scenario_image_5000_page_2048_mtu_244() {
    let total_blocks = count_pieces(5000, 2048);
    assert_eq!(total_blocks, 3);
    let sizes: Vec<usize> = (0..total_blocks).map(|i| measure_piece(5000, 2048, i)).collect();
    assert_eq!(sizes, vec![2048, 2048, 904]);
    let chunks: Vec<usize> = sizes.iter().map(|size| count_pieces(*size, 244)).collect();
    assert_eq!(chunks, vec![9, 9, 4]);
    assert_eq!(measure_piece(2048, 244, 8), 96);
    assert_eq!(measure_piece(904, 244, 3), 172);
}

#[test]
fn chunks_put_together_are_the_block() {
    let block: Vec<u8> = (0..904u32).map(|i| (i % 251) as u8).collect();
    let count = count_pieces(block.len(), 244);
    let mut rebuilt: Vec<u8> = Vec::new();
    for index in 0..count {
        let part = take_piece(&block, 244, index);
        assert!(!part.is_empty() && part.len() <= 244);
        rebuilt.extend_from_slice(part);
    }
    assert_eq!(count, 4);
    assert_eq!(rebuilt, block);
}

#[test]
fn take_piece_gives_the_bytes_at_its_offset() {
    let bytes: Vec<u8> = (0..10u8).collect();
    assert_eq!(take_piece(&bytes, 4, 0), &[0, 1, 2, 3]);
    assert_eq!(take_piece(&bytes, 4, 1), &[4, 5, 6, 7]);
    assert_eq!(take_piece(&bytes, 4, 2), &[8, 9]);
    assert_eq!(take_piece(&bytes, 10, 0), &bytes[..]);
    assert_eq!(take_piece(&bytes, 11, 0), &bytes[..]);
}
