use immix::bump::BumpBlock;
use immix::consts;
use immix::enums::MarkedState;
use immix::linemarks::BlockMeta;

fn create_block_and_mark(list: Vec<usize>) -> BumpBlock {
    let mut block = BumpBlock::new().unwrap();
    for thing in list {
        block.get_meta_mut().mark_line(thing, MarkedState::TrueMarked);
    }

    block
}

fn table_with_marks(list: Vec<usize>) -> BlockMeta {
    let mut meta = BlockMeta::new();
    for line in list {
        assert!(meta.mark_line(line, MarkedState::TrueMarked));
    }
    meta
}

#[test]
fn test_find_next_hole() {
    let mut block = BumpBlock::new().unwrap();
    block.get_meta_mut().mark_line(0, MarkedState::TrueMarked);
    block.get_meta_mut().mark_line(1, MarkedState::TrueMarked);
    block.get_meta_mut().mark_line(2, MarkedState::TrueMarked);
    block.get_meta_mut().mark_line(4, MarkedState::TrueMarked);
    block.get_meta_mut().mark_line(10, MarkedState::TrueMarked);
    assert_eq!(
        block.get_meta_mut().get_marked_index(10),
        MarkedState::TrueMarked.map_to_u8()
    );

    let expect = Some((10 * consts::LINE_SIZE, 6 * consts::LINE_SIZE));
    let got = block
        .get_meta_mut()
        .find_next_available_hole(10 * consts::LINE_SIZE, consts::LINE_SIZE);

    println!("test_find_next_hole got {:?} expected {:?}", got, expect);

    assert!(got == expect);
}

#[test]
fn test_find_hole_at_line_zero() {
    let mut block = create_block_and_mark(vec![3, 4, 5]);

    let expect = Some((3 * consts::LINE_SIZE, 0));
    let got = block
        .get_meta_mut()
        .find_next_available_hole(3 * consts::LINE_SIZE, consts::LINE_SIZE);

    assert!(got == expect);
}

#[test]
fn constants_have_their_values() {
    assert_eq!(consts::BLOCK_SIZE_BITS, 15);
    assert_eq!(consts::LINE_SIZE_BITS, 7);
    assert_eq!(consts::BLOCK_SIZE, 1 << consts::BLOCK_SIZE_BITS);
    assert_eq!(consts::LINE_SIZE, 1 << consts::LINE_SIZE_BITS);
    assert_eq!(consts::BLOCK_SIZE, 32768);
    assert_eq!(consts::LINE_SIZE, 128);
    assert_eq!(consts::LINE_COUNT, 256);
    assert_eq!(consts::BLOCK_CAPACITY, 32512);
    assert_eq!(consts::CURSOR_START_OFFSET, 32512);
    assert!(consts::CURSOR_START_OFFSET <= consts::BLOCK_CAPACITY);
    assert!(consts::BLOCK_CAPACITY < consts::BLOCK_SIZE);
}

#[test]
fn word_alignment_rounds_down() {
    let word = std::mem::size_of::<usize>();
    assert_eq!(consts::align_mask(), !(word - 1));
    assert_eq!(consts::word_align(0), 0);
    assert_eq!(consts::word_align(word), word);
    assert_eq!(consts::word_align(word + 1), word);
    assert_eq!(consts::word_align(2 * word - 1), word);
    assert_eq!(consts::word_align(32448), 32448);
    assert_eq!(consts::word_align(usize::MAX), usize::MAX - (word - 1));
}

#[test]
fn new_table_has_no_marks() {
    let meta = BlockMeta::new();
    for line in 0..consts::LINE_COUNT {
        assert_eq!(meta.get_marked_index(line), 0);
        assert!(!meta.is_marked(line));
    }
}

#[test]
fn marks_show_the_latest_call() {
    let mut meta = BlockMeta::new();
    assert!(meta.mark_line(7, MarkedState::TrueMarked));
    assert_eq!(meta.get_marked_index(7), 1);
    assert!(meta.is_marked(7));
    assert!(meta.mark_line(7, MarkedState::ConservMarked));
    assert_eq!(meta.get_marked_index(7), 2);
    assert!(meta.is_marked(7));
    assert!(meta.mark_line(9, MarkedState::TrueMarked));
    assert_eq!(meta.get_marked_index(7), 2);
    assert!(meta.mark_line(7, MarkedState::Unmarked));
    assert_eq!(meta.get_marked_index(7), 0);
    assert!(!meta.is_marked(7));
    assert_eq!(meta.get_marked_index(9), 1);
    assert_eq!(meta.get_marked_index(8), 0);
}

#[test]
fn mark_line_turns_down_a_line_past_the_table() {
    let mut meta = BlockMeta::new();
    assert!(meta.mark_line(consts::LINE_COUNT - 1, MarkedState::TrueMarked));
    assert!(!meta.mark_line(consts::LINE_COUNT, MarkedState::TrueMarked));
    assert!(!meta.mark_line(usize::MAX, MarkedState::TrueMarked));
    assert_eq!(meta.get_marked_index(consts::LINE_COUNT - 1), 1);
    for line in 0..consts::LINE_COUNT - 1 {
        assert_eq!(meta.get_marked_index(line), 0);
    }
}

#[test]
fn mark_block_status_writes_the_last_byte() {
    let mut meta = BlockMeta::new();
    assert!(meta.mark_block_status(MarkedState::ConservMarked));
    assert_eq!(meta.get_marked_index(consts::LINE_COUNT - 1), 2);
    assert_eq!(meta.get_marked_index(consts::LINE_COUNT - 2), 0);
    assert!(meta.mark_block_status(MarkedState::Unmarked));
    assert_eq!(meta.get_marked_index(consts::LINE_COUNT - 1), 0);
}

#[test]
fn reset_clears_every_byte() {
    let mut meta = table_with_marks(vec![0, 1, 17, 254]);
    assert!(meta.mark_block_status(MarkedState::TrueMarked));
    meta.reset();
    for line in 0..consts::LINE_COUNT {
        assert_eq!(meta.get_marked_index(line), 0);
    }
}

#[test]
fn unmarked_table_gives_the_whole_region() {
    let meta = BlockMeta::new();
    let top = consts::CURSOR_START_OFFSET;
    for size in [1, 64, 128, 129, 4096, 32511, 32512] {
        assert_eq!(meta.find_next_available_hole(top, size), Some((top, 0)));
        assert_eq!(meta.find_next_available_hole(top, size), Some((top, 0)));
    }
    assert_eq!(meta.find_next_available_hole(top, 32513), None);
    assert_eq!(
        meta.find_next_available_hole(5 * consts::LINE_SIZE, 5 * consts::LINE_SIZE),
        Some((5 * consts::LINE_SIZE, 0))
    );
    assert_eq!(
        meta.find_next_available_hole(5 * consts::LINE_SIZE, 5 * consts::LINE_SIZE + 1),
        None
    );
}

#[test]
fn search_starts_at_the_line_of_the_offset() {
    let meta = BlockMeta::new();
    assert_eq!(meta.find_next_available_hole(0, 1), None);
    assert_eq!(meta.find_next_available_hole(127, 1), None);
    assert_eq!(meta.find_next_available_hole(128, 1), Some((128, 0)));
    assert_eq!(meta.find_next_available_hole(255, 1), Some((128, 0)));
    assert_eq!(meta.find_next_available_hole(256, 1), Some((256, 0)));
}

#[test]
fn request_is_rounded_up_to_whole_lines() {
    let meta = table_with_marks(vec![3]);
    // Two free lines lie above the marked line 3; three lie below it.
    assert_eq!(meta.find_next_available_hole(6 * 128, 128), Some((6 * 128, 5 * 128)));
    assert_eq!(meta.find_next_available_hole(6 * 128, 129), Some((3 * 128, 0)));
    assert_eq!(meta.find_next_available_hole(6 * 128, 3 * 128), Some((3 * 128, 0)));
    assert_eq!(meta.find_next_available_hole(6 * 128, 3 * 128 + 1), None);
}

#[test]
fn hole_keeps_one_line_above_a_marked_line() {
    // Lines 0 to 2 free, line 3 marked, lines 4 to 6 free.
    let meta = table_with_marks(vec![3]);
    let three_lines = 3 * consts::LINE_SIZE;
    assert_eq!(
        meta.find_next_available_hole(7 * consts::LINE_SIZE, three_lines),
        Some((3 * consts::LINE_SIZE, 0))
    );
    // With a fourth free line above the marked one the upper run is taken,
    // without its lowest line.
    assert_eq!(
        meta.find_next_available_hole(8 * consts::LINE_SIZE, three_lines),
        Some((8 * consts::LINE_SIZE, 5 * consts::LINE_SIZE))
    );
}

#[test]
fn fully_marked_table_has_no_hole() {
    let mut meta = BlockMeta::new();
    for line in 0..consts::LINE_COUNT {
        assert!(meta.mark_line(line, MarkedState::ConservMarked));
    }
    assert_eq!(meta.find_next_available_hole(consts::CURSOR_START_OFFSET, 1), None);
    assert_eq!(meta.find_next_available_hole(consts::BLOCK_SIZE, 1), None);
}

#[test]
fn request_of_no_bytes_may_get_an_empty_hole() {
    let meta = table_with_marks(vec![0, 2]);
    assert_eq!(meta.find_next_available_hole(2 * 128, 0), Some((2 * 128, 2 * 128)));
    assert_eq!(meta.find_next_available_hole(2 * 128, 1), None);
}

#[test]
fn search_takes_the_highest_run_that_is_long_enough() {
    let meta = table_with_marks(vec![4, 10, 20]);
    // Above line 20: lines 21 to 29. Between 10 and 20: nine lines.
    assert_eq!(
        meta.find_next_available_hole(30 * 128, 8 * 128),
        Some((30 * 128, 22 * 128))
    );
    assert_eq!(meta.find_next_available_hole(30 * 128, 9 * 128), None);
    assert_eq!(
        meta.find_next_available_hole(22 * 128, 5 * 128),
        Some((20 * 128, 12 * 128))
    );
    assert_eq!(
        meta.find_next_available_hole(20 * 128, 4 * 128),
        Some((20 * 128, 12 * 128))
    );
    assert_eq!(
        meta.find_next_available_hole(11 * 128, 4 * 128),
        Some((10 * 128, 6 * 128))
    );
    assert_eq!(meta.find_next_available_hole(11 * 128, 5 * 128), None);
    assert_eq!(meta.find_next_available_hole(5 * 128, 4 * 128), Some((4 * 128, 0)));
}
