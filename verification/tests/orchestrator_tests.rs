use rboy_lego::orchestrator::{
    audio_accepts, drain_count, hex_bytes, test_mode_action, CycleBudget, FrameSlot,
    TestModeAction, CYCLES_PER_QUANTUM,
};

#[test]
fn test_cycle_budget_accumulates_and_carries_over() {
    assert_eq!(CYCLES_PER_QUANTUM, 67109);
    let mut b = CycleBudget::new(CYCLES_PER_QUANTUM);
    assert!(b.needs_cycles());
    b.add_cycles(67000);
    assert!(b.needs_cycles());
    b.add_cycles(200);
    assert!(!b.needs_cycles());
    assert_eq!(b.ticks, 67200);
    // Excess cycles carry into the next quantum.
    b.finish_quantum();
    assert_eq!(b.ticks, 67200 - 67109);
    assert_eq!(b.budget, CYCLES_PER_QUANTUM);
    assert!(b.needs_cycles());
}

#[test]
fn test_frame_slot_latest_wins() {
    // Under a slow consumer the slot always hands over the most recently
    // produced frame, never a stale one.
    let mut slot = FrameSlot::new();
    assert_eq!(slot.take(), None);
    slot.offer(vec![1, 1, 1]);
    slot.offer(vec![2, 2, 2]);
    slot.offer(vec![3, 3, 3]);
    assert_eq!(slot.take(), Some(vec![3, 3, 3]));
    // Taking empties the slot.
    assert_eq!(slot.take(), None);
    slot.offer(vec![4]);
    assert_eq!(slot.take(), Some(vec![4]));
}

#[test]
fn test_audio_drain_count() {
    // The callback drains half its interleaved buffer, or what is queued.
    assert_eq!(drain_count(100, 1000), 50);
    assert_eq!(drain_count(100, 20), 20);
    assert_eq!(drain_count(0, 20), 0);
    assert_eq!(drain_count(7, 20), 3);
}

#[test]
fn test_audio_accepts_at_most_one_second() {
    assert!(audio_accepts(0, 44100));
    assert!(audio_accepts(44100, 44100));
    assert!(!audio_accepts(44101, 44100));
}

#[test]
fn test_test_mode_action_decodes_bytes() {
    assert_eq!(test_mode_action(b'q'), TestModeAction::Quit);
    assert_eq!(test_mode_action(b's'), TestModeAction::Screenshot);
    assert_eq!(test_mode_action(b'x'), TestModeAction::Unknown);
    assert_eq!(test_mode_action(0), TestModeAction::Unknown);
}

#[test]
fn test_hex_bytes_renders_lowercase_pairs() {
    assert_eq!(hex_bytes(&[]), Vec::<u8>::new());
    assert_eq!(hex_bytes(&[0x0f, 0xa0, 0x00, 0xff]), b"0fa000ff".to_vec());
    assert_eq!(String::from_utf8(hex_bytes(&[0xde, 0xad])).unwrap(), "dead");
}
