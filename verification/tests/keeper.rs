use mempressure::keeper::{
    allocate_and_hold, decrement_pass, increment_pass, keeper_step, KeeperAction, KeeperPhase,
};

#[test]
fn buffer_has_requested_length_and_pattern() {
    let buffer = allocate_and_hold(1000);
    assert_eq!(buffer.len(), 1000);
    for (i, b) in buffer.iter().enumerate() {
        assert_eq!(*b, (i % 256) as u8);
    }
}

#[test]
fn empty_buffer_is_allowed() {
    let buffer = allocate_and_hold(0);
    assert!(buffer.is_empty());
}

#[test]
fn increment_adds_one_with_wraparound() {
    // 10000 bytes spans more than two 4096-byte windows and holds bytes
    // with value 255, so the wraparound and the window seams are exercised.
    let mut buffer = allocate_and_hold(10000);
    increment_pass(&mut buffer);
    assert_eq!(buffer.len(), 10000);
    for (i, b) in buffer.iter().enumerate() {
        assert_eq!(*b, ((i % 256) as u8).wrapping_add(1));
    }
}

#[test]
fn decrement_subtracts_one_with_wraparound() {
    let mut buffer = allocate_and_hold(10000);
    decrement_pass(&mut buffer);
    for (i, b) in buffer.iter().enumerate() {
        assert_eq!(*b, ((i % 256) as u8).wrapping_sub(1));
    }
}

#[test]
fn increment_wraps_255_to_zero() {
    let mut buffer = vec![255u8];
    increment_pass(&mut buffer);
    assert_eq!(buffer, vec![0u8]);
}

#[test]
fn decrement_wraps_zero_to_255() {
    let mut buffer = vec![0u8];
    decrement_pass(&mut buffer);
    assert_eq!(buffer, vec![255u8]);
}

#[test]
fn one_cycle_restores_every_byte() {
    let mut buffer = allocate_and_hold(10000);
    let before = buffer.clone();
    increment_pass(&mut buffer);
    decrement_pass(&mut buffer);
    assert_eq!(buffer, before);
}

#[test]
fn cycle_restores_all_byte_values() {
    let mut buffer: Vec<u8> = (0u16..=255).map(|v| v as u8).collect();
    let before = buffer.clone();
    increment_pass(&mut buffer);
    decrement_pass(&mut buffer);
    assert_eq!(buffer, before);
}

#[test]
fn keeper_steps_through_one_full_cycle() {
    let mut buffer = allocate_and_hold(5000);
    let before = buffer.clone();

    let (phase, action) = keeper_step(KeeperPhase::Incrementing, &mut buffer);
    assert_eq!(phase, KeeperPhase::WaitingAfterIncrement);
    assert_eq!(action, KeeperAction::Mutated);
    for (i, b) in buffer.iter().enumerate() {
        assert_eq!(*b, ((i % 256) as u8).wrapping_add(1));
    }

    let (phase, action) = keeper_step(phase, &mut buffer);
    assert_eq!(phase, KeeperPhase::Decrementing);
    assert_eq!(action, KeeperAction::Sleep(100));

    let (phase, action) = keeper_step(phase, &mut buffer);
    assert_eq!(phase, KeeperPhase::WaitingAfterDecrement);
    assert_eq!(action, KeeperAction::Mutated);
    assert_eq!(buffer, before);

    let (phase, action) = keeper_step(phase, &mut buffer);
    assert_eq!(phase, KeeperPhase::Incrementing);
    assert_eq!(action, KeeperAction::Sleep(100));
    assert_eq!(buffer, before);
}

#[test]
fn waiting_phases_leave_the_buffer_alone() {
    let mut buffer = allocate_and_hold(300);
    let before = buffer.clone();
    keeper_step(KeeperPhase::WaitingAfterIncrement, &mut buffer);
    assert_eq!(buffer, before);
    keeper_step(KeeperPhase::WaitingAfterDecrement, &mut buffer);
    assert_eq!(buffer, before);
}
