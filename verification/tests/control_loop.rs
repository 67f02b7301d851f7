use pet_door::actuator::{open_cycle, servo_levels};
use pet_door::buffer::BufferError;
use pet_door::control::{
    scan_command, Controller, DoorConfig, Phase, ReadEvent, RecordOutcome, ScanStep,
};

const TARGET: &[u8] = b"4C000215:AAAAAAAAAAAAAAAAAAAAAAAAAAAAAAAA:11111111D8:060504030201";

fn standard_controller() -> Controller {
    Controller::new(DoorConfig::standard(TARGET.to_vec(), -80))
}

#[test]
fn servo_levels_derive_from_the_base_value() {
    let levels = servo_levels(0x07AE);
    assert_eq!(levels.unlocked, 0x07AE);
    assert_eq!(levels.idle, 0x07AE + 0x07AE / 2);
    assert_eq!(levels.locked, 0x07AE * 2);
}

#[test]
fn open_cycle_unlocks_holds_settles_then_locks() {
    let levels = servo_levels(0x07AE);
    let plan = open_cycle(&levels);
    assert_eq!(plan.len(), 3);
    assert_eq!(plan[0].duty, levels.unlocked);
    assert_eq!(plan[0].hold_ms, 10_000);
    assert_eq!(plan[1].duty, levels.idle);
    assert_eq!(plan[1].hold_ms, 1_000);
    assert_eq!(plan[2].duty, levels.locked);
    assert_eq!(plan[2].hold_ms, 0);
}

#[test]
fn scan_command_bytes() {
    assert_eq!(scan_command(), b"AT+DISI?\r\n".to_vec());
}

#[test]
fn no_motion_stays_idle() {
    let mut ctl = standard_controller();
    assert_eq!(ctl.phase(), Phase::Idle);
    assert!(!ctl.on_motion(false));
    assert_eq!(ctl.phase(), Phase::Idle);
    assert_eq!(ctl.idle_interval_ms(), 1000);
}

#[test]
fn motion_starts_a_scan() {
    let mut ctl = standard_controller();
    assert!(ctl.on_motion(true));
    assert_eq!(ctl.phase(), Phase::Scanning);
}

#[test]
fn starved_stream_keeps_polling_and_never_evaluates() {
    let mut ctl = standard_controller();
    assert!(ctl.on_motion(true));
    for _ in 0..20 {
        assert_eq!(ctl.on_read(&ReadEvent::Empty), ScanStep::Continue);
        assert_eq!(ctl.phase(), Phase::Scanning);
    }
    assert_eq!(ctl.poll_interval_ms(), 100);
}

#[test]
fn read_errors_are_transient() {
    let mut ctl = standard_controller();
    assert!(ctl.on_motion(true));
    assert_eq!(ctl.on_read(&ReadEvent::Failed), ScanStep::Continue);
    assert_eq!(ctl.on_read(&ReadEvent::Empty), ScanStep::Continue);
    assert_eq!(ctl.on_read(&ReadEvent::Data(b"AAA:-50\r\n".to_vec())), ScanStep::Continue);
    assert_eq!(ctl.on_read(&ReadEvent::Data(b"OK+DISCE\r\n".to_vec())), ScanStep::Complete);
    assert_eq!(ctl.phase(), Phase::Evaluating);
}

#[test]
fn terminator_split_across_reads_still_completes() {
    let mut ctl = standard_controller();
    assert!(ctl.on_motion(true));
    assert_eq!(ctl.on_read(&ReadEvent::Data(b"AAA:-50\r\nOK+DIS".to_vec())), ScanStep::Continue);
    assert_eq!(ctl.on_read(&ReadEvent::Data(b"CE\r\n".to_vec())), ScanStep::Complete);
}

#[test]
fn overflowing_response_abandons_the_cycle() {
    let config = DoorConfig {
        target: TARGET.to_vec(),
        threshold: -80,
        capacity: 8,
        poll_interval_ms: 100,
        idle_interval_ms: 1000,
        settle_interval_ms: 2000,
    };
    let mut ctl = Controller::new(config);
    assert!(ctl.on_motion(true));
    assert_eq!(ctl.on_read(&ReadEvent::Data(b"123456".to_vec())), ScanStep::Continue);
    assert_eq!(ctl.on_read(&ReadEvent::Data(b"abcdef".to_vec())), ScanStep::Aborted);
    assert_eq!(ctl.phase(), Phase::Idle);
    // the next cycle starts fresh
    assert!(ctl.on_motion(true));
    assert_eq!(ctl.on_read(&ReadEvent::Data(b"12345678".to_vec())), ScanStep::Continue);
}

#[test]
fn undecodable_response_abandons_with_decode_error() {
    let mut ctl = standard_controller();
    assert!(ctl.on_motion(true));
    assert_eq!(
        ctl.on_read(&ReadEvent::Data(b"\xFF\xFE\r\nOK+DISCE\r\n".to_vec())),
        ScanStep::Complete
    );
    assert_eq!(ctl.evaluate(), Err(BufferError::TextDecode));
    assert_eq!(ctl.phase(), Phase::Idle);
}

#[test]
fn evaluation_classifies_every_record_in_order() {
    let mut ctl = standard_controller();
    assert!(ctl.on_motion(true));
    let mut text = b"OK+DISC:".to_vec();
    text.extend_from_slice(TARGET);
    text.extend_from_slice(b":-95\r\nBBB:-90\r\nOK+DISC:");
    text.extend_from_slice(TARGET);
    text.extend_from_slice(b":-50\r\nOK+DISCE\r\n");
    assert_eq!(ctl.on_read(&ReadEvent::Data(text)), ScanStep::Complete);
    let outcomes = ctl.evaluate().unwrap();
    assert_eq!(
        outcomes,
        vec![RecordOutcome::AtDoor(-95), RecordOutcome::NotTarget, RecordOutcome::NearbyOnly(-50)]
    );
    assert_eq!(ctl.phase(), Phase::Idle);
}

#[test]
fn outcome_log_messages() {
    assert_eq!(RecordOutcome::AtDoor(-95).log_message(), "\n MY CAT IS AT THE DOOR!!\r\n");
    assert_eq!(
        RecordOutcome::NearbyOnly(-50).log_message(),
        "\n My cat is nearby but not at the door.\r\n"
    );
    assert_eq!(RecordOutcome::NotTarget.log_message(), "\n not my cat.\r\n");
}

#[test]
fn immediate_terminator_without_target_means_no_actuation() {
    // motion -> command sent -> terminator arrives at once with no target
    // record -> "not my cat" is the only outcome, nothing to actuate, idle
    // again after the settle wait
    let mut ctl = standard_controller();
    assert!(ctl.on_motion(true));
    let command = scan_command();
    assert_eq!(command, b"AT+DISI?\r\n".to_vec());
    assert_eq!(ctl.on_read(&ReadEvent::Data(b"BBB:-90\r\nOK+DISCE\r\n".to_vec())), ScanStep::Complete);
    let outcomes = ctl.evaluate().unwrap();
    assert_eq!(outcomes, vec![RecordOutcome::NotTarget]);
    assert!(outcomes.iter().all(|o| !matches!(o, RecordOutcome::AtDoor(_))));
    assert_eq!(outcomes[0].log_message(), "\n not my cat.\r\n");
    assert_eq!(ctl.settle_interval_ms(), 2000);
    assert_eq!(ctl.phase(), Phase::Idle);
}
