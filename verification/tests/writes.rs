use pentairservice::commands::fixtures;
use pentairservice::commands::{
    decode_hex, CircuitChange, HeatChange, CMD_CIRCUIT_CHANGE, CMD_HEAT_CHANGE,
};
use pentairservice::time::Duration;
use pentairservice::transport::{IoFaultKind, TransportError};
use pentairservice::write::{
    classify_listen, frame_hex_list, GateStep, PendingWrite, WriteGate, WriteGateError,
    WriteResult, WriteVerdict,
};

fn done(step: Result<GateStep, WriteGateError>) -> WriteResult {
    match step.unwrap() {
        GateStep::Done(r) => r,
        other => panic!("expected a result, got {other:?}"),
    }
}

fn pending(step: Result<GateStep, WriteGateError>) -> PendingWrite {
    match step.unwrap() {
        GateStep::Transmit(p) => p,
        other => panic!("expected a write, got {other:?}"),
    }
}

#[test]
fn classify_heat_ack_fixture() {
    let frames = frame_hex_list(&[fixtures::SET_TEMP_ACK.to_string()]);
    assert_eq!(classify_listen(CMD_HEAT_CHANGE, &frames), WriteVerdict::Ack);
    assert_eq!(
        classify_listen(CMD_CIRCUIT_CHANGE, &frames),
        WriteVerdict::Timeout
    );
}

#[test]
fn classify_circuit_ack_fixture() {
    let frames = frame_hex_list(&[fixtures::CIRCUIT_ACK.to_string()]);
    assert_eq!(
        classify_listen(CMD_CIRCUIT_CHANGE, &frames),
        WriteVerdict::Ack
    );
}

#[test]
fn classify_status_without_ack() {
    let info = "ffffffffffffffff00ffa50c0f10080d4848555a620400000000000000028a";
    let frames = frame_hex_list(&[info.to_string()]);
    assert_eq!(
        classify_listen(CMD_HEAT_CHANGE, &frames),
        WriteVerdict::Status
    );
}

#[test]
fn dry_run_heat_and_circuit() {
    let mut gate = WriteGate::new(false, 50, false);
    let heat = done(gate.heat_change(0x2B, 0x60, 0x05));
    assert!(heat.dry_run);
    assert_eq!(heat.tx_hex, fixtures::SET_TEMP);
    assert_eq!(heat.verdict, WriteVerdict::Ack);
    assert_eq!(heat.rx_hex, vec![fixtures::SET_TEMP_ACK.to_string()]);
    assert_eq!(heat.listen_window_ms, 50);

    let circ = done(gate.circuit_change(0x06, true));
    assert!(circ.dry_run);
    assert_eq!(circ.verdict, WriteVerdict::Ack);
    assert_eq!(circ.command, CMD_CIRCUIT_CHANGE);
}

#[test]
fn mutex_rejects_second_writer() {
    let mut gate = WriteGate::new(false, 200, false);
    gate.try_lock().unwrap();
    let err = gate.heat_change(40, 90, 0).unwrap_err();
    assert!(matches!(err, WriteGateError::Busy));
    gate.release();
    // After release, write succeeds.
    let ok = done(gate.circuit_change(1, false));
    assert_eq!(ok.verdict, WriteVerdict::Ack);
}

#[test]
fn raw_hex_path() {
    let mut gate = WriteGate::new(false, 10, false);
    let tx = CircuitChange::build(0x01, true).unwrap().to_hex();
    let r = done(gate.raw_hex(&tx));
    assert_eq!(r.command, CMD_CIRCUIT_CHANGE);
    assert_eq!(r.verdict, WriteVerdict::Ack);
}

#[test]
fn live_without_handle_errors() {
    let mut gate = WriteGate::new(true, 10, false);
    let err = gate.heat_change(40, 90, 0).unwrap_err();
    assert!(matches!(err, WriteGateError::NoWriteHandle));
}

#[test]
fn execute_with_listen_bytes_ack() {
    let mut gate = WriteGate::new(false, 10, false);
    let cmd = HeatChange::build(0x2B, 0x60, 0x05).unwrap();
    let ack = decode_hex(fixtures::SET_TEMP_ACK).unwrap();
    let r = done(gate.execute_with_listen_bytes(CMD_HEAT_CHANGE, cmd.raw, &ack));
    assert!(r.dry_run);
    assert_eq!(r.verdict, WriteVerdict::Ack);
}

#[test]
fn live_write_times_out_without_rx() {
    let mut gate = WriteGate::new(true, 5, true);
    assert!(gate.writes_enabled());
    assert_eq!(gate.listen_window(), Duration::from_millis(5));
    let p = pending(gate.heat_change(40, 90, 0));
    assert!(!p.data.is_empty());
    let r = gate.finish(&p, &[]);
    assert!(!r.dry_run);
    assert_eq!(r.verdict, WriteVerdict::Timeout);
    assert!(r.rx_hex.is_empty());
}

#[test]
fn execute_with_listen_bytes_live_ack() {
    let mut gate = WriteGate::new(true, 10, true);
    let cmd = HeatChange::build(0x2B, 0x60, 0x05).unwrap();
    let ack = decode_hex(fixtures::SET_TEMP_ACK).unwrap();
    let p = pending(gate.execute_with_listen_bytes(CMD_HEAT_CHANGE, cmd.raw, &ack));
    let r = gate.finish_with_bytes(&p, &ack);
    assert!(!r.dry_run);
    assert_eq!(r.verdict, WriteVerdict::Ack);
}

#[test]
fn execute_with_listen_live_no_handle() {
    let mut gate = WriteGate::new(true, 10, false);
    let cmd = CircuitChange::build(1, true).unwrap();
    let err = gate
        .execute_with_listen_bytes(CMD_CIRCUIT_CHANGE, cmd.raw, &[])
        .unwrap_err();
    assert!(matches!(err, WriteGateError::NoWriteHandle));
}

#[test]
fn raw_hex_rejects_non_write_cmd() {
    let mut gate = WriteGate::new(false, 10, false);
    // SYSTEM_STATUS light-on fixture — not 0x86/0x88
    let status =
        "ff00ffa50c0f10021d13330000000000000021000000043b3b00003c00000004000085df000d0381";
    let err = gate.raw_hex(status).unwrap_err();
    assert!(matches!(err, WriteGateError::Unsupported(_)));
    assert_eq!(
        err.to_string(),
        "unsupported write command: 0x02 (only 0x86 / 0x88)"
    );
}

#[test]
fn classify_skips_bad_checksum() {
    let mut frames = frame_hex_list(&[fixtures::SET_TEMP_ACK.to_string()]);
    frames[0].checksum_ok = false;
    assert_eq!(
        classify_listen(CMD_HEAT_CHANGE, &frames),
        WriteVerdict::Timeout
    );
}

#[test]
fn accessors_and_shared() {
    let gate = WriteGate::new(false, 0, false); // clamps to 1ms
    assert!(!gate.writes_enabled());
    assert_eq!(gate.listen_window(), Duration::from_millis(1));
    let _shared = std::sync::Arc::new(std::sync::Mutex::new(gate));
}

// --- further cases ---------------------------------------------------------

#[test]
fn one_write_in_flight_until_it_is_reported() {
    let mut gate = WriteGate::new(true, 10, true);
    let first = pending(gate.circuit_change(6, true));
    assert_eq!(first.data, CircuitChange::build(6, true).unwrap().raw);
    assert_eq!(gate.heat_change(1, 2, 3), Err(WriteGateError::Busy));
    assert_eq!(gate.circuit_change(6, true), Err(WriteGateError::Busy));
    assert_eq!(gate.raw_hex(fixtures::SET_TEMP), Err(WriteGateError::Busy));
    assert_eq!(
        gate.execute_with_listen_bytes(CMD_HEAT_CHANGE, vec![1], &[]),
        Err(WriteGateError::Busy)
    );
    // What is wrong with the text is told first.
    assert!(matches!(gate.raw_hex("zz"), Err(WriteGateError::Command(_))));
    let frames = frame_hex_list(&[fixtures::CIRCUIT_ACK.to_string()]);
    let r = gate.finish(&first, &frames);
    assert_eq!(r.verdict, WriteVerdict::Ack);
    assert_eq!(r.rx_hex, vec![fixtures::CIRCUIT_ACK.to_string()]);
    assert_eq!(r.tx_hex, CircuitChange::build(6, true).unwrap().to_hex());

    let second = pending(gate.heat_change(1, 2, 3));
    assert_eq!(second.command, CMD_HEAT_CHANGE);
    let e = gate.fail(TransportError::io(IoFaultKind::BrokenPipe, "bus Actor write channel closed"));
    assert_eq!(
        e.to_string(),
        "transport write failed: transport I/O: bus Actor write channel closed"
    );
    assert!(gate.try_lock().is_ok());
    assert_eq!(gate.try_lock(), Err(WriteGateError::Busy));
}

#[test]
fn an_acknowledgement_wins_over_a_status() {
    let info = "ff00ffa50c0f10080d4848555a620400000000000000028a".to_string();
    let frames = frame_hex_list(&[info.clone(), fixtures::SET_TEMP_ACK.to_string(), info]);
    assert_eq!(frames.len(), 3);
    assert_eq!(classify_listen(CMD_HEAT_CHANGE, &frames), WriteVerdict::Ack);
    assert_eq!(classify_listen(CMD_CIRCUIT_CHANGE, &frames), WriteVerdict::Status);
    assert_eq!(classify_listen(CMD_CIRCUIT_CHANGE, &[]), WriteVerdict::Timeout);
}

#[test]
fn texts_that_do_not_decode_are_passed_over() {
    let frames = frame_hex_list(&["zz".to_string(), fixtures::CIRCUIT_ACK.to_string()]);
    assert_eq!(frames.len(), 1);
}

#[test]
fn hex_requests_tell_what_is_wrong() {
    let mut gate = WriteGate::new(false, 10, false);
    assert_eq!(gate.raw_hex("zz").unwrap_err().to_string(), "invalid hex: zz");
    assert_eq!(
        gate.raw_hex("aabb").unwrap_err().to_string(),
        "A5 sync byte not found in raw frame"
    );
    assert_eq!(
        gate.raw_hex("ff00ffa50710").unwrap_err().to_string(),
        "raw too short for field at A5+4"
    );
    assert_eq!(
        WriteGateError::Busy.to_string(),
        "write gate busy: only one in-flight write allowed"
    );
    assert_eq!(
        WriteGateError::NoWriteHandle.to_string(),
        "writes_enabled but no bus write handle (no transport Actor)"
    );
}

#[test]
fn a_dry_run_of_another_command_hears_nothing() {
    let mut gate = WriteGate::new(false, 7, true);
    let r = done(gate.execute(0x42, vec![1, 2]));
    assert_eq!(r.verdict, WriteVerdict::Timeout);
    assert!(r.rx_hex.is_empty());
    assert_eq!((r.tx_hex.as_str(), r.listen_window_ms), ("0102", 7));
}
