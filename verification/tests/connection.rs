use midir::CaptureEvent;
use midir::CloseAction;
use midir::ConnectErrorKind;
use midir::DeliveryMode;
use midir::MidiInput;
use midir::MidiInputPort;
use midir::MidiOutput;
use midir::PortInfoError;
use midir::SendError;

fn input_with_ports() -> MidiInput {
    let mut input = MidiInput::new("engine test").unwrap();
    input.register_port("14:0".to_string(), "Synth A".to_string());
    input.register_port("20:0".to_string(), "Synth B".to_string());
    input
}

#[test]
fn directory_queries() {
    let input = input_with_ports();
    assert_eq!(input.port_count(), 2);
    let ports = input.ports();
    assert_eq!(ports.len(), 2);
    assert_eq!(ports[0].id(), "14:0");
    assert_eq!(ports[1].id(), "20:0");
    assert_eq!(input.port_name(&ports[0]).unwrap(), "Synth A");
    assert_eq!(input.port_name(&ports[1]).unwrap(), "Synth B");
    assert!(input.find_port_by_id("20:0".to_string()).is_some());
    assert!(input.find_port_by_id("99:9".to_string()).is_none());
}

#[test]
fn vanished_port_gives_invalid_port() {
    let input = input_with_ports();
    let stale = MidiInput::new("other").unwrap();
    let ghost_port = {
        let mut other = MidiInput::new("other").unwrap();
        other.register_port("42:0".to_string(), "Gone".to_string());
        other.ports().remove(0)
    };
    assert_eq!(input.port_name(&ghost_port), Err(PortInfoError::InvalidPort));
    assert_eq!(stale.port_count(), 0);
}

#[test]
fn connect_to_unknown_port_returns_directory_unchanged() {
    let input = input_with_ports();
    let foreign: MidiInputPort = {
        let mut other = MidiInput::new("other").unwrap();
        other.register_port("7:7".to_string(), "Foreign".to_string());
        other.ports().remove(0)
    };
    let err = input
        .connect(&foreign, "conn", DeliveryMode::Callback, ())
        .unwrap_err();
    assert_eq!(err.kind(), ConnectErrorKind::InvalidPort);
    // The unconnected directory comes back intact: no resource is lost.
    let recovered = err.into_inner();
    assert_eq!(recovered.port_count(), 2);
    assert_eq!(recovered.ports()[0].id(), "14:0");
}

#[test]
fn callback_mode_delivers_messages_in_order() {
    let input = input_with_ports();
    let port = input.ports().remove(0);
    let mut conn = input
        .connect(&port, "conn", DeliveryMode::Callback, 0u32)
        .unwrap();
    let delivered = conn.handle_event(CaptureEvent::Data(vec![0x90, 60, 100, 0x80, 60, 0], 10));
    assert_eq!(delivered.len(), 2);
    assert_eq!(delivered[0].bytes, vec![0x90, 60, 100]);
    assert_eq!(delivered[1].bytes, vec![0x80, 60, 0]);
    assert_eq!(delivered[0].timestamp, 0);
}

#[test]
fn queue_mode_retains_messages_for_polling() {
    let input = input_with_ports();
    let port = input.ports().remove(0);
    let mut conn = input
        .connect(&port, "conn", DeliveryMode::Queue, ())
        .unwrap();
    let delivered = conn.handle_event(CaptureEvent::Data(vec![0x90, 60, 100, 0xC0, 9], 10));
    assert!(delivered.is_empty());
    let first = conn.get_message();
    assert_eq!(first.bytes, vec![0x90, 60, 100]);
    let second = conn.get_message();
    assert_eq!(second.bytes, vec![0xC0, 9]);
    // Drained: the sentinel comes back.
    let sentinel = conn.get_message();
    assert!(sentinel.bytes.is_empty());
    assert_eq!(sentinel.timestamp, 0);
}

#[test]
fn queue_mode_overflow_keeps_the_oldest_messages() {
    let input = input_with_ports();
    let port = input.ports().remove(0);
    let mut conn = input
        .connect(&port, "conn", DeliveryMode::Queue, ())
        .unwrap();
    // One more Note On than the queue holds, in a single transport chunk.
    let over = midir::CONNECTION_QUEUE_CAPACITY + 1;
    let mut chunk = Vec::new();
    for i in 0..over {
        chunk.extend_from_slice(&[0x90, (i % 128) as u8, 100]);
    }
    assert!(conn.handle_event(CaptureEvent::Data(chunk, 3)).is_empty());
    for i in 0..midir::CONNECTION_QUEUE_CAPACITY {
        let m = conn.get_message();
        assert_eq!(m.bytes, vec![0x90, (i % 128) as u8, 100]);
    }
    // The message over capacity was rejected, not queued.
    let sentinel = conn.get_message();
    assert!(sentinel.bytes.is_empty());
    assert_eq!(sentinel.timestamp, 0);
}

#[test]
fn faults_do_not_stop_the_loop() {
    let input = input_with_ports();
    let port = input.ports().remove(0);
    let mut conn = input
        .connect(&port, "conn", DeliveryMode::Callback, ())
        .unwrap();
    assert!(conn.handle_event(CaptureEvent::Fault).is_empty());
    let delivered = conn.handle_event(CaptureEvent::Data(vec![0x90, 60, 100], 5));
    assert_eq!(delivered.len(), 1);
}

#[test]
fn nothing_is_delivered_after_cancellation() {
    let input = input_with_ports();
    let port = input.ports().remove(0);
    let mut conn = input
        .connect(&port, "conn", DeliveryMode::Callback, ())
        .unwrap();
    let before = conn.handle_event(CaptureEvent::Data(vec![0x90, 60, 100], 5));
    assert_eq!(before.len(), 1);
    assert!(conn.handle_event(CaptureEvent::Cancel).is_empty());
    // Events still pending after cancellation are not delivered.
    let after = conn.handle_event(CaptureEvent::Data(vec![0x80, 60, 0], 6));
    assert!(after.is_empty());
}

#[test]
fn close_is_idempotent_and_never_double_joins() {
    let input = input_with_ports();
    let port = input.ports().remove(0);
    let mut conn = input
        .connect(&port, "conn", DeliveryMode::Callback, "payload")
        .unwrap();
    // The first teardown signals and joins...
    assert_eq!(conn.shutdown(), CloseAction::SignalAndJoin);
    // ...any further teardown finds the thread marker taken.
    assert_eq!(conn.shutdown(), CloseAction::AlreadyClosed);
    assert_eq!(conn.shutdown(), CloseAction::AlreadyClosed);
    let (recovered, payload) = conn.close();
    assert_eq!(payload, "payload");
    assert_eq!(recovered.port_count(), 2);
}

#[test]
fn close_returns_directory_and_user_data() {
    let input = input_with_ports();
    let port = input.ports().remove(0);
    let conn = input
        .connect(&port, "conn", DeliveryMode::Queue, vec![1, 2, 3])
        .unwrap();
    let (recovered, data) = conn.close();
    assert_eq!(data, vec![1, 2, 3]);
    assert_eq!(recovered.port_count(), 2);
    assert_eq!(recovered.ports()[1].id(), "20:0");
    // The recovered directory can connect again.
    let port_again = recovered.ports().remove(0);
    let conn2 = recovered
        .connect(&port_again, "conn", DeliveryMode::Queue, ())
        .unwrap();
    let (_, ()) = conn2.close();
}

#[test]
fn output_connect_send_and_drain() {
    let mut output = MidiOutput::new("engine test").unwrap();
    output.register_port("14:0".to_string(), "Synth A".to_string());
    let port = output.ports().remove(0);
    let mut conn = output.connect(&port, "conn").unwrap();
    assert_eq!(conn.send(&[0x90, 60, 100]), Ok(()));
    assert_eq!(conn.send(&[0xF0, 1, 2, 0xF7]), Ok(()));
    assert_eq!(
        conn.send(&[]),
        Err(SendError::InvalidData("message to be sent must not be empty"))
    );
    assert_eq!(
        conn.send(&[1, 2, 3, 4]),
        Err(SendError::InvalidData(
            "non-sysex message must not be longer than 3 bytes"
        ))
    );
    assert_eq!(conn.drain_next(), Some(vec![0x90, 60, 100]));
    assert_eq!(conn.drain_next(), Some(vec![0xF0, 1, 2, 0xF7]));
    assert_eq!(conn.drain_next(), None);
    let recovered = conn.close();
    assert_eq!(recovered.port_count(), 1);
}

#[test]
fn output_connect_to_unknown_port_fails() {
    let output = MidiOutput::new("engine test").unwrap();
    let foreign = {
        let mut other = MidiOutput::new("other").unwrap();
        other.register_port("5:5".to_string(), "Foreign".to_string());
        other.ports().remove(0)
    };
    let err = output.connect(&foreign, "conn").unwrap_err();
    assert_eq!(err.kind(), ConnectErrorKind::InvalidPort);
    assert_eq!(err.into_inner().port_count(), 0);
}

#[test]
fn virtual_loopback_end_to_end() {
    // A virtual output and a virtual input in the same process: a Note On
    // sent on the output arrives on the input exactly once, bytes intact,
    // with timestamp delta 0 on the first message.
    let output = MidiOutput::new("loopback").unwrap();
    let mut out_conn = output.create_virtual("loop-out").unwrap();
    let input = MidiInput::new("loopback").unwrap();
    let mut in_conn = input
        .create_virtual("loop-in", DeliveryMode::Callback, ())
        .unwrap();

    out_conn.send(&[0x90, 60, 100]).unwrap();
    let wire = out_conn.drain_next().unwrap();
    let arrived = in_conn.handle_event(CaptureEvent::Data(wire, 123_456));
    assert_eq!(arrived.len(), 1);
    assert_eq!(arrived[0].bytes, vec![0x90, 60, 100]);
    assert_eq!(arrived[0].timestamp, 0);
}

#[test]
fn user_data_is_reachable_while_connected() {
    let input = input_with_ports();
    let port = input.ports().remove(0);
    let mut conn = input
        .connect(&port, "conn", DeliveryMode::Callback, 5u32)
        .unwrap();
    *conn.user_data() += 1;
    let (_, data) = conn.close();
    assert_eq!(data, 6);
}

#[test]
fn ignore_flags_carry_into_the_connection() {
    let mut input = input_with_ports();
    input.ignore(midir::Ignore::Sysex);
    let port = input.ports().remove(0);
    let mut conn = input
        .connect(&port, "conn", DeliveryMode::Callback, ())
        .unwrap();
    assert!(conn
        .handle_event(CaptureEvent::Data(vec![0xF0, 1, 2, 0xF7], 0))
        .is_empty());
    let note = conn.handle_event(CaptureEvent::Data(vec![0x90, 60, 100], 1));
    assert_eq!(note.len(), 1);
}
