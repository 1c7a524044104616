use std::collections::HashMap;

use midir::CaptureEvent;
use midir::DeliveryMode;
use midir::MidiInput;
use midir::MidiInputConnection;
use midir::MidiInputPort;
use midir::MidiOutput;
use midir::MidiOutputConnection;
use midir::MidiOutputPort;

fn is_send<T: Send>() {}

fn is_partial_eq<T: PartialEq>() {}

fn try_midi_input() -> Option<MidiInput> {
    MidiInput::new("test_client").ok()
}

#[test]
fn test_trait_impls() {
    // make sure that all the structs implement `Send`
    is_send::<MidiInput>();
    is_send::<MidiOutput>();
    is_send::<MidiInputPort>();
    is_send::<MidiInputConnection<()>>();
    is_send::<MidiOutputPort>();
    is_send::<MidiOutputConnection>();

    // make sure that Midi port structs implement `PartialEq`
    is_partial_eq::<MidiInputPort>();
    is_partial_eq::<MidiOutputPort>();
}

#[test]
fn test_port_traits() {
    // Get actual ports for testing
    let midi_in = MidiInput::new("test_client").unwrap();
    let ports = midi_in.ports();

    if ports.len() >= 2 {
        let port1 = ports[0].clone();
        let port2 = ports[1].clone();

        // Test Debug
        assert!(!format!("{:?}", port1).is_empty());

        // Test PartialEq
        assert_ne!(port1, port2);
        assert_eq!(port1, port1.clone());

        // Test Hash
        let mut map = HashMap::new();
        map.insert(port1.clone(), "test");
        assert!(map.contains_key(&port1));
        assert!(!map.contains_key(&port2));
    }
}

#[test]
fn test_connection_debug() {
    let midi_in = MidiInput::new("test_client").unwrap();
    let ports = midi_in.ports();

    if !ports.is_empty() {
        let conn = midi_in
            .connect(&ports[0], "test_port", DeliveryMode::Callback, ())
            .unwrap();

        let debug_str = format!("{:?}", conn);
        assert!(!debug_str.is_empty());
    }
}

#[test]
fn test_port_id_consistency() {
    let midi_in = MidiInput::new("test_client").unwrap();
    let ports = midi_in.ports();

    for port in ports {
        let id1 = port.id();
        let id2 = port.clone().id();
        assert_eq!(id1, id2, "Port ID should be consistent across clones");
    }
}

#[test]
fn test_port_creation_and_traits() {
    // Skip if we can't create a MIDI input
    if let Some(midi_in) = try_midi_input() {
        let ports = midi_in.ports();

        if !ports.is_empty() {
            let port = &ports[0];

            let debug_str = format!("{:?}", port);
            assert!(!debug_str.is_empty());

            let port_clone = port.clone();
            assert_eq!(port, &port_clone);

            let mut map = HashMap::new();
            map.insert(port_clone, "test");
            assert!(map.contains_key(port));
        } else {
            println!("Skipping test: no MIDI ports available");
        }
    } else {
        println!("Skipping test: MIDI system unavailable");
    }
}

#[test]
fn test_registered_port_traits() {
    // The same trait checks as above, on a directory that actually holds
    // ports.
    let mut midi_in = MidiInput::new("test_client").unwrap();
    midi_in.register_port("14:0".to_string(), "Synth A".to_string());
    midi_in.register_port("20:0".to_string(), "Synth B".to_string());
    let ports = midi_in.ports();
    assert_eq!(ports.len(), 2);

    let port1 = ports[0].clone();
    let port2 = ports[1].clone();
    assert!(!format!("{:?}", port1).is_empty());
    assert_ne!(port1, port2);
    assert_eq!(port1, port1.clone());
    assert_eq!(port1.id(), "14:0");

    let mut map = HashMap::new();
    map.insert(port1.clone(), "test");
    assert!(map.contains_key(&port1));
    assert!(!map.contains_key(&port2));

    // Debug formatting of a live connection
    let conn = midi_in
        .connect(&port1, "test_port", DeliveryMode::Callback, ())
        .unwrap();
    assert!(!format!("{:?}", conn).is_empty());
}

#[test]
fn test_capture_event_debug_and_modes() {
    let ev = CaptureEvent::Data(vec![0x90, 60, 100], 0);
    assert!(!format!("{:?}", ev).is_empty());
    assert_eq!(DeliveryMode::Callback, DeliveryMode::Callback);
    assert_ne!(DeliveryMode::Callback, DeliveryMode::Queue);
}
