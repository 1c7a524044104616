use midir::ConnectError;
use midir::ConnectErrorKind;
use midir::Ignore;
use midir::InitError;
use midir::MidiMessage;
use midir::PortInfoError;
use midir::SendError;

#[test]
fn error_descriptions() {
    assert_eq!(InitError.description(), "MIDI support could not be initialized");
    assert_eq!(
        PortInfoError::PortNumberOutOfRange.description(),
        "provided port number was out of range"
    );
    assert_eq!(PortInfoError::InvalidPort.description(), "invalid port");
    assert_eq!(
        PortInfoError::CannotRetrievePortName.description(),
        "unknown error when trying to retrieve the port name"
    );
    assert_eq!(ConnectErrorKind::InvalidPort.description(), "invalid port");
    assert_eq!(ConnectErrorKind::Other("boom").description(), "boom");
    assert_eq!(SendError::InvalidData("bad bytes").description(), "bad bytes");
    assert_eq!(SendError::Other("line down").description(), "line down");
}

#[test]
fn connect_error_carries_its_inner_value() {
    let e = ConnectError::new(ConnectErrorKind::InvalidPort, 17u32);
    assert_eq!(e.kind(), ConnectErrorKind::InvalidPort);
    assert_eq!(e.description(), "invalid port");
    assert_eq!(e.into_inner(), 17);

    let e2 = ConnectError::other("could not reach the device", vec![1u8, 2]);
    assert_eq!(e2.kind(), ConnectErrorKind::Other("could not reach the device"));
    assert_eq!(e2.description(), "could not reach the device");
    assert_eq!(e2.into_inner(), vec![1u8, 2]);
}

#[test]
fn ignore_contains_matches_its_categories() {
    assert!(!Ignore::Nothing.contains(Ignore::Sysex));
    assert!(!Ignore::Nothing.contains(Ignore::Time));
    assert!(!Ignore::Nothing.contains(Ignore::ActiveSense));
    assert!(Ignore::Sysex.contains(Ignore::Sysex));
    assert!(!Ignore::Sysex.contains(Ignore::Time));
    assert!(Ignore::SysexAndTime.contains(Ignore::Sysex));
    assert!(Ignore::SysexAndTime.contains(Ignore::Time));
    assert!(!Ignore::SysexAndTime.contains(Ignore::ActiveSense));
    assert!(Ignore::All.contains(Ignore::Sysex));
    assert!(Ignore::All.contains(Ignore::Time));
    assert!(Ignore::All.contains(Ignore::ActiveSense));
    assert!(Ignore::All.contains(Ignore::SysexAndTime));
}

#[test]
fn ignore_union_combines_categories() {
    assert_eq!(Ignore::Sysex.union(Ignore::Time), Ignore::SysexAndTime);
    assert_eq!(Ignore::Nothing.union(Ignore::ActiveSense), Ignore::ActiveSense);
    assert_eq!(
        Ignore::SysexAndTime.union(Ignore::ActiveSense),
        Ignore::All
    );
    assert_eq!(Ignore::Time.union(Ignore::Time), Ignore::Time);
    assert_eq!(Ignore::All.union(Ignore::Nothing), Ignore::All);
}

#[test]
fn ignore_bits_round_trip() {
    let all = [
        Ignore::Nothing,
        Ignore::Sysex,
        Ignore::Time,
        Ignore::SysexAndTime,
        Ignore::ActiveSense,
        Ignore::SysexAndActiveSense,
        Ignore::TimeAndActiveSense,
        Ignore::All,
    ];
    for (i, v) in all.iter().enumerate() {
        assert_eq!(v.bits(), i as u8);
        assert_eq!(Ignore::from_bits(i as u8), *v);
    }
}

#[test]
fn fresh_message_is_the_sentinel() {
    let m = MidiMessage::new();
    assert!(m.bytes.is_empty());
    assert_eq!(m.timestamp, 0);
}
