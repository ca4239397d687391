use mwha::emu::Amp;
use mwha::emu::Console;
use mwha::emu::ConsoleAction;
use mwha::emu::EmuCommand;
use mwha::emu::EmuCommandError;
use mwha::emu::Zone;
use mwha::emu::handle_command;
use mwha::emu::parse_command;
use mwha::zone::ZoneAttribute;
use mwha::zone::ZoneAttributeDiscriminants;
use mwha::zone::ZoneId;

fn zone11() -> ZoneId {
    ZoneId::Zone { amp: 1, zone: 1 }
}

#[test]
fn emulated_zone_set_replaces_one_attribute() {
    let mut z = Zone::default();
    z.set(ZoneAttribute::Volume(12));
    assert_eq!(z.volume, 12);
    z.set(ZoneAttribute::Power(true));
    assert!(z.power);
    assert_eq!(z.volume, 12);
}

#[test]
fn emulator_store_covers_requested_units() {
    let amp = Amp::new(2);
    assert_eq!(amp.zones.len(), 12);
    assert_eq!(amp.zones[0].0, ZoneId::Zone { amp: 1, zone: 1 });
    assert_eq!(amp.zones[11].0, ZoneId::Zone { amp: 2, zone: 6 });
}

#[test]
fn emulator_zone_set_targets_the_named_zones() {
    let mut amp = Amp::new(2);
    amp.zone_set(ZoneId::Amp(1), ZoneAttribute::Volume(9));
    for (id, z) in &amp.zones {
        match id {
            ZoneId::Zone { amp: 1, .. } => assert_eq!(z.volume, 9),
            _ => assert_eq!(z.volume, 0),
        }
    }
    // a zone the store does not hold is skipped without effect
    amp.zone_set(ZoneId::Zone { amp: 3, zone: 1 }, ZoneAttribute::Volume(5));
    assert!(amp.zones.iter().all(|(_, z)| z.volume == 9 || z.volume == 0));
}

#[test]
fn emulator_enquiry_returns_targeted_zones() {
    let mut amp = Amp::new(1);
    amp.zone_set(zone11(), ZoneAttribute::Mute(true));
    let entries = amp.zone_enquiry(ZoneId::Amp(1));
    assert_eq!(entries.len(), 6);
    assert_eq!(entries[0].0, zone11());
    assert!(entries[0].1.mute);
    // an absent unit yields nothing
    assert!(amp.zone_enquiry(ZoneId::Amp(3)).is_empty());
}

#[test]
fn emulator_pa_state_touches_every_zone() {
    let mut amp = Amp::new(2);
    amp.set_pa_state(true);
    assert!(amp.zones.iter().all(|(_, z)| z.public_announcement));
    amp.set_pa_state(false);
    assert!(amp.zones.iter().all(|(_, z)| !z.public_announcement));
}

#[test]
fn console_commands_parse() {
    assert_eq!(parse_command(b""), Ok(None));
    assert_eq!(parse_command(b"?11"), Ok(Some(EmuCommand::ZoneEnquiry(zone11()))));
    assert_eq!(parse_command(b"?10"), Ok(Some(EmuCommand::ZoneEnquiry(ZoneId::Amp(1)))));
    assert_eq!(
        parse_command(b"?11vo"),
        Ok(Some(EmuCommand::ZoneAttributeEnquiry(zone11(), ZoneAttributeDiscriminants::Volume)))
    );
    assert_eq!(
        parse_command(b"<11VO20"),
        Ok(Some(EmuCommand::ZoneSet(zone11(), ZoneAttribute::Volume(20))))
    );
    assert_eq!(
        parse_command(b"<11pr01"),
        Ok(Some(EmuCommand::ZoneSet(zone11(), ZoneAttribute::Power(true))))
    );
}

#[test]
fn console_commands_reject_bad_input() {
    assert_eq!(parse_command(b"?00"), Err(EmuCommandError::SystemZoneUnsupported));
    assert_eq!(parse_command(b"?41"), Err(EmuCommandError::InvalidZoneId));
    assert_eq!(parse_command(b"<9600"), Err(EmuCommandError::BaudChangeUnimplemented));
    assert_eq!(parse_command(b"hello"), Err(EmuCommandError::UnknownCommand));
    // an unknown attribute code, a bad boolean and an out-of-range value
    // are all no-ops, matching the device
    assert_eq!(parse_command(b"?11XY"), Ok(None));
    assert_eq!(parse_command(b"<11PR02"), Ok(None));
    assert_eq!(parse_command(b"<11VO99"), Ok(None));
}

#[test]
fn console_echoes_and_frames_lines() {
    let mut console = Console::new();
    assert!(matches!(console.accept_byte(b'?'), ConsoleAction::Echo(b'?')));
    assert!(matches!(console.accept_byte(b'1'), ConsoleAction::Echo(b'1')));
    assert!(matches!(console.accept_byte(b'2'), ConsoleAction::Echo(b'2')));
    // backspace erases the last byte
    assert!(matches!(console.accept_byte(8), ConsoleAction::Erase));
    assert!(matches!(console.accept_byte(b'1'), ConsoleAction::Echo(b'1')));
    match console.accept_byte(13) {
        ConsoleAction::Complete(line) => assert_eq!(line, b"?11".to_vec()),
        other => panic!("expected a completed line, got {:?}", discriminant_name(&other)),
    }
    // escape abandons the line
    assert!(matches!(console.accept_byte(b'x'), ConsoleAction::Echo(_)));
    match console.accept_byte(27) {
        ConsoleAction::Complete(line) => assert!(line.is_empty()),
        _ => panic!("escape completes an empty line"),
    }
    // unprintable bytes are ignored
    assert!(matches!(console.accept_byte(1), ConsoleAction::Ignore));
}

fn discriminant_name(a: &ConsoleAction) -> &'static str {
    match a {
        ConsoleAction::Ignore => "Ignore",
        ConsoleAction::Echo(_) => "Echo",
        ConsoleAction::Erase => "Erase",
        ConsoleAction::Complete(_) => "Complete",
        ConsoleAction::EchoDiscard(_) => "EchoDiscard",
    }
}

#[test]
fn console_caps_line_length() {
    let mut console = Console::new();
    for _ in 0..69 {
        assert!(matches!(console.accept_byte(b'a'), ConsoleAction::Echo(_)));
    }
    assert!(matches!(console.accept_byte(b'a'), ConsoleAction::EchoDiscard(b'a')));
    // the buffer restarts empty
    assert!(matches!(console.accept_byte(b'b'), ConsoleAction::Echo(_)));
    match console.accept_byte(13) {
        ConsoleAction::Complete(line) => assert_eq!(line, b"b".to_vec()),
        _ => panic!("expected the fresh line"),
    }
}

#[test]
fn handle_command_formats_responses() {
    let mut amp = Amp::new(1);
    amp.zone_set(zone11(), ZoneAttribute::Volume(38));

    let out = handle_command(&mut amp, b"?11");
    assert_eq!(
        out,
        b"\r\n#>1100000000380000000000\r\n#".to_vec()
    );

    let out = handle_command(&mut amp, b"?11VO");
    assert_eq!(out, b"\r\n#>11VO38\r\n#".to_vec());

    // a set command answers with the bare terminator and changes state
    let out = handle_command(&mut amp, b"<11MU01");
    assert_eq!(out, b"\r\n#".to_vec());
    assert!(amp.zone_enquiry(zone11())[0].1.mute);

    // a rejected command gets the rejection text
    let out = handle_command(&mut amp, b"nonsense");
    assert_eq!(out, b"\r\n#\r\nCommand Error.\r\n#".to_vec());

    // an empty line is a no-op
    let out = handle_command(&mut amp, b"");
    assert_eq!(out, b"\r\n#".to_vec());
}
