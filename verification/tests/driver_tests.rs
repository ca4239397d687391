use std::collections::VecDeque;

use mwha::amp::Amp;
use mwha::amp::AmpError;
use mwha::amp::Port;
use mwha::amp::TransportError;
use mwha::amp::ZoneStatus;
use mwha::amp::bytes_eq;
use mwha::amp::format_enquiry_command;
use mwha::amp::format_resync_exchange;
use mwha::amp::format_set_command;
use mwha::amp::parse_zone_status;
use mwha::emu;
use mwha::zone::ZoneAttribute;
use mwha::zone::ZoneId;

/// A port wired straight to the in-process emulator: every written byte
/// runs through the emulator's console, and whatever the emulator echoes
/// or answers becomes readable. With `corrupt_after_resync` set, every
/// echo after the first completed line (the driver's resync marker) is
/// replaced by `X`, simulating a desynchronized stream.
struct EmuWire {
    amp: emu::Amp,
    console: emu::Console,
    rx: VecDeque<u8>,
    corrupt_after_resync: bool,
    lines_completed: usize,
    reads: usize,
}

impl EmuWire {
    fn new(amps: u8) -> EmuWire {
        EmuWire {
            amp: emu::Amp::new(amps),
            console: emu::Console::new(),
            rx: VecDeque::new(),
            corrupt_after_resync: false,
            lines_completed: 0,
            reads: 0,
        }
    }
}

impl Port for EmuWire {
    fn read_byte(&mut self) -> Result<u8, TransportError> {
        self.reads += 1;
        self.rx.pop_front().ok_or(TransportError::TimedOut)
    }

    fn write_bytes(&mut self, data: &[u8]) -> Result<(), TransportError> {
        for &b in data {
            match self.console.accept_byte(b) {
                emu::ConsoleAction::Ignore => {}
                emu::ConsoleAction::Echo(e) => {
                    let corrupt = self.corrupt_after_resync && self.lines_completed >= 1;
                    self.rx.push_back(if corrupt { b'X' } else { e });
                }
                emu::ConsoleAction::Erase => {
                    self.rx.extend([8u8, 32, 8]);
                }
                emu::ConsoleAction::Complete(line) => {
                    let out = emu::handle_command(&mut self.amp, &line);
                    self.rx.extend(out);
                    self.lines_completed += 1;
                }
                emu::ConsoleAction::EchoDiscard(e) => {
                    self.rx.push_back(e);
                    let out = emu::handle_command(&mut self.amp, &[]);
                    self.rx.extend(out);
                    self.lines_completed += 1;
                }
            }
        }
        Ok(())
    }

    fn flush(&mut self) -> Result<(), TransportError> {
        Ok(())
    }
}

/// A port that replays a fixed byte script once the driver's initial
/// resynchronization has been answered.
struct ScriptedPort {
    rx: VecDeque<u8>,
    script: VecDeque<u8>,
    resynced: bool,
}

impl ScriptedPort {
    fn new(script: &[u8]) -> ScriptedPort {
        ScriptedPort {
            rx: VecDeque::new(),
            script: script.iter().copied().collect(),
            resynced: false,
        }
    }
}

impl Port for ScriptedPort {
    fn read_byte(&mut self) -> Result<u8, TransportError> {
        self.rx.pop_front().ok_or(TransportError::TimedOut)
    }

    fn write_bytes(&mut self, data: &[u8]) -> Result<(), TransportError> {
        for &b in data {
            if self.resynced {
                continue; // the script already holds the echoes
            }
            if b == 13 {
                self.rx.extend(*b"\r\n#\r\nCommand Error.\r\n#");
                self.resynced = true;
                let script = std::mem::take(&mut self.script);
                self.rx.extend(script);
            } else {
                self.rx.push_back(b);
            }
        }
        Ok(())
    }

    fn flush(&mut self) -> Result<(), TransportError> {
        Ok(())
    }
}

#[test]
fn zone_enquiry_parses_scripted_response() {
    // the stream echoes `?11` and then answers with eleven two-digit
    // fields: zone id 11, then the ten attribute values, volume the
    // sixth field
    let script = b"?11\r\n#>1100010000380006060301\r\n#";
    let mut amp = Amp::new(ScriptedPort::new(script)).expect("resync against scripted stream");
    let statuses = amp.zone_enquiry(ZoneId::Zone { amp: 1, zone: 1 }).expect("enquiry");
    assert_eq!(statuses.len(), 1);
    assert_eq!(statuses[0].zone_id, ZoneId::Zone { amp: 1, zone: 1 });
    assert_eq!(statuses[0].attributes[4], ZoneAttribute::Volume(38));
    assert_eq!(statuses[0].attributes[1], ZoneAttribute::Power(true));
}

#[test]
fn echo_mismatch_fails_without_further_reads() {
    let mut wire = EmuWire::new(1);
    wire.corrupt_after_resync = true;
    let mut amp = Amp::new(wire).expect("resync with clean echoes");
    let err = amp.exec_command(b"?11", 1).expect_err("corrupted echo");
    assert_eq!(err, AmpError::EchoMismatch);
    // the emulator did answer; had the driver read past the bad echo it
    // would have consumed the status response that follows it
    let statuses = amp.zone_enquiry(ZoneId::Zone { amp: 1, zone: 1 });
    assert!(statuses.is_err());
}

#[test]
fn enquiry_against_emulator_round_trips_volume() {
    let mut wire = EmuWire::new(1);
    wire.amp.zone_set(ZoneId::Zone { amp: 1, zone: 1 }, ZoneAttribute::Volume(38));
    let mut amp = Amp::new(wire).expect("resync");
    let statuses = amp.zone_enquiry(ZoneId::Zone { amp: 1, zone: 1 }).expect("enquiry");
    assert_eq!(statuses.len(), 1);
    assert_eq!(statuses[0].attributes[4], ZoneAttribute::Volume(38));
}

#[test]
fn set_then_enquire_whole_unit() {
    let mut amp = Amp::new(EmuWire::new(1)).expect("resync");
    amp.set_zone_attribute(ZoneId::Zone { amp: 1, zone: 2 }, ZoneAttribute::Source(3))
        .expect("set source");
    amp.set_zone_attribute(ZoneId::Zone { amp: 1, zone: 2 }, ZoneAttribute::Power(true))
        .expect("set power");
    let statuses = amp.zone_enquiry(ZoneId::Amp(1)).expect("unit enquiry");
    assert_eq!(statuses.len(), 6);
    let z12 = statuses
        .iter()
        .find(|st| st.zone_id == ZoneId::Zone { amp: 1, zone: 2 })
        .expect("zone 12 present");
    assert_eq!(z12.attributes[8], ZoneAttribute::Source(3));
    assert_eq!(z12.attributes[1], ZoneAttribute::Power(true));
}

#[test]
fn set_rejects_out_of_range_before_any_write() {
    let mut amp = Amp::new(EmuWire::new(1)).expect("resync");
    let err = amp
        .set_zone_attribute(ZoneId::Zone { amp: 1, zone: 1 }, ZoneAttribute::Volume(39))
        .expect_err("out of range");
    assert!(matches!(err, AmpError::AttributeValue(_)));
}

#[test]
fn set_rejects_read_only_attributes() {
    let mut amp = Amp::new(EmuWire::new(1)).expect("resync");
    let err = amp
        .set_zone_attribute(
            ZoneId::Zone { amp: 1, zone: 1 },
            ZoneAttribute::PublicAnnouncement(true),
        )
        .expect_err("read-only");
    assert!(matches!(err, AmpError::ReadOnlyAttribute(_)));
    let err = amp
        .set_zone_attribute(ZoneId::Zone { amp: 1, zone: 1 }, ZoneAttribute::KeypadConnected(true))
        .expect_err("read-only");
    assert!(matches!(err, AmpError::ReadOnlyAttribute(_)));
}

#[test]
fn parse_zone_status_exact_form() {
    let st = parse_zone_status(b">1100011000380006060301").expect("well-formed body");
    assert_eq!(st.zone_id, ZoneId::Zone { amp: 1, zone: 1 });
    assert_eq!(st.attributes.len(), 10);
    assert_eq!(st.attributes[0], ZoneAttribute::PublicAnnouncement(false));
    assert_eq!(st.attributes[1], ZoneAttribute::Power(true));
    assert_eq!(st.attributes[2], ZoneAttribute::Mute(true));
    assert_eq!(st.attributes[4], ZoneAttribute::Volume(38));
    assert_eq!(st.attributes[8], ZoneAttribute::Source(3));

    assert_eq!(parse_zone_status(b">110001100038000606030"), Err(AmpError::MalformedResponse));
    assert_eq!(parse_zone_status(b"X1100011000380006060301"), Err(AmpError::MalformedResponse));
    assert_eq!(parse_zone_status(b">11000110003800060603x1"), Err(AmpError::MalformedResponse));
    assert!(matches!(
        parse_zone_status(b">4100011000380006060301"),
        Err(AmpError::InvalidZoneId(_))
    ));
}

#[test]
fn command_formatting() {
    assert_eq!(format_enquiry_command(1, 1), b"?11".to_vec());
    assert_eq!(format_enquiry_command(2, 0), b"?20".to_vec());
    assert_eq!(
        format_set_command(&ZoneId::Zone { amp: 1, zone: 1 }, &ZoneAttribute::Volume(10)),
        b"<11VO10".to_vec()
    );
    assert_eq!(
        format_set_command(&ZoneId::Amp(2), &ZoneAttribute::Power(true)),
        b"<20PR01".to_vec()
    );
    assert_eq!(
        format_set_command(&ZoneId::Zone { amp: 3, zone: 6 }, &ZoneAttribute::Source(4)),
        b"<36CH04".to_vec()
    );
}

#[test]
fn resync_exchange_formatting() {
    let (cmd, reply) = format_resync_exchange(b"ABCD1234");
    assert_eq!(cmd, b"resyncABCD1234\r".to_vec());
    assert_eq!(reply, b"resyncABCD1234\r\n#\r\nCommand Error.\r\n#".to_vec());
}

#[test]
fn byte_comparison() {
    assert!(bytes_eq(b"abc", b"abc"));
    assert!(!bytes_eq(b"abc", b"abd"));
    assert!(!bytes_eq(b"abc", b"ab"));
    assert!(bytes_eq(b"", b""));
}

#[test]
fn system_enquiry_covers_every_unit() {
    let mut amp = Amp::new(EmuWire::new(3)).expect("resync");
    let statuses: Vec<ZoneStatus> = amp.zone_enquiry(ZoneId::System).expect("system enquiry");
    assert_eq!(statuses.len(), 18);
    for st in &statuses {
        assert_eq!(st.attributes.len(), 10);
    }
}
