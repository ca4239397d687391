use std::collections::VecDeque;

use mwha::amp::Amp;
use mwha::amp::Port;
use mwha::amp::TransportError;
use mwha::amp::ZoneStatus;
use mwha::config::AmpConfig;
use mwha::config::Config;
use mwha::config::LoggingConfig;
use mwha::config::PortConfig;
use mwha::config::ShairportConfig;
use mwha::config::SourceConfig;
use mwha::config::SourceShairportConfig;
use mwha::config::TcpPortConfig;
use mwha::config::CommonPortConfig;
use mwha::config::ZoneConfig;
use mwha::config::ZoneShairportConfig;
use mwha::emu;
use mwha::ids::SourceId;
use mwha::mqtt::MqttConfig;
use mwha::worker::ChannelMessage;
use mwha::worker::CoalesceOutcome;
use mwha::worker::amp_ids_for_zones;
use mwha::worker::attr_payload;
use mwha::worker::coalesce;
use mwha::worker::diff_attributes;
use mwha::worker::filter_single_zones;
use mwha::worker::metadata_publications;
use mwha::worker::status_publications;
use mwha::worker::worker_cycle;
use mwha::zone::ZoneAttribute;
use mwha::zone::ZoneId;

struct EmuWire {
    amp: emu::Amp,
    console: emu::Console,
    rx: VecDeque<u8>,
}

impl EmuWire {
    fn new(amps: u8) -> EmuWire {
        EmuWire { amp: emu::Amp::new(amps), console: emu::Console::new(), rx: VecDeque::new() }
    }
}

impl Port for EmuWire {
    fn read_byte(&mut self) -> Result<u8, TransportError> {
        self.rx.pop_front().ok_or(TransportError::TimedOut)
    }

    fn write_bytes(&mut self, data: &[u8]) -> Result<(), TransportError> {
        for &b in data {
            match self.console.accept_byte(b) {
                emu::ConsoleAction::Ignore => {}
                emu::ConsoleAction::Echo(e) => self.rx.push_back(e),
                emu::ConsoleAction::Erase => self.rx.extend([8u8, 32, 8]),
                emu::ConsoleAction::Complete(line) => {
                    let out = emu::handle_command(&mut self.amp, &line);
                    self.rx.extend(out);
                }
                emu::ConsoleAction::EchoDiscard(e) => {
                    self.rx.push_back(e);
                    let out = emu::handle_command(&mut self.amp, &[]);
                    self.rx.extend(out);
                }
            }
        }
        Ok(())
    }

    fn flush(&mut self) -> Result<(), TransportError> {
        Ok(())
    }
}

fn zone11() -> ZoneId {
    ZoneId::Zone { amp: 1, zone: 1 }
}

#[test]
fn coalescing_keeps_only_the_last_change_per_key() {
    let messages = vec![
        ChannelMessage::ChangeZoneAttribute(zone11(), ZoneAttribute::Volume(10)),
        ChannelMessage::ChangeZoneAttribute(zone11(), ZoneAttribute::Volume(20)),
    ];
    match coalesce(&messages) {
        CoalesceOutcome::Apply(changes) => {
            assert_eq!(changes, vec![(zone11(), ZoneAttribute::Volume(20))]);
        }
        CoalesceOutcome::Terminate => panic!("no poison was queued"),
    }
}

#[test]
fn coalescing_keeps_distinct_keys_apart() {
    let z12 = ZoneId::Zone { amp: 1, zone: 2 };
    let messages = vec![
        ChannelMessage::ChangeZoneAttribute(zone11(), ZoneAttribute::Volume(10)),
        ChannelMessage::ChangeZoneAttribute(zone11(), ZoneAttribute::Mute(true)),
        ChannelMessage::ChangeZoneAttribute(z12, ZoneAttribute::Volume(5)),
        ChannelMessage::ChangeZoneAttribute(zone11(), ZoneAttribute::Volume(20)),
    ];
    match coalesce(&messages) {
        CoalesceOutcome::Apply(changes) => {
            assert_eq!(changes.len(), 3);
            assert!(changes.contains(&(zone11(), ZoneAttribute::Volume(20))));
            assert!(changes.contains(&(zone11(), ZoneAttribute::Mute(true))));
            assert!(changes.contains(&(z12, ZoneAttribute::Volume(5))));
        }
        CoalesceOutcome::Terminate => panic!("no poison was queued"),
    }
}

#[test]
fn poison_terminates_the_worker() {
    let messages = vec![
        ChannelMessage::ChangeZoneAttribute(zone11(), ZoneAttribute::Volume(10)),
        ChannelMessage::Poison,
    ];
    assert_eq!(coalesce(&messages), CoalesceOutcome::Terminate);
    assert_eq!(coalesce(&Vec::new()), CoalesceOutcome::Apply(Vec::new()));
}

fn status_with_volume(zone_id: ZoneId, volume: u8) -> ZoneStatus {
    ZoneStatus {
        zone_id,
        attributes: vec![
            ZoneAttribute::PublicAnnouncement(false),
            ZoneAttribute::Power(false),
            ZoneAttribute::Mute(false),
            ZoneAttribute::DoNotDisturb(false),
            ZoneAttribute::Volume(volume),
            ZoneAttribute::Treble(0),
            ZoneAttribute::Bass(0),
            ZoneAttribute::Balance(0),
            ZoneAttribute::Source(0),
            ZoneAttribute::KeypadConnected(false),
        ],
    }
}

#[test]
fn unchanged_volume_is_not_published() {
    let prev = status_with_volume(zone11(), 10);
    let cur = status_with_volume(zone11(), 10);
    let pubs = status_publications("mwha/", &cur, Some(&prev));
    assert!(pubs.iter().all(|p| !p.topic.ends_with("/volume")));
}

#[test]
fn changed_volume_is_published_exactly_once() {
    let prev = status_with_volume(zone11(), 10);
    let cur = status_with_volume(zone11(), 11);
    let pubs = status_publications("mwha/", &cur, Some(&prev));
    let volume_pubs: Vec<_> = pubs.iter().filter(|p| p.topic.ends_with("/volume")).collect();
    assert_eq!(volume_pubs.len(), 1);
    assert_eq!(volume_pubs[0].topic, "mwha/status/zone/11/volume");
    assert_eq!(volume_pubs[0].payload, "11");
    assert!(volume_pubs[0].retain);
    // nothing else changed, so nothing else is published
    assert_eq!(pubs.len(), 1);
}

#[test]
fn first_cycle_publishes_every_attribute() {
    let cur = status_with_volume(zone11(), 7);
    let pubs = status_publications("mwha/", &cur, None);
    assert_eq!(pubs.len(), 10);
    assert_eq!(pubs[4].topic, "mwha/status/zone/11/volume");
    assert_eq!(pubs[4].payload, "7");
    assert_eq!(pubs[1].topic, "mwha/status/zone/11/power");
    assert_eq!(pubs[1].payload, "false");
}

#[test]
fn attribute_payloads_are_bare_json_scalars() {
    assert_eq!(attr_payload(&ZoneAttribute::Power(true)), "true");
    assert_eq!(attr_payload(&ZoneAttribute::Mute(false)), "false");
    assert_eq!(attr_payload(&ZoneAttribute::Volume(38)), "38");
    assert_eq!(attr_payload(&ZoneAttribute::Volume(0)), "0");
    assert_eq!(attr_payload(&ZoneAttribute::Source(6)), "6");
}

#[test]
fn amp_ids_deduplicate_units() {
    let zones = vec![
        ZoneId::Zone { amp: 1, zone: 1 },
        ZoneId::Zone { amp: 1, zone: 2 },
        ZoneId::Zone { amp: 2, zone: 3 },
        ZoneId::Zone { amp: 1, zone: 4 },
    ];
    let amps = amp_ids_for_zones(&zones);
    assert_eq!(amps, vec![ZoneId::Amp(1), ZoneId::Amp(2)]);
}

#[test]
fn single_zone_filter_drops_groups() {
    let zones = vec![zone11(), ZoneId::Amp(2), ZoneId::System, ZoneId::Zone { amp: 2, zone: 2 }];
    let singles = filter_single_zones(&zones);
    assert_eq!(singles, vec![zone11(), ZoneId::Zone { amp: 2, zone: 2 }]);
}

#[test]
fn worker_cycle_applies_coalesced_change_and_publishes_diff() {
    let mut amp = Amp::new(EmuWire::new(1)).expect("resync");
    let zone_ids = vec![zone11()];
    let amp_ids = amp_ids_for_zones(&zone_ids);

    // first cycle: no previous snapshot, everything is published
    let first = worker_cycle(&mut amp, "mwha/", &zone_ids, &amp_ids, &Vec::new(), &Vec::new())
        .expect("first cycle");
    assert_eq!(first.statuses.len(), 6);
    assert_eq!(first.publications.len(), 10);

    // the two queued volume changes collapse to one device write
    let messages = vec![
        ChannelMessage::ChangeZoneAttribute(zone11(), ZoneAttribute::Volume(10)),
        ChannelMessage::ChangeZoneAttribute(zone11(), ZoneAttribute::Volume(20)),
    ];
    let changes = match coalesce(&messages) {
        CoalesceOutcome::Apply(changes) => changes,
        CoalesceOutcome::Terminate => panic!("no poison"),
    };
    assert_eq!(changes.len(), 1);

    let second = worker_cycle(&mut amp, "mwha/", &zone_ids, &amp_ids, &first.statuses, &changes)
        .expect("second cycle");
    // only the changed attribute of the configured zone is republished
    assert_eq!(second.publications.len(), 1);
    assert_eq!(second.publications[0].topic, "mwha/status/zone/11/volume");
    assert_eq!(second.publications[0].payload, "20");
    assert!(second.publications[0].retain);

    // a third cycle with nothing changed publishes nothing
    let third = worker_cycle(&mut amp, "mwha/", &zone_ids, &amp_ids, &second.statuses, &Vec::new())
        .expect("third cycle");
    assert!(third.publications.is_empty());
}

fn test_config() -> Config {
    Config {
        logging: LoggingConfig {},
        port: PortConfig::Tcp(TcpPortConfig {
            common: CommonPortConfig { read_timeout: Some(1000) },
            url: "raw://localhost:9955".to_string(),
        }),
        mqtt: MqttConfig {
            url: "mqtt://localhost".to_string(),
            url_path: "".to_string(),
            srv_lookup: false,
            ca_certs: None,
            client_certs: None,
            client_key: None,
        },
        amp: AmpConfig {
            poll_interval: 1000,
            manufacturer: None,
            model: Some("Test Amp".to_string()),
            serial: None,
            sources: vec![(
                SourceId::from_byte(1).unwrap(),
                SourceConfig {
                    name: "Record \"Player\"".to_string(),
                    enabled: false,
                    shairport: SourceShairportConfig { volume_topic: None },
                },
            )],
            zones: vec![
                (
                    zone11(),
                    ZoneConfig {
                        name: "Kitchen".to_string(),
                        shairport: ZoneShairportConfig { max_volume: None, volume_offset: None },
                    },
                ),
                (
                    ZoneId::Zone { amp: 1, zone: 2 },
                    ZoneConfig {
                        name: "Hall".to_string(),
                        shairport: ZoneShairportConfig { max_volume: None, volume_offset: None },
                    },
                ),
            ],
        },
        shairport: ShairportConfig { max_zone_volume: 38, zone_volume_offset: 0 },
    }
}

#[test]
fn sources_completed_with_defaults() {
    let config = test_config();
    let sources = config.amp.sources();
    assert_eq!(sources.len(), 6);
    // the configured source keeps its settings
    assert_eq!(sources[0].0.to_byte(), 1);
    assert_eq!(sources[0].1.name, "Record \"Player\"");
    assert!(!sources[0].1.enabled);
    // the others appear with default names, enabled
    let ids: Vec<u8> = sources.iter().map(|(id, _)| id.to_byte()).collect();
    for want in 1u8..=6 {
        assert!(ids.contains(&want));
    }
    let s4 = sources.iter().find(|(id, _)| id.to_byte() == 4).unwrap();
    assert_eq!(s4.1.name, "Source 4");
    assert!(s4.1.enabled);
}

#[test]
fn metadata_covers_liveness_names_and_zones() {
    let config = test_config();
    let sources = config.amp.sources();
    let pubs = metadata_publications("mwha/", &config, &sources);

    assert_eq!(pubs[0].topic, "mwha/connected");
    assert_eq!(pubs[0].payload, "2");
    assert!(pubs[0].retain);

    assert_eq!(pubs[1].topic, "mwha/status/amp/model");
    assert_eq!(pubs[1].payload, "\"Test Amp\"");

    let name1 = pubs.iter().find(|p| p.topic == "mwha/status/source/1/name").unwrap();
    // the source name is JSON-escaped, which an unencoded copy would not be
    assert_eq!(name1.payload, "\"Record \\\"Player\\\"\"");
    let enabled1 = pubs.iter().find(|p| p.topic == "mwha/status/source/1/enabled").unwrap();
    assert_eq!(enabled1.payload, "false");
    let name4 = pubs.iter().find(|p| p.topic == "mwha/status/source/4/name").unwrap();
    assert_eq!(name4.payload, "\"Source 4\"");

    let zones = pubs.iter().find(|p| p.topic == "mwha/status/zones").unwrap();
    assert_eq!(zones.payload, "[\"11\",\"12\"]");

    let kitchen = pubs.iter().find(|p| p.topic == "mwha/status/zone/11/name").unwrap();
    assert_eq!(kitchen.payload, "\"Kitchen\"");
    assert!(pubs.iter().all(|p| p.retain));
}
