use mwha::zone::ZoneAttribute;
use mwha::zone::ZoneAttributeDiscriminants;
use mwha::zone::ZoneAttributeError;
use mwha::zone::ZoneId;
use mwha::zone::ZoneIdError;
use mwha::ids::SourceId;
use mwha::ids::SourceIdError;

#[test]
fn zone_id_round_trip_all_valid() {
    // every valid (amp, zone) with zone = 0 meaning the whole unit
    for amp in 1u8..=3 {
        for zone in 0u8..=6 {
            let id = if zone == 0 {
                ZoneId::Amp(amp)
            } else {
                ZoneId::Zone { amp, zone }
            };
            let byte = id.to_byte();
            assert_eq!(byte, amp * 10 + zone);
            assert_eq!(ZoneId::from_byte(byte), Ok(id));
        }
    }
    assert_eq!(ZoneId::System.to_byte(), 0);
    assert_eq!(ZoneId::from_byte(0), Ok(ZoneId::System));
}

#[test]
fn zone_id_decode_rejects_bad_amp() {
    assert_eq!(ZoneId::from_byte(40), Err(ZoneIdError::AmpOutOfRange(40)));
    assert_eq!(ZoneId::from_byte(99), Err(ZoneIdError::AmpOutOfRange(99)));
    assert_eq!(ZoneId::from_byte(5), Err(ZoneIdError::AmpOutOfRange(5)));
}

#[test]
fn zone_id_decode_rejects_bad_zone() {
    assert_eq!(ZoneId::from_byte(17), Err(ZoneIdError::ZoneOutOfRange(17)));
    assert_eq!(ZoneId::from_byte(29), Err(ZoneIdError::ZoneOutOfRange(29)));
    assert_eq!(ZoneId::from_byte(38), Err(ZoneIdError::ZoneOutOfRange(38)));
}

#[test]
fn amp_expands_to_its_six_zones() {
    let zones = ZoneId::Amp(2).to_zones();
    let expected: Vec<ZoneId> = (1u8..=6).map(|zone| ZoneId::Zone { amp: 2, zone }).collect();
    assert_eq!(zones, expected);
}

#[test]
fn system_expands_to_all_amps() {
    let amps = ZoneId::System.to_amps();
    assert_eq!(amps, vec![ZoneId::Amp(1), ZoneId::Amp(2), ZoneId::Amp(3)]);
}

#[test]
fn system_expands_to_all_zones() {
    let zones = ZoneId::System.to_zones();
    assert_eq!(zones.len(), 18);
    assert_eq!(zones[0], ZoneId::Zone { amp: 1, zone: 1 });
    assert_eq!(zones[17], ZoneId::Zone { amp: 3, zone: 6 });
}

#[test]
fn validate_accepts_in_range_values() {
    assert!(ZoneAttribute::Volume(0).validate().is_ok());
    assert!(ZoneAttribute::Volume(38).validate().is_ok());
    assert!(ZoneAttribute::Treble(14).validate().is_ok());
    assert!(ZoneAttribute::Bass(14).validate().is_ok());
    assert!(ZoneAttribute::Balance(20).validate().is_ok());
    assert!(ZoneAttribute::Source(1).validate().is_ok());
    assert!(ZoneAttribute::Source(6).validate().is_ok());
    assert!(ZoneAttribute::Power(true).validate().is_ok());
    assert!(ZoneAttribute::PublicAnnouncement(false).validate().is_ok());
}

#[test]
fn validate_rejects_out_of_range_values() {
    assert_eq!(
        ZoneAttribute::Volume(39).validate(),
        Err(ZoneAttributeError::ValueOutOfRange { attr: ZoneAttribute::Volume(39), min: 0, max: 38 })
    );
    assert_eq!(
        ZoneAttribute::Source(0).validate(),
        Err(ZoneAttributeError::ValueOutOfRange { attr: ZoneAttribute::Source(0), min: 1, max: 6 })
    );
    assert!(ZoneAttribute::Source(7).validate().is_err());
    assert!(ZoneAttribute::Treble(15).validate().is_err());
    assert!(ZoneAttribute::Bass(15).validate().is_err());
    assert!(ZoneAttribute::Balance(21).validate().is_err());
}

#[test]
fn read_only_attribute_kinds() {
    assert!(ZoneAttributeDiscriminants::PublicAnnouncement.read_only());
    assert!(ZoneAttributeDiscriminants::KeypadConnected.read_only());
    assert!(!ZoneAttributeDiscriminants::Power.read_only());
    assert!(!ZoneAttributeDiscriminants::Mute.read_only());
    assert!(!ZoneAttributeDiscriminants::DoNotDisturb.read_only());
    assert!(!ZoneAttributeDiscriminants::Volume.read_only());
    assert!(!ZoneAttributeDiscriminants::Treble.read_only());
    assert!(!ZoneAttributeDiscriminants::Bass.read_only());
    assert!(!ZoneAttributeDiscriminants::Balance.read_only());
    assert!(!ZoneAttributeDiscriminants::Source.read_only());
}

#[test]
fn set_and_status_topics() {
    let zone = ZoneId::Zone { amp: 1, zone: 1 };
    assert_eq!(
        ZoneAttributeDiscriminants::Volume.mqtt_set_topic("mwha/", &zone),
        "mwha/set/zone/11/volume"
    );
    assert_eq!(
        ZoneAttributeDiscriminants::Volume.mqtt_status_topic("mwha/", &zone),
        "mwha/status/zone/11/volume"
    );
    assert_eq!(
        ZoneAttributeDiscriminants::DoNotDisturb.mqtt_set_topic("base/", &ZoneId::Zone { amp: 3, zone: 6 }),
        "base/set/zone/36/do-not-disturb"
    );
    assert_eq!(
        ZoneAttributeDiscriminants::PublicAnnouncement.mqtt_status_topic("", &ZoneId::Zone { amp: 2, zone: 4 }),
        "status/zone/24/public-announcement"
    );
}

#[test]
fn attribute_kind_of_value() {
    assert_eq!(ZoneAttribute::Volume(5).kind(), ZoneAttributeDiscriminants::Volume);
    assert_eq!(
        ZoneAttribute::KeypadConnected(true).kind(),
        ZoneAttributeDiscriminants::KeypadConnected
    );
    let all = ZoneAttributeDiscriminants::all();
    assert_eq!(all.len(), 10);
    assert_eq!(all[0], ZoneAttributeDiscriminants::PublicAnnouncement);
    assert_eq!(all[9], ZoneAttributeDiscriminants::KeypadConnected);
}

#[test]
fn source_id_range() {
    assert!(SourceId::from_byte(1).is_ok());
    assert!(SourceId::from_byte(6).is_ok());
    assert_eq!(SourceId::from_byte(0), Err(SourceIdError::OutOfRange(0)));
    assert_eq!(SourceId::from_byte(7), Err(SourceIdError::OutOfRange(7)));
    let all = SourceId::all();
    assert_eq!(all.len(), 6);
    for (i, id) in all.iter().enumerate() {
        assert_eq!(id.to_byte() as usize, i + 1);
    }
}
