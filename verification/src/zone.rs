//! Zone and amplifier addressing, and the per-zone attribute model.
//!
//! A `ZoneId` names a single zone, a whole amplifier unit, or the whole
//! system, and encodes to one byte as `amp * 10 + zone`. A `ZoneAttribute`
//! carries one controllable or observable property of a zone, with a fixed
//! inclusive range for the numeric ones.

use vstd::prelude::*;
use vstd::string::StringExecFns;

use crate::strfmt::two_digit_chars;
use crate::strfmt::push_two_digit_chars;

verus! {

/// Highest amplifier unit number that can be addressed.
pub const MAX_AMPS: u8 = 3;

/// Number of zones each amplifier unit controls.
pub const MAX_ZONES_PER_AMP: u8 = 6;

/// Lowest valid volume value.
pub const VOLUME_MIN: u8 = 0;

/// Highest valid volume value.
pub const VOLUME_MAX: u8 = 38;

/// Lowest valid treble value.
pub const TREBLE_MIN: u8 = 0;

/// Highest valid treble value.
pub const TREBLE_MAX: u8 = 14;

/// Lowest valid bass value.
pub const BASS_MIN: u8 = 0;

/// Highest valid bass value.
pub const BASS_MAX: u8 = 14;

/// Lowest valid balance value.
pub const BALANCE_MIN: u8 = 0;

/// Highest valid balance value.
pub const BALANCE_MAX: u8 = 20;

/// Lowest valid source value.
pub const SOURCE_MIN: u8 = 1;

/// Highest valid source value.
pub const SOURCE_MAX: u8 = 6;

/// One controllable or observable property of a zone, with its payload.
#[derive(Copy, Clone, Debug, PartialEq, Eq, Structural)]
pub enum ZoneAttribute {
    PublicAnnouncement(bool),
    Power(bool),
    Mute(bool),
    DoNotDisturb(bool),
    Volume(u8),
    Treble(u8),
    Bass(u8),
    Balance(u8),
    Source(u8),
    KeypadConnected(bool),
}

/// The kind of a `ZoneAttribute`, without its payload.
#[derive(Copy, Clone, Debug, PartialEq, Eq, Structural, Hash)]
pub enum ZoneAttributeDiscriminants {
    PublicAnnouncement,
    Power,
    Mute,
    DoNotDisturb,
    Volume,
    Treble,
    Bass,
    Balance,
    Source,
    KeypadConnected,
}

/// Why an attribute value was rejected.
#[derive(Copy, Clone, Debug, PartialEq, Eq, Structural)]
pub enum ZoneAttributeError {
    /// The payload of the named attribute lies outside its fixed
    /// inclusive range `[min, max]`.
    ValueOutOfRange { attr: ZoneAttribute, min: u8, max: u8 },
}

impl ZoneAttribute {
    /// The kind of this attribute.
    pub open spec fn spec_kind(self) -> ZoneAttributeDiscriminants {
        match self {
            ZoneAttribute::PublicAnnouncement(_) => ZoneAttributeDiscriminants::PublicAnnouncement,
            ZoneAttribute::Power(_) => ZoneAttributeDiscriminants::Power,
            ZoneAttribute::Mute(_) => ZoneAttributeDiscriminants::Mute,
            ZoneAttribute::DoNotDisturb(_) => ZoneAttributeDiscriminants::DoNotDisturb,
            ZoneAttribute::Volume(_) => ZoneAttributeDiscriminants::Volume,
            ZoneAttribute::Treble(_) => ZoneAttributeDiscriminants::Treble,
            ZoneAttribute::Bass(_) => ZoneAttributeDiscriminants::Bass,
            ZoneAttribute::Balance(_) => ZoneAttributeDiscriminants::Balance,
            ZoneAttribute::Source(_) => ZoneAttributeDiscriminants::Source,
            ZoneAttribute::KeypadConnected(_) => ZoneAttributeDiscriminants::KeypadConnected,
        }
    }

    /// The kind of this attribute, without its payload.
    pub fn kind(&self) -> (r: ZoneAttributeDiscriminants)
        ensures
            r == self.spec_kind(),
    {
        match *self {
            ZoneAttribute::PublicAnnouncement(_) => ZoneAttributeDiscriminants::PublicAnnouncement,
            ZoneAttribute::Power(_) => ZoneAttributeDiscriminants::Power,
            ZoneAttribute::Mute(_) => ZoneAttributeDiscriminants::Mute,
            ZoneAttribute::DoNotDisturb(_) => ZoneAttributeDiscriminants::DoNotDisturb,
            ZoneAttribute::Volume(_) => ZoneAttributeDiscriminants::Volume,
            ZoneAttribute::Treble(_) => ZoneAttributeDiscriminants::Treble,
            ZoneAttribute::Bass(_) => ZoneAttributeDiscriminants::Bass,
            ZoneAttribute::Balance(_) => ZoneAttributeDiscriminants::Balance,
            ZoneAttribute::Source(_) => ZoneAttributeDiscriminants::Source,
            ZoneAttribute::KeypadConnected(_) => ZoneAttributeDiscriminants::KeypadConnected,
        }
    }

    /// True when the payload lies inside the declared range of its kind.
    /// Boolean attributes are always in range.
    pub open spec fn in_range(self) -> bool {
        match self {
            ZoneAttribute::Volume(v) => VOLUME_MIN <= v <= VOLUME_MAX,
            ZoneAttribute::Treble(v) => TREBLE_MIN <= v <= TREBLE_MAX,
            ZoneAttribute::Bass(v) => BASS_MIN <= v <= BASS_MAX,
            ZoneAttribute::Balance(v) => BALANCE_MIN <= v <= BALANCE_MAX,
            ZoneAttribute::Source(v) => SOURCE_MIN <= v <= SOURCE_MAX,
            _ => true,
        }
    }

    /// The `[min, max]` range of this attribute's kind, for the numeric kinds.
    pub open spec fn spec_range(self) -> (u8, u8) {
        match self {
            ZoneAttribute::Volume(_) => (VOLUME_MIN, VOLUME_MAX),
            ZoneAttribute::Treble(_) => (TREBLE_MIN, TREBLE_MAX),
            ZoneAttribute::Bass(_) => (BASS_MIN, BASS_MAX),
            ZoneAttribute::Balance(_) => (BALANCE_MIN, BALANCE_MAX),
            ZoneAttribute::Source(_) => (SOURCE_MIN, SOURCE_MAX),
            _ => (0, 0),
        }
    }

    /// Check the payload against the fixed range of its kind: succeeds if and
    /// only if the value is in range, and otherwise reports the violated range.
    pub fn validate(&self) -> (r: Result<(), ZoneAttributeError>)
        ensures
            r is Ok <==> self.in_range(),
            !self.in_range() ==> r == Err::<(), ZoneAttributeError>(
                ZoneAttributeError::ValueOutOfRange {
                    attr: *self,
                    min: self.spec_range().0,
                    max: self.spec_range().1,
                },
            ),
    {
        let (v, min, max) = match *self {
            ZoneAttribute::Volume(v) => (v, VOLUME_MIN, VOLUME_MAX),
            ZoneAttribute::Treble(v) => (v, TREBLE_MIN, TREBLE_MAX),
            ZoneAttribute::Bass(v) => (v, BASS_MIN, BASS_MAX),
            ZoneAttribute::Balance(v) => (v, BALANCE_MIN, BALANCE_MAX),
            ZoneAttribute::Source(v) => (v, SOURCE_MIN, SOURCE_MAX),
            _ => {
                return Ok(());
            },
        };
        if v < min || v > max {
            Err(ZoneAttributeError::ValueOutOfRange { attr: *self, min, max })
        } else {
            Ok(())
        }
    }
}

impl ZoneAttributeDiscriminants {
    /// True for the attribute kinds the device reports but never accepts
    /// a change for.
    pub open spec fn spec_read_only(self) -> bool {
        self is PublicAnnouncement || self is KeypadConnected
    }

    /// Whether this attribute kind can only be read, never written.
    pub fn read_only(&self) -> (r: bool)
        ensures
            r == self.spec_read_only(),
    {
        match *self {
            ZoneAttributeDiscriminants::PublicAnnouncement => true,
            ZoneAttributeDiscriminants::KeypadConnected => true,
            _ => false,
        }
    }

    /// All ten attribute kinds, in the order the device reports them.
    pub fn all() -> (r: Vec<ZoneAttributeDiscriminants>)
        ensures
            r@ =~= seq![
                ZoneAttributeDiscriminants::PublicAnnouncement,
                ZoneAttributeDiscriminants::Power,
                ZoneAttributeDiscriminants::Mute,
                ZoneAttributeDiscriminants::DoNotDisturb,
                ZoneAttributeDiscriminants::Volume,
                ZoneAttributeDiscriminants::Treble,
                ZoneAttributeDiscriminants::Bass,
                ZoneAttributeDiscriminants::Balance,
                ZoneAttributeDiscriminants::Source,
                ZoneAttributeDiscriminants::KeypadConnected,
            ],
    {
        vec![
            ZoneAttributeDiscriminants::PublicAnnouncement,
            ZoneAttributeDiscriminants::Power,
            ZoneAttributeDiscriminants::Mute,
            ZoneAttributeDiscriminants::DoNotDisturb,
            ZoneAttributeDiscriminants::Volume,
            ZoneAttributeDiscriminants::Treble,
            ZoneAttributeDiscriminants::Bass,
            ZoneAttributeDiscriminants::Balance,
            ZoneAttributeDiscriminants::Source,
            ZoneAttributeDiscriminants::KeypadConnected,
        ]
    }

    /// The kebab-case name of this attribute kind, used as the last segment
    /// of its bus topics.
    pub open spec fn spec_kebab_name(self) -> Seq<char> {
        match self {
            ZoneAttributeDiscriminants::PublicAnnouncement => "public-announcement"@,
            ZoneAttributeDiscriminants::Power => "power"@,
            ZoneAttributeDiscriminants::Mute => "mute"@,
            ZoneAttributeDiscriminants::DoNotDisturb => "do-not-disturb"@,
            ZoneAttributeDiscriminants::Volume => "volume"@,
            ZoneAttributeDiscriminants::Treble => "treble"@,
            ZoneAttributeDiscriminants::Bass => "bass"@,
            ZoneAttributeDiscriminants::Balance => "balance"@,
            ZoneAttributeDiscriminants::Source => "source"@,
            ZoneAttributeDiscriminants::KeypadConnected => "keypad-connected"@,
        }
    }

    /// The kebab-case topic name segment for this attribute kind.
    pub fn kebab_name(&self) -> (r: &'static str)
        ensures
            r@ == self.spec_kebab_name(),
    {
        match *self {
            ZoneAttributeDiscriminants::PublicAnnouncement => "public-announcement",
            ZoneAttributeDiscriminants::Power => "power",
            ZoneAttributeDiscriminants::Mute => "mute",
            ZoneAttributeDiscriminants::DoNotDisturb => "do-not-disturb",
            ZoneAttributeDiscriminants::Volume => "volume",
            ZoneAttributeDiscriminants::Treble => "treble",
            ZoneAttributeDiscriminants::Bass => "bass",
            ZoneAttributeDiscriminants::Balance => "balance",
            ZoneAttributeDiscriminants::Source => "source",
            ZoneAttributeDiscriminants::KeypadConnected => "keypad-connected",
        }
    }

    /// The bus topic on which changes for this attribute of `zone` arrive.
    pub open spec fn spec_set_topic(self, topic_base: Seq<char>, zone: ZoneId) -> Seq<char> {
        topic_base + "set/zone/"@ + two_digit_chars(zone.spec_to_byte()) + "/"@
            + self.spec_kebab_name()
    }

    /// The bus topic on which status for this attribute of `zone` is published.
    pub open spec fn spec_status_topic(self, topic_base: Seq<char>, zone: ZoneId) -> Seq<char> {
        topic_base + "status/zone/"@ + two_digit_chars(zone.spec_to_byte()) + "/"@
            + self.spec_kebab_name()
    }

    /// Build the change topic `{base}set/zone/{id}/{kebab-name}`.
    pub fn mqtt_set_topic(&self, topic_base: &str, zone: &ZoneId) -> (r: String)
        requires
            zone.wf(),
        ensures
            r@ == self.spec_set_topic(topic_base@, *zone),
    {
        let mut s = topic_base.to_owned();
        s.append("set/zone/");
        push_two_digit_chars(&mut s, zone.to_byte());
        s.append("/");
        s.append(self.kebab_name());
        proof {
            assert(s@ =~= self.spec_set_topic(topic_base@, *zone));
        }
        s
    }

    /// Build the status topic `{base}status/zone/{id}/{kebab-name}`.
    pub fn mqtt_status_topic(&self, topic_base: &str, zone: &ZoneId) -> (r: String)
        requires
            zone.wf(),
        ensures
            r@ == self.spec_status_topic(topic_base@, *zone),
    {
        let mut s = topic_base.to_owned();
        s.append("status/zone/");
        push_two_digit_chars(&mut s, zone.to_byte());
        s.append("/");
        s.append(self.kebab_name());
        proof {
            assert(s@ =~= self.spec_status_topic(topic_base@, *zone));
        }
        s
    }
}

/// Identifies a system-wide addressable target.
#[derive(Copy, Clone, Debug, PartialEq, Eq, Structural, Hash)]
pub enum ZoneId {
    /// One physical zone of one amplifier unit.
    Zone { amp: u8, zone: u8 },
    /// All zones of one amplifier unit (encoded with zone = 0).
    Amp(u8),
    /// All amplifier units (encoded as amp = 0, zone = 0).
    System,
}

/// Why a byte or string failed to decode as a `ZoneId`.
#[derive(Clone, Debug, PartialEq, Eq)]
pub enum ZoneIdError {
    /// The amp field of the given encoded id is outside `[1, MAX_AMPS]`.
    AmpOutOfRange(u8),
    /// The zone field of the given encoded id is outside `[1, MAX_ZONES_PER_AMP]`.
    ZoneOutOfRange(u8),
    /// The given text is not a decimal number at all.
    ParseFailure { value: String },
}

impl ZoneId {
    /// A `ZoneId` is well formed when its fields are within the addressable ranges.
    pub open spec fn wf(self) -> bool {
        match self {
            ZoneId::Zone { amp, zone } => 1 <= amp <= MAX_AMPS && 1 <= zone <= MAX_ZONES_PER_AMP,
            ZoneId::Amp(amp) => 1 <= amp <= MAX_AMPS,
            ZoneId::System => true,
        }
    }

    /// The one-byte encoding: `amp * 10 + zone`.
    pub open spec fn spec_to_byte(self) -> int {
        match self {
            ZoneId::Zone { amp, zone } => amp * 10 + zone,
            ZoneId::Amp(amp) => amp * 10,
            ZoneId::System => 0,
        }
    }

    /// Encode this id to its one-byte wire form.
    pub fn to_byte(&self) -> (r: u8)
        requires
            self.wf(),
        ensures
            r == self.spec_to_byte(),
    {
        match *self {
            ZoneId::Zone { amp, zone } => amp * 10 + zone,
            ZoneId::Amp(amp) => amp * 10,
            ZoneId::System => 0,
        }
    }

    /// What decoding a byte yields: the unique well-formed id for in-range
    /// fields, and the error naming the offending field otherwise.
    pub open spec fn spec_from_byte(value: u8) -> Result<ZoneId, ZoneIdError> {
        let amp = value / 10;
        let zone = value % 10;
        if amp == 0 && zone == 0 {
            Ok(ZoneId::System)
        } else if !(1 <= amp <= MAX_AMPS) {
            Err(ZoneIdError::AmpOutOfRange(value))
        } else if zone == 0 {
            Ok(ZoneId::Amp(amp))
        } else if zone <= MAX_ZONES_PER_AMP {
            Ok(ZoneId::Zone { amp, zone })
        } else {
            Err(ZoneIdError::ZoneOutOfRange(value))
        }
    }

    /// Decode a one-byte wire form, validating both fields.
    pub fn from_byte(value: u8) -> (r: Result<ZoneId, ZoneIdError>)
        ensures
            r == Self::spec_from_byte(value),
            r matches Ok(z) ==> z.wf() && z.spec_to_byte() == value,
    {
        let amp = value / 10;
        let zone = value % 10;

        if amp == 0 && zone == 0 {
            return Ok(ZoneId::System);
        }

        if !(1 <= amp && amp <= MAX_AMPS) {
            return Err(ZoneIdError::AmpOutOfRange(value));
        }

        if zone == 0 {
            Ok(ZoneId::Amp(amp))
        } else if zone <= MAX_ZONES_PER_AMP {
            Ok(ZoneId::Zone { amp, zone })
        } else {
            Err(ZoneIdError::ZoneOutOfRange(value))
        }
    }

    /// The amplifier units this id denotes, in ascending amp order.
    pub fn to_amps(&self) -> (r: Vec<ZoneId>)
        requires
            self.wf(),
        ensures
            match *self {
                ZoneId::Zone { amp, zone } => r@ =~= seq![ZoneId::Amp(amp)],
                ZoneId::Amp(amp) => r@ =~= seq![ZoneId::Amp(amp)],
                ZoneId::System => r@.len() == MAX_AMPS && forall|i: int|
                    0 <= i < r@.len() ==> r@[i] == ZoneId::Amp((i + 1) as u8),
            },
            forall|i: int| 0 <= i < r@.len() ==> (#[trigger] r@[i]).wf() && r@[i] is Amp,
    {
        match *self {
            ZoneId::Zone { amp, zone: _ } => vec![ZoneId::Amp(amp)],
            ZoneId::Amp(amp) => vec![ZoneId::Amp(amp)],
            ZoneId::System => {
                let mut amps: Vec<ZoneId> = Vec::new();
                let mut a: u8 = 1;
                while a <= MAX_AMPS
                    invariant
                        1 <= a <= MAX_AMPS + 1,
                        amps@.len() == a - 1,
                        forall|i: int| 0 <= i < amps@.len() ==> amps@[i] == ZoneId::Amp(
                            (i + 1) as u8,
                        ),
                    decreases MAX_AMPS + 1 - a,
                {
                    amps.push(ZoneId::Amp(a));
                    a = a + 1;
                }
                amps
            },
        }
    }

    /// The single zones this id denotes: itself for a zone, all six zones of
    /// the unit for an amp, and every zone of every unit for the system.
    pub fn to_zones(&self) -> (r: Vec<ZoneId>)
        requires
            self.wf(),
        ensures
            match *self {
                ZoneId::Zone { amp, zone } => r@ =~= seq![*self],
                ZoneId::Amp(amp) => r@.len() == MAX_ZONES_PER_AMP && forall|i: int|
                    0 <= i < r@.len() ==> r@[i] == (ZoneId::Zone { amp, zone: (i + 1) as u8 }),
                ZoneId::System => r@.len() == MAX_AMPS * MAX_ZONES_PER_AMP && forall|i: int|
                    0 <= i < r@.len() ==> r@[i] == (ZoneId::Zone {
                        amp: (i / MAX_ZONES_PER_AMP as int + 1) as u8,
                        zone: (i % MAX_ZONES_PER_AMP as int + 1) as u8,
                    }),
            },
            forall|i: int| 0 <= i < r@.len() ==> (#[trigger] r@[i]).wf() && r@[i] is Zone,
    {
        match *self {
            ZoneId::Zone { amp, zone } => vec![ZoneId::Zone { amp, zone }],
            ZoneId::Amp(amp) => {
                let mut zones: Vec<ZoneId> = Vec::new();
                let mut z: u8 = 1;
                while z <= MAX_ZONES_PER_AMP
                    invariant
                        1 <= z <= MAX_ZONES_PER_AMP + 1,
                        1 <= amp <= MAX_AMPS,
                        zones@.len() == z - 1,
                        forall|i: int| 0 <= i < zones@.len() ==> zones@[i] == (ZoneId::Zone {
                            amp,
                            zone: (i + 1) as u8,
                        }),
                    decreases MAX_ZONES_PER_AMP + 1 - z,
                {
                    zones.push(ZoneId::Zone { amp, zone: z });
                    z = z + 1;
                }
                zones
            },
            ZoneId::System => {
                let mut zones: Vec<ZoneId> = Vec::new();
                let mut a: u8 = 1;
                while a <= MAX_AMPS
                    invariant
                        1 <= a <= MAX_AMPS + 1,
                        zones@.len() == (a - 1) * MAX_ZONES_PER_AMP,
                        forall|i: int| 0 <= i < zones@.len() ==> zones@[i] == (ZoneId::Zone {
                            amp: (i / MAX_ZONES_PER_AMP as int + 1) as u8,
                            zone: (i % MAX_ZONES_PER_AMP as int + 1) as u8,
                        }),
                    decreases MAX_AMPS + 1 - a,
                {
                    let mut z: u8 = 1;
                    while z <= MAX_ZONES_PER_AMP
                        invariant
                            1 <= z <= MAX_ZONES_PER_AMP + 1,
                            1 <= a <= MAX_AMPS,
                            zones@.len() == (a - 1) * MAX_ZONES_PER_AMP + (z - 1),
                            forall|i: int| 0 <= i < zones@.len() ==> zones@[i] == (ZoneId::Zone {
                                amp: (i / MAX_ZONES_PER_AMP as int + 1) as u8,
                                zone: (i % MAX_ZONES_PER_AMP as int + 1) as u8,
                            }),
                        decreases MAX_ZONES_PER_AMP + 1 - z,
                    {
                        proof {
                            let n = MAX_ZONES_PER_AMP as int;
                            let len = (a - 1) * n + (z - 1);
                            assert(len / n == a - 1 && len % n == z - 1) by (nonlinear_arith)
                                requires
                                    n == 6,
                                    1 <= a,
                                    1 <= z <= n,
                                    len == (a - 1) * n + (z - 1),
                            ;
                        }
                        zones.push(ZoneId::Zone { amp: a, zone: z });
                        z = z + 1;
                    }
                    a = a + 1;
                }
                zones
            },
        }
    }
}

/// Law: decoding the encoding of any well-formed id yields that id again,
/// and the whole system encodes to zero.
pub proof fn lemma_zone_id_round_trip(z: ZoneId)
    requires
        z.wf(),
    ensures
        ZoneId::spec_from_byte(z.spec_to_byte() as u8) == Ok::<ZoneId, ZoneIdError>(z),
        ZoneId::System.spec_to_byte() == 0,
{
    match z {
        ZoneId::Zone { amp, zone } => {
            assert((amp * 10 + zone) / 10 == amp && (amp * 10 + zone) % 10 == zone)
                by (nonlinear_arith)
                requires
                    1 <= amp <= 3,
                    1 <= zone <= 6,
            ;
        },
        ZoneId::Amp(amp) => {
            assert((amp * 10) / 10 == amp && (amp * 10) % 10 == 0) by (nonlinear_arith)
                requires
                    1 <= amp <= 3,
            ;
        },
        ZoneId::System => {},
    }
}

/// Law: decoding rejects every byte whose amp field is out of range with
/// `AmpOutOfRange`, and every byte whose zone field is out of range with
/// `ZoneOutOfRange`; each error names the field that failed.
pub proof fn lemma_zone_id_decode_errors(b: u8)
    ensures
        b != 0 && !(1 <= b / 10 <= MAX_AMPS) ==> ZoneId::spec_from_byte(b) == Err::<
            ZoneId,
            ZoneIdError,
        >(ZoneIdError::AmpOutOfRange(b)),
        1 <= b / 10 <= MAX_AMPS && b % 10 > MAX_ZONES_PER_AMP ==> ZoneId::spec_from_byte(b)
            == Err::<ZoneId, ZoneIdError>(ZoneIdError::ZoneOutOfRange(b)),
        ZoneId::spec_from_byte(b) matches Ok(z) ==> z.wf(),
{
    if b != 0 && !(1 <= b / 10 <= MAX_AMPS) {
        assert(!(b / 10 == 0 && b % 10 == 0));
    }
}

} // verus!
