//! An in-process amplifier emulator: the zone-state store, the console
//! byte protocol (echo, backspace, carriage-return framing), the command
//! grammar, and the response formatting. A thin transport loop feeds it
//! bytes from a socket and writes back what it returns.

use vstd::prelude::*;
use vstd::pervasive::VecAdditionalExecFns;

use crate::zone::ZoneId;
use crate::zone::ZoneAttribute;
use crate::zone::ZoneAttributeDiscriminants;
use crate::zone::MAX_AMPS;
use crate::zone::MAX_ZONES_PER_AMP;
use crate::strfmt::two_digit_bytes;
use crate::strfmt::push_two_digit_bytes;

verus! {

broadcast use vstd::seq_lib::group_seq_lib_default, vstd::seq::group_seq_axioms;

/// One emulated zone's state: every attribute at its current value.
#[derive(Copy, Clone, Debug, PartialEq, Eq, Structural)]
pub struct Zone {
    pub public_announcement: bool,
    pub power: bool,
    pub mute: bool,
    pub do_not_disturb: bool,
    pub volume: u8,
    pub treble: u8,
    pub bass: u8,
    pub balance: u8,
    pub source: u8,
    pub keypad_connected: bool,
}

impl Default for Zone {
    /// A zone powers up with everything off and every value at zero.
    fn default() -> (r: Zone)
        ensures
            r == Zone::spec_default(),
    {
        Zone {
            public_announcement: false,
            power: false,
            mute: false,
            do_not_disturb: false,
            volume: 0,
            treble: 0,
            bass: 0,
            balance: 0,
            source: 0,
            keypad_connected: false,
        }
    }
}

/// The zone state with one attribute replaced.
pub open spec fn spec_zone_set(z: Zone, a: ZoneAttribute) -> Zone {
    match a {
        ZoneAttribute::PublicAnnouncement(b) => Zone { public_announcement: b, ..z },
        ZoneAttribute::Power(b) => Zone { power: b, ..z },
        ZoneAttribute::Mute(b) => Zone { mute: b, ..z },
        ZoneAttribute::DoNotDisturb(b) => Zone { do_not_disturb: b, ..z },
        ZoneAttribute::Volume(v) => Zone { volume: v, ..z },
        ZoneAttribute::Treble(v) => Zone { treble: v, ..z },
        ZoneAttribute::Bass(v) => Zone { bass: v, ..z },
        ZoneAttribute::Balance(v) => Zone { balance: v, ..z },
        ZoneAttribute::Source(v) => Zone { source: v, ..z },
        ZoneAttribute::KeypadConnected(b) => Zone { keypad_connected: b, ..z },
    }
}

impl Zone {
    /// The powered-up state.
    pub open spec fn spec_default() -> Zone {
        Zone {
            public_announcement: false,
            power: false,
            mute: false,
            do_not_disturb: false,
            volume: 0,
            treble: 0,
            bass: 0,
            balance: 0,
            source: 0,
            keypad_connected: false,
        }
    }

    /// Replace the one attribute the change names.
    pub fn set(&mut self, attribute: ZoneAttribute)
        ensures
            *final (self) == spec_zone_set(*old(self), attribute),
    {
        match attribute {
            ZoneAttribute::PublicAnnouncement(b) => self.public_announcement = b,
            ZoneAttribute::Power(b) => self.power = b,
            ZoneAttribute::Mute(b) => self.mute = b,
            ZoneAttribute::DoNotDisturb(b) => self.do_not_disturb = b,
            ZoneAttribute::Volume(v) => self.volume = v,
            ZoneAttribute::Treble(v) => self.treble = v,
            ZoneAttribute::Bass(v) => self.bass = v,
            ZoneAttribute::Balance(v) => self.balance = v,
            ZoneAttribute::Source(v) => self.source = v,
            ZoneAttribute::KeypadConnected(b) => self.keypad_connected = b,
        }
    }

    /// The attribute value the emulator reports for one kind, as the
    /// two-digit number it puts on the wire.
    pub open spec fn spec_attr_value(self, kind: ZoneAttributeDiscriminants) -> u8 {
        match kind {
            ZoneAttributeDiscriminants::PublicAnnouncement => if self.public_announcement {
                1
            } else {
                0
            },
            ZoneAttributeDiscriminants::Power => if self.power {
                1
            } else {
                0
            },
            ZoneAttributeDiscriminants::Mute => if self.mute {
                1
            } else {
                0
            },
            ZoneAttributeDiscriminants::DoNotDisturb => if self.do_not_disturb {
                1
            } else {
                0
            },
            ZoneAttributeDiscriminants::Volume => self.volume,
            ZoneAttributeDiscriminants::Treble => self.treble,
            ZoneAttributeDiscriminants::Bass => self.bass,
            ZoneAttributeDiscriminants::Balance => self.balance,
            ZoneAttributeDiscriminants::Source => self.source,
            ZoneAttributeDiscriminants::KeypadConnected => if self.keypad_connected {
                1
            } else {
                0
            },
        }
    }

    /// Read the attribute value of one kind as a byte.
    pub fn attr_value(&self, kind: ZoneAttributeDiscriminants) -> (r: u8)
        ensures
            r == self.spec_attr_value(kind),
    {
        match kind {
            ZoneAttributeDiscriminants::PublicAnnouncement => if self.public_announcement {
                1
            } else {
                0
            },
            ZoneAttributeDiscriminants::Power => if self.power {
                1
            } else {
                0
            },
            ZoneAttributeDiscriminants::Mute => if self.mute {
                1
            } else {
                0
            },
            ZoneAttributeDiscriminants::DoNotDisturb => if self.do_not_disturb {
                1
            } else {
                0
            },
            ZoneAttributeDiscriminants::Volume => self.volume,
            ZoneAttributeDiscriminants::Treble => self.treble,
            ZoneAttributeDiscriminants::Bass => self.bass,
            ZoneAttributeDiscriminants::Balance => self.balance,
            ZoneAttributeDiscriminants::Source => self.source,
            ZoneAttributeDiscriminants::KeypadConnected => if self.keypad_connected {
                1
            } else {
                0
            },
        }
    }
}

/// The single zones a command target denotes, as the store walks them:
/// the zone itself, one unit's six zones, or every unit's zones.
pub open spec fn spec_target_zone_seq(t: ZoneId) -> Seq<ZoneId> {
    match t {
        ZoneId::Zone { amp, zone } => seq![t],
        ZoneId::Amp(amp) => Seq::new(
            MAX_ZONES_PER_AMP as nat,
            |i: int| ZoneId::Zone { amp, zone: (i + 1) as u8 },
        ),
        ZoneId::System => Seq::new(
            (MAX_AMPS * MAX_ZONES_PER_AMP) as nat,
            |i: int|
                ZoneId::Zone {
                    amp: (i / MAX_ZONES_PER_AMP as int + 1) as u8,
                    zone: (i % MAX_ZONES_PER_AMP as int + 1) as u8,
                },
        ),
    }
}

/// Some store entry carries the zone id `id`.
pub open spec fn store_has(store: Seq<(ZoneId, Zone)>, id: ZoneId) -> bool {
    exists|i: int| 0 <= i < store.len() && store[i].0 == id
}

/// The state of the store entry with zone id `id`.
pub open spec fn store_get(store: Seq<(ZoneId, Zone)>, id: ZoneId) -> Zone {
    let i = choose|i: int| 0 <= i < store.len() && store[i].0 == id;
    store[i].1
}

/// The entries an enquiry returns: the targeted zones that exist in the
/// store, in target order, with their current state.
pub open spec fn spec_enquiry_entries(store: Seq<(ZoneId, Zone)>, t: ZoneId) -> Seq<
    (ZoneId, Zone),
> {
    spec_target_zone_seq(t).filter(|id: ZoneId| store_has(store, id)).map_values(
        |id: ZoneId| (id, store_get(store, id)),
    )
}

/// With distinct zone ids, each store entry is what `store_get` yields.
proof fn lemma_store_entry(store: Seq<(ZoneId, Zone)>, i: int)
    requires
        forall|a: int, b: int| 0 <= a < b < store.len() ==> store[a].0 != store[b].0,
        0 <= i < store.len(),
    ensures
        store_has(store, store[i].0),
        store_get(store, store[i].0) == store[i].1,
{
    let id = store[i].0;
    assert(store_has(store, id));
    let j = choose|j: int| 0 <= j < store.len() && store[j].0 == id;
    if j != i {
        if j < i {
            assert(store[j].0 != store[i].0);
        } else {
            assert(store[i].0 != store[j].0);
        }
        assert(false);
    }
}

/// The emulated amplifier chain: every zone of every emulated unit.
pub struct Amp {
    pub zones: Vec<(ZoneId, Zone)>,
}

impl Amp {
    /// No two entries share a zone id, every id is a single well-formed
    /// zone, and every stored value fits the wire's two-digit fields.
    pub open spec fn wf(self) -> bool {
        &&& forall|a: int, b: int| 0 <= a < b < self.zones@.len() ==> self.zones@[a].0 != self.zones@[b].0
        &&& forall|i: int|
            0 <= i < self.zones@.len() ==> (#[trigger] self.zones@[i]).0.wf() && self.zones@[i].0
                is Zone
        &&& forall|i: int| 0 <= i < self.zones@.len() ==> zone_wire_ok((#[trigger] self.zones@[i]).1)
    }

    /// Create `amps` units, each with its six zones powered up to the
    /// default state, in unit order then zone order.
    pub fn new(amps: u8) -> (r: Amp)
        requires
            amps <= MAX_AMPS,
        ensures
            r.wf(),
            r.zones@.len() == amps * MAX_ZONES_PER_AMP,
            forall|i: int| 0 <= i < r.zones@.len() ==> (#[trigger] r.zones@[i]) == (
                ZoneId::Zone {
                    amp: (i / MAX_ZONES_PER_AMP as int + 1) as u8,
                    zone: (i % MAX_ZONES_PER_AMP as int + 1) as u8,
                },
                Zone::spec_default(),
            ),
    {
        let mut zones: Vec<(ZoneId, Zone)> = Vec::new();
        let mut a: u8 = 1;
        while a <= amps
            invariant
                1 <= a <= amps + 1,
                amps <= MAX_AMPS,
                zones@.len() == (a - 1) * MAX_ZONES_PER_AMP,
                forall|i: int| 0 <= i < zones@.len() ==> (#[trigger] zones@[i]) == (
                    ZoneId::Zone {
                        amp: (i / MAX_ZONES_PER_AMP as int + 1) as u8,
                        zone: (i % MAX_ZONES_PER_AMP as int + 1) as u8,
                    },
                    Zone::spec_default(),
                ),
            decreases amps + 1 - a,
        {
            let mut z: u8 = 1;
            while z <= MAX_ZONES_PER_AMP
                invariant
                    1 <= z <= MAX_ZONES_PER_AMP + 1,
                    1 <= a <= amps,
                    amps <= MAX_AMPS,
                    zones@.len() == (a - 1) * MAX_ZONES_PER_AMP + (z - 1),
                    forall|i: int| 0 <= i < zones@.len() ==> (#[trigger] zones@[i]) == (
                        ZoneId::Zone {
                            amp: (i / MAX_ZONES_PER_AMP as int + 1) as u8,
                            zone: (i % MAX_ZONES_PER_AMP as int + 1) as u8,
                        },
                        Zone::spec_default(),
                    ),
                decreases MAX_ZONES_PER_AMP + 1 - z,
            {
                proof {
                    let n = MAX_ZONES_PER_AMP as int;
                    let len = (a - 1) * n + (z - 1);
                    assert(len / n == a - 1 && len % n == z - 1) by (nonlinear_arith)
                        requires
                            n == 6,
                            1 <= a,
                            1 <= z <= n,
                            len == (a - 1) * n + (z - 1),
                    ;
                }
                zones.push((ZoneId::Zone { amp: a, zone: z }, Zone::default()));
                z = z + 1;
            }
            a = a + 1;
        }
        let r = Amp { zones };
        proof {
            assert forall|x: int, y: int|
                0 <= x < y < r.zones@.len() implies r.zones@[x].0 != r.zones@[y].0 by {
                let n = MAX_ZONES_PER_AMP as int;
                assert(x / n < y / n || (x / n == y / n && x % n < y % n)) by (nonlinear_arith)
                    requires
                        n == 6,
                        0 <= x < y,
                ;
            }
            assert forall|i: int|
                0 <= i < r.zones@.len() implies (#[trigger] r.zones@[i]).0.wf() && r.zones@[i].0
                is Zone by {
                let n = MAX_ZONES_PER_AMP as int;
                assert(0 <= i / n < MAX_AMPS as int && 0 <= i % n < n) by (nonlinear_arith)
                    requires
                        n == 6,
                        0 <= i < r.zones@.len(),
                        r.zones@.len() <= MAX_AMPS as int * n,
                ;
            }
        }
        r
    }

    /// Whether a store entry is one of the zones `target` denotes.
    pub open spec fn spec_targets(target: ZoneId, id: ZoneId) -> bool {
        spec_target_zone_seq(target).contains(id)
    }

    /// Set one attribute on every zone the target denotes; a zone the
    /// store does not hold is skipped.
    pub fn zone_set(&mut self, zone: ZoneId, attribute: ZoneAttribute)
        requires
            old(self).wf(),
            zone.wf(),
            attr_wire_ok(attribute),
        ensures
            final (self).wf(),
            final (self).zones@.len() == old(self).zones@.len(),
            forall|i: int| 0 <= i < final (self).zones@.len() ==> (#[trigger] final (
            self).zones@[i]).0 == old(self).zones@[i].0,
            forall|i: int| 0 <= i < final (self).zones@.len() ==> (#[trigger] final (
            self).zones@[i]).1 == (if Self::spec_targets(zone, old(self).zones@[i].0) {
                spec_zone_set(old(self).zones@[i].1, attribute)
            } else {
                old(self).zones@[i].1
            }),
    {
        let targets = zone.to_zones();
        proof {
            assert(targets@ =~= spec_target_zone_seq(zone));
        }
        let ghost orig = self.zones@;
        let mut j: usize = 0;
        while j < targets.len()
            invariant
                j <= targets@.len(),
                targets@ =~= spec_target_zone_seq(zone),
                forall|a: int, b: int| 0 <= a < b < targets@.len() ==> targets@[a] != targets@[b],
                attr_wire_ok(attribute),
                self.zones@.len() == orig.len(),
                forall|i: int| 0 <= i < self.zones@.len() ==> (#[trigger] self.zones@[i]).0
                    == orig[i].0,
                forall|i: int| 0 <= i < self.zones@.len() ==> (#[trigger] self.zones@[i]).1 == (
                if targets@.take(j as int).contains(orig[i].0) {
                    spec_zone_set(orig[i].1, attribute)
                } else {
                    orig[i].1
                }),
                self.wf(),
            decreases targets@.len() - j,
        {
            let target = targets[j];
            let mut i: usize = 0;
            let mut found: bool = false;
            while i < self.zones.len() && !found
                invariant
                    i <= self.zones@.len(),
                    !found ==> forall|b: int| 0 <= b < i ==> (#[trigger] self.zones@[b]).0
                        != target,
                    found ==> i < self.zones@.len() && self.zones@[i as int].0 == target,
                decreases self.zones@.len() - i + (if found {
                    0int
                } else {
                    1int
                }),
            {
                if self.zones[i].0 == target {
                    found = true;
                } else {
                    i = i + 1;
                }
            }
            proof {
                assert(targets@.take(j + 1).drop_last() =~= targets@.take(j as int));
                assert(targets@.take(j + 1).last() == targets@[j as int]);
            }
            if found {
                let mut entry = self.zones[i];
                entry.1.set(attribute);
                let ghost pre = self.zones@;
                self.zones.set(i, entry);
                proof {
                    assert forall|x: int|
                        0 <= x < self.zones@.len() implies (#[trigger] self.zones@[x]).1 == (
                    if targets@.take(j + 1).contains(orig[x].0) {
                        spec_zone_set(orig[x].1, attribute)
                    } else {
                        orig[x].1
                    }) by {
                        if x == i {
                            assert(targets@.take(j + 1).contains(orig[x].0)) by {
                                assert(targets@.take(j + 1)[j as int] == orig[x].0);
                            }
                            assert(!targets@.take(j as int).contains(orig[x].0)) by {
                                if targets@.take(j as int).contains(orig[x].0) {
                                    let jj = choose|jj: int|
                                        0 <= jj < j && #[trigger] targets@.take(j as int)[jj]
                                            == orig[x].0;
                                    assert(targets@[jj] == targets@[j as int]);
                                    assert(false);
                                }
                            }
                        } else {
                            if targets@.take(j + 1).contains(orig[x].0) {
                                let jj = choose|jj: int|
                                    0 <= jj <= j && #[trigger] targets@.take(j + 1)[jj] == orig[
                                    x].0;
                                if jj == j {
                                    assert(orig[x].0 == target);
                                    assert(self.zones@[x].0 == orig[x].0);
                                    assert(pre[i as int].0 == target);
                                    assert(x != i);
                                    if x < i {
                                        assert(pre[x].0 != pre[i as int].0);
                                    } else {
                                        assert(pre[i as int].0 != pre[x].0);
                                    }
                                    assert(false);
                                } else {
                                    assert(targets@.take(j as int)[jj] == orig[x].0);
                                    assert(targets@.take(j as int).contains(orig[x].0));
                                }
                            } else {
                                assert(!targets@.take(j as int).contains(orig[x].0)) by {
                                    if targets@.take(j as int).contains(orig[x].0) {
                                        let jj = choose|jj: int|
                                            0 <= jj < j && targets@.take(j as int)[jj] == orig[
                                            x].0;
                                        assert(targets@.take(j + 1)[jj] == orig[x].0);
                                    }
                                }
                            }
                        }
                    }
                }
            } else {
                proof {
                    assert forall|x: int|
                        0 <= x < self.zones@.len() implies (#[trigger] self.zones@[x]).1 == (
                    if targets@.take(j + 1).contains(orig[x].0) {
                        spec_zone_set(orig[x].1, attribute)
                    } else {
                        orig[x].1
                    }) by {
                        if targets@.take(j + 1).contains(orig[x].0) {
                            let jj = choose|jj: int|
                                0 <= jj <= j && #[trigger] targets@.take(j + 1)[jj] == orig[x].0;
                            if jj == j {
                                assert(self.zones@[x].0 == target);
                                assert(false);
                            } else {
                                assert(targets@.take(j as int)[jj] == orig[x].0);
                            }
                        } else {
                            if targets@.take(j as int).contains(orig[x].0) {
                                let jj = choose|jj: int|
                                    0 <= jj < j && #[trigger] targets@.take(j as int)[jj] == orig[
                                    x].0;
                                assert(targets@.take(j + 1)[jj] == orig[x].0);
                            }
                        }
                    }
                }
            }
            j = j + 1;
        }
        proof {
            assert(targets@.take(targets@.len() as int) =~= targets@);
        }
    }

    /// The state of every zone the target denotes that the store holds,
    /// in target order.
    pub fn zone_enquiry(&self, zone: ZoneId) -> (r: Vec<(ZoneId, Zone)>)
        requires
            self.wf(),
            zone.wf(),
        ensures
            r@ =~= spec_enquiry_entries(self.zones@, zone),
    {
        let targets = zone.to_zones();
        proof {
            assert(targets@ =~= spec_target_zone_seq(zone));
            reveal(Seq::filter);
            assert(targets@.take(0int).filter(|id: ZoneId| store_has(self.zones@, id))
                =~= Seq::<ZoneId>::empty());
        }
        let mut out: Vec<(ZoneId, Zone)> = Vec::new();
        let mut j: usize = 0;
        while j < targets.len()
            invariant
                j <= targets@.len(),
                self.wf(),
                targets@ =~= spec_target_zone_seq(zone),
                out@ =~= targets@.take(j as int).filter(
                    |id: ZoneId| store_has(self.zones@, id),
                ).map_values(|id: ZoneId| (id, store_get(self.zones@, id))),
            decreases targets@.len() - j,
        {
            proof {
                reveal(Seq::filter);
                assert(targets@.take(j + 1).drop_last() =~= targets@.take(j as int));
                assert(targets@.take(j + 1).last() == targets@[j as int]);
            }
            let target = targets[j];
            let mut i: usize = 0;
            let mut found: bool = false;
            while i < self.zones.len() && !found
                invariant
                    i <= self.zones@.len(),
                    !found ==> forall|b: int| 0 <= b < i ==> (#[trigger] self.zones@[b]).0
                        != target,
                    found ==> i < self.zones@.len() && self.zones@[i as int].0 == target,
                decreases self.zones@.len() - i + (if found {
                    0int
                } else {
                    1int
                }),
            {
                if self.zones[i].0 == target {
                    found = true;
                } else {
                    i = i + 1;
                }
            }
            if found {
                proof {
                    lemma_store_entry(self.zones@, i as int);
                }
                out.push((target, self.zones[i].1));
            } else {
                proof {
                    assert(!store_has(self.zones@, target));
                }
            }
            proof {
                let pred = |id: ZoneId| store_has(self.zones@, id);
                let getter = |id: ZoneId| (id, store_get(self.zones@, id));
                assert(targets@.take(j + 1).filter(pred) =~= (if pred(targets@[j as int]) {
                    targets@.take(j as int).filter(pred).push(targets@[j as int])
                } else {
                    targets@.take(j as int).filter(pred)
                }));
            }
            j = j + 1;
        }
        proof {
            assert(targets@.take(targets@.len() as int) =~= targets@);
        }
        out
    }

    /// Set the public-announcement state of every zone at once; on the
    /// real hardware it can only be toggled for all zones simultaneously.
    pub fn set_pa_state(&mut self, pa: bool)
        requires
            old(self).wf(),
        ensures
            final (self).wf(),
            final (self).zones@.len() == old(self).zones@.len(),
            forall|i: int| 0 <= i < final (self).zones@.len() ==> (#[trigger] final (
            self).zones@[i]) == (
                old(self).zones@[i].0,
                Zone { public_announcement: pa, ..old(self).zones@[i].1 },
            ),
    {
        let ghost orig = self.zones@;
        let mut i: usize = 0;
        while i < self.zones.len()
            invariant
                i <= self.zones@.len(),
                self.zones@.len() == orig.len(),
                forall|x: int| 0 <= x < i ==> (#[trigger] self.zones@[x]) == (
                    orig[x].0,
                    Zone { public_announcement: pa, ..orig[x].1 },
                ),
                forall|x: int| i <= x < self.zones@.len() ==> (#[trigger] self.zones@[x])
                    == orig[x],
            decreases self.zones@.len() - i,
        {
            let mut entry = self.zones[i];
            entry.1.public_announcement = pa;
            self.zones.set(i, entry);
            i = i + 1;
        }
        proof {
            assert forall|a: int, b: int|
                0 <= a < b < self.zones@.len() implies self.zones@[a].0 != self.zones@[b].0 by {
                assert(orig[a].0 != orig[b].0);
            }
        }
    }
}

/// A byte mapped to upper case, as the console does before parsing.
pub open spec fn spec_upper(b: u8) -> u8 {
    if 97 <= b <= 122 {
        (b - 32) as u8
    } else {
        b
    }
}

/// An upper-case ASCII letter.
pub open spec fn is_upper_letter(b: u8) -> bool {
    65 <= b <= 90
}

/// An ASCII decimal digit.
pub open spec fn is_digit(b: u8) -> bool {
    48 <= b <= 57
}

/// One parsed console command.
#[derive(Copy, Clone, Debug, PartialEq, Eq, Structural)]
pub enum EmuCommand {
    /// `?{zz}`: report the status of the zones `zz` denotes.
    ZoneEnquiry(ZoneId),
    /// `?{zz}{XX}`: report one attribute of the zones `zz` denotes.
    ZoneAttributeEnquiry(ZoneId, ZoneAttributeDiscriminants),
    /// `<{zz}{XX}{vv}`: set one attribute on the zones `zz` denotes.
    ZoneSet(ZoneId, ZoneAttribute),
}

/// Why a console command was rejected.
#[derive(Copy, Clone, Debug, PartialEq, Eq, Structural)]
pub enum EmuCommandError {
    /// The zone id field does not decode to a valid id.
    InvalidZoneId,
    /// The system-wide zone id cannot be used on the console.
    SystemZoneUnsupported,
    /// `<{baud}`: changing the line rate is not implemented.
    BaudChangeUnimplemented,
    /// Nothing the grammar knows.
    UnknownCommand,
}

/// The attribute kind a two-letter command code names, as the set and
/// attribute-enquiry commands use them.
pub open spec fn spec_code_kind(a: u8, b: u8) -> Option<ZoneAttributeDiscriminants> {
    if a == 80 && b == 82 {  // PR
        Some(ZoneAttributeDiscriminants::Power)
    } else if a == 77 && b == 85 {  // MU
        Some(ZoneAttributeDiscriminants::Mute)
    } else if a == 68 && b == 84 {  // DT
        Some(ZoneAttributeDiscriminants::DoNotDisturb)
    } else if a == 86 && b == 79 {  // VO
        Some(ZoneAttributeDiscriminants::Volume)
    } else if a == 84 && b == 82 {  // TR
        Some(ZoneAttributeDiscriminants::Treble)
    } else if a == 66 && b == 83 {  // BS
        Some(ZoneAttributeDiscriminants::Bass)
    } else if a == 66 && b == 76 {  // BL
        Some(ZoneAttributeDiscriminants::Balance)
    } else if a == 67 && b == 72 {  // CH
        Some(ZoneAttributeDiscriminants::Source)
    } else {
        None
    }
}

/// Look an attribute kind up by its two-letter command code.
fn code_kind(a: u8, b: u8) -> (r: Option<ZoneAttributeDiscriminants>)
    ensures
        r == spec_code_kind(a, b),
{
    if a == 80 && b == 82 {
        Some(ZoneAttributeDiscriminants::Power)
    } else if a == 77 && b == 85 {
        Some(ZoneAttributeDiscriminants::Mute)
    } else if a == 68 && b == 84 {
        Some(ZoneAttributeDiscriminants::DoNotDisturb)
    } else if a == 86 && b == 79 {
        Some(ZoneAttributeDiscriminants::Volume)
    } else if a == 84 && b == 82 {
        Some(ZoneAttributeDiscriminants::Treble)
    } else if a == 66 && b == 83 {
        Some(ZoneAttributeDiscriminants::Bass)
    } else if a == 66 && b == 76 {
        Some(ZoneAttributeDiscriminants::Balance)
    } else if a == 67 && b == 72 {
        Some(ZoneAttributeDiscriminants::Source)
    } else {
        None
    }
}

/// The zone id named by the two digit bytes at `p`, `p + 1`, under the
/// console's rules: it must decode, and the system-wide id is refused.
pub open spec fn spec_console_zone(s: Seq<u8>, p: int) -> Result<ZoneId, EmuCommandError> {
    match ZoneId::spec_from_byte((((s[p] - 48) * 10 + (s[p + 1] - 48)) as u8)) {
        Err(_) => Err(EmuCommandError::InvalidZoneId),
        Ok(z) => if z is System {
            Err(EmuCommandError::SystemZoneUnsupported)
        } else {
            Ok(z)
        },
    }
}

/// What an upper-cased console line parses to. `Ok(None)` is a no-op:
/// an empty line, an unknown attribute code, a boolean value other than
/// 0 or 1, or an out-of-range value.
pub open spec fn spec_parse_command(s: Seq<u8>) -> Result<Option<EmuCommand>, EmuCommandError> {
    if s.len() == 0 {
        Ok(None)
    } else if s.len() == 3 && s[0] == 63 && is_digit(s[1]) && is_digit(s[2]) {
        match spec_console_zone(s, 1) {
            Err(e) => Err(e),
            Ok(z) => Ok(Some(EmuCommand::ZoneEnquiry(z))),
        }
    } else if s.len() == 5 && s[0] == 63 && is_digit(s[1]) && is_digit(s[2]) && is_upper_letter(
        s[3],
    ) && is_upper_letter(s[4]) {
        match spec_console_zone(s, 1) {
            Err(e) => Err(e),
            Ok(z) => match spec_code_kind(s[3], s[4]) {
                None => Ok(None),
                Some(kind) => Ok(Some(EmuCommand::ZoneAttributeEnquiry(z, kind))),
            },
        }
    } else if s.len() == 7 && s[0] == 60 && is_digit(s[1]) && is_digit(s[2]) && is_upper_letter(
        s[3],
    ) && is_upper_letter(s[4]) && is_digit(s[5]) && is_digit(s[6]) {
        match spec_console_zone(s, 1) {
            Err(e) => Err(e),
            Ok(z) => match spec_code_kind(s[3], s[4]) {
                None => Ok(None),
                Some(kind) => {
                    let v = ((s[5] - 48) * 10 + (s[6] - 48)) as u8;
                    match spec_console_attr(kind, v) {
                        None => Ok(None),
                        Some(attr) => Ok(Some(EmuCommand::ZoneSet(z, attr))),
                    }
                },
            },
        }
    } else if s.len() >= 2 && s[0] == 60 && (forall|i: int| 1 <= i < s.len() ==> is_digit(
        #[trigger] s[i],
    )) {
        Err(EmuCommandError::BaudChangeUnimplemented)
    } else {
        Err(EmuCommandError::UnknownCommand)
    }
}

/// The attribute a set command carries for a kind and a two-digit value:
/// booleans accept only 0 and 1, numeric kinds must be in range, and
/// anything else is a no-op.
pub open spec fn spec_console_attr(kind: ZoneAttributeDiscriminants, v: u8) -> Option<
    ZoneAttribute,
> {
    if kind_is_console_bool(kind) {
        if v == 0 {
            Some(console_bool_attr(kind, false))
        } else if v == 1 {
            Some(console_bool_attr(kind, true))
        } else {
            None
        }
    } else {
        let attr = console_value_attr(kind, v);
        if attr.in_range() {
            Some(attr)
        } else {
            None
        }
    }
}

/// The console's boolean-valued set codes.
pub open spec fn kind_is_console_bool(kind: ZoneAttributeDiscriminants) -> bool {
    kind is Power || kind is Mute || kind is DoNotDisturb
}

/// The boolean attribute for a console code.
pub open spec fn console_bool_attr(kind: ZoneAttributeDiscriminants, b: bool) -> ZoneAttribute {
    match kind {
        ZoneAttributeDiscriminants::Power => ZoneAttribute::Power(b),
        ZoneAttributeDiscriminants::Mute => ZoneAttribute::Mute(b),
        _ => ZoneAttribute::DoNotDisturb(b),
    }
}

/// The numeric attribute for a console code.
pub open spec fn console_value_attr(kind: ZoneAttributeDiscriminants, v: u8) -> ZoneAttribute {
    match kind {
        ZoneAttributeDiscriminants::Volume => ZoneAttribute::Volume(v),
        ZoneAttributeDiscriminants::Treble => ZoneAttribute::Treble(v),
        ZoneAttributeDiscriminants::Bass => ZoneAttribute::Bass(v),
        ZoneAttributeDiscriminants::Balance => ZoneAttribute::Balance(v),
        _ => ZoneAttribute::Source(v),
    }
}

/// Parse one console line. The line is upper-cased first, so the
/// commands are case-insensitive.
pub fn parse_command(buffer: &[u8]) -> (r: Result<Option<EmuCommand>, EmuCommandError>)
    ensures
        r == spec_parse_command(buffer@.map_values(|b: u8| spec_upper(b))),
{
    let mut s: Vec<u8> = Vec::new();
    let mut i: usize = 0;
    while i < buffer.len()
        invariant
            i <= buffer@.len(),
            s@ =~= buffer@.take(i as int).map_values(|b: u8| spec_upper(b)),
        decreases buffer@.len() - i,
    {
        let b = buffer[i];
        let up: u8 = if 97 <= b && b <= 122 {
            b - 32
        } else {
            b
        };
        s.push(up);
        proof {
            assert(s@ =~= buffer@.take(i + 1).map_values(|b: u8| spec_upper(b)));
        }
        i = i + 1;
    }
    proof {
        assert(buffer@.take(buffer@.len() as int) =~= buffer@);
    }
    if s.len() == 0 {
        return Ok(None);
    }
    if s.len() == 3 && s[0] == 63 && digit(s[1]) && digit(s[2]) {
        return match console_zone(s[1], s[2]) {
            Err(e) => Err(e),
            Ok(z) => Ok(Some(EmuCommand::ZoneEnquiry(z))),
        };
    }
    if s.len() == 5 && s[0] == 63 && digit(s[1]) && digit(s[2]) && letter(s[3]) && letter(s[4]) {
        return match console_zone(s[1], s[2]) {
            Err(e) => Err(e),
            Ok(z) => match code_kind(s[3], s[4]) {
                None => Ok(None),
                Some(kind) => Ok(Some(EmuCommand::ZoneAttributeEnquiry(z, kind))),
            },
        };
    }
    if s.len() == 7 && s[0] == 60 && digit(s[1]) && digit(s[2]) && letter(s[3]) && letter(s[4])
        && digit(s[5]) && digit(s[6]) {
        return match console_zone(s[1], s[2]) {
            Err(e) => Err(e),
            Ok(z) => match code_kind(s[3], s[4]) {
                None => Ok(None),
                Some(kind) => {
                    let v: u8 = (s[5] - 48) * 10 + (s[6] - 48);
                    match console_attr(kind, v) {
                        None => Ok(None),
                        Some(attr) => Ok(Some(EmuCommand::ZoneSet(z, attr))),
                    }
                },
            },
        };
    }
    if s.len() >= 2 && s[0] == 60 {
        let mut all_digits: bool = true;
        let mut j: usize = 1;
        while j < s.len() && all_digits
            invariant
                1 <= j <= s@.len(),
                all_digits ==> forall|k: int| 1 <= k < j ==> is_digit(#[trigger] s@[k]),
                !all_digits ==> exists|k: int| 1 <= k < s@.len() && !is_digit(#[trigger] s@[k]),
            decreases s@.len() - j + (if all_digits {
                1int
            } else {
                0int
            }),
        {
            if !digit(s[j]) {
                all_digits = false;
            } else {
                j = j + 1;
            }
        }
        if all_digits {
            return Err(EmuCommandError::BaudChangeUnimplemented);
        }
    }
    Err(EmuCommandError::UnknownCommand)
}

/// Whether a byte is an ASCII digit.
fn digit(b: u8) -> (r: bool)
    ensures
        r == is_digit(b),
{
    48 <= b && b <= 57
}

/// Whether a byte is an upper-case ASCII letter.
fn letter(b: u8) -> (r: bool)
    ensures
        r == is_upper_letter(b),
{
    65 <= b && b <= 90
}

/// Decode the console's two-digit zone id field.
fn console_zone(d1: u8, d2: u8) -> (r: Result<ZoneId, EmuCommandError>)
    requires
        is_digit(d1),
        is_digit(d2),
    ensures
        ({
            let byte = (((d1 - 48) * 10 + (d2 - 48)) as u8);
            match ZoneId::spec_from_byte(byte) {
                Err(_) => r == Err::<ZoneId, EmuCommandError>(EmuCommandError::InvalidZoneId),
                Ok(z) => if z is System {
                    r == Err::<ZoneId, EmuCommandError>(EmuCommandError::SystemZoneUnsupported)
                } else {
                    r == Ok::<ZoneId, EmuCommandError>(z)
                },
            }
        }),
{
    let byte: u8 = (d1 - 48) * 10 + (d2 - 48);
    match ZoneId::from_byte(byte) {
        Err(_) => Err(EmuCommandError::InvalidZoneId),
        Ok(ZoneId::System) => Err(EmuCommandError::SystemZoneUnsupported),
        Ok(z) => Ok(z),
    }
}

/// A zone state whose values all fit the wire's two-digit fields.
pub open spec fn zone_wire_ok(z: Zone) -> bool {
    z.volume < 100 && z.treble < 100 && z.bass < 100 && z.balance < 100 && z.source < 100
}

/// An attribute value that fits the wire's two-digit fields.
pub open spec fn attr_wire_ok(a: ZoneAttribute) -> bool {
    match a {
        ZoneAttribute::Volume(v) => v < 100,
        ZoneAttribute::Treble(v) => v < 100,
        ZoneAttribute::Bass(v) => v < 100,
        ZoneAttribute::Balance(v) => v < 100,
        ZoneAttribute::Source(v) => v < 100,
        _ => true,
    }
}

/// Decode the console's set-command value for an attribute kind.
fn console_attr(kind: ZoneAttributeDiscriminants, v: u8) -> (r: Option<ZoneAttribute>)
    requires
        !(kind is PublicAnnouncement),
        !(kind is KeypadConnected),
    ensures
        r == spec_console_attr(kind, v),
{
    match kind {
        ZoneAttributeDiscriminants::Power | ZoneAttributeDiscriminants::Mute
            | ZoneAttributeDiscriminants::DoNotDisturb => {
            let b = if v == 0 {
                false
            } else if v == 1 {
                true
            } else {
                return None;
            };
            match kind {
                ZoneAttributeDiscriminants::Power => Some(ZoneAttribute::Power(b)),
                ZoneAttributeDiscriminants::Mute => Some(ZoneAttribute::Mute(b)),
                _ => Some(ZoneAttribute::DoNotDisturb(b)),
            }
        },
        _ => {
            let attr = match kind {
                ZoneAttributeDiscriminants::Volume => ZoneAttribute::Volume(v),
                ZoneAttributeDiscriminants::Treble => ZoneAttribute::Treble(v),
                ZoneAttributeDiscriminants::Bass => ZoneAttribute::Bass(v),
                ZoneAttributeDiscriminants::Balance => ZoneAttribute::Balance(v),
                _ => ZoneAttribute::Source(v),
            };
            match attr.validate() {
                Ok(()) => Some(attr),
                Err(_) => None,
            }
        },
    }
}

/// The two-letter code the emulator reports an attribute kind under in
/// attribute-enquiry responses.
pub open spec fn spec_report_code(kind: ZoneAttributeDiscriminants) -> Seq<u8> {
    match kind {
        ZoneAttributeDiscriminants::PublicAnnouncement => seq![80u8, 65u8],  // PA
        ZoneAttributeDiscriminants::Power => seq![80u8, 82u8],  // PR
        ZoneAttributeDiscriminants::Mute => seq![77u8, 85u8],  // MU
        ZoneAttributeDiscriminants::DoNotDisturb => seq![68u8, 84u8],  // DT
        ZoneAttributeDiscriminants::Volume => seq![86u8, 79u8],  // VO
        ZoneAttributeDiscriminants::Treble => seq![84u8, 82u8],  // TR
        ZoneAttributeDiscriminants::Bass => seq![66u8, 65u8],  // BA
        ZoneAttributeDiscriminants::Balance => seq![66u8, 76u8],  // BL
        ZoneAttributeDiscriminants::Source => seq![67u8, 72u8],  // CH
        ZoneAttributeDiscriminants::KeypadConnected => seq![76u8, 83u8],  // LS
    }
}

/// The line terminator the emulator writes after every command: `\r\n#`.
pub open spec fn spec_terminator() -> Seq<u8> {
    seq![13u8, 10u8, 35u8]
}

/// The rejection the emulator writes for a bad command, before the
/// terminator: `\r\n#\r\nCommand Error.`.
pub open spec fn spec_error_output() -> Seq<u8> {
    seq![13u8, 10u8, 35u8, 13u8, 10u8, 67u8, 111u8, 109u8, 109u8, 97u8, 110u8, 100u8, 32u8, 69u8,
        114u8, 114u8, 111u8, 114u8, 46u8]
}

/// One full-status response line: `\r\n#>{id}` and then all ten
/// attribute values as two-digit pairs, in declared order.
pub open spec fn spec_status_response(id: ZoneId, z: Zone) -> Seq<u8> {
    seq![13u8, 10u8, 35u8, 62u8] + two_digit_bytes(id.spec_to_byte())
        + two_digit_bytes(z.spec_attr_value(ZoneAttributeDiscriminants::PublicAnnouncement) as int)
        + two_digit_bytes(z.spec_attr_value(ZoneAttributeDiscriminants::Power) as int)
        + two_digit_bytes(z.spec_attr_value(ZoneAttributeDiscriminants::Mute) as int)
        + two_digit_bytes(z.spec_attr_value(ZoneAttributeDiscriminants::DoNotDisturb) as int)
        + two_digit_bytes(z.spec_attr_value(ZoneAttributeDiscriminants::Volume) as int)
        + two_digit_bytes(z.spec_attr_value(ZoneAttributeDiscriminants::Treble) as int)
        + two_digit_bytes(z.spec_attr_value(ZoneAttributeDiscriminants::Bass) as int)
        + two_digit_bytes(z.spec_attr_value(ZoneAttributeDiscriminants::Balance) as int)
        + two_digit_bytes(z.spec_attr_value(ZoneAttributeDiscriminants::Source) as int)
        + two_digit_bytes(z.spec_attr_value(ZoneAttributeDiscriminants::KeypadConnected) as int)
}

/// One single-attribute response line: `\r\n#>{id}{code}{value:02}`.
pub open spec fn spec_attr_response(id: ZoneId, kind: ZoneAttributeDiscriminants, z: Zone) -> Seq<
    u8,
> {
    seq![13u8, 10u8, 35u8, 62u8] + two_digit_bytes(id.spec_to_byte()) + spec_report_code(kind)
        + two_digit_bytes(z.spec_attr_value(kind) as int)
}

/// The full-status response lines for a list of zones, in order.
pub open spec fn spec_status_responses(entries: Seq<(ZoneId, Zone)>) -> Seq<u8>
    decreases entries.len(),
{
    if entries.len() == 0 {
        Seq::empty()
    } else {
        spec_status_responses(entries.drop_last()) + spec_status_response(
            entries.last().0,
            entries.last().1,
        )
    }
}

/// The single-attribute response lines for a list of zones, in order.
pub open spec fn spec_attr_responses(
    entries: Seq<(ZoneId, Zone)>,
    kind: ZoneAttributeDiscriminants,
) -> Seq<u8>
    decreases entries.len(),
{
    if entries.len() == 0 {
        Seq::empty()
    } else {
        spec_attr_responses(entries.drop_last(), kind) + spec_attr_response(
            entries.last().0,
            kind,
            entries.last().1,
        )
    }
}

/// Append one full-status response line for one zone.
#[verifier::rlimit(100)]
fn push_status_response(out: &mut Vec<u8>, id: &ZoneId, z: &Zone)
    requires
        id.wf(),
        zone_wire_ok(*z),
    ensures
        final (out)@ =~= old(out)@ + spec_status_response(*id, *z),
{
    out.push(13);  // '\r'
    out.push(10);  // '\n'
    out.push(35);  // '#'
    out.push(62);  // '>'
    push_two_digit_bytes(out, id.to_byte());
    push_two_digit_bytes(out, z.attr_value(ZoneAttributeDiscriminants::PublicAnnouncement));
    push_two_digit_bytes(out, z.attr_value(ZoneAttributeDiscriminants::Power));
    push_two_digit_bytes(out, z.attr_value(ZoneAttributeDiscriminants::Mute));
    push_two_digit_bytes(out, z.attr_value(ZoneAttributeDiscriminants::DoNotDisturb));
    push_two_digit_bytes(out, z.attr_value(ZoneAttributeDiscriminants::Volume));
    push_two_digit_bytes(out, z.attr_value(ZoneAttributeDiscriminants::Treble));
    push_two_digit_bytes(out, z.attr_value(ZoneAttributeDiscriminants::Bass));
    push_two_digit_bytes(out, z.attr_value(ZoneAttributeDiscriminants::Balance));
    push_two_digit_bytes(out, z.attr_value(ZoneAttributeDiscriminants::Source));
    push_two_digit_bytes(out, z.attr_value(ZoneAttributeDiscriminants::KeypadConnected));
    proof {
        assert(out@ =~= old(out)@ + spec_status_response(*id, *z));
    }
}

/// Append one single-attribute response line for one zone.
fn push_attr_response(out: &mut Vec<u8>, id: &ZoneId, kind: ZoneAttributeDiscriminants, z: &Zone)
    requires
        id.wf(),
        zone_wire_ok(*z),
    ensures
        final (out)@ =~= old(out)@ + spec_attr_response(*id, kind, *z),
{
    out.push(13);  // '\r'
    out.push(10);  // '\n'
    out.push(35);  // '#'
    out.push(62);  // '>'
    push_two_digit_bytes(out, id.to_byte());
    let code: (u8, u8) = match kind {
        ZoneAttributeDiscriminants::PublicAnnouncement => (80, 65),
        ZoneAttributeDiscriminants::Power => (80, 82),
        ZoneAttributeDiscriminants::Mute => (77, 85),
        ZoneAttributeDiscriminants::DoNotDisturb => (68, 84),
        ZoneAttributeDiscriminants::Volume => (86, 79),
        ZoneAttributeDiscriminants::Treble => (84, 82),
        ZoneAttributeDiscriminants::Bass => (66, 65),
        ZoneAttributeDiscriminants::Balance => (66, 76),
        ZoneAttributeDiscriminants::Source => (67, 72),
        ZoneAttributeDiscriminants::KeypadConnected => (76, 83),
    };
    out.push(code.0);
    out.push(code.1);
    push_two_digit_bytes(out, z.attr_value(kind));
    proof {
        assert(out@ =~= old(out)@ + spec_attr_response(*id, kind, *z));
    }
}

/// What the console does with one received byte.
pub enum ConsoleAction {
    /// The byte is not part of the protocol: do nothing.
    Ignore,
    /// A printable byte was accepted: write it back.
    Echo(u8),
    /// A backspace removed the last buffered byte: write
    /// backspace, space, backspace to erase it on the terminal.
    Erase,
    /// A carriage return (or escape) completed a line: run these bytes
    /// as a command, then write the terminator.
    Complete(Vec<u8>),
    /// The line hit its length cap: write the byte back, discard the
    /// line, and run the empty command.
    EchoDiscard(u8),
}

/// The console's line buffer: echoes printable bytes, honours backspace,
/// and hands out a completed line on carriage return. Lines are capped at
/// 70 bytes; an escape abandons the line.
pub struct Console {
    buffer: Vec<u8>,
}

impl Console {
    /// The bytes buffered so far.
    pub closed spec fn spec_buffer(self) -> Seq<u8> {
        self.buffer@
    }

    /// An empty line buffer.
    pub fn new() -> (r: Console)
        ensures
            r.spec_buffer() =~= Seq::<u8>::empty(),
    {
        Console { buffer: Vec::new() }
    }

    /// Accept one byte and say what to do with it.
    pub fn accept_byte(&mut self, b: u8) -> (r: ConsoleAction)
        ensures
            32 <= b <= 127 ==> (if old(self).spec_buffer().len() + 1 >= 70 {
                r matches ConsoleAction::EchoDiscard(e) && e == b && final (
                self).spec_buffer().len() == 0
            } else {
                r matches ConsoleAction::Echo(e) && e == b && final (self).spec_buffer() =~= old(
                    self,
                ).spec_buffer().push(b)
            }),
            b == 8 ==> (if old(self).spec_buffer().len() > 0 {
                r is Erase && final (self).spec_buffer() =~= old(self).spec_buffer().drop_last()
            } else {
                r is Ignore && final (self).spec_buffer() =~= old(self).spec_buffer()
            }),
            b == 13 ==> (r matches ConsoleAction::Complete(line) && line@ =~= old(
                self,
            ).spec_buffer() && final (self).spec_buffer().len() == 0),
            b == 27 ==> (r matches ConsoleAction::Complete(line) && line@.len() == 0 && final (
            self).spec_buffer().len() == 0),
            !(32 <= b <= 127) && b != 8 && b != 13 && b != 27 ==> r is Ignore && final (
            self).spec_buffer() =~= old(self).spec_buffer(),
    {
        if 32 <= b && b <= 127 {
            if self.buffer.len() >= 69 {
                self.buffer.clear();
                return ConsoleAction::EchoDiscard(b);
            }
            self.buffer.push(b);
            return ConsoleAction::Echo(b);
        }
        if b == 8 {
            if self.buffer.len() > 0 {
                let _ = self.buffer.pop();
                return ConsoleAction::Erase;
            }
            return ConsoleAction::Ignore;
        }
        if b == 13 {
            let mut line: Vec<u8> = Vec::new();
            core::mem::swap(&mut line, &mut self.buffer);
            return ConsoleAction::Complete(line);
        }
        if b == 27 {
            self.buffer.clear();
            return ConsoleAction::Complete(Vec::new());
        }
        ConsoleAction::Ignore
    }
}

/// The store after one set command has been applied to its targets.
pub open spec fn spec_store_after_set(
    store: Seq<(ZoneId, Zone)>,
    target: ZoneId,
    attr: ZoneAttribute,
) -> Seq<(ZoneId, Zone)> {
    Seq::new(
        store.len(),
        |i: int|
            (
                store[i].0,
                if Amp::spec_targets(target, store[i].0) {
                    spec_zone_set(store[i].1, attr)
                } else {
                    store[i].1
                },
            ),
    )
}

/// Run one completed console line against the store and return every
/// byte to write back: the response lines the command produces, or the
/// rejection text, always followed by the terminator.
pub fn handle_command(amp: &mut Amp, buffer: &[u8]) -> (out: Vec<u8>)
    requires
        old(amp).wf(),
    ensures
        final (amp).wf(),
        ({
            let parsed = spec_parse_command(buffer@.map_values(|b: u8| spec_upper(b)));
            match parsed {
                Err(_) => out@ =~= spec_error_output() + spec_terminator() && *final (amp) == *old(
                    amp,
                ),
                Ok(None) => out@ =~= spec_terminator() && *final (amp) == *old(amp),
                Ok(Some(cmd)) => match cmd {
                    EmuCommand::ZoneEnquiry(z) => out@ =~= spec_status_responses(
                        spec_enquiry_entries(old(amp).zones@, z),
                    ) + spec_terminator() && *final (amp) == *old(amp),
                    EmuCommand::ZoneAttributeEnquiry(z, kind) => out@ =~= spec_attr_responses(
                        spec_enquiry_entries(old(amp).zones@, z),
                        kind,
                    ) + spec_terminator() && *final (amp) == *old(amp),
                    EmuCommand::ZoneSet(z, attr) => out@ =~= spec_terminator() && final (
                    amp).zones@ =~= spec_store_after_set(old(amp).zones@, z, attr),
                },
            }
        }),
{
    let parsed = parse_command(buffer);
    let mut out: Vec<u8> = Vec::new();
    match parsed {
        Err(_) => {
            out.push(13);
            out.push(10);
            out.push(35);
            out.push(13);
            out.push(10);
            out.push(67);  // 'C'
            out.push(111);  // 'o'
            out.push(109);  // 'm'
            out.push(109);  // 'm'
            out.push(97);  // 'a'
            out.push(110);  // 'n'
            out.push(100);  // 'd'
            out.push(32);  // ' '
            out.push(69);  // 'E'
            out.push(114);  // 'r'
            out.push(114);  // 'r'
            out.push(111);  // 'o'
            out.push(114);  // 'r'
            out.push(46);  // '.'
            proof {
                assert(out@ =~= spec_error_output());
            }
        },
        Ok(None) => {},
        Ok(Some(EmuCommand::ZoneEnquiry(z))) => {
            proof {
                crate::zone::lemma_zone_id_decode_errors(
                    ((buffer@.map_values(|b: u8| spec_upper(b))[1] - 48) * 10 + (buffer@.map_values(
                        |b: u8| spec_upper(b),
                    )[2] - 48)) as u8,
                );
            }
            let entries = amp.zone_enquiry(z);
            let ghost es = entries@;
            let mut i: usize = 0;
            while i < entries.len()
                invariant
                    i <= entries@.len(),
                    entries@ == es,
                    forall|k: int| 0 <= k < es.len() ==> (#[trigger] es[k]).0.wf() && zone_wire_ok(
                        es[k].1,
                    ),
                    out@ =~= spec_status_responses(es.take(i as int)),
                decreases entries@.len() - i,
            {
                proof {
                    assert(es.take(i + 1).drop_last() =~= es.take(i as int));
                    assert(es.take(i + 1).last() == es[i as int]);
                }
                push_status_response(&mut out, &entries[i].0, &entries[i].1);
                i = i + 1;
            }
            proof {
                assert(es.take(es.len() as int) =~= es);
            }
        },
        Ok(Some(EmuCommand::ZoneAttributeEnquiry(z, kind))) => {
            proof {
                crate::zone::lemma_zone_id_decode_errors(
                    ((buffer@.map_values(|b: u8| spec_upper(b))[1] - 48) * 10 + (buffer@.map_values(
                        |b: u8| spec_upper(b),
                    )[2] - 48)) as u8,
                );
            }
            let entries = amp.zone_enquiry(z);
            let ghost es = entries@;
            let mut i: usize = 0;
            while i < entries.len()
                invariant
                    i <= entries@.len(),
                    entries@ == es,
                    forall|k: int| 0 <= k < es.len() ==> (#[trigger] es[k]).0.wf() && zone_wire_ok(
                        es[k].1,
                    ),
                    out@ =~= spec_attr_responses(es.take(i as int), kind),
                decreases entries@.len() - i,
            {
                proof {
                    assert(es.take(i + 1).drop_last() =~= es.take(i as int));
                    assert(es.take(i + 1).last() == es[i as int]);
                }
                push_attr_response(&mut out, &entries[i].0, kind, &entries[i].1);
                i = i + 1;
            }
            proof {
                assert(es.take(es.len() as int) =~= es);
            }
        },
        Ok(Some(EmuCommand::ZoneSet(z, attr))) => {
            proof {
                crate::zone::lemma_zone_id_decode_errors(
                    ((buffer@.map_values(|b: u8| spec_upper(b))[1] - 48) * 10 + (buffer@.map_values(
                        |b: u8| spec_upper(b),
                    )[2] - 48)) as u8,
                );
            }
            let ghost orig_store = amp.zones@;
            amp.zone_set(z, attr);
            proof {
                assert(amp.zones@ =~= spec_store_after_set(orig_store, z, attr));
            }
        },
    }
    out.push(13);
    out.push(10);
    out.push(35);
    out
}


} // verus!
