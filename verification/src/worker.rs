//! The synchronization worker's decision logic: coalescing queued attribute
//! changes, applying them to the device, polling zone status, and computing
//! the diff-based publications for one cycle of its loop.

use vstd::prelude::*;
use vstd::pervasive::VecAdditionalExecFns;
use vstd::string::StringExecFns;

use crate::amp::Amp;
use crate::amp::AmpError;
use crate::amp::Port;
use crate::amp::ZoneStatus;
use crate::zone::ZoneId;
use crate::zone::ZoneAttribute;
use crate::zone::ZoneAttributeDiscriminants;
use crate::zone::MAX_AMPS;
use crate::zone::MAX_ZONES_PER_AMP;
use crate::strfmt::dec_chars;
use crate::strfmt::push_decimal_chars;
use crate::strfmt::two_digit_chars;
use crate::strfmt::push_two_digit_chars;
use crate::ids::SourceId;
use crate::config::Config;
use crate::config::SourceConfig;
use crate::config::ZoneConfig;
use crate::mqtt::json_string;
use crate::mqtt::json_encode_string;

verus! {

broadcast use vstd::seq_lib::group_seq_lib_default, vstd::seq::group_seq_axioms;

/// What flows over the in-process channel from the bus handlers to the
/// synchronization worker.
#[derive(Clone, Debug, PartialEq, Eq)]
pub enum ChannelMessage {
    /// Apply this attribute change to this zone.
    ChangeZoneAttribute(ZoneId, ZoneAttribute),
    /// Shut the worker down.
    Poison,
}

/// Whether any drained message is the shutdown poison.
pub open spec fn contains_poison(msgs: Seq<ChannelMessage>) -> bool {
    exists|i: int| 0 <= i < msgs.len() && msgs[i] is Poison
}

/// The value of the last queued change for the key `(z, k)`, if any.
pub open spec fn last_change(
    msgs: Seq<ChannelMessage>,
    z: ZoneId,
    k: ZoneAttributeDiscriminants,
) -> Option<ZoneAttribute>
    decreases msgs.len(),
{
    if msgs.len() == 0 {
        None
    } else {
        match msgs.last() {
            ChannelMessage::ChangeZoneAttribute(z2, a) => if z2 == z && a.spec_kind() == k {
                Some(a)
            } else {
                last_change(msgs.drop_last(), z, k)
            },
            ChannelMessage::Poison => last_change(msgs.drop_last(), z, k),
        }
    }
}

/// What draining the channel yields for one cycle.
#[derive(Clone, Debug, PartialEq, Eq)]
pub enum CoalesceOutcome {
    /// The poison message was drained: shut down without writing anything.
    Terminate,
    /// The surviving changes, one per `(zone, attribute kind)` key, each
    /// carrying the last value queued for its key.
    Apply(Vec<(ZoneId, ZoneAttribute)>),
}

/// Coalesce the drained messages: a later change for the same
/// `(zone, attribute kind)` key overwrites an earlier one, so each key
/// keeps only its last value; a poison message terminates the worker
/// instead.
pub fn coalesce(messages: &Vec<ChannelMessage>) -> (r: CoalesceOutcome)
    ensures
        contains_poison(messages@) <==> r is Terminate,
        r matches CoalesceOutcome::Apply(changes) ==> {
            &&& forall|i: int, j: int|
                0 <= i < j < changes@.len() ==> !(changes@[i].0 == changes@[j].0 && (
                #[trigger] changes@[i].1).spec_kind() == (#[trigger] changes@[j].1).spec_kind())
            &&& forall|i: int|
                0 <= i < changes@.len() ==> last_change(
                    messages@,
                    changes@[i].0,
                    (#[trigger] changes@[i].1).spec_kind(),
                ) == Some(changes@[i].1)
            &&& forall|z: ZoneId, k: ZoneAttributeDiscriminants|
                #[trigger] last_change(messages@, z, k) is Some ==> exists|i: int|
                    0 <= i < changes@.len() && changes@[i].0 == z && (
                    #[trigger] changes@[i].1).spec_kind() == k
        },
{
    let mut changes: Vec<(ZoneId, ZoneAttribute)> = Vec::new();
    let mut p: usize = 0;
    while p < messages.len()
        invariant
            p <= messages@.len(),
            !contains_poison(messages@.take(p as int)),
            forall|i: int, j: int|
                0 <= i < j < changes@.len() ==> !(changes@[i].0 == changes@[j].0 && (
                #[trigger] changes@[i].1).spec_kind() == (#[trigger] changes@[j].1).spec_kind()),
            forall|i: int|
                0 <= i < changes@.len() ==> last_change(
                    messages@.take(p as int),
                    changes@[i].0,
                    (#[trigger] changes@[i].1).spec_kind(),
                ) == Some(changes@[i].1),
            forall|z: ZoneId, k: ZoneAttributeDiscriminants|
                #[trigger] last_change(messages@.take(p as int), z, k) is Some ==> exists|i: int|
                    0 <= i < changes@.len() && changes@[i].0 == z && (
                    #[trigger] changes@[i].1).spec_kind() == k,
        decreases messages@.len() - p,
    {
        let ghost pre = messages@.take(p as int);
        proof {
            assert(messages@.take(p + 1).drop_last() =~= pre);
            assert(messages@.take(p + 1).last() == messages@[p as int]);
        }
        match &messages[p] {
            ChannelMessage::Poison => {
                proof {
                    assert(messages@[p as int] is Poison);
                    assert(contains_poison(messages@));
                }
                return CoalesceOutcome::Terminate;
            },
            ChannelMessage::ChangeZoneAttribute(z, a) => {
                let zone: ZoneId = *z;
                let attr: ZoneAttribute = *a;
                let kind = attr.kind();
                let mut idx: usize = 0;
                let mut found: bool = false;
                while idx < changes.len() && !found
                    invariant
                        idx <= changes@.len(),
                        !found ==> forall|i: int|
                            0 <= i < idx ==> !((#[trigger] changes@[i]).0 == zone
                                && changes@[i].1.spec_kind() == kind),
                        found ==> idx < changes@.len() && changes@[idx as int].0 == zone
                            && changes@[idx as int].1.spec_kind() == kind,
                    decreases changes@.len() - idx + (if found {
                        0int
                    } else {
                        1int
                    }),
                {
                    let same_zone = changes[idx].0 == zone;
                    let same_kind = changes[idx].1.kind() == kind;
                    if same_zone && same_kind {
                        found = true;
                    } else {
                        idx = idx + 1;
                    }
                }
                let ghost pre_changes = changes@;
                if found {
                    changes.set(idx, (zone, attr));
                } else {
                    changes.push((zone, attr));
                }
                proof {
                    let now = messages@.take(p + 1);
                    assert forall|zz: ZoneId, kk: ZoneAttributeDiscriminants| #[trigger]
                        last_change(now, zz, kk) is Some implies exists|i: int|
                        0 <= i < changes@.len() && changes@[i].0 == zz && (
                        #[trigger] changes@[i].1).spec_kind() == kk by {
                        if zz == zone && kk == kind {
                            let wi: int = if found {
                                idx as int
                            } else {
                                changes@.len() - 1
                            };
                            assert(changes@[wi].0 == zz && changes@[wi].1.spec_kind() == kk);
                        } else {
                            assert(last_change(pre, zz, kk) == last_change(now, zz, kk));
                            let i = choose|i: int|
                                0 <= i < pre_changes.len() && pre_changes[i].0 == zz && (
                                #[trigger] pre_changes[i].1).spec_kind() == kk;
                            assert(changes@[i].0 == zz && changes@[i].1.spec_kind() == kk);
                        }
                    }
                }
            },
        }
        p = p + 1;
    }
    proof {
        assert(messages@.take(messages@.len() as int) =~= messages@);
    }
    CoalesceOutcome::Apply(changes)
}

/// Law: when several changes are queued for the same zone and attribute
/// kind, the one queued last is the one coalescing keeps.
pub proof fn lemma_coalesce_last_write_wins(
    msgs: Seq<ChannelMessage>,
    q: int,
    z: ZoneId,
    a: ZoneAttribute,
)
    requires
        0 <= q < msgs.len(),
        msgs[q] == ChannelMessage::ChangeZoneAttribute(z, a),
        forall|i: int|
            q < i < msgs.len() ==> !(#[trigger] msgs[i] matches
                ChannelMessage::ChangeZoneAttribute(z2, a2) && z2 == z && a2.spec_kind()
                == a.spec_kind()),
    ensures
        last_change(msgs, z, a.spec_kind()) == Some(a),
    decreases msgs.len(),
{
    if q == msgs.len() - 1 {
    } else {
        lemma_coalesce_last_write_wins(msgs.drop_last(), q, z, a);
    }
}

/// The error with which the device driver rejects the first invalid
/// queued change, if any: an out-of-range value, or a read-only kind.
pub open spec fn spec_first_invalid_error(changes: Seq<(ZoneId, ZoneAttribute)>) -> Option<
    AmpError,
>
    decreases changes.len(),
{
    if changes.len() == 0 {
        None
    } else {
        let a = changes.first().1;
        if !a.in_range() {
            Some(
                AmpError::AttributeValue(
                    crate::zone::ZoneAttributeError::ValueOutOfRange {
                        attr: a,
                        min: a.spec_range().0,
                        max: a.spec_range().1,
                    },
                ),
            )
        } else if a.spec_kind().spec_read_only() {
            Some(AmpError::ReadOnlyAttribute(a.spec_kind()))
        } else {
            spec_first_invalid_error(changes.drop_first())
        }
    }
}

/// A queue whose changes are all writable and in range has no invalid
/// change for the driver to reject.
proof fn lemma_all_valid_no_first_invalid(changes: Seq<(ZoneId, ZoneAttribute)>)
    requires
        forall|i: int|
            0 <= i < changes.len() ==> (#[trigger] changes[i]).1.in_range() && !changes[
            i].1.spec_kind().spec_read_only(),
    ensures
        spec_first_invalid_error(changes) is None,
    decreases changes.len(),
{
    if changes.len() > 0 {
        assert(changes[0].1.in_range());
        lemma_all_valid_no_first_invalid(changes.drop_first());
    }
}

/// Apply coalesced changes to the device, one write per key, in the given
/// order. A success means every change was writable and in range, and was
/// sent; the first failure aborts the cycle. When some queued change is
/// invalid, the call fails, either with that first invalid change's own
/// error or with a device fault hit on an earlier, valid change.
pub fn apply_changes<P: Port>(amp: &mut Amp<P>, changes: &Vec<(ZoneId, ZoneAttribute)>) -> (r:
    Result<(), AmpError>)
    requires
        forall|i: int| 0 <= i < changes@.len() ==> (#[trigger] changes@[i]).0.wf(),
    ensures
        r is Ok ==> forall|i: int|
            0 <= i < changes@.len() ==> (#[trigger] changes@[i]).1.in_range() && !changes@[i
            ].1.spec_kind().spec_read_only(),
        spec_first_invalid_error(changes@) matches Some(first) ==> (r matches Err(e) && (e
            == first || e matches AmpError::Transport(_) || e is EchoMismatch || e
            is CommandError)),
{
    let mut i: usize = 0;
    proof {
        assert(changes@.skip(0int) =~= changes@);
    }
    while i < changes.len()
        invariant
            i <= changes@.len(),
            forall|k: int| 0 <= k < changes@.len() ==> (#[trigger] changes@[k]).0.wf(),
            forall|k: int|
                0 <= k < i ==> (#[trigger] changes@[k]).1.in_range() && !changes@[k
                ].1.spec_kind().spec_read_only(),
            spec_first_invalid_error(changes@) == spec_first_invalid_error(
                changes@.skip(i as int),
            ),
        decreases changes@.len() - i,
    {
        proof {
            assert(changes@.skip(i as int).first() == changes@[i as int]);
            assert(changes@.skip(i as int).drop_first() =~= changes@.skip(i + 1));
        }
        let (zone, attr) = changes[i];
        if let Err(e) = amp.set_zone_attribute(zone, attr) {
            return Err(e);
        }
        i = i + 1;
    }
    proof {
        assert(changes@.skip(changes@.len() as int).len() == 0);
    }
    Ok(())
}

/// The amplifier unit that owns a zone.
pub open spec fn amp_of(z: ZoneId) -> ZoneId {
    match z {
        ZoneId::Zone { amp, .. } => ZoneId::Amp(amp),
        ZoneId::Amp(amp) => ZoneId::Amp(amp),
        ZoneId::System => ZoneId::System,
    }
}

/// The configured zones a status cycle publishes for: the single zones,
/// with whole-unit and whole-system ids left out.
pub fn filter_single_zones(zones: &Vec<ZoneId>) -> (r: Vec<ZoneId>)
    ensures
        r@ =~= zones@.filter(|z: ZoneId| z is Zone),
{
    let mut out: Vec<ZoneId> = Vec::new();
    let mut i: usize = 0;
    proof {
        reveal(Seq::filter);
        assert(zones@.take(0int).filter(|z: ZoneId| z is Zone) =~= Seq::<ZoneId>::empty());
    }
    while i < zones.len()
        invariant
            i <= zones@.len(),
            out@ =~= zones@.take(i as int).filter(|z: ZoneId| z is Zone),
        decreases zones@.len() - i,
    {
        proof {
            reveal(Seq::filter);
            assert(zones@.take(i + 1).drop_last() =~= zones@.take(i as int));
            assert(zones@.take(i + 1).last() == zones@[i as int]);
        }
        match zones[i] {
            ZoneId::Zone { amp, zone } => {
                out.push(ZoneId::Zone { amp, zone });
            },
            _ => {},
        }
        i = i + 1;
    }
    proof {
        assert(zones@.take(zones@.len() as int) =~= zones@);
    }
    out
}

/// The minimal set of amplifier units to poll for the given zones: each
/// zone's owning unit, deduplicated, in first-appearance order.
pub fn amp_ids_for_zones(zone_ids: &Vec<ZoneId>) -> (r: Vec<ZoneId>)
    requires
        forall|i: int| 0 <= i < zone_ids@.len() ==> (#[trigger] zone_ids@[i]).wf()
            && zone_ids@[i] is Zone,
    ensures
        forall|i: int, j: int| 0 <= i < j < r@.len() ==> r@[i] != r@[j],
        forall|i: int| 0 <= i < r@.len() ==> (#[trigger] r@[i]).wf() && r@[i] is Amp,
        forall|k: int| 0 <= k < zone_ids@.len() ==> r@.contains(amp_of(#[trigger] zone_ids@[k])),
        forall|i: int| 0 <= i < r@.len() ==> exists|k: int|
            0 <= k < zone_ids@.len() && #[trigger] r@[i] == amp_of(zone_ids@[k]),
{
    let mut out: Vec<ZoneId> = Vec::new();
    let mut i: usize = 0;
    while i < zone_ids.len()
        invariant
            i <= zone_ids@.len(),
            forall|k: int| 0 <= k < zone_ids@.len() ==> (#[trigger] zone_ids@[k]).wf()
                && zone_ids@[k] is Zone,
            forall|a: int, b: int| 0 <= a < b < out@.len() ==> out@[a] != out@[b],
            forall|a: int| 0 <= a < out@.len() ==> (#[trigger] out@[a]).wf() && out@[a] is Amp,
            forall|k: int| 0 <= k < i ==> out@.contains(amp_of(#[trigger] zone_ids@[k])),
            forall|a: int| 0 <= a < out@.len() ==> exists|k: int|
                0 <= k < zone_ids@.len() && #[trigger] out@[a] == amp_of(zone_ids@[k]),
        decreases zone_ids@.len() - i,
    {
        let target: ZoneId = match zone_ids[i] {
            ZoneId::Zone { amp, .. } => ZoneId::Amp(amp),
            other => other,
        };
        let mut seen: bool = false;
        let mut j: usize = 0;
        while j < out.len() && !seen
            invariant
                j <= out@.len(),
                !seen ==> forall|a: int| 0 <= a < j ==> (#[trigger] out@[a]) != target,
                seen ==> out@.contains(target),
            decreases out@.len() - j + (if seen {
                0int
            } else {
                1int
            }),
        {
            if out[j] == target {
                seen = true;
            } else {
                j = j + 1;
            }
        }
        if !seen {
            let ghost pre = out@;
            out.push(target);
            proof {
                assert(out@.drop_last() =~= pre);
                assert forall|k: int| 0 <= k < i + 1 implies out@.contains(
                    amp_of(#[trigger] zone_ids@[k]),
                ) by {
                    if k < i {
                        let a = choose|a: int| 0 <= a < pre.len() && pre[a] == amp_of(
                            zone_ids@[k],
                        );
                        assert(out@[a] == amp_of(zone_ids@[k]));
                    } else {
                        assert(out@.last() == amp_of(zone_ids@[k]));
                    }
                }
            }
        } else {
            proof {
                assert(out@.contains(amp_of(zone_ids@[i as int])));
            }
        }
        i = i + 1;
    }
    out
}

/// The previous cycle's snapshot for a zone: the first stored status with
/// that id, if any.
pub open spec fn spec_prev_for(previous: Seq<ZoneStatus>, z: ZoneId) -> Option<ZoneStatus>
    decreases previous.len(),
{
    if previous.len() == 0 {
        None
    } else if previous.first().zone_id == z {
        Some(previous.first())
    } else {
        spec_prev_for(previous.drop_first(), z)
    }
}

/// Find the previous cycle's snapshot for a zone.
pub fn find_previous<'a>(previous: &'a Vec<ZoneStatus>, z: ZoneId) -> (r: Option<&'a ZoneStatus>)
    ensures
        match r {
            Some(st) => spec_prev_for(previous@, z) == Some(*st),
            None => spec_prev_for(previous@, z) is None,
        },
{
    let mut i: usize = 0;
    proof {
        assert(previous@.skip(0int) =~= previous@);
    }
    while i < previous.len()
        invariant
            i <= previous@.len(),
            spec_prev_for(previous@, z) == spec_prev_for(previous@.skip(i as int), z),
        decreases previous@.len() - i,
    {
        proof {
            assert(previous@.skip(i as int).first() == previous@[i as int]);
            assert(previous@.skip(i as int).drop_first() =~= previous@.skip(i + 1));
        }
        if previous[i].zone_id == z {
            return Some(&previous[i]);
        }
        i = i + 1;
    }
    proof {
        assert(previous@.skip(previous@.len() as int).len() == 0);
    }
    None
}

/// The attributes of a fresh snapshot that must be published: all of them
/// on the very first cycle, and exactly those whose value differs from the
/// previous snapshot afterwards.
pub open spec fn spec_diff(prev: Option<ZoneStatus>, current: ZoneStatus) -> Seq<ZoneAttribute> {
    match prev {
        None => current.attributes@,
        Some(p) => current.attributes@.filter(|a: ZoneAttribute| !p.attributes@.contains(a)),
    }
}

/// The attribute values to publish for one zone, given the previous
/// cycle's snapshot.
pub fn diff_attributes(prev: Option<&ZoneStatus>, current: &ZoneStatus) -> (r: Vec<ZoneAttribute>)
    ensures
        r@ =~= spec_diff(
            match prev {
                Some(p) => Some(*p),
                None => None,
            },
            *current,
        ),
{
    match prev {
        None => {
            let mut out: Vec<ZoneAttribute> = Vec::new();
            let mut i: usize = 0;
            while i < current.attributes.len()
                invariant
                    i <= current.attributes@.len(),
                    out@ =~= current.attributes@.take(i as int),
                decreases current.attributes@.len() - i,
            {
                out.push(current.attributes[i]);
                i = i + 1;
            }
            proof {
                assert(current.attributes@.take(current.attributes@.len() as int)
                    =~= current.attributes@);
            }
            out
        },
        Some(p) => {
            let mut out: Vec<ZoneAttribute> = Vec::new();
            let mut i: usize = 0;
            proof {
                reveal(Seq::filter);
                assert(current.attributes@.take(0int).filter(
                    |a: ZoneAttribute| !p.attributes@.contains(a),
                ) =~= Seq::<ZoneAttribute>::empty());
            }
            while i < current.attributes.len()
                invariant
                    i <= current.attributes@.len(),
                    out@ =~= current.attributes@.take(i as int).filter(
                        |a: ZoneAttribute| !p.attributes@.contains(a),
                    ),
                decreases current.attributes@.len() - i,
            {
                proof {
                    reveal(Seq::filter);
                    assert(current.attributes@.take(i + 1).drop_last() =~= current.attributes@.take(
                        i as int,
                    ));
                    assert(current.attributes@.take(i + 1).last() == current.attributes@[i as int]);
                }
                let attr = current.attributes[i];
                let mut contained: bool = false;
                let mut j: usize = 0;
                while j < p.attributes.len() && !contained
                    invariant
                        j <= p.attributes@.len(),
                        !contained ==> forall|b: int| 0 <= b < j ==> (#[trigger] p.attributes@[b])
                            != attr,
                        contained ==> p.attributes@.contains(attr),
                    decreases p.attributes@.len() - j + (if contained {
                        0int
                    } else {
                        1int
                    }),
                {
                    if p.attributes[j] == attr {
                        contained = true;
                    } else {
                        j = j + 1;
                    }
                }
                if !contained {
                    out.push(attr);
                }
                i = i + 1;
            }
            proof {
                assert(current.attributes@.take(current.attributes@.len() as int)
                    =~= current.attributes@);
            }
            out
        },
    }
}

/// The bare JSON scalar payload for an attribute value: `true` or `false`
/// for the boolean kinds, the decimal number for the numeric ones.
pub open spec fn spec_attr_payload(attr: ZoneAttribute) -> Seq<char> {
    match attr {
        ZoneAttribute::PublicAnnouncement(b) => spec_bool_payload(b),
        ZoneAttribute::Power(b) => spec_bool_payload(b),
        ZoneAttribute::Mute(b) => spec_bool_payload(b),
        ZoneAttribute::DoNotDisturb(b) => spec_bool_payload(b),
        ZoneAttribute::Volume(v) => dec_chars(v as int),
        ZoneAttribute::Treble(v) => dec_chars(v as int),
        ZoneAttribute::Bass(v) => dec_chars(v as int),
        ZoneAttribute::Balance(v) => dec_chars(v as int),
        ZoneAttribute::Source(v) => dec_chars(v as int),
        ZoneAttribute::KeypadConnected(b) => spec_bool_payload(b),
    }
}

/// The JSON encoding of a boolean.
pub open spec fn spec_bool_payload(b: bool) -> Seq<char> {
    if b {
        "true"@
    } else {
        "false"@
    }
}

/// Render an attribute value as its bare JSON scalar payload.
pub fn attr_payload(attr: &ZoneAttribute) -> (r: String)
    ensures
        r@ == spec_attr_payload(*attr),
{
    let value: u8 = match *attr {
        ZoneAttribute::Volume(v) => v,
        ZoneAttribute::Treble(v) => v,
        ZoneAttribute::Bass(v) => v,
        ZoneAttribute::Balance(v) => v,
        ZoneAttribute::Source(v) => v,
        ZoneAttribute::PublicAnnouncement(b) | ZoneAttribute::Power(b) | ZoneAttribute::Mute(b)
            | ZoneAttribute::DoNotDisturb(b) | ZoneAttribute::KeypadConnected(b) => {
            return if b {
                "true".to_owned()
            } else {
                "false".to_owned()
            };
        },
    };
    let mut s = String::new();
    push_decimal_chars(&mut s, value as u32);
    proof {
        assert(s@ =~= dec_chars(value as int));
    }
    s
}

/// One retained status message for the bus.
#[derive(Clone, Debug, PartialEq, Eq)]
pub struct Publication {
    pub topic: String,
    pub payload: String,
    pub retain: bool,
}

/// The topic and payload published for one changed attribute of one zone.
pub open spec fn spec_attr_publication(base: Seq<char>, z: ZoneId, attr: ZoneAttribute) -> (
    Seq<char>,
    Seq<char>,
) {
    (attr.spec_kind().spec_status_topic(base, z), spec_attr_payload(attr))
}

/// The publications for one zone's changed attributes, in attribute order.
pub open spec fn spec_zone_pubs(base: Seq<char>, st: ZoneStatus, prev: Option<ZoneStatus>) -> Seq<
    (Seq<char>, Seq<char>),
> {
    spec_diff(prev, st).map_values(|a: ZoneAttribute| spec_attr_publication(base, st.zone_id, a))
}

/// Build the retained status publications for one zone from its fresh
/// snapshot and the previous cycle's snapshot.
pub fn status_publications(
    topic_base: &str,
    current: &ZoneStatus,
    prev: Option<&ZoneStatus>,
) -> (r: Vec<Publication>)
    requires
        current.zone_id.wf(),
    ensures
        r@.map_values(|p: Publication| (p.topic@, p.payload@)) =~= spec_zone_pubs(
            topic_base@,
            *current,
            match prev {
                Some(p) => Some(*p),
                None => None,
            },
        ),
        forall|i: int| 0 <= i < r@.len() ==> (#[trigger] r@[i]).retain,
{
    let changed = diff_attributes(prev, current);
    let ghost diff = spec_diff(
        match prev {
            Some(p) => Some(*p),
            None => None,
        },
        *current,
    );
    let mut out: Vec<Publication> = Vec::new();
    let mut i: usize = 0;
    while i < changed.len()
        invariant
            i <= changed@.len(),
            changed@ =~= diff,
            current.zone_id.wf(),
            out@.map_values(|p: Publication| (p.topic@, p.payload@)) =~= diff.take(
                i as int,
            ).map_values(
                |a: ZoneAttribute| spec_attr_publication(topic_base@, current.zone_id, a),
            ),
            forall|k: int| 0 <= k < out@.len() ==> (#[trigger] out@[k]).retain,
        decreases changed@.len() - i,
    {
        let attr = changed[i];
        let kind = attr.kind();
        let topic = kind.mqtt_status_topic(topic_base, &current.zone_id);
        let payload = attr_payload(&attr);
        let ghost pre = out@;
        let ghost tv = topic@;
        let ghost pv = payload@;
        out.push(Publication { topic, payload, retain: true });
        proof {
            let f = |p: Publication| (p.topic@, p.payload@);
            let g = |a: ZoneAttribute| spec_attr_publication(topic_base@, current.zone_id, a);
            assert(out@.map_values(f) =~= pre.map_values(f).push((tv, pv)));
            assert(diff.take(i + 1) =~= diff.take(i as int).push(diff[i as int]));
            assert(diff.take(i + 1).map_values(g) =~= diff.take(i as int).map_values(g).push(
                g(diff[i as int]),
            ));
            assert(g(diff[i as int]) == (tv, pv));
        }
        i = i + 1;
    }
    proof {
        assert(diff.take(diff.len() as int) =~= diff);
    }
    out
}

/// Whether the list of configured zones contains `z`.
pub fn contains_zone(v: &Vec<ZoneId>, z: ZoneId) -> (r: bool)
    ensures
        r == v@.contains(z),
{
    let mut i: usize = 0;
    while i < v.len()
        invariant
            i <= v@.len(),
            forall|k: int| 0 <= k < i ==> (#[trigger] v@[k]) != z,
        decreases v@.len() - i,
    {
        if v[i] == z {
            return true;
        }
        i = i + 1;
    }
    false
}

/// Every publication of one cycle: for each polled status of a configured
/// zone, in poll order, the publications for its changed attributes.
pub open spec fn spec_cycle_pubs(
    base: Seq<char>,
    zone_ids: Seq<ZoneId>,
    previous: Seq<ZoneStatus>,
    statuses: Seq<ZoneStatus>,
) -> Seq<(Seq<char>, Seq<char>)>
    decreases statuses.len(),
{
    if statuses.len() == 0 {
        Seq::empty()
    } else {
        let rest = spec_cycle_pubs(base, zone_ids, previous, statuses.drop_last());
        let st = statuses.last();
        if zone_ids.contains(st.zone_id) {
            rest + spec_zone_pubs(base, st, spec_prev_for(previous, st.zone_id))
        } else {
            rest
        }
    }
}

/// How many zone statuses polling these targets yields: one per single
/// zone, six per whole unit, and six per unit for the whole system.
pub open spec fn spec_status_count(targets: Seq<ZoneId>) -> int
    decreases targets.len(),
{
    if targets.len() == 0 {
        0
    } else {
        spec_status_count(targets.drop_last()) + (match targets.last() {
            ZoneId::Zone { .. } => 1int,
            ZoneId::Amp(_) => MAX_ZONES_PER_AMP as int,
            ZoneId::System => MAX_AMPS as int * MAX_ZONES_PER_AMP as int,
        })
    }
}

/// What one cycle of the worker loop produced: the messages to publish and
/// the fresh snapshots that replace the previous cycle's, wholesale.
pub struct WorkerCycleOutcome {
    pub publications: Vec<Publication>,
    pub statuses: Vec<ZoneStatus>,
}

/// One iteration of the worker loop, after the channel has been drained
/// and coalesced: apply every surviving change to the device, poll each
/// amplifier unit's full zone status, and compute the retained status
/// publications for every configured zone whose attributes changed since
/// the previous snapshot. Any device failure aborts the cycle.
pub fn worker_cycle<P: Port>(
    amp: &mut Amp<P>,
    topic_base: &str,
    zone_ids: &Vec<ZoneId>,
    amp_ids: &Vec<ZoneId>,
    previous: &Vec<ZoneStatus>,
    changes: &Vec<(ZoneId, ZoneAttribute)>,
) -> (r: Result<WorkerCycleOutcome, AmpError>)
    requires
        forall|i: int| 0 <= i < zone_ids@.len() ==> (#[trigger] zone_ids@[i]).wf(),
        forall|i: int| 0 <= i < amp_ids@.len() ==> (#[trigger] amp_ids@[i]).wf(),
        forall|i: int| 0 <= i < changes@.len() ==> (#[trigger] changes@[i]).0.wf(),
    ensures
        r matches Ok(out) ==> {
            &&& out.statuses@.len() == spec_status_count(amp_ids@)
            &&& forall|i: int| 0 <= i < out.statuses@.len() ==> (#[trigger] out.statuses@[i]).wf()
            &&& out.publications@.map_values(|p: Publication| (p.topic@, p.payload@))
                =~= spec_cycle_pubs(topic_base@, zone_ids@, previous@, out.statuses@)
            &&& forall|i: int| 0 <= i < out.publications@.len() ==> (#[trigger] out.publications@[
                i]).retain
            &&& forall|i: int|
                0 <= i < changes@.len() ==> (#[trigger] changes@[i]).1.in_range() && !changes@[i
                ].1.spec_kind().spec_read_only()
        },
        spec_first_invalid_error(changes@) matches Some(first) ==> (r matches Err(e) && (e
            == first || e matches AmpError::Transport(_) || e is EchoMismatch || e
            is CommandError)),
{
    if let Err(e) = apply_changes(amp, changes) {
        return Err(e);
    }
    proof {
        lemma_all_valid_no_first_invalid(changes@);
    }
    let mut statuses: Vec<ZoneStatus> = Vec::new();
    let mut i: usize = 0;
    proof {
        assert(amp_ids@.take(0int).len() == 0);
    }
    while i < amp_ids.len()
        invariant
            i <= amp_ids@.len(),
            forall|k: int| 0 <= k < amp_ids@.len() ==> (#[trigger] amp_ids@[k]).wf(),
            forall|k: int| 0 <= k < statuses@.len() ==> (#[trigger] statuses@[k]).wf(),
            statuses@.len() == spec_status_count(amp_ids@.take(i as int)),
            spec_first_invalid_error(changes@) is None,
        decreases amp_ids@.len() - i,
    {
        proof {
            assert(amp_ids@.take(i + 1).drop_last() =~= amp_ids@.take(i as int));
            assert(amp_ids@.take(i + 1).last() == amp_ids@[i as int]);
        }
        let mut part = match amp.zone_enquiry(amp_ids[i]) {
            Ok(sts) => sts,
            Err(e) => {
                return Err(e);
            },
        };
        statuses.append(&mut part);
        i = i + 1;
    }
    proof {
        assert(amp_ids@.take(amp_ids@.len() as int) =~= amp_ids@);
    }
    let ghost pubs_of = |s: Seq<ZoneStatus>|
        spec_cycle_pubs(topic_base@, zone_ids@, previous@, s);
    let mut publications: Vec<Publication> = Vec::new();
    let mut i: usize = 0;
    proof {
        assert(statuses@.take(0int) =~= Seq::<ZoneStatus>::empty());
    }
    while i < statuses.len()
        invariant
            i <= statuses@.len(),
            forall|k: int| 0 <= k < statuses@.len() ==> (#[trigger] statuses@[k]).wf(),
            publications@.map_values(|p: Publication| (p.topic@, p.payload@)) =~= spec_cycle_pubs(
                topic_base@,
                zone_ids@,
                previous@,
                statuses@.take(i as int),
            ),
            forall|k: int| 0 <= k < publications@.len() ==> (#[trigger] publications@[k]).retain,
        decreases statuses@.len() - i,
    {
        proof {
            assert(statuses@.take(i + 1).drop_last() =~= statuses@.take(i as int));
            assert(statuses@.take(i + 1).last() == statuses@[i as int]);
        }
        let st = &statuses[i];
        if contains_zone(zone_ids, st.zone_id) {
            let prev = find_previous(previous, st.zone_id);
            let mut zone_pubs = status_publications(topic_base, st, prev);
            let ghost pre_pubs = publications@;
            let ghost zp = zone_pubs@;
            publications.append(&mut zone_pubs);
            proof {
                let f = |p: Publication| (p.topic@, p.payload@);
                assert(publications@ =~= pre_pubs + zp);
                assert(publications@.map_values(f) =~= pre_pubs.map_values(f) + zp.map_values(f));
                assert(zp.map_values(f) =~= spec_zone_pubs(
                    topic_base@,
                    statuses@[i as int],
                    spec_prev_for(previous@, statuses@[i as int].zone_id),
                ));
            }
        }
        i = i + 1;
    }
    proof {
        assert(statuses@.take(statuses@.len() as int) =~= statuses@);
    }
    Ok(WorkerCycleOutcome { publications, statuses })
}

/// The metadata published for one source: its name as a JSON string and
/// its enabled flag, under `status/source/{id}/`.
pub open spec fn spec_source_meta_pubs(
    base: Seq<char>,
    sources: Seq<(SourceId, SourceConfig)>,
) -> Seq<(Seq<char>, Seq<char>)>
    decreases sources.len(),
{
    if sources.len() == 0 {
        Seq::empty()
    } else {
        let (id, cfg) = sources.last();
        spec_source_meta_pubs(base, sources.drop_last()) + seq![
            (
                base + "status/source/"@ + dec_chars(id.spec_to_byte() as int) + "/name"@,
                json_string(cfg.name@),
            ),
            (
                base + "status/source/"@ + dec_chars(id.spec_to_byte() as int) + "/enabled"@,
                spec_bool_payload(cfg.enabled),
            ),
        ]
    }
}

/// The metadata published for one zone: its name as a JSON string under
/// `status/zone/{id}/`.
pub open spec fn spec_zone_meta_pubs(base: Seq<char>, zones: Seq<(ZoneId, ZoneConfig)>) -> Seq<
    (Seq<char>, Seq<char>),
>
    decreases zones.len(),
{
    if zones.len() == 0 {
        Seq::empty()
    } else {
        let (id, cfg) = zones.last();
        spec_zone_meta_pubs(base, zones.drop_last()) + seq![
            (
                base + "status/zone/"@ + two_digit_chars(id.spec_to_byte()) + "/name"@,
                json_string(cfg.name@),
            ),
        ]
    }
}

/// One configured zone id as a quoted JSON string.
pub open spec fn spec_quoted_zone(id: ZoneId) -> Seq<char> {
    seq!['"'] + two_digit_chars(id.spec_to_byte()) + seq!['"']
}

/// The comma-separated items of the configured-zones array.
pub open spec fn spec_zone_list_items(zones: Seq<(ZoneId, ZoneConfig)>) -> Seq<char>
    decreases zones.len(),
{
    if zones.len() == 0 {
        Seq::empty()
    } else if zones.len() == 1 {
        spec_quoted_zone(zones.last().0)
    } else {
        spec_zone_list_items(zones.drop_last()) + seq![','] + spec_quoted_zone(zones.last().0)
    }
}

/// The `status/zones` payload: the configured zone ids as a JSON array
/// of two-digit strings.
pub open spec fn spec_zones_payload(zones: Seq<(ZoneId, ZoneConfig)>) -> Seq<char> {
    seq!['['] + spec_zone_list_items(zones) + seq![']']
}

/// The retained metadata published once at startup, in order: the
/// liveness mark `2` on `connected`, the amp's model, manufacturer and
/// serial where configured, each source's name and enabled flag, the
/// configured-zones array, and each zone's name. `sources` is the
/// completed source table, defaults included.
pub open spec fn spec_metadata_pubs(
    base: Seq<char>,
    config: Config,
    sources: Seq<(SourceId, SourceConfig)>,
) -> Seq<(Seq<char>, Seq<char>)> {
    seq![(base + "connected"@, "2"@)] + (match config.amp.model {
        Some(m) => seq![(base + "status/amp/model"@, json_string(m@))],
        None => Seq::empty(),
    }) + (match config.amp.manufacturer {
        Some(m) => seq![(base + "status/amp/manufacturer"@, json_string(m@))],
        None => Seq::empty(),
    }) + (match config.amp.serial {
        Some(m) => seq![(base + "status/amp/serial"@, json_string(m@))],
        None => Seq::empty(),
    }) + spec_source_meta_pubs(base, sources) + seq![
        (base + "status/zones"@, spec_zones_payload(config.amp.zones@)),
    ] + spec_zone_meta_pubs(base, config.amp.zones@)
}

/// Build the retained metadata publications for startup. `sources` is
/// the completed source table the configuration yields.
pub fn metadata_publications(
    topic_base: &str,
    config: &Config,
    sources: &Vec<(SourceId, SourceConfig)>,
) -> (r: Vec<Publication>)
    requires
        forall|i: int| 0 <= i < config.amp.zones@.len() ==> (#[trigger] config.amp.zones@[
        i]).0.wf(),
    ensures
        r@.map_values(|p: Publication| (p.topic@, p.payload@)) =~= spec_metadata_pubs(
            topic_base@,
            *config,
            sources@,
        ),
        forall|i: int| 0 <= i < r@.len() ==> (#[trigger] r@[i]).retain,
{
    let ghost f = |p: Publication| (p.topic@, p.payload@);
    let mut out: Vec<Publication> = Vec::new();

    let mut topic = topic_base.to_owned();
    topic.append("connected");
    out.push(Publication { topic, payload: "2".to_owned(), retain: true });

    if let Some(model) = &config.amp.model {
        let mut topic = topic_base.to_owned();
        topic.append("status/amp/model");
        out.push(Publication { topic, payload: json_encode_string(model.as_str()), retain: true });
    }
    if let Some(manufacturer) = &config.amp.manufacturer {
        let mut topic = topic_base.to_owned();
        topic.append("status/amp/manufacturer");
        out.push(
            Publication {
                topic,
                payload: json_encode_string(manufacturer.as_str()),
                retain: true,
            },
        );
    }
    if let Some(serial) = &config.amp.serial {
        let mut topic = topic_base.to_owned();
        topic.append("status/amp/serial");
        out.push(Publication { topic, payload: json_encode_string(serial.as_str()), retain: true });
    }
    let ghost head = out@.map_values(f);

    let mut i: usize = 0;
    while i < sources.len()
        invariant
            i <= sources@.len(),
            out@.map_values(|p: Publication| (p.topic@, p.payload@)) =~= head
                + spec_source_meta_pubs(topic_base@, sources@.take(i as int)),
            forall|k: int| 0 <= k < out@.len() ==> (#[trigger] out@[k]).retain,
        decreases sources@.len() - i,
    {
        proof {
            assert(sources@.take(i + 1).drop_last() =~= sources@.take(i as int));
            assert(sources@.take(i + 1).last() == sources@[i as int]);
        }
        let (id, cfg) = &sources[i];
        let mut name_topic = topic_base.to_owned();
        name_topic.append("status/source/");
        push_decimal_chars(&mut name_topic, id.to_byte() as u32);
        let mut enabled_topic = name_topic.clone();
        name_topic.append("/name");
        enabled_topic.append("/enabled");
        let name_payload = json_encode_string(cfg.name.as_str());
        let enabled_payload = if cfg.enabled {
            "true".to_owned()
        } else {
            "false".to_owned()
        };
        let ghost nt = name_topic@;
        let ghost et = enabled_topic@;
        let ghost np = name_payload@;
        let ghost ep = enabled_payload@;
        let ghost pre_out = out@;
        out.push(Publication { topic: name_topic, payload: name_payload, retain: true });
        out.push(Publication { topic: enabled_topic, payload: enabled_payload, retain: true });
        proof {
            let f = |p: Publication| (p.topic@, p.payload@);
            let base = topic_base@;
            let id0 = sources@[i as int].0;
            let cfg0 = sources@[i as int].1;
            assert(nt =~= base + "status/source/"@ + dec_chars(id0.spec_to_byte() as int)
                + "/name"@);
            assert(et =~= base + "status/source/"@ + dec_chars(id0.spec_to_byte() as int)
                + "/enabled"@);
            assert(np == json_string(cfg0.name@));
            assert(ep =~= spec_bool_payload(cfg0.enabled));
            assert(out@.map_values(f) =~= pre_out.map_values(f) + seq![(nt, np), (et, ep)]);
            assert(spec_source_meta_pubs(base, sources@.take(i + 1)) =~= spec_source_meta_pubs(
                base,
                sources@.take(i as int),
            ) + seq![(nt, np), (et, ep)]);
            assert(out@.map_values(f) =~= head + spec_source_meta_pubs(
                base,
                sources@.take(i + 1),
            ));
        }
        i = i + 1;
    }
    proof {
        assert(sources@.take(sources@.len() as int) =~= sources@);
    }
    let ghost head2 = out@.map_values(f);

    let mut zones_payload = "[".to_owned();
    proof {
        reveal_strlit("[");
        assert(zones_payload@ =~= seq!['['] + spec_zone_list_items(
            config.amp.zones@.take(0int),
        ));
    }
    let mut i: usize = 0;
    while i < config.amp.zones.len()
        invariant
            i <= config.amp.zones@.len(),
            forall|k: int| 0 <= k < config.amp.zones@.len() ==> (#[trigger] config.amp.zones@[
            k]).0.wf(),
            zones_payload@ =~= seq!['['] + spec_zone_list_items(config.amp.zones@.take(i as int)),
        decreases config.amp.zones@.len() - i,
    {
        proof {
            reveal_strlit(",");
            reveal_strlit("\"");
            assert(config.amp.zones@.take(i + 1).drop_last() =~= config.amp.zones@.take(i as int));
            assert(config.amp.zones@.take(i + 1).last() == config.amp.zones@[i as int]);
        }
        if i > 0 {
            zones_payload.append(",");
        }
        zones_payload.append("\"");
        push_two_digit_chars(&mut zones_payload, config.amp.zones[i].0.to_byte());
        zones_payload.append("\"");
        proof {
            assert(zones_payload@ =~= seq!['['] + spec_zone_list_items(
                config.amp.zones@.take(i + 1),
            ));
        }
        i = i + 1;
    }
    zones_payload.append("]");
    proof {
        reveal_strlit("]");
        assert(config.amp.zones@.take(config.amp.zones@.len() as int) =~= config.amp.zones@);
        assert(zones_payload@ =~= spec_zones_payload(config.amp.zones@));
    }
    let mut zones_topic = topic_base.to_owned();
    zones_topic.append("status/zones");
    let ghost zt = zones_topic@;
    let ghost zp2 = zones_payload@;
    let ghost pre_out2 = out@;
    out.push(Publication { topic: zones_topic, payload: zones_payload, retain: true });
    proof {
        let f = |p: Publication| (p.topic@, p.payload@);
        assert(out@.map_values(f) =~= pre_out2.map_values(f) + seq![(zt, zp2)]);
        assert(zt =~= topic_base@ + "status/zones"@);
        assert(out@.map_values(f) =~= head2 + seq![
            (topic_base@ + "status/zones"@, spec_zones_payload(config.amp.zones@)),
        ]);
    }
    let ghost head3 = out@.map_values(f);

    let mut i: usize = 0;
    while i < config.amp.zones.len()
        invariant
            i <= config.amp.zones@.len(),
            forall|k: int| 0 <= k < config.amp.zones@.len() ==> (#[trigger] config.amp.zones@[
            k]).0.wf(),
            out@.map_values(|p: Publication| (p.topic@, p.payload@)) =~= head3
                + spec_zone_meta_pubs(topic_base@, config.amp.zones@.take(i as int)),
            forall|k: int| 0 <= k < out@.len() ==> (#[trigger] out@[k]).retain,
        decreases config.amp.zones@.len() - i,
    {
        proof {
            assert(config.amp.zones@.take(i + 1).drop_last() =~= config.amp.zones@.take(i as int));
            assert(config.amp.zones@.take(i + 1).last() == config.amp.zones@[i as int]);
        }
        let (id, cfg) = &config.amp.zones[i];
        let mut topic = topic_base.to_owned();
        topic.append("status/zone/");
        push_two_digit_chars(&mut topic, id.to_byte());
        topic.append("/name");
        let payload = json_encode_string(cfg.name.as_str());
        let ghost tv = topic@;
        let ghost pv = payload@;
        let ghost pre_out3 = out@;
        out.push(Publication { topic, payload, retain: true });
        proof {
            let f = |p: Publication| (p.topic@, p.payload@);
            let id0 = config.amp.zones@[i as int].0;
            let cfg0 = config.amp.zones@[i as int].1;
            assert(tv =~= topic_base@ + "status/zone/"@ + two_digit_chars(id0.spec_to_byte())
                + "/name"@);
            assert(pv == json_string(cfg0.name@));
            assert(out@.map_values(f) =~= pre_out3.map_values(f) + seq![(tv, pv)]);
            assert(spec_zone_meta_pubs(topic_base@, config.amp.zones@.take(i + 1))
                =~= spec_zone_meta_pubs(topic_base@, config.amp.zones@.take(i as int)) + seq![
                (tv, pv),
            ]);
            assert(out@.map_values(f) =~= head3 + spec_zone_meta_pubs(
                topic_base@,
                config.amp.zones@.take(i + 1),
            ));
        }
        i = i + 1;
    }
    proof {
        assert(config.amp.zones@.take(config.amp.zones@.len() as int) =~= config.amp.zones@);
        assert(out@.map_values(|p: Publication| (p.topic@, p.payload@)) =~= spec_metadata_pubs(
            topic_base@,
            *config,
            sources@,
        ));
    }
    out
}


} // verus!
