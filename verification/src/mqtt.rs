//! Message-bus configuration, topic layout, payload decoding, and the
//! subscription correlation table.

use vstd::prelude::*;
use vstd::string::StrSliceExecFns;
use vstd::string::StringExecFns;

use crate::zone::ZoneId;
use crate::zone::ZoneAttribute;
use crate::zone::ZoneAttributeDiscriminants;

verus! {

broadcast use vstd::seq_lib::group_seq_lib_default, vstd::seq::group_seq_axioms;

/// Connection parameters for the message bus, as the configuration loader
/// supplies them. `url` is kept verbatim for the connection layer;
/// `url_path` is the path component of that URL, extracted by the loader,
/// from which the topic prefix is derived.
#[derive(Clone, Debug)]
pub struct MqttConfig {
    pub url: String,
    pub url_path: String,
    pub srv_lookup: bool,
    pub ca_certs: Option<String>,
    pub client_certs: Option<String>,
    pub client_key: Option<String>,
}

/// The topic prefix derived from a URL path: an absent path falls back to
/// the given default, a bare `/` selects the empty prefix, and any other
/// path loses one leading `/` and gains a trailing `/` if it lacks one.
pub open spec fn spec_topic_base(path: Seq<char>, default: Seq<char>) -> Seq<char> {
    if path.len() == 0 {
        default
    } else if path == seq!['/'] {
        Seq::empty()
    } else {
        let base = if path[0] == '/' {
            path.skip(1)
        } else {
            path
        };
        if base.len() > 0 && base.last() == '/' {
            base
        } else {
            base.push('/')
        }
    }
}

impl MqttConfig {
    /// The topic prefix under which this gateway publishes and subscribes.
    pub fn topic_base(&self, default: &str) -> (r: String)
        ensures
            r@ == spec_topic_base(self.url_path@, default@),
    {
        let path = self.url_path.as_str();
        let n = path.unicode_len();
        if n == 0 {
            return default.to_owned();
        }
        if n == 1 && path.get_char(0) == '/' {
            proof {
                assert(self.url_path@ =~= seq!['/']);
            }
            let empty = String::new();
            proof {
                assert(empty@ =~= Seq::<char>::empty());
            }
            return empty;
        }
        proof {
            assert(self.url_path@ != seq!['/']);
        }
        let base = if path.get_char(0) == '/' {
            path.substring_char(1, n)
        } else {
            path
        };
        let bn = base.unicode_len();
        let mut s = base.to_owned();
        if !(bn > 0 && base.get_char(bn - 1) == '/') {
            s.append("/");
            proof {
                reveal_strlit("/");
                assert(s@ =~= base@.push('/'));
            }
        }
        s
    }
}

/// Why an inbound payload could not be decoded into an attribute value.
#[derive(Clone, Debug, PartialEq, Eq)]
pub enum PayloadDecodeError {
    /// The payload bytes are not valid UTF-8 text.
    InvalidUtf8,
    /// The payload text is not the expected bare JSON scalar.
    InvalidJson,
    /// The payload decodes, but the value lies outside the valid range
    /// of its attribute kind.
    ValueOutOfRange,
}

/// What a byte sequence decodes to as UTF-8 text, if anything.
pub uninterp spec fn utf8_chars(b: Seq<u8>) -> Option<Seq<char>>;

/// Relies on `str::from_utf8`: whether bytes are valid UTF-8, and the text
/// they decode to, depend on the bytes alone.
#[verifier::external_body]
fn decode_utf8<'a>(b: &'a [u8]) -> (r: Option<&'a str>)
    ensures
        match r {
            Some(s) => utf8_chars(b@) == Some(s@),
            None => utf8_chars(b@) is None,
        },
{
    std::str::from_utf8(b).ok()
}

/// What a string parses to as a bare JSON boolean, if anything.
pub uninterp spec fn json_bool(s: Seq<char>) -> Option<bool>;

/// Relies on `serde_json::from_str::<bool>`: whether a string is a valid
/// JSON boolean, and its value, depend on the string alone.
#[verifier::external_body]
fn parse_json_bool(s: &str) -> (r: Option<bool>)
    ensures
        r == json_bool(s@),
{
    serde_json::from_str::<bool>(s).ok()
}

/// What a string parses to as a bare JSON number within `u8`, if anything.
pub uninterp spec fn json_u8(s: Seq<char>) -> Option<u8>;

/// Relies on `serde_json::from_str::<u8>`: whether a string is a valid JSON
/// number that fits a `u8`, and its value, depend on the string alone.
#[verifier::external_body]
fn parse_json_u8(s: &str) -> (r: Option<u8>)
    ensures
        r == json_u8(s@),
{
    serde_json::from_str::<u8>(s).ok()
}

/// The JSON string literal encoding a text, quotes and escapes included.
pub uninterp spec fn json_string(s: Seq<char>) -> Seq<char>;

/// Relies on `serde_json::to_string` for `&str`: the JSON string literal
/// depends on the characters alone, and serializing a string slice to a
/// string cannot fail.
#[verifier::external_body]
pub(crate) fn json_encode_string(s: &str) -> (r: String)
    ensures
        r@ == json_string(s@),
{
    match serde_json::to_string(s) {
        Ok(j) => j,
        Err(_) => String::new(),
    }
}

/// The attribute kinds whose payload is a boolean.
pub open spec fn kind_takes_bool(k: ZoneAttributeDiscriminants) -> bool {
    k is PublicAnnouncement || k is Power || k is Mute || k is DoNotDisturb
        || k is KeypadConnected
}

/// The writable boolean attribute of kind `k` carrying `b`.
pub open spec fn attr_with_bool(k: ZoneAttributeDiscriminants, b: bool) -> ZoneAttribute {
    match k {
        ZoneAttributeDiscriminants::Power => ZoneAttribute::Power(b),
        ZoneAttributeDiscriminants::Mute => ZoneAttribute::Mute(b),
        _ => ZoneAttribute::DoNotDisturb(b),
    }
}

/// The numeric attribute of kind `k` carrying `v`.
pub open spec fn attr_with_value(k: ZoneAttributeDiscriminants, v: u8) -> ZoneAttribute {
    match k {
        ZoneAttributeDiscriminants::Volume => ZoneAttribute::Volume(v),
        ZoneAttributeDiscriminants::Treble => ZoneAttribute::Treble(v),
        ZoneAttributeDiscriminants::Bass => ZoneAttribute::Bass(v),
        ZoneAttributeDiscriminants::Balance => ZoneAttribute::Balance(v),
        _ => ZoneAttribute::Source(v),
    }
}

/// What decoding a change payload for a writable attribute kind yields:
/// the bytes must be UTF-8 text holding a bare JSON boolean for the
/// boolean kinds, or a bare JSON number inside the kind's declared range
/// for the numeric kinds.
pub open spec fn spec_decode_attr(kind: ZoneAttributeDiscriminants, payload: Seq<u8>) -> Result<
    ZoneAttribute,
    PayloadDecodeError,
> {
    match utf8_chars(payload) {
        None => Err(PayloadDecodeError::InvalidUtf8),
        Some(s) => if kind_takes_bool(kind) {
            match json_bool(s) {
                Some(b) => Ok(attr_with_bool(kind, b)),
                None => Err(PayloadDecodeError::InvalidJson),
            }
        } else {
            match json_u8(s) {
                Some(v) => if attr_with_value(kind, v).in_range() {
                    Ok(attr_with_value(kind, v))
                } else {
                    Err(PayloadDecodeError::ValueOutOfRange)
                },
                None => Err(PayloadDecodeError::InvalidJson),
            }
        },
    }
}

/// Decode an inbound change payload for a writable attribute kind. A
/// numeric value outside the declared range of its kind is a decode
/// error: such a message is logged and dropped, and never reaches the
/// device.
pub fn decode_zone_attribute(kind: ZoneAttributeDiscriminants, payload: &[u8]) -> (r: Result<
    ZoneAttribute,
    PayloadDecodeError,
>)
    requires
        !kind.spec_read_only(),
    ensures
        r == spec_decode_attr(kind, payload@),
        r matches Ok(a) ==> a.spec_kind() == kind && a.in_range(),
{
    let text = match decode_utf8(payload) {
        Some(s) => s,
        None => {
            return Err(PayloadDecodeError::InvalidUtf8);
        },
    };
    match kind {
        ZoneAttributeDiscriminants::Power => match parse_json_bool(text) {
            Some(b) => Ok(ZoneAttribute::Power(b)),
            None => Err(PayloadDecodeError::InvalidJson),
        },
        ZoneAttributeDiscriminants::Mute => match parse_json_bool(text) {
            Some(b) => Ok(ZoneAttribute::Mute(b)),
            None => Err(PayloadDecodeError::InvalidJson),
        },
        ZoneAttributeDiscriminants::DoNotDisturb => match parse_json_bool(text) {
            Some(b) => Ok(ZoneAttribute::DoNotDisturb(b)),
            None => Err(PayloadDecodeError::InvalidJson),
        },
        ZoneAttributeDiscriminants::Volume => match parse_json_u8(text) {
            Some(v) => match ZoneAttribute::Volume(v).validate() {
                Ok(()) => Ok(ZoneAttribute::Volume(v)),
                Err(_) => Err(PayloadDecodeError::ValueOutOfRange),
            },
            None => Err(PayloadDecodeError::InvalidJson),
        },
        ZoneAttributeDiscriminants::Treble => match parse_json_u8(text) {
            Some(v) => match ZoneAttribute::Treble(v).validate() {
                Ok(()) => Ok(ZoneAttribute::Treble(v)),
                Err(_) => Err(PayloadDecodeError::ValueOutOfRange),
            },
            None => Err(PayloadDecodeError::InvalidJson),
        },
        ZoneAttributeDiscriminants::Bass => match parse_json_u8(text) {
            Some(v) => match ZoneAttribute::Bass(v).validate() {
                Ok(()) => Ok(ZoneAttribute::Bass(v)),
                Err(_) => Err(PayloadDecodeError::ValueOutOfRange),
            },
            None => Err(PayloadDecodeError::InvalidJson),
        },
        ZoneAttributeDiscriminants::Balance => match parse_json_u8(text) {
            Some(v) => match ZoneAttribute::Balance(v).validate() {
                Ok(()) => Ok(ZoneAttribute::Balance(v)),
                Err(_) => Err(PayloadDecodeError::ValueOutOfRange),
            },
            None => Err(PayloadDecodeError::InvalidJson),
        },
        _ => match parse_json_u8(text) {
            Some(v) => match ZoneAttribute::Source(v).validate() {
                Ok(()) => Ok(ZoneAttribute::Source(v)),
                Err(_) => Err(PayloadDecodeError::ValueOutOfRange),
            },
            None => Err(PayloadDecodeError::InvalidJson),
        },
    }
}

/// The handler registered for one topic.
#[derive(Copy, Clone, Debug, PartialEq, Eq, Structural)]
pub enum TopicHandler {
    /// Decode an inbound change payload for this zone and attribute kind
    /// and forward it to the synchronization worker.
    ZoneAttributeSet { zone_id: ZoneId, kind: ZoneAttributeDiscriminants },
    /// Hand the raw payload of this source's AirPlay volume topic to the
    /// volume-mapping layer.
    ShairportVolume { source_id: crate::ids::SourceId },
}

impl TopicHandler {
    /// A handler is well formed when it targets a well-formed zone and a
    /// writable attribute kind, or a well-formed source.
    pub open spec fn wf(self) -> bool {
        match self {
            TopicHandler::ZoneAttributeSet { zone_id, kind } => zone_id.wf()
                && !kind.spec_read_only(),
            TopicHandler::ShairportVolume { source_id } => source_id.wf(),
        }
    }
}

/// Why a subscription-table operation failed.
#[derive(Clone, Debug, PartialEq, Eq)]
pub enum SubscriptionError {
    /// The session reported a subscribe packet sent, but no request was queued.
    NoPendingRequest,
    /// An acknowledgement arrived for a packet id with no pending request.
    UnknownAcknowledgement(u16),
    /// Removing a subscription is not supported; the attempt fails loudly
    /// instead of silently doing nothing.
    UnsubscribeUnsupported,
}

/// No two pending entries share a packet id.
spec fn pending_keys_distinct(v: Seq<(u16, String, TopicHandler)>) -> bool {
    forall|i: int, j: int| 0 <= i < j < v.len() ==> v[i].0 != v[j].0
}

/// Some pending entry carries the packet id `k`.
spec fn pending_has_key(v: Seq<(u16, String, TopicHandler)>, k: u16) -> bool {
    exists|i: int| 0 <= i < v.len() && v[i].0 == k
}

/// The topic and handler of the pending entry with packet id `k`.
spec fn pending_value(v: Seq<(u16, String, TopicHandler)>, k: u16) -> (Seq<char>, TopicHandler) {
    let i = choose|i: int| 0 <= i < v.len() && v[i].0 == k;
    (v[i].1@, v[i].2)
}

/// The pending entries as a map from packet id to topic and handler.
spec fn pending_map(v: Seq<(u16, String, TopicHandler)>) -> Map<u16, (Seq<char>, TopicHandler)> {
    Map::new(|k: u16| pending_has_key(v, k), |k: u16| pending_value(v, k))
}

/// The active entries as a map from topic to handler; a later entry for the
/// same topic overrides an earlier one.
spec fn active_map(v: Seq<(String, TopicHandler)>) -> Map<Seq<char>, TopicHandler>
    decreases v.len(),
{
    if v.len() == 0 {
        Map::empty()
    } else {
        active_map(v.drop_last()).insert(v.last().0@, v.last().1)
    }
}

/// With distinct keys, each pending entry is what the map holds at its key.
proof fn lemma_pending_entry(v: Seq<(u16, String, TopicHandler)>, i: int)
    requires
        pending_keys_distinct(v),
        0 <= i < v.len(),
    ensures
        pending_map(v).contains_key(v[i].0),
        pending_map(v)[v[i].0] == (v[i].1@, v[i].2),
{
    let k = v[i].0;
    assert(pending_has_key(v, k));
    let j = choose|j: int| 0 <= j < v.len() && v[j].0 == k;
    if j != i {
        if j < i {
            assert(v[j].0 != v[i].0);
        } else {
            assert(v[i].0 != v[j].0);
        }
        assert(false);
    }
}

/// A packet id carried by no entry is absent from the map.
proof fn lemma_pending_absent(v: Seq<(u16, String, TopicHandler)>, k: u16)
    requires
        forall|i: int| 0 <= i < v.len() ==> (#[trigger] v[i]).0 != k,
    ensures
        !pending_map(v).contains_key(k),
{
}

/// Removing the entry at `idx` removes exactly its key from the map and
/// keeps the remaining keys distinct.
proof fn lemma_pending_remove(v: Seq<(u16, String, TopicHandler)>, idx: int)
    requires
        pending_keys_distinct(v),
        0 <= idx < v.len(),
    ensures
        pending_keys_distinct(v.remove(idx)),
        pending_map(v.remove(idx)) =~= pending_map(v).remove(v[idx].0),
{
    let w = v.remove(idx);
    let k0 = v[idx].0;
    assert forall|i: int, j: int| 0 <= i < j < w.len() implies w[i].0 != w[j].0 by {
        let vi: int = if i < idx {
            i
        } else {
            i + 1
        };
        let vj: int = if j < idx {
            j
        } else {
            j + 1
        };
        assert(w[i] == v[vi] && w[j] == v[vj]);
    }
    assert forall|k: u16| #[trigger] pending_has_key(w, k) implies pending_has_key(v, k) && k != k0 by {
        let i = choose|i: int| 0 <= i < w.len() && w[i].0 == k;
        let vi: int = if i < idx {
            i
        } else {
            i + 1
        };
        assert(w[i] == v[vi]);
        assert(v[vi].0 == k);
    }
    assert forall|k: u16| pending_has_key(v, k) && k != k0 implies #[trigger] pending_has_key(
        w,
        k,
    ) by {
        let j = choose|j: int| 0 <= j < v.len() && v[j].0 == k;
        let wi: int = if j < idx {
            j
        } else {
            j - 1
        };
        assert(w[wi] == v[j]);
    }
    assert forall|k: u16| pending_has_key(w, k) implies pending_map(w)[k] == pending_map(v)[k] by {
        let i = choose|i: int| 0 <= i < w.len() && w[i].0 == k;
        let vi: int = if i < idx {
            i
        } else {
            i + 1
        };
        assert(w[i] == v[vi]);
        lemma_pending_entry(w, i);
        lemma_pending_entry(v, vi);
    }
}

/// The table correlating subscribe requests with their acknowledgements.
///
/// A handler is queued when its subscribe is requested, keyed by packet id
/// once the session reports the subscribe packet sent, and becomes visible
/// for dispatch only when the matching acknowledgement arrives. Requests
/// move through these stages strictly in FIFO order.
pub struct SubscriptionTable {
    requested: Vec<(String, TopicHandler)>,
    pending: Vec<(u16, String, TopicHandler)>,
    active: Vec<(String, TopicHandler)>,
}

impl SubscriptionTable {
    /// The queue of requested subscriptions not yet reported sent,
    /// oldest first.
    pub closed spec fn spec_requested(self) -> Seq<(Seq<char>, TopicHandler)> {
        self.requested@.map_values(|p: (String, TopicHandler)| (p.0@, p.1))
    }

    /// The sent subscriptions awaiting acknowledgement, by packet id.
    pub closed spec fn spec_pending(self) -> Map<u16, (Seq<char>, TopicHandler)> {
        pending_map(self.pending@)
    }

    /// The acknowledged subscriptions, by topic.
    pub closed spec fn spec_active(self) -> Map<Seq<char>, TopicHandler> {
        active_map(self.active@)
    }

    /// Packet ids pending acknowledgement are distinct, and every handler
    /// anywhere in the table is well formed.
    pub closed spec fn wf(self) -> bool {
        &&& pending_keys_distinct(self.pending@)
        &&& forall|i: int|
            0 <= i < self.requested@.len() ==> (#[trigger] self.requested@[i]).1.wf()
        &&& forall|i: int| 0 <= i < self.pending@.len() ==> (#[trigger] self.pending@[i]).2.wf()
        &&& forall|i: int| 0 <= i < self.active@.len() ==> (#[trigger] self.active@[i]).1.wf()
    }

    /// An empty table: nothing requested, pending or active.
    pub fn new() -> (r: SubscriptionTable)
        ensures
            r.wf(),
            r.spec_requested() =~= Seq::<(Seq<char>, TopicHandler)>::empty(),
            r.spec_pending() =~= Map::<u16, (Seq<char>, TopicHandler)>::empty(),
            r.spec_active() =~= Map::<Seq<char>, TopicHandler>::empty(),
    {
        let t = SubscriptionTable { requested: Vec::new(), pending: Vec::new(), active: Vec::new() };
        proof {
            assert(t.spec_requested() =~= Seq::<(Seq<char>, TopicHandler)>::empty());
            assert forall|k: u16| !pending_has_key(t.pending@, k) by {}
            assert(t.spec_pending() =~= Map::<u16, (Seq<char>, TopicHandler)>::empty());
            assert(t.spec_active() =~= Map::<Seq<char>, TopicHandler>::empty());
        }
        t
    }

    /// Queue a subscribe request: the handler enters the FIFO queue and
    /// becomes pending once the session reports the packet sent.
    pub fn request(&mut self, topic: String, handler: TopicHandler)
        requires
            old(self).wf(),
            handler.wf(),
        ensures
            final (self).wf(),
            final (self).spec_requested() =~= old(self).spec_requested().push(
                (topic@, handler),
            ),
            final (self).spec_pending() == old(self).spec_pending(),
            final (self).spec_active() == old(self).spec_active(),
    {
        let ghost pre = self.requested@;
        self.requested.push((topic, handler));
        proof {
            assert(self.spec_requested() =~= pre.map_values(
                |p: (String, TopicHandler)| (p.0@, p.1),
            ).push((self.requested@.last().0@, self.requested@.last().1)));
        }
    }

    /// Record that the subscribe packet for the oldest queued request went
    /// out with packet id `pkid`: the request moves from the queue to the
    /// pending map. With nothing queued, the event is refused.
    pub fn on_subscribe_sent(&mut self, pkid: u16) -> (r: Result<(), SubscriptionError>)
        requires
            old(self).wf(),
        ensures
            final (self).wf(),
            old(self).spec_requested().len() == 0 ==> r == Err::<(), SubscriptionError>(
                SubscriptionError::NoPendingRequest,
            ) && *final (self) == *old(self),
            old(self).spec_requested().len() > 0 ==> r == Ok::<(), SubscriptionError>(())
                && final (self).spec_requested() =~= old(self).spec_requested().drop_first()
                && final (self).spec_pending() =~= old(self).spec_pending().insert(
                pkid,
                old(self).spec_requested()[0],
            ) && final (self).spec_active() == old(self).spec_active(),
    {
        if self.requested.len() == 0 {
            return Err(SubscriptionError::NoPendingRequest);
        }
        let ghost pre_requested = self.requested@;
        let (topic, handler) = self.requested.remove(0);
        proof {
            assert(self.spec_requested() =~= pre_requested.map_values(
                |p: (String, TopicHandler)| (p.0@, p.1),
            ).drop_first());
        }

        // keep packet ids unique: drop any stale entry with this id
        let mut existing: usize = 0;
        let mut found: bool = false;
        while existing < self.pending.len() && !found
            invariant
                existing <= self.pending@.len(),
                !found ==> forall|i: int| 0 <= i < existing ==> (#[trigger] self.pending@[i]).0
                    != pkid,
                found ==> existing < self.pending@.len() && self.pending@[existing as int].0
                    == pkid,
            decreases self.pending@.len() - existing + (if found {
                0int
            } else {
                1int
            }),
        {
            if self.pending[existing].0 == pkid {
                found = true;
            } else {
                existing = existing + 1;
            }
        }
        let ghost pre_pending = self.pending@;
        if found {
            let _ = self.pending.remove(existing);
            proof {
                lemma_pending_remove(pre_pending, existing as int);
            }
        } else {
            proof {
                assert forall|i: int| 0 <= i < pre_pending.len() implies (#[trigger] pre_pending[i]).0
                    != pkid by {}
                lemma_pending_absent(pre_pending, pkid);
                assert(pending_map(pre_pending).remove(pkid) =~= pending_map(pre_pending));
            }
        }
        let ghost mid_pending = self.pending@;
        proof {
            assert(pending_map(mid_pending) =~= pending_map(pre_pending).remove(pkid));
            assert(forall|i: int| 0 <= i < mid_pending.len() ==> (#[trigger] mid_pending[i]).0
                != pkid);
        }
        self.pending.push((pkid, topic, handler));
        proof {
            let now = self.pending@;
            assert(now =~= mid_pending.push((pkid, topic, handler)));
            assert forall|i: int, j: int| 0 <= i < j < now.len() implies now[i].0 != now[j].0 by {
                if j < now.len() - 1 {
                    assert(now[i] == mid_pending[i] && now[j] == mid_pending[j]);
                } else {
                    assert(now[i] == mid_pending[i]);
                }
            }
            assert forall|k: u16| #[trigger]
                pending_has_key(now, k) implies k == pkid || pending_has_key(mid_pending, k) by {
                let i = choose|i: int| 0 <= i < now.len() && now[i].0 == k;
                if i < now.len() - 1 {
                    assert(now[i] == mid_pending[i]);
                }
            }
            assert forall|k: u16| pending_has_key(mid_pending, k) implies #[trigger]
                pending_has_key(now, k) by {
                let i = choose|i: int| 0 <= i < mid_pending.len() && mid_pending[i].0 == k;
                assert(now[i] == mid_pending[i]);
            }
            assert forall|k: u16|
                pending_has_key(now, k) && k != pkid implies pending_map(now)[k] == pending_map(
                mid_pending,
            )[k] by {
                let i = choose|i: int| 0 <= i < now.len() && now[i].0 == k;
                assert(i < now.len() - 1);
                assert(now[i] == mid_pending[i]);
                lemma_pending_entry(now, i);
                lemma_pending_entry(mid_pending, i);
            }
            lemma_pending_entry(now, now.len() - 1);
            assert(pending_map(now) =~= pending_map(pre_pending).insert(
                pkid,
                (topic@, handler),
            ));
            assert(pending_map(pre_pending).remove(pkid).insert(pkid, (topic@, handler))
                =~= pending_map(pre_pending).insert(pkid, (topic@, handler)));
        }
        Ok(())
    }

    /// Record the broker's acknowledgement for packet id `pkid`: the pending
    /// handler moves into the active table and is visible for dispatch from
    /// now on. An acknowledgement matching nothing is refused.
    pub fn on_suback(&mut self, pkid: u16) -> (r: Result<(), SubscriptionError>)
        requires
            old(self).wf(),
        ensures
            final (self).wf(),
            !old(self).spec_pending().contains_key(pkid) ==> r == Err::<(), SubscriptionError>(
                SubscriptionError::UnknownAcknowledgement(pkid),
            ) && *final (self) == *old(self),
            old(self).spec_pending().contains_key(pkid) ==> r == Ok::<(), SubscriptionError>(())
                && final (self).spec_pending() =~= old(self).spec_pending().remove(pkid)
                && final (self).spec_active() =~= old(self).spec_active().insert(
                old(self).spec_pending()[pkid].0,
                old(self).spec_pending()[pkid].1,
            ) && final (self).spec_requested() =~= old(self).spec_requested(),
    {
        let mut idx: usize = 0;
        let mut found: bool = false;
        while idx < self.pending.len() && !found
            invariant
                idx <= self.pending@.len(),
                !found ==> forall|i: int| 0 <= i < idx ==> (#[trigger] self.pending@[i]).0 != pkid,
                found ==> idx < self.pending@.len() && self.pending@[idx as int].0 == pkid,
            decreases self.pending@.len() - idx + (if found {
                0int
            } else {
                1int
            }),
        {
            if self.pending[idx].0 == pkid {
                found = true;
            } else {
                idx = idx + 1;
            }
        }
        if !found {
            proof {
                lemma_pending_absent(self.pending@, pkid);
            }
            return Err(SubscriptionError::UnknownAcknowledgement(pkid));
        }
        let ghost pre_pending = self.pending@;
        let ghost pre_active = self.active@;
        proof {
            lemma_pending_entry(pre_pending, idx as int);
        }
        let (_, topic, handler) = self.pending.remove(idx);
        proof {
            lemma_pending_remove(pre_pending, idx as int);
        }
        self.active.push((topic, handler));
        proof {
            assert(self.active@.drop_last() =~= pre_active);
        }
        Ok(())
    }

    /// Removing a subscription is not supported: fail loudly, leaving the
    /// table unchanged.
    pub fn unsubscribe(&mut self, _topic: &String) -> (r: Result<(), SubscriptionError>)
        ensures
            r == Err::<(), SubscriptionError>(SubscriptionError::UnsubscribeUnsupported),
            *final (self) == *old(self),
    {
        Err(SubscriptionError::UnsubscribeUnsupported)
    }

    /// The handler dispatch would use for a message on `topic`: the most
    /// recently activated handler for that exact topic, or nothing while no
    /// acknowledged subscription covers it.
    pub fn lookup(&self, topic: &String) -> (r: Option<TopicHandler>)
        requires
            self.wf(),
        ensures
            self.spec_active().contains_key(topic@) ==> r == Some(self.spec_active()[topic@]),
            !self.spec_active().contains_key(topic@) ==> r is None,
            r matches Some(h) ==> h.wf(),
    {
        let mut i: usize = self.active.len();
        proof {
            assert(self.active@.take(i as int) =~= self.active@);
        }
        while i > 0
            invariant
                self.wf(),
                i <= self.active@.len(),
                active_map(self.active@).contains_key(topic@) == active_map(
                    self.active@.take(i as int),
                ).contains_key(topic@),
                active_map(self.active@).contains_key(topic@) ==> active_map(self.active@)[topic@]
                    == active_map(self.active@.take(i as int))[topic@],
            decreases i,
        {
            i = i - 1;
            proof {
                assert(self.active@.take(i + 1).drop_last() =~= self.active@.take(i as int));
                assert(self.active@.take(i + 1).last() == self.active@[i as int]);
            }
            if self.active[i].0 == *topic {
                return Some(self.active[i].1);
            }
        }
        proof {
            assert(self.active@.take(0) =~= Seq::<(String, TopicHandler)>::empty());
        }
        None
    }
}

/// What the correlation manager does with one inbound message.
#[derive(Clone, Debug, PartialEq, Eq)]
pub enum DispatchOutcome {
    /// No acknowledged subscription covers this topic: log and drop.
    NoHandler,
    /// The payload did not decode: log and drop.
    DecodeFailed(PayloadDecodeError),
    /// A decoded change to forward to the synchronization worker.
    Change(ZoneId, ZoneAttribute),
    /// The raw payload of a source's AirPlay volume topic, for the
    /// volume-mapping layer.
    AirplayVolume(crate::ids::SourceId, Vec<u8>),
}

impl SubscriptionTable {
    /// Dispatch one inbound message by exact topic match against the
    /// active handlers: unknown topics are dropped, undecodable payloads
    /// are dropped with their decode error, and a decoded payload becomes
    /// the change the registered handler forwards.
    pub fn dispatch(&self, topic: &String, payload: &[u8]) -> (r: DispatchOutcome)
        requires
            self.wf(),
        ensures
            !self.spec_active().contains_key(topic@) ==> r == DispatchOutcome::NoHandler,
            self.spec_active().contains_key(topic@) ==> match self.spec_active()[topic@] {
                TopicHandler::ZoneAttributeSet { zone_id, kind } => r == (match spec_decode_attr(
                    kind,
                    payload@,
                ) {
                    Ok(a) => DispatchOutcome::Change(zone_id, a),
                    Err(e) => DispatchOutcome::DecodeFailed(e),
                }),
                TopicHandler::ShairportVolume { source_id } => r matches
                    DispatchOutcome::AirplayVolume(s, p) && s == source_id && p@ == payload@,
            },
    {
        let handler = match self.lookup(topic) {
            Some(h) => h,
            None => {
                return DispatchOutcome::NoHandler;
            },
        };
        match handler {
            TopicHandler::ZoneAttributeSet { zone_id, kind } => {
                match decode_zone_attribute(kind, payload) {
                    Ok(attr) => DispatchOutcome::Change(zone_id, attr),
                    Err(e) => DispatchOutcome::DecodeFailed(e),
                }
            },
            TopicHandler::ShairportVolume { source_id } => {
                DispatchOutcome::AirplayVolume(source_id, vstd::slice::slice_to_vec(payload))
            },
        }
    }
}

/// One notification from the bus session's background processing loop.
pub enum SessionEvent {
    /// The broker accepted the connection.
    ConnectionAcknowledged,
    /// An application message arrived for some topic.
    MessageArrived { topic: String, payload: Vec<u8> },
    /// The session reports a subscribe packet physically sent.
    SubscribeSent { pkid: u16 },
    /// The broker acknowledged the subscribe packet with this id.
    SubscribeAcknowledged { pkid: u16 },
    /// The session observed its own disconnect.
    Disconnected,
    /// The connection failed.
    ConnectionFailed,
    /// Anything else the session reports.
    Other,
}

/// What the session loop must do after one event.
#[derive(Clone, Debug, PartialEq, Eq)]
pub enum SessionAction {
    /// Wake whoever blocks on connection establishment.
    SignalConnected,
    /// Wake whoever blocks on connection establishment, with failure;
    /// a connection error is terminal for the process.
    SignalError,
    /// End the session loop.
    Exit,
    /// Hand a decoded attribute change to the synchronization worker.
    Forward(ZoneId, ZoneAttribute),
    /// Hand a source's raw AirPlay volume payload to the volume-mapping
    /// layer.
    ForwardAirplayVolume(crate::ids::SourceId, Vec<u8>),
    /// Log and drop a message whose payload did not decode.
    DropMessage(PayloadDecodeError),
    /// Log and drop a message on a topic with no active handler.
    DropUnknownTopic,
    /// Log an acknowledgement that matches no pending request.
    DropUnknownAcknowledgement,
    /// Log a subscribe reported sent when none was requested.
    DropMissedSubscription,
    /// Nothing to do for this event.
    Continue,
}

/// Advance the correlation table by one session event and say what the
/// session loop must do with it. This is the whole decision logic of the
/// background processing thread; the loop around it only performs the
/// returned action.
pub fn handle_session_event(table: &mut SubscriptionTable, event: SessionEvent) -> (r:
    SessionAction)
    requires
        old(table).wf(),
    ensures
        final (table).wf(),
        match event {
            SessionEvent::ConnectionAcknowledged => r == SessionAction::SignalConnected
                && *final (table) == *old(table),
            SessionEvent::ConnectionFailed => r == SessionAction::SignalError && *final (table)
                == *old(table),
            SessionEvent::Disconnected => r == SessionAction::Exit && *final (table) == *old(
                table,
            ),
            SessionEvent::Other => r == SessionAction::Continue && *final (table) == *old(table),
            SessionEvent::MessageArrived { topic, payload } => {
                *final (table) == *old(table) && (!old(table).spec_active().contains_key(topic@)
                    ==> r == SessionAction::DropUnknownTopic) && (old(
                    table,
                ).spec_active().contains_key(topic@) ==> match old(table).spec_active()[topic@] {
                    TopicHandler::ZoneAttributeSet { zone_id, kind } => r == (
                    match spec_decode_attr(kind, payload@) {
                        Ok(a) => SessionAction::Forward(zone_id, a),
                        Err(e) => SessionAction::DropMessage(e),
                    }),
                    TopicHandler::ShairportVolume { source_id } => r matches
                        SessionAction::ForwardAirplayVolume(s, p) && s == source_id && p@
                        == payload@,
                })
            },
            SessionEvent::SubscribeSent { pkid } => {
                if old(table).spec_requested().len() == 0 {
                    r == SessionAction::DropMissedSubscription && *final (table) == *old(table)
                } else {
                    r == SessionAction::Continue && final (table).spec_requested() =~= old(
                        table,
                    ).spec_requested().drop_first() && final (table).spec_pending() =~= old(
                        table,
                    ).spec_pending().insert(pkid, old(table).spec_requested()[0]) && final (
                    table).spec_active() == old(table).spec_active()
                }
            },
            SessionEvent::SubscribeAcknowledged { pkid } => {
                if !old(table).spec_pending().contains_key(pkid) {
                    r == SessionAction::DropUnknownAcknowledgement && *final (table) == *old(
                        table,
                    )
                } else {
                    r == SessionAction::Continue && final (table).spec_pending() =~= old(
                        table,
                    ).spec_pending().remove(pkid) && final (table).spec_active() =~= old(
                        table,
                    ).spec_active().insert(
                        old(table).spec_pending()[pkid].0,
                        old(table).spec_pending()[pkid].1,
                    ) && final (table).spec_requested() =~= old(table).spec_requested()
                }
            },
        },
{
    match event {
        SessionEvent::ConnectionAcknowledged => SessionAction::SignalConnected,
        SessionEvent::ConnectionFailed => SessionAction::SignalError,
        SessionEvent::Disconnected => SessionAction::Exit,
        SessionEvent::Other => SessionAction::Continue,
        SessionEvent::MessageArrived { topic, payload } => {
            match table.dispatch(&topic, payload.as_slice()) {
                DispatchOutcome::NoHandler => SessionAction::DropUnknownTopic,
                DispatchOutcome::DecodeFailed(e) => SessionAction::DropMessage(e),
                DispatchOutcome::Change(zone_id, attr) => SessionAction::Forward(zone_id, attr),
                DispatchOutcome::AirplayVolume(source_id, raw) => {
                    SessionAction::ForwardAirplayVolume(source_id, raw)
                },
            }
        },
        SessionEvent::SubscribeSent { pkid } => {
            match table.on_subscribe_sent(pkid) {
                Ok(()) => SessionAction::Continue,
                Err(_) => SessionAction::DropMissedSubscription,
            }
        },
        SessionEvent::SubscribeAcknowledged { pkid } => {
            match table.on_suback(pkid) {
                Ok(()) => SessionAction::Continue,
                Err(_) => SessionAction::DropUnknownAcknowledgement,
            }
        },
    }
}

/// The writable attribute kind at position `j` of the subscription plan,
/// for `0 <= j < 8`: the declared kind order with the read-only kinds
/// left out.
pub open spec fn writable_kind_at(j: int) -> ZoneAttributeDiscriminants {
    if j == 0 {
        ZoneAttributeDiscriminants::Power
    } else if j == 1 {
        ZoneAttributeDiscriminants::Mute
    } else if j == 2 {
        ZoneAttributeDiscriminants::DoNotDisturb
    } else if j == 3 {
        ZoneAttributeDiscriminants::Volume
    } else if j == 4 {
        ZoneAttributeDiscriminants::Treble
    } else if j == 5 {
        ZoneAttributeDiscriminants::Bass
    } else if j == 6 {
        ZoneAttributeDiscriminants::Balance
    } else {
        ZoneAttributeDiscriminants::Source
    }
}

/// The eight writable attribute kinds, in declared order.
pub fn writable_kinds() -> (r: Vec<ZoneAttributeDiscriminants>)
    ensures
        r@.len() == 8,
        forall|j: int| 0 <= j < 8 ==> r@[j] == writable_kind_at(j),
        forall|j: int| 0 <= j < 8 ==> !(#[trigger] r@[j]).spec_read_only(),
{
    vec![
        ZoneAttributeDiscriminants::Power,
        ZoneAttributeDiscriminants::Mute,
        ZoneAttributeDiscriminants::DoNotDisturb,
        ZoneAttributeDiscriminants::Volume,
        ZoneAttributeDiscriminants::Treble,
        ZoneAttributeDiscriminants::Bass,
        ZoneAttributeDiscriminants::Balance,
        ZoneAttributeDiscriminants::Source,
    ]
}

/// The topic and handler subscribed for writable kind `j` of zone `i`.
pub open spec fn subscription_entry(z: ZoneId, base: Seq<char>, j: int) -> (
    Seq<char>,
    TopicHandler,
) {
    (
        writable_kind_at(j).spec_set_topic(base, z),
        TopicHandler::ZoneAttributeSet { zone_id: z, kind: writable_kind_at(j) },
    )
}

/// The full subscription plan for the configured zones: eight change
/// topics per zone, zones in the given order.
pub open spec fn zone_subscription_plan(zones: Seq<ZoneId>, base: Seq<char>) -> Seq<
    (Seq<char>, TopicHandler),
> {
    Seq::new(zones.len() * 8, |i: int| subscription_entry(zones[i / 8], base, i % 8))
}

/// Queue a change-topic subscription for every writable attribute of
/// every configured zone. Read-only attribute kinds get no subscription.
/// Returns the topics in request order, for the caller to send subscribe
/// packets for, one by one, in exactly this order.
pub fn install_zone_attribute_subscription_handlers(
    zones: &Vec<ZoneId>,
    topic_base: &str,
    table: &mut SubscriptionTable,
) -> (topics: Vec<String>)
    requires
        old(table).wf(),
        forall|i: int| 0 <= i < zones@.len() ==> (#[trigger] zones@[i]).wf(),
        zones@.len() * 8 <= usize::MAX,
    ensures
        final (table).wf(),
        final (table).spec_pending() == old(table).spec_pending(),
        final (table).spec_active() == old(table).spec_active(),
        final (table).spec_requested() =~= old(table).spec_requested() + zone_subscription_plan(
            zones@,
            topic_base@,
        ),
        topics@.len() == zones@.len() * 8,
        forall|i: int| 0 <= i < topics@.len() ==> (#[trigger] topics@[i])@
            == zone_subscription_plan(zones@, topic_base@)[i].0,
{
    let ghost orig_requested = table.spec_requested();
    let ghost plan = zone_subscription_plan(zones@, topic_base@);
    let kinds = writable_kinds();
    let mut topics: Vec<String> = Vec::new();
    let mut z: usize = 0;
    proof {
        assert(orig_requested + plan.take(0) =~= orig_requested);
    }
    while z < zones.len()
        invariant
            z <= zones@.len(),
            zones@.len() * 8 <= usize::MAX,
            forall|i: int| 0 <= i < zones@.len() ==> (#[trigger] zones@[i]).wf(),
            kinds@.len() == 8,
            forall|j: int| 0 <= j < 8 ==> kinds@[j] == writable_kind_at(j),
            table.wf(),
            table.spec_pending() == old(table).spec_pending(),
            table.spec_active() == old(table).spec_active(),
            plan == zone_subscription_plan(zones@, topic_base@),
            table.spec_requested() =~= orig_requested + plan.take(z * 8),
            topics@.len() == z * 8,
            forall|i: int| 0 <= i < topics@.len() ==> (#[trigger] topics@[i])@ == plan[i].0,
        decreases zones@.len() - z,
    {
        proof {
            assert((z + 1) * 8 <= zones@.len() * 8) by (nonlinear_arith)
                requires
                    z < zones@.len(),
            ;
        }
        let zone = zones[z];
        let mut j: usize = 0;
        while j < 8
            invariant
                j <= 8,
                z < zones@.len(),
                (z + 1) * 8 <= zones@.len() * 8,
                zones@.len() * 8 <= usize::MAX,
                zone == zones@[z as int],
                zone.wf(),
                kinds@.len() == 8,
                forall|jj: int| 0 <= jj < 8 ==> kinds@[jj] == writable_kind_at(jj),
                table.wf(),
                table.spec_pending() == old(table).spec_pending(),
                table.spec_active() == old(table).spec_active(),
                plan == zone_subscription_plan(zones@, topic_base@),
                table.spec_requested() =~= orig_requested + plan.take(z * 8 + j),
                topics@.len() == z * 8 + j,
                forall|i: int| 0 <= i < topics@.len() ==> (#[trigger] topics@[i])@ == plan[i].0,
            decreases 8 - j,
        {
            let kind = kinds[j];
            let topic = kind.mqtt_set_topic(topic_base, &zone);
            let handler = TopicHandler::ZoneAttributeSet { zone_id: zone, kind };
            proof {
                let idx = z * 8 + j;
                assert(idx / 8 == z && idx % 8 == j) by (nonlinear_arith)
                    requires
                        idx == z * 8 + j,
                        0 <= j < 8,
                        0 <= z,
                ;
                assert(plan[z * 8 + j] == subscription_entry(zone, topic_base@, j as int));
            }
            topics.push(topic.clone());
            table.request(topic, handler);
            proof {
                assert(table.spec_requested() =~= orig_requested + plan.take(z * 8 + j + 1));
            }
            j = j + 1;
        }
        z = z + 1;
    }
    proof {
        assert(plan.take(zones@.len() * 8 as int) =~= plan);
    }
    topics
}

/// The AirPlay volume subscriptions for the configured sources, in
/// order: one per source with a volume topic.
pub open spec fn shairport_subscription_plan(
    sources: Seq<(crate::ids::SourceId, crate::config::SourceConfig)>,
) -> Seq<(Seq<char>, TopicHandler)>
    decreases sources.len(),
{
    if sources.len() == 0 {
        Seq::empty()
    } else {
        shairport_subscription_plan(sources.drop_last()) + (
        match sources.last().1.shairport.volume_topic {
            Some(t) => seq![
                (t@, TopicHandler::ShairportVolume { source_id: sources.last().0 }),
            ],
            None => Seq::empty(),
        })
    }
}

/// Queue a subscription to every configured source's AirPlay volume
/// topic, where one is set. Returns the topics in request order.
pub fn install_source_shairport_handlers(
    sources: &Vec<(crate::ids::SourceId, crate::config::SourceConfig)>,
    table: &mut SubscriptionTable,
) -> (topics: Vec<String>)
    requires
        old(table).wf(),
        forall|i: int| 0 <= i < sources@.len() ==> (#[trigger] sources@[i]).0.wf(),
    ensures
        final (table).wf(),
        final (table).spec_pending() == old(table).spec_pending(),
        final (table).spec_active() == old(table).spec_active(),
        final (table).spec_requested() =~= old(table).spec_requested()
            + shairport_subscription_plan(sources@),
        topics@.map_values(|t: String| t@) =~= shairport_subscription_plan(sources@).map_values(
            |e: (Seq<char>, TopicHandler)| e.0,
        ),
{
    let mut topics: Vec<String> = Vec::new();
    let mut i: usize = 0;
    proof {
        assert(shairport_subscription_plan(sources@.take(0int)) =~= Seq::<
            (Seq<char>, TopicHandler),
        >::empty());
        assert(table.spec_requested() =~= old(table).spec_requested()
            + shairport_subscription_plan(sources@.take(0int)));
    }
    while i < sources.len()
        invariant
            i <= sources@.len(),
            forall|k: int| 0 <= k < sources@.len() ==> (#[trigger] sources@[k]).0.wf(),
            table.wf(),
            table.spec_pending() == old(table).spec_pending(),
            table.spec_active() == old(table).spec_active(),
            table.spec_requested() =~= old(table).spec_requested() + shairport_subscription_plan(
                sources@.take(i as int),
            ),
            topics@.map_values(|t: String| t@) =~= shairport_subscription_plan(
                sources@.take(i as int),
            ).map_values(|e: (Seq<char>, TopicHandler)| e.0),
        decreases sources@.len() - i,
    {
        proof {
            assert(sources@.take(i + 1).drop_last() =~= sources@.take(i as int));
            assert(sources@.take(i + 1).last() == sources@[i as int]);
        }
        let (id, cfg) = &sources[i];
        match &cfg.shairport.volume_topic {
            Some(volume_topic) => {
                let ghost pre_topics = topics@;
                topics.push(volume_topic.clone());
                table.request(
                    volume_topic.clone(),
                    TopicHandler::ShairportVolume { source_id: *id },
                );
                proof {
                    assert(topics@.map_values(|t: String| t@) =~= pre_topics.map_values(
                        |t: String| t@,
                    ).push(volume_topic@));
                    assert(shairport_subscription_plan(sources@.take(i + 1)).map_values(
                        |e: (Seq<char>, TopicHandler)| e.0,
                    ) =~= shairport_subscription_plan(sources@.take(i as int)).map_values(
                        |e: (Seq<char>, TopicHandler)| e.0,
                    ).push(volume_topic@));
                }
            },
            None => {
                proof {
                    assert(shairport_subscription_plan(sources@.take(i + 1))
                        =~= shairport_subscription_plan(sources@.take(i as int)));
                }
            },
        }
        i = i + 1;
    }
    proof {
        assert(sources@.take(sources@.len() as int) =~= sources@);
    }
    topics
}

/// Law: a handler registered for a topic on a quiescent table is not
/// visible for dispatch after its subscribe request is queued and sent,
/// and becomes visible, as exactly the registered handler, once the
/// broker's acknowledgement for that packet id is processed.
pub proof fn lemma_subscription_correlation(
    t0: SubscriptionTable,
    t1: SubscriptionTable,
    t2: SubscriptionTable,
    t3: SubscriptionTable,
    topic: Seq<char>,
    handler: TopicHandler,
    pkid: u16,
)
    requires
// the table starts with no queued requests and no handler for `topic`

        t0.spec_requested().len() == 0,
        !t0.spec_active().contains_key(topic),
        // t1: t0 after `request(topic, handler)`
        t1.spec_requested() == t0.spec_requested().push((topic, handler)),
        t1.spec_pending() == t0.spec_pending(),
        t1.spec_active() == t0.spec_active(),
        // t2: t1 after the subscribe packet went out with id `pkid`
        t2.spec_requested() == t1.spec_requested().drop_first(),
        t2.spec_pending() == t1.spec_pending().insert(pkid, t1.spec_requested()[0]),
        t2.spec_active() == t1.spec_active(),
        // t3: t2 after the broker acknowledged `pkid`
        t3.spec_pending() == t2.spec_pending().remove(pkid),
        t3.spec_active() == t2.spec_active().insert(
            t2.spec_pending()[pkid].0,
            t2.spec_pending()[pkid].1,
        ),
    ensures
        !t2.spec_active().contains_key(topic),
        t3.spec_active().contains_key(topic),
        t3.spec_active()[topic] == handler,
{
    assert(t1.spec_requested()[0] == (topic, handler));
    assert(t2.spec_pending()[pkid] == (topic, handler));
}

} // verus!
