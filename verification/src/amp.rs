//! The device protocol driver: request/response transactions against one
//! full-duplex byte stream carrying the amplifier control protocol.
//!
//! Every command is echoed verbatim by the device before its response;
//! responses end with a fixed three-byte marker, and the literal body
//! `\r\nCommand Error.` signals a rejected command.

use vstd::prelude::*;

use rand::distributions::DistString;

use crate::zone::ZoneId;
use crate::zone::ZoneIdError;
use crate::zone::ZoneAttribute;
use crate::zone::ZoneAttributeDiscriminants;
use crate::zone::ZoneAttributeError;
use crate::zone::MAX_AMPS;
use crate::zone::MAX_ZONES_PER_AMP;
use crate::strfmt::two_digit_bytes;
use crate::strfmt::push_two_digit_bytes;

verus! {

/// Why the byte stream itself failed.
#[derive(Copy, Clone, Debug, PartialEq, Eq, Structural)]
pub enum TransportError {
    /// A read or write did not complete in time.
    TimedOut,
    /// Any other I/O failure.
    Io,
}

/// A full-duplex byte stream to one amplifier chain: a serial port or a raw
/// TCP socket. The driver owns exactly one of these and serializes all
/// traffic over it.
pub trait Port {
    /// Read the next byte, blocking until one arrives or the transport fails.
    fn read_byte(&mut self) -> Result<u8, TransportError>;

    /// Write all of the given bytes.
    fn write_bytes(&mut self, data: &[u8]) -> Result<(), TransportError>;

    /// Flush buffered output towards the device.
    fn flush(&mut self) -> Result<(), TransportError>;
}

/// Why a device transaction failed. Each kind is distinct so that callers
/// can tell transport faults, desynchronization and rejected input apart.
#[derive(Clone, Debug, PartialEq, Eq)]
pub enum AmpError {
    /// The underlying byte stream failed.
    Transport(TransportError),
    /// The device's echo of a command did not match the bytes sent:
    /// the stream is desynchronized.
    EchoMismatch,
    /// The device reported `Command Error.` for a command.
    CommandError,
    /// A response body was not in the expected form.
    MalformedResponse,
    /// A response carried a zone id that does not decode.
    InvalidZoneId(ZoneIdError),
    /// The attribute payload is outside the range of its kind.
    AttributeValue(ZoneAttributeError),
    /// The attribute kind can only be read, never written.
    ReadOnlyAttribute(ZoneAttributeDiscriminants),
}

/// One zone's full snapshot: its id and all ten attribute values as
/// returned by a single device enquiry, in the declared order.
#[derive(Clone, Debug, PartialEq, Eq)]
pub struct ZoneStatus {
    pub zone_id: ZoneId,
    pub attributes: Vec<ZoneAttribute>,
}

/// The attribute kind reported at position `k` of a status response,
/// for `0 <= k < 10`.
pub open spec fn status_kind_at(k: int) -> ZoneAttributeDiscriminants {
    if k == 0 {
        ZoneAttributeDiscriminants::PublicAnnouncement
    } else if k == 1 {
        ZoneAttributeDiscriminants::Power
    } else if k == 2 {
        ZoneAttributeDiscriminants::Mute
    } else if k == 3 {
        ZoneAttributeDiscriminants::DoNotDisturb
    } else if k == 4 {
        ZoneAttributeDiscriminants::Volume
    } else if k == 5 {
        ZoneAttributeDiscriminants::Treble
    } else if k == 6 {
        ZoneAttributeDiscriminants::Bass
    } else if k == 7 {
        ZoneAttributeDiscriminants::Balance
    } else if k == 8 {
        ZoneAttributeDiscriminants::Source
    } else {
        ZoneAttributeDiscriminants::KeypadConnected
    }
}

/// The attribute at position `k` of a status response decoded from the
/// two-digit value `v`: booleans are nonzero-is-true, numeric kinds carry
/// the value itself.
pub open spec fn status_attr_at(k: int, v: u8) -> ZoneAttribute {
    if k == 0 {
        ZoneAttribute::PublicAnnouncement(v != 0)
    } else if k == 1 {
        ZoneAttribute::Power(v != 0)
    } else if k == 2 {
        ZoneAttribute::Mute(v != 0)
    } else if k == 3 {
        ZoneAttribute::DoNotDisturb(v != 0)
    } else if k == 4 {
        ZoneAttribute::Volume(v)
    } else if k == 5 {
        ZoneAttribute::Treble(v)
    } else if k == 6 {
        ZoneAttribute::Bass(v)
    } else if k == 7 {
        ZoneAttribute::Balance(v)
    } else if k == 8 {
        ZoneAttribute::Source(v)
    } else {
        ZoneAttribute::KeypadConnected(v != 0)
    }
}

impl ZoneStatus {
    /// A status is well formed when its id names a single well-formed zone
    /// and it carries all ten attributes in the declared order.
    pub open spec fn wf(self) -> bool {
        &&& self.zone_id.wf()
        &&& self.zone_id is Zone
        &&& self.attributes@.len() == 10
        &&& forall|k: int|
            0 <= k < 10 ==> (#[trigger] self.attributes@[k]).spec_kind() == status_kind_at(k)
    }
}

/// An ASCII decimal digit byte.
pub open spec fn is_digit_byte(b: u8) -> bool {
    48 <= b <= 57
}

/// An ASCII letter or digit byte.
pub open spec fn is_alphanumeric_byte(b: u8) -> bool {
    is_digit_byte(b) || (65 <= b <= 90) || (97 <= b <= 122)
}

/// The value of the two-digit pair at bytes `p, p + 1`.
pub open spec fn pair_value(s: Seq<u8>, p: int) -> u8 {
    ((s[p] - 48) * 10 + (s[p + 1] - 48)) as u8
}

/// `s` ends with `suffix`.
pub open spec fn ends_with(s: Seq<u8>, suffix: Seq<u8>) -> bool {
    s.len() >= suffix.len() && s.skip(s.len() - suffix.len()) =~= suffix
}

/// The three-byte end-of-response marker `\r\n#`.
pub open spec fn spec_end_marker() -> Seq<u8> {
    seq![13u8, 10u8, 35u8]
}

/// The response body `\r\nCommand Error.` with which the device rejects
/// a command.
pub open spec fn spec_command_error_body() -> Seq<u8> {
    seq![13u8, 10u8, 67u8, 111u8, 109u8, 109u8, 97u8, 110u8, 100u8, 32u8, 69u8, 114u8, 114u8,
        111u8, 114u8, 46u8]
}

/// The end-of-response marker as bytes.
pub fn end_marker() -> (r: Vec<u8>)
    ensures
        r@ =~= spec_end_marker(),
{
    let mut v: Vec<u8> = Vec::new();
    v.push(13);  // '\r'
    v.push(10);  // '\n'
    v.push(35);  // '#'
    v
}

/// The device's command-rejection body as bytes.
pub fn command_error_body() -> (r: Vec<u8>)
    ensures
        r@ =~= spec_command_error_body(),
{
    let mut v: Vec<u8> = Vec::new();
    v.push(13);  // '\r'
    v.push(10);  // '\n'
    v.push(67);  // 'C'
    v.push(111);  // 'o'
    v.push(109);  // 'm'
    v.push(109);  // 'm'
    v.push(97);  // 'a'
    v.push(110);  // 'n'
    v.push(100);  // 'd'
    v.push(32);  // ' '
    v.push(69);  // 'E'
    v.push(114);  // 'r'
    v.push(114);  // 'r'
    v.push(111);  // 'o'
    v.push(114);  // 'r'
    v.push(46);  // '.'
    v
}

/// Compare two byte strings for equality.
pub fn bytes_eq(a: &[u8], b: &[u8]) -> (r: bool)
    ensures
        r == (a@ =~= b@),
{
    if a.len() != b.len() {
        return false;
    }
    let mut i: usize = 0;
    while i < a.len()
        invariant
            i <= a@.len(),
            a@.len() == b@.len(),
            forall|j: int| 0 <= j < i ==> a@[j] == b@[j],
        decreases a@.len() - i,
    {
        if a[i] != b[i] {
            return false;
        }
        i = i + 1;
    }
    true
}

/// Whether `buf` ends with `suffix`.
pub fn buffer_ends_with(buf: &Vec<u8>, suffix: &[u8]) -> (r: bool)
    ensures
        r == ends_with(buf@, suffix@),
{
    if buf.len() < suffix.len() {
        return false;
    }
    let start: usize = buf.len() - suffix.len();
    let mut i: usize = 0;
    while i < suffix.len()
        invariant
            i <= suffix@.len(),
            start == buf@.len() - suffix@.len(),
            buf@.len() >= suffix@.len(),
            buf@.len() <= usize::MAX,
            forall|j: int| 0 <= j < i ==> buf@[start + j] == suffix@[j],
        decreases suffix@.len() - i,
    {
        if buf[start + i] != suffix[i] {
            proof {
                assert(buf@.skip(buf@.len() - suffix@.len())[i as int] != suffix@[i as int]);
            }
            return false;
        }
        i = i + 1;
    }
    proof {
        assert(buf@.skip(buf@.len() - suffix@.len()) =~= suffix@);
    }
    true
}

/// The enquiry command `?{amp}{zone}` as bytes; a zone of 0 asks for all
/// zones of the unit.
pub open spec fn spec_enquiry_command(amp: u8, zone: u8) -> Seq<u8> {
    seq![63u8, (48 + amp) as u8, (48 + zone) as u8]
}

/// Build the enquiry command `?{amp}{zone}`.
pub fn format_enquiry_command(amp: u8, zone: u8) -> (r: Vec<u8>)
    requires
        amp <= 9,
        zone <= 9,
    ensures
        r@ =~= spec_enquiry_command(amp, zone),
{
    let mut v: Vec<u8> = Vec::new();
    v.push(63);  // '?'
    v.push(48 + amp);
    v.push(48 + zone);
    v
}

/// The two-letter device mnemonic for a writable attribute kind.
pub open spec fn spec_command_code(k: ZoneAttributeDiscriminants) -> Seq<u8> {
    match k {
        ZoneAttributeDiscriminants::Power => seq![80u8, 82u8],  // PR
        ZoneAttributeDiscriminants::Mute => seq![77u8, 85u8],  // MU
        ZoneAttributeDiscriminants::DoNotDisturb => seq![68u8, 84u8],  // DT
        ZoneAttributeDiscriminants::Volume => seq![86u8, 79u8],  // VO
        ZoneAttributeDiscriminants::Treble => seq![84u8, 82u8],  // TR
        ZoneAttributeDiscriminants::Bass => seq![66u8, 83u8],  // BS
        ZoneAttributeDiscriminants::Balance => seq![66u8, 76u8],  // BL
        ZoneAttributeDiscriminants::Source => seq![67u8, 72u8],  // CH
        _ => Seq::empty(),
    }
}

/// The payload byte an attribute writes: booleans as 0 or 1, numeric
/// kinds as their value.
pub open spec fn spec_value_byte(attr: ZoneAttribute) -> u8 {
    match attr {
        ZoneAttribute::PublicAnnouncement(b) => if b {
            1
        } else {
            0
        },
        ZoneAttribute::Power(b) => if b {
            1
        } else {
            0
        },
        ZoneAttribute::Mute(b) => if b {
            1
        } else {
            0
        },
        ZoneAttribute::DoNotDisturb(b) => if b {
            1
        } else {
            0
        },
        ZoneAttribute::Volume(v) => v,
        ZoneAttribute::Treble(v) => v,
        ZoneAttribute::Bass(v) => v,
        ZoneAttribute::Balance(v) => v,
        ZoneAttribute::Source(v) => v,
        ZoneAttribute::KeypadConnected(b) => if b {
            1
        } else {
            0
        },
    }
}

/// The set command `<{zoneid}{code}{value:02}` as bytes.
pub open spec fn spec_set_command(id: ZoneId, attr: ZoneAttribute) -> Seq<u8> {
    seq![60u8] + two_digit_bytes(id.spec_to_byte()) + spec_command_code(attr.spec_kind())
        + two_digit_bytes(spec_value_byte(attr) as int)
}

/// Build the set command `<{zoneid}{code}{value:02}` for a writable,
/// in-range attribute.
pub fn format_set_command(id: &ZoneId, attr: &ZoneAttribute) -> (r: Vec<u8>)
    requires
        id.wf(),
        attr.in_range(),
        !attr.spec_kind().spec_read_only(),
    ensures
        r@ =~= spec_set_command(*id, *attr),
{
    let mut v: Vec<u8> = Vec::new();
    v.push(60);  // '<'
    push_two_digit_bytes(&mut v, id.to_byte());
    match *attr {
        ZoneAttribute::Power(_) => {
            v.push(80);
            v.push(82);
        },
        ZoneAttribute::Mute(_) => {
            v.push(77);
            v.push(85);
        },
        ZoneAttribute::DoNotDisturb(_) => {
            v.push(68);
            v.push(84);
        },
        ZoneAttribute::Volume(_) => {
            v.push(86);
            v.push(79);
        },
        ZoneAttribute::Treble(_) => {
            v.push(84);
            v.push(82);
        },
        ZoneAttribute::Bass(_) => {
            v.push(66);
            v.push(83);
        },
        ZoneAttribute::Balance(_) => {
            v.push(66);
            v.push(76);
        },
        ZoneAttribute::Source(_) => {
            v.push(67);
            v.push(72);
        },
        _ => {
            proof {
                assert(false);
            }
        },
    }
    let val: u8 = match *attr {
        ZoneAttribute::PublicAnnouncement(b) => if b {
            1
        } else {
            0
        },
        ZoneAttribute::Power(b) => if b {
            1
        } else {
            0
        },
        ZoneAttribute::Mute(b) => if b {
            1
        } else {
            0
        },
        ZoneAttribute::DoNotDisturb(b) => if b {
            1
        } else {
            0
        },
        ZoneAttribute::Volume(x) => x,
        ZoneAttribute::Treble(x) => x,
        ZoneAttribute::Bass(x) => x,
        ZoneAttribute::Balance(x) => x,
        ZoneAttribute::Source(x) => x,
        ZoneAttribute::KeypadConnected(b) => if b {
            1
        } else {
            0
        },
    };
    push_two_digit_bytes(&mut v, val);
    proof {
        assert(v@ =~= spec_set_command(*id, *attr));
    }
    v
}

/// Decode one response body: a `>` and then eleven two-digit decimal pairs,
/// the first pair the zone id, the rest the ten attribute values in the
/// declared order. Exactly this form is accepted.
pub open spec fn spec_response_shape_ok(resp: Seq<u8>) -> bool {
    resp.len() == 23 && resp[0] == 62 && forall|j: int| 1 <= j < 23 ==> is_digit_byte(#[trigger] resp[j])
}

/// The status a well-shaped response body stands for: the zone its first
/// pair names, and the ten attribute values of the remaining pairs, in
/// declared order.
pub open spec fn spec_status_of(resp: Seq<u8>, st: ZoneStatus) -> bool {
    &&& ZoneId::spec_from_byte(pair_value(resp, 1)) == Ok::<ZoneId, ZoneIdError>(st.zone_id)
    &&& st.attributes@.len() == 10
    &&& forall|k: int|
        0 <= k < 10 ==> (#[trigger] st.attributes@[k]) == status_attr_at(
            k,
            pair_value(resp, 3 + 2 * k),
        )
}

/// Law: a well-shaped enquiry response decodes to the zone its first
/// two-digit field names, and each attribute carries its own field's
/// value; in particular the volume attribute equals the decoded sixth
/// field of the response.
pub proof fn lemma_enquiry_response_decodes(resp: Seq<u8>, st: ZoneStatus)
    requires
        spec_response_shape_ok(resp),
        spec_status_of(resp, st),
    ensures
        ZoneId::spec_from_byte(pair_value(resp, 1)) == Ok::<ZoneId, ZoneIdError>(st.zone_id),
        st.attributes@[4] == ZoneAttribute::Volume(pair_value(resp, 11)),
        forall|k: int|
            0 <= k < 10 ==> (#[trigger] st.attributes@[k]) == status_attr_at(
                k,
                pair_value(resp, 3 + 2 * k),
            ),
{
    assert(st.attributes@[4] == status_attr_at(4, pair_value(resp, 11int)));
}

/// Parse one enquiry response body into a zone status.
///
/// Succeeds exactly on a well-shaped body whose zone id pair decodes to a
/// single zone; a bad shape is `MalformedResponse` and a bad id is
/// `InvalidZoneId`.
pub fn parse_zone_status(resp: &[u8]) -> (r: Result<ZoneStatus, AmpError>)
    ensures
        !spec_response_shape_ok(resp@) ==> r == Err::<ZoneStatus, AmpError>(
            AmpError::MalformedResponse,
        ),
        spec_response_shape_ok(resp@) ==> match ZoneId::spec_from_byte(pair_value(resp@, 1)) {
            Ok(z) => if z is Zone {
                r matches Ok(st) && st.zone_id == z && spec_status_of(resp@, st)
            } else {
                r == Err::<ZoneStatus, AmpError>(AmpError::MalformedResponse)
            },
            Err(e) => r == Err::<ZoneStatus, AmpError>(AmpError::InvalidZoneId(e)),
        },
        r matches Ok(st) ==> st.wf(),
{
    if resp.len() != 23 {
        return Err(AmpError::MalformedResponse);
    }
    if resp[0] != 62 {
        return Err(AmpError::MalformedResponse);
    }
    let mut j: usize = 1;
    while j < 23
        invariant
            1 <= j <= 23,
            resp@.len() == 23,
            forall|i: int| 1 <= i < j ==> is_digit_byte(#[trigger] resp@[i]),
        decreases 23 - j,
    {
        if resp[j] < 48 || resp[j] > 57 {
            return Err(AmpError::MalformedResponse);
        }
        j = j + 1;
    }
    let id_byte: u8 = (resp[1] - 48) * 10 + (resp[2] - 48);
    let zone_id = match ZoneId::from_byte(id_byte) {
        Ok(z) => z,
        Err(e) => {
            return Err(AmpError::InvalidZoneId(e));
        },
    };
    match zone_id {
        ZoneId::Zone { .. } => {},
        _ => {
            return Err(AmpError::MalformedResponse);
        },
    }
    let mut attributes: Vec<ZoneAttribute> = Vec::new();
    let mut k: usize = 0;
    while k < 10
        invariant
            k <= 10,
            resp@.len() == 23,
            spec_response_shape_ok(resp@),
            attributes@.len() == k,
            forall|i: int| 0 <= i < k ==> (#[trigger] attributes@[i]) == status_attr_at(
                i,
                pair_value(resp@, 3 + 2 * i),
            ),
        decreases 10 - k,
    {
        let p: usize = 3 + 2 * k;
        let v: u8 = (resp[p] - 48) * 10 + (resp[p + 1] - 48);
        proof {
            assert(v == pair_value(resp@, 3 + 2 * (k as int)));
        }
        let attr = match k {
            0 => ZoneAttribute::PublicAnnouncement(v != 0),
            1 => ZoneAttribute::Power(v != 0),
            2 => ZoneAttribute::Mute(v != 0),
            3 => ZoneAttribute::DoNotDisturb(v != 0),
            4 => ZoneAttribute::Volume(v),
            5 => ZoneAttribute::Treble(v),
            6 => ZoneAttribute::Bass(v),
            7 => ZoneAttribute::Balance(v),
            8 => ZoneAttribute::Source(v),
            _ => ZoneAttribute::KeypadConnected(v != 0),
        };
        attributes.push(attr);
        k = k + 1;
    }
    Ok(ZoneStatus { zone_id, attributes })
}

/// Relies on rand's `Alphanumeric` distribution and `DistString::sample_string`:
/// the sample is exactly `len` characters, each drawn from ASCII letters and
/// digits, so its UTF-8 bytes are `len` alphanumeric bytes.
#[verifier::external_body]
fn random_alphanumeric_bytes(len: usize) -> (r: Vec<u8>)
    ensures
        r@.len() == len,
        forall|i: int| 0 <= i < r@.len() ==> is_alphanumeric_byte(#[trigger] r@[i]),
{
    rand::distributions::Alphanumeric.sample_string(&mut rand::thread_rng(), len).into_bytes()
}

/// The resync marker for a random suffix: `resync` and then the suffix.
pub open spec fn spec_resync_marker(suffix: Seq<u8>) -> Seq<u8> {
    seq![114u8, 101u8, 115u8, 121u8, 110u8, 99u8] + suffix
}

/// The bogus command written to resynchronize: the marker and a
/// carriage return.
pub open spec fn spec_resync_command(suffix: Seq<u8>) -> Seq<u8> {
    spec_resync_marker(suffix) + seq![13u8]
}

/// The exact reply awaited during resynchronization: the device's echo
/// of the marker, the end marker, its rejection of the unknown command,
/// and the end marker again.
pub open spec fn spec_resync_reply(suffix: Seq<u8>) -> Seq<u8> {
    spec_resync_marker(suffix) + spec_end_marker() + spec_command_error_body() + spec_end_marker()
}

/// Build the resynchronization exchange for a marker suffix: the bogus
/// command to write, and the echo-plus-rejection reply to await.
pub fn format_resync_exchange(suffix: &[u8]) -> (r: (Vec<u8>, Vec<u8>))
    ensures
        r.0@ =~= spec_resync_command(suffix@),
        r.1@ =~= spec_resync_reply(suffix@),
{
    // marker = "resync" + the suffix
    let mut marker: Vec<u8> = Vec::new();
    marker.push(114);  // 'r'
    marker.push(101);  // 'e'
    marker.push(115);  // 's'
    marker.push(121);  // 'y'
    marker.push(110);  // 'n'
    marker.push(99);  // 'c'
    let mut si: usize = 0;
    while si < suffix.len()
        invariant
            si <= suffix@.len(),
            marker@ =~= seq![114u8, 101u8, 115u8, 121u8, 110u8, 99u8] + suffix@.take(si as int),
        decreases suffix@.len() - si,
    {
        marker.push(suffix[si]);
        proof {
            assert(marker@ =~= seq![114u8, 101u8, 115u8, 121u8, 110u8, 99u8] + suffix@.take(
                si + 1,
            ));
        }
        si = si + 1;
    }
    proof {
        assert(suffix@.take(suffix@.len() as int) =~= suffix@);
    }

    let mut cmd = marker.clone();
    cmd.push(13);

    let mut reply = marker;
    let mut part = end_marker();
    reply.append(&mut part);
    let mut part = command_error_body();
    reply.append(&mut part);
    let mut part = end_marker();
    reply.append(&mut part);
    proof {
        assert(cmd@ =~= spec_resync_command(suffix@));
        assert(reply@ =~= spec_resync_reply(suffix@));
    }
    (cmd, reply)
}

/// The driver for one amplifier chain over one byte stream.
pub struct Amp<P: Port> {
    port: P,
}

impl<P: Port> Amp<P> {
    /// Take ownership of the stream and resynchronize it, discarding any
    /// stale buffered bytes left over from a previous session. Only the
    /// transport itself can make construction fail.
    pub fn new(port: P) -> (r: Result<Amp<P>, AmpError>)
        ensures
            r matches Err(e) ==> e matches AmpError::Transport(_),
    {
        let mut amp = Amp { port };
        match amp.resync() {
            Ok(()) => Ok(amp),
            Err(e) => Err(e),
        }
    }

    /// Read bytes one at a time until the buffer ends with `marker`, and
    /// return everything read. The result ends with the first occurrence
    /// of the marker: no shorter prefix of it already ends with the marker.
    ///
    /// The scan is capped at `u64::MAX` bytes so that it provably
    /// terminates; at device speeds the cap can never be reached before
    /// the transport itself times out.
    fn read_until(&mut self, marker: &[u8]) -> (r: Result<Vec<u8>, AmpError>)
        requires
            marker@.len() > 0,
        ensures
            r matches Ok(buf) ==> ends_with(buf@, marker@) && forall|j: int|
                marker@.len() <= j < buf@.len() ==> !ends_with(buf@.take(j), marker@),
            r matches Err(e) ==> e matches AmpError::Transport(_),
    {
        let mut buffer: Vec<u8> = Vec::new();
        let mut budget: u64 = u64::MAX;
        while budget > 0
            invariant
                marker@.len() > 0,
                forall|j: int| marker@.len() <= j <= buffer@.len() ==> !ends_with(
                    #[trigger] buffer@.take(j),
                    marker@,
                ),
            decreases budget,
        {
            budget = budget - 1;
            let ch = match self.port.read_byte() {
                Ok(b) => b,
                Err(e) => {
                    return Err(AmpError::Transport(e));
                },
            };
            let ghost pre = buffer@;
            buffer.push(ch);
            if buffer_ends_with(&buffer, marker) {
                proof {
                    assert(buffer@.take(buffer@.len() as int) =~= buffer@);
                    assert forall|j: int| marker@.len() <= j < buffer@.len() implies !ends_with(
                        buffer@.take(j),
                        marker@,
                    ) by {
                        assert(buffer@.take(j) =~= pre.take(j));
                    }
                }
                return Ok(buffer);
            }
            proof {
                assert forall|j: int| marker@.len() <= j <= buffer@.len() implies !ends_with(
                    #[trigger] buffer@.take(j),
                    marker@,
                ) by {
                    if j < buffer@.len() {
                        assert(buffer@.take(j) =~= pre.take(j));
                    } else {
                        assert(buffer@.take(j) =~= buffer@);
                    }
                }
            }
        }
        Err(AmpError::Transport(TransportError::TimedOut))
    }

    /// Read one marker-terminated response and strip the marker. The
    /// body never contains the marker itself, since the read stops at
    /// its first occurrence. A body equal to the device's rejection
    /// text fails with `CommandError`.
    fn read_command_response(&mut self) -> (r: Result<Vec<u8>, AmpError>)
        ensures
            r matches Ok(body) ==> body@ != spec_command_error_body() && forall|j: int|
                spec_end_marker().len() <= j <= body@.len() ==> !ends_with(
                    body@.take(j),
                    spec_end_marker(),
                ),
            r matches Err(e) ==> e matches AmpError::Transport(_) || e is CommandError,
    {
        let marker = end_marker();
        let mut buffer = match self.read_until(marker.as_slice()) {
            Ok(b) => b,
            Err(e) => {
                return Err(e);
            },
        };
        let ghost raw = buffer@;
        buffer.truncate(buffer.len() - marker.len());
        proof {
            assert forall|j: int|
                spec_end_marker().len() <= j <= buffer@.len() implies !ends_with(
                buffer@.take(j),
                spec_end_marker(),
            ) by {
                assert(buffer@.take(j) =~= raw.take(j));
            }
        }
        let err_body = command_error_body();
        if bytes_eq(buffer.as_slice(), err_body.as_slice()) {
            return Err(AmpError::CommandError);
        }
        Ok(buffer)
    }

    /// Execute one transaction: write the command and a carriage return,
    /// flush, check that the device echoes the command byte for byte, then
    /// read exactly `expected_responses` further response bodies.
    ///
    /// An echo that differs from the command fails with `EchoMismatch` and
    /// nothing further is read.
    pub fn exec_command(&mut self, command: &[u8], expected_responses: usize) -> (r: Result<
        Vec<Vec<u8>>,
        AmpError,
    >)
        ensures
            r matches Ok(responses) ==> responses@.len() == expected_responses && forall|i: int|
                0 <= i < responses@.len() ==> (#[trigger] responses@[i])@
                    != spec_command_error_body() && forall|j: int|
                    spec_end_marker().len() <= j <= responses@[i]@.len() ==> !ends_with(
                        responses@[i]@.take(j),
                        spec_end_marker(),
                    ),
            r matches Err(e) ==> e matches AmpError::Transport(_) || e is EchoMismatch || e
                is CommandError,
    {
        if let Err(e) = self.port.write_bytes(command) {
            return Err(AmpError::Transport(e));
        }
        let cr: [u8; 1] = [13];
        if let Err(e) = self.port.write_bytes(cr.as_slice()) {
            return Err(AmpError::Transport(e));
        }
        if let Err(e) = self.port.flush() {
            return Err(AmpError::Transport(e));
        }
        let echo = match self.read_command_response() {
            Ok(b) => b,
            Err(e) => {
                return Err(e);
            },
        };
        if !bytes_eq(echo.as_slice(), command) {
            return Err(AmpError::EchoMismatch);
        }
        let mut responses: Vec<Vec<u8>> = Vec::new();
        let mut i: usize = 0;
        while i < expected_responses
            invariant
                i <= expected_responses,
                responses@.len() == i,
                forall|k: int| 0 <= k < responses@.len() ==> (#[trigger] responses@[k])@
                    != spec_command_error_body() && forall|j: int|
                    spec_end_marker().len() <= j <= responses@[k]@.len() ==> !ends_with(
                        responses@[k]@.take(j),
                        spec_end_marker(),
                    ),
            decreases expected_responses - i,
        {
            let body = match self.read_command_response() {
                Ok(b) => b,
                Err(e) => {
                    return Err(e);
                },
            };
            responses.push(body);
            i = i + 1;
        }
        Ok(responses)
    }

    /// Resynchronize the stream: write a freshly generated random marker as
    /// a bogus command and consume input until the device's exact
    /// echo-plus-rejection for that marker appears, discarding everything
    /// before it, however long the stale prefix is.
    fn resync(&mut self) -> (r: Result<(), AmpError>)
        ensures
            r matches Err(e) ==> e matches AmpError::Transport(_),
    {
        let suffix = random_alphanumeric_bytes(8);
        let (cmd, reply) = format_resync_exchange(suffix.as_slice());

        if let Err(e) = self.port.write_bytes(cmd.as_slice()) {
            return Err(AmpError::Transport(e));
        }
        if let Err(e) = self.port.flush() {
            return Err(AmpError::Transport(e));
        }
        match self.read_until(reply.as_slice()) {
            Ok(_) => Ok(()),
            Err(e) => Err(e),
        }
    }

    /// Ask the device for the status of every zone `id` denotes: one
    /// response for a single zone, six for a whole unit, and six per unit
    /// for the whole system. Each response body is parsed into a
    /// `ZoneStatus`, and any malformed body fails the whole call.
    pub fn zone_enquiry(&mut self, id: ZoneId) -> (r: Result<Vec<ZoneStatus>, AmpError>)
        requires
            id.wf(),
        ensures
            r matches Ok(statuses) ==> statuses@.len() == (match id {
                ZoneId::Zone { .. } => 1int,
                ZoneId::Amp(_) => MAX_ZONES_PER_AMP as int,
                ZoneId::System => MAX_AMPS as int * MAX_ZONES_PER_AMP as int,
            }),
            r matches Ok(statuses) ==> forall|i: int|
                0 <= i < statuses@.len() ==> (#[trigger] statuses@[i]).wf(),
    {
        match id {
            ZoneId::Zone { amp, zone } => self.enquire_unit(amp, zone, 1),
            ZoneId::Amp(amp) => self.enquire_unit(amp, 0, MAX_ZONES_PER_AMP as usize),
            ZoneId::System => {
                let mut statuses: Vec<ZoneStatus> = Vec::new();
                let mut a: u8 = 1;
                while a <= MAX_AMPS
                    invariant
                        1 <= a <= MAX_AMPS + 1,
                        statuses@.len() == (a - 1) * MAX_ZONES_PER_AMP,
                        forall|i: int| 0 <= i < statuses@.len() ==> (#[trigger] statuses@[i]).wf(),
                    decreases MAX_AMPS + 1 - a,
                {
                    let mut part = match self.enquire_unit(a, 0, MAX_ZONES_PER_AMP as usize) {
                        Ok(sts) => sts,
                        Err(e) => {
                            return Err(e);
                        },
                    };
                    statuses.append(&mut part);
                    a = a + 1;
                }
                Ok(statuses)
            },
        }
    }

    /// Issue one enquiry command `?{amp}{zone}` and parse its responses.
    fn enquire_unit(&mut self, amp: u8, zone: u8, expected_responses: usize) -> (r: Result<
        Vec<ZoneStatus>,
        AmpError,
    >)
        requires
            1 <= amp <= MAX_AMPS,
            zone <= MAX_ZONES_PER_AMP,
        ensures
            r matches Ok(statuses) ==> statuses@.len() == expected_responses && forall|i: int|
                0 <= i < statuses@.len() ==> (#[trigger] statuses@[i]).wf(),
    {
        let cmd = format_enquiry_command(amp, zone);
        let responses = match self.exec_command(cmd.as_slice(), expected_responses) {
            Ok(rs) => rs,
            Err(e) => {
                return Err(e);
            },
        };
        let mut statuses: Vec<ZoneStatus> = Vec::new();
        let mut i: usize = 0;
        while i < responses.len()
            invariant
                i <= responses@.len(),
                statuses@.len() == i,
                forall|k: int| 0 <= k < statuses@.len() ==> (#[trigger] statuses@[k]).wf(),
            decreases responses@.len() - i,
        {
            let st = match parse_zone_status(responses[i].as_slice()) {
                Ok(st) => st,
                Err(e) => {
                    return Err(e);
                },
            };
            statuses.push(st);
            i = i + 1;
        }
        Ok(statuses)
    }

    /// Write one attribute to every zone `id` denotes.
    ///
    /// The payload is validated against the fixed range of its kind, and
    /// read-only kinds are rejected outright; only then is anything sent to
    /// the device. A successful call implies the attribute was writable and
    /// in range.
    pub fn set_zone_attribute(&mut self, id: ZoneId, attr: ZoneAttribute) -> (r: Result<
        (),
        AmpError,
    >)
        requires
            id.wf(),
        ensures
            !attr.in_range() ==> r == Err::<(), AmpError>(
                AmpError::AttributeValue(
                    crate::zone::ZoneAttributeError::ValueOutOfRange {
                        attr,
                        min: attr.spec_range().0,
                        max: attr.spec_range().1,
                    },
                ),
            ),
            attr.in_range() && attr.spec_kind().spec_read_only() ==> r == Err::<(), AmpError>(
                AmpError::ReadOnlyAttribute(attr.spec_kind()),
            ),
            r is Ok ==> attr.in_range() && !attr.spec_kind().spec_read_only(),
            attr.in_range() && !attr.spec_kind().spec_read_only() ==> (r is Ok || (r matches Err(
                e,
            ) && (e matches AmpError::Transport(_) || e is EchoMismatch || e is CommandError))),
    {
        if let Err(e) = attr.validate() {
            return Err(AmpError::AttributeValue(e));
        }
        let kind = attr.kind();
        if kind.read_only() {
            return Err(AmpError::ReadOnlyAttribute(kind));
        }
        let targets = match id {
            ZoneId::System => id.to_amps(),
            other => vec![other],
        };
        let mut i: usize = 0;
        while i < targets.len()
            invariant
                i <= targets@.len(),
                forall|k: int| 0 <= k < targets@.len() ==> (#[trigger] targets@[k]).wf(),
                attr.in_range(),
                !attr.spec_kind().spec_read_only(),
            decreases targets@.len() - i,
        {
            let target = targets[i];
            let cmd = format_set_command(&target, &attr);
            if let Err(e) = self.exec_command(cmd.as_slice(), 0) {
                return Err(e);
            }
            i = i + 1;
        }
        Ok(())
    }
}

} // verus!
