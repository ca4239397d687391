//! Baud-rate negotiation for the serial transport: probing the device's
//! current line rate and planning an adjustment. The serial I/O itself is
//! performed by the transport layer, which feeds each probe's outcome back
//! into these decisions.

use vstd::prelude::*;

use crate::config::AdjustBaudConfig;
use crate::config::BaudConfig;
use crate::strfmt::dec_bytes;
use crate::strfmt::push_decimal_u32;

verus! {

/// The candidate line rate tried at position `i`, slowest first.
pub open spec fn spec_baud_rate_at(i: int) -> u32 {
    if i == 0 {
        9600
    } else if i == 1 {
        19200
    } else if i == 2 {
        38400
    } else if i == 3 {
        57600
    } else if i == 4 {
        115200
    } else {
        230400
    }
}

/// How many candidate line rates there are.
pub const BAUD_RATE_COUNT: usize = 6;

/// All supported line rates, slowest first.
pub fn baud_rates() -> (r: Vec<u32>)
    ensures
        r@.len() == BAUD_RATE_COUNT,
        forall|i: int| 0 <= i < r@.len() ==> r@[i] == spec_baud_rate_at(i),
{
    vec![9600, 19200, 38400, 57600, 115200, 230400]
}

/// The fastest supported line rate.
pub fn max_baud_rate() -> (r: u32)
    ensures
        r == spec_baud_rate_at(BAUD_RATE_COUNT - 1),
{
    230400
}

/// The known string written at each candidate rate; an identical echo
/// confirms the rate.
pub open spec fn spec_baud_probe_data() -> Seq<u8> {
    // "baudrate detect\r"
    seq![98u8, 97u8, 117u8, 100u8, 114u8, 97u8, 116u8, 101u8, 32u8, 100u8, 101u8, 116u8, 101u8,
        99u8, 116u8, 13u8]
}

/// The probe string as bytes.
pub fn baud_probe_data() -> (r: Vec<u8>)
    ensures
        r@ =~= spec_baud_probe_data(),
{
    let mut v: Vec<u8> = Vec::new();
    v.push(98);  // 'b'
    v.push(97);  // 'a'
    v.push(117);  // 'u'
    v.push(100);  // 'd'
    v.push(114);  // 'r'
    v.push(97);  // 'a'
    v.push(116);  // 't'
    v.push(101);  // 'e'
    v.push(32);  // ' '
    v.push(100);  // 'd'
    v.push(101);  // 'e'
    v.push(116);  // 't'
    v.push(101);  // 'e'
    v.push(99);  // 'c'
    v.push(116);  // 't'
    v.push(13);  // '\r'
    v
}

/// The rate the port is opened at before any probing.
pub fn initial_baud(config: &BaudConfig) -> (r: u32)
    ensures
        match *config {
            BaudConfig::Rate(b) => r == b,
            BaudConfig::Auto => r == 9600,
        },
{
    match *config {
        BaudConfig::Rate(baud) => baud,
        BaudConfig::Auto => 9600,
    }
}

/// What one probe attempt at a candidate rate observed.
#[derive(Copy, Clone, Debug, PartialEq, Eq, Structural)]
pub enum ProbeOutcome {
    /// A full-length read completed; `matched` says whether it equalled
    /// the probe string byte for byte.
    Echoed { matched: bool },
    /// The read timed out: expected at a wrong rate, not a fault.
    TimedOut,
    /// Any other I/O failure.
    Failed,
}

/// What the detection loop does after one probe.
#[derive(Copy, Clone, Debug, PartialEq, Eq, Structural)]
pub enum ProbeDecision {
    /// The echo matched: this is the device's rate.
    Confirmed(u32),
    /// No match at this rate: try the next candidate.
    TryNext,
    /// A real I/O error: abort detection.
    Fatal,
}

/// Decide what one probe's outcome means: an exact echo confirms the
/// rate, a mismatch or a timeout moves on to the next candidate, and any
/// other I/O failure is fatal.
pub fn probe_decision(rate: u32, outcome: &ProbeOutcome) -> (r: ProbeDecision)
    ensures
        match *outcome {
            ProbeOutcome::Echoed { matched } => r == (if matched {
                ProbeDecision::Confirmed(rate)
            } else {
                ProbeDecision::TryNext
            }),
            ProbeOutcome::TimedOut => r == ProbeDecision::TryNext,
            ProbeOutcome::Failed => r == ProbeDecision::Fatal,
        },
{
    match *outcome {
        ProbeOutcome::Echoed { matched } => {
            if matched {
                ProbeDecision::Confirmed(rate)
            } else {
                ProbeDecision::TryNext
            }
        },
        ProbeOutcome::TimedOut => ProbeDecision::TryNext,
        ProbeOutcome::Failed => ProbeDecision::Fatal,
    }
}

/// Walks the candidate rates in order, one per probe.
pub struct BaudDetector {
    next: usize,
}

impl BaudDetector {
    /// How many candidates have been handed out.
    pub closed spec fn spec_next(self) -> int {
        self.next as int
    }

    /// Start before the first candidate.
    pub fn new() -> (r: BaudDetector)
        ensures
            r.spec_next() == 0,
    {
        BaudDetector { next: 0 }
    }

    /// The next candidate rate to probe, or nothing once all candidates
    /// are exhausted and detection has failed.
    pub fn next_rate(&mut self) -> (r: Option<u32>)
        ensures
            old(self).spec_next() < BAUD_RATE_COUNT ==> r == Some(
                spec_baud_rate_at(old(self).spec_next()),
            ) && final (self).spec_next() == old(self).spec_next() + 1,
            old(self).spec_next() >= BAUD_RATE_COUNT ==> r is None && final (self).spec_next()
                == old(self).spec_next(),
    {
        if self.next >= BAUD_RATE_COUNT {
            return None;
        }
        let rates = baud_rates();
        let rate = rates[self.next];
        self.next = self.next + 1;
        Some(rate)
    }
}

/// Plan the optional rate change once the device's rate is known: the
/// target rate is the configured one (or the fastest, for `Max`), no
/// change is made when the device is already there, and the rate to
/// restore on shutdown is the detected one exactly when restoring is
/// configured.
pub fn adjust_baud_plan(adjust: &AdjustBaudConfig, detected: u32, reset_baud: bool) -> (r: Option<
    (u32, Option<u32>),
>)
    ensures
        match *adjust {
            AdjustBaudConfig::Off => r is None,
            AdjustBaudConfig::Rate(b) => r == (if b != detected {
                Some(
                    (
                        b,
                        if reset_baud {
                            Some(detected)
                        } else {
                            None
                        },
                    ),
                )
            } else {
                None::<(u32, Option<u32>)>
            }),
            AdjustBaudConfig::Max => r == (if spec_baud_rate_at(BAUD_RATE_COUNT - 1) != detected {
                Some(
                    (
                        spec_baud_rate_at(BAUD_RATE_COUNT - 1),
                        if reset_baud {
                            Some(detected)
                        } else {
                            None
                        },
                    ),
                )
            } else {
                None::<(u32, Option<u32>)>
            }),
        },
{
    let target: Option<u32> = match *adjust {
        AdjustBaudConfig::Rate(baud) => Some(baud),
        AdjustBaudConfig::Max => Some(max_baud_rate()),
        AdjustBaudConfig::Off => None,
    };
    match target {
        Some(baud) => {
            if baud != detected {
                let previous = if reset_baud {
                    Some(detected)
                } else {
                    None
                };
                Some((baud, previous))
            } else {
                None
            }
        },
        None => None,
    }
}

/// The rate-change command `<{baud}\r` as bytes.
pub open spec fn spec_baud_command(baud: u32) -> Seq<u8> {
    seq![60u8] + dec_bytes(baud as int) + seq![13u8]
}

/// Build the rate-change command `<{baud}\r`. The device switches its
/// rate as soon as the carriage return arrives, so no echo can be
/// expected after this command.
pub fn format_baud_command(baud: u32) -> (r: Vec<u8>)
    ensures
        r@ =~= spec_baud_command(baud),
{
    let mut v: Vec<u8> = Vec::new();
    v.push(60);  // '<'
    push_decimal_u32(&mut v, baud);
    v.push(13);  // '\r'
    v
}

} // verus!
