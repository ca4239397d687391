//! Configuration model: the immutable snapshot the loader hands the
//! gateway at startup. Durations are carried as whole milliseconds.

use vstd::prelude::*;
use vstd::string::StringExecFns;

use crate::ids::SourceId;
use crate::mqtt::MqttConfig;
use crate::strfmt::dec_chars;
use crate::strfmt::push_decimal_chars;
use crate::zone::ZoneId;

verus! {

/// Transport settings shared by the serial and TCP ports.
#[derive(Clone, Debug)]
pub struct CommonPortConfig {
    /// Read timeout in milliseconds; `None` blocks forever.
    pub read_timeout: Option<u64>,
}

impl CommonPortConfig {
    /// The default read timeout: one second.
    pub fn default_read_timeout() -> (r: Option<u64>)
        ensures
            r == Some(1000u64),
    {
        Some(1000)
    }
}

impl Default for CommonPortConfig {
    fn default() -> (r: Self)
        ensures
            r.read_timeout == Some(1000u64),
    {
        CommonPortConfig { read_timeout: Some(1000) }
    }
}

/// How the local line rate is chosen at startup.
#[derive(Copy, Clone, Debug, PartialEq, Eq, Structural)]
pub enum BaudConfig {
    /// Use this fixed rate.
    Rate(u32),
    /// Probe the device for its current rate.
    Auto,
}

/// Whether to move the device to another line rate once connected.
#[derive(Copy, Clone, Debug, PartialEq, Eq, Structural)]
pub enum AdjustBaudConfig {
    /// Change to this rate.
    Rate(u32),
    /// Change to the fastest supported rate.
    Max,
    /// Leave the rate alone.
    Off,
}

/// Settings for a serial-line connection to the amplifier chain.
#[derive(Clone, Debug)]
pub struct SerialPortConfig {
    pub common: CommonPortConfig,
    /// The serial device path.
    pub device: String,
    pub baud: BaudConfig,
    pub adjust_baud: AdjustBaudConfig,
    /// Restore the original rate when the gateway shuts down.
    pub reset_baud: bool,
}

impl SerialPortConfig {
    /// By default the current rate is probed.
    pub fn default_baud() -> (r: BaudConfig)
        ensures
            r == BaudConfig::Auto,
    {
        BaudConfig::Auto
    }

    /// By default the rate is left alone.
    pub fn default_adjust_baud() -> (r: AdjustBaudConfig)
        ensures
            r == AdjustBaudConfig::Off,
    {
        AdjustBaudConfig::Off
    }

    /// By default an adjusted rate is restored on shutdown.
    pub fn default_reset_baud() -> (r: bool)
        ensures
            r,
    {
        true
    }
}

/// Settings for a raw TCP connection to the amplifier chain.
#[derive(Clone, Debug)]
pub struct TcpPortConfig {
    pub common: CommonPortConfig,
    /// The `raw://host:port` target, kept verbatim for the connection layer.
    pub url: String,
}

/// Which transport carries the device protocol.
#[derive(Clone, Debug)]
pub enum PortConfig {
    Serial(SerialPortConfig),
    Tcp(TcpPortConfig),
}

/// AirPlay volume forwarding settings for one source.
#[derive(Clone, Debug, Default)]
pub struct SourceShairportConfig {
    /// The bus topic on which this source's AirPlay volume arrives.
    pub volume_topic: Option<String>,
}

/// One configured audio input source.
#[derive(Clone, Debug)]
pub struct SourceConfig {
    pub name: String,
    pub enabled: bool,
    pub shairport: SourceShairportConfig,
}

impl SourceConfig {
    /// Sources are enabled unless the configuration says otherwise.
    pub fn default_enabled() -> (r: bool)
        ensures
            r,
    {
        true
    }
}

impl Default for SourceConfig {
    fn default() -> (r: Self)
        ensures
            r.name@ == Seq::<char>::empty(),
            r.enabled,
            r.shairport.volume_topic is None,
    {
        let name = String::new();
        proof {
            assert(name@ =~= Seq::<char>::empty());
        }
        SourceConfig { name, enabled: true, shairport: SourceShairportConfig { volume_topic: None } }
    }
}

/// AirPlay volume mapping overrides for one zone.
#[derive(Clone, Debug, Default)]
pub struct ZoneShairportConfig {
    pub max_volume: Option<u8>,
    pub volume_offset: Option<i8>,
}

/// One configured zone.
#[derive(Clone, Debug)]
pub struct ZoneConfig {
    pub name: String,
    pub shairport: ZoneShairportConfig,
}

/// The amplifier section: what to poll, how often, and the configured
/// zones and sources.
#[derive(Clone, Debug)]
pub struct AmpConfig {
    /// Poll interval in milliseconds.
    pub poll_interval: u64,
    pub manufacturer: Option<String>,
    pub model: Option<String>,
    pub serial: Option<String>,
    /// The sources exactly as configured; `sources()` completes them with
    /// defaults.
    pub sources: Vec<(SourceId, SourceConfig)>,
    pub zones: Vec<(ZoneId, ZoneConfig)>,
}

/// The name given to a source the configuration does not mention:
/// `Source {id}`.
pub open spec fn spec_default_source_name(id: SourceId) -> Seq<char> {
    "Source "@ + dec_chars(id.spec_to_byte() as int)
}

/// Whether the configured sources mention the id.
pub open spec fn spec_has_source(sources: Seq<(SourceId, SourceConfig)>, id: SourceId) -> bool {
    exists|i: int| 0 <= i < sources.len() && sources[i].0 == id
}

impl AmpConfig {
    /// The sources exactly as configured.
    pub open spec fn spec_sources(self) -> Seq<(SourceId, SourceConfig)> {
        self.sources@
    }

    /// The configured sources, completed with a default entry named
    /// `Source {id}` for every source id the configuration leaves out:
    /// exactly the configured entries first, then exactly the missing
    /// ids, in ascending order, each enabled under its default name.
    pub fn sources(&self) -> (r: Vec<(SourceId, SourceConfig)>)
        ensures
            r@.len() >= self.spec_sources().len(),
            r@.take(self.spec_sources().len() as int) =~= self.spec_sources(),
            forall|i: int|
                self.spec_sources().len() <= i < r@.len() ==> (#[trigger] r@[i]).1.enabled && r@[
                i].1.name@ == spec_default_source_name(r@[i].0) && r@[i].1.shairport.volume_topic
                    is None,
            forall|a: int, b: int|
                self.spec_sources().len() <= a < b < r@.len() ==> (#[trigger] r@[
                a]).0.spec_to_byte() < (#[trigger] r@[b]).0.spec_to_byte(),
            forall|i: int|
                self.spec_sources().len() <= i < r@.len() ==> !spec_has_source(
                    self.spec_sources(),
                    (#[trigger] r@[i]).0,
                ),
            forall|id: SourceId|
                id.wf() && !spec_has_source(self.spec_sources(), id) ==> exists|i: int|
                    self.spec_sources().len() <= i < r@.len() && (#[trigger] r@[i]).0 == id,
            forall|id: SourceId|
                id.wf() ==> exists|i: int| 0 <= i < r@.len() && (#[trigger] r@[i]).0 == id,
    {
        let mut out: Vec<(SourceId, SourceConfig)> = Vec::new();
        let mut i: usize = 0;
        while i < self.sources.len()
            invariant
                i <= self.sources@.len(),
                out@ =~= self.sources@.take(i as int),
            decreases self.sources@.len() - i,
        {
            let (id, cfg) = &self.sources[i];
            let copy = SourceConfig {
                name: cfg.name.clone(),
                enabled: cfg.enabled,
                shairport: SourceShairportConfig {
                    volume_topic: match &cfg.shairport.volume_topic {
                        Some(t) => Some(t.clone()),
                        None => None,
                    },
                },
            };
            proof {
                assert(copy == self.sources@[i as int].1);
            }
            out.push((*id, copy));
            proof {
                assert(out@ =~= self.sources@.take(i + 1));
            }
            i = i + 1;
        }
        proof {
            assert(self.sources@.take(self.sources@.len() as int) =~= self.sources@);
        }
        let ghost configured = self.sources@.len() as int;
        let all = SourceId::all();
        let mut k: usize = 0;
        while k < all.len()
            invariant
                k <= all@.len(),
                all@.len() == 6,
                forall|j: int| 0 <= j < 6 ==> (#[trigger] all@[j]).spec_to_byte() == j + 1,
                forall|j: int| 0 <= j < 6 ==> (#[trigger] all@[j]).wf(),
                configured == self.sources@.len(),
                out@.len() >= configured,
                out@.take(configured) =~= self.sources@,
                forall|i: int|
                    configured <= i < out@.len() ==> (#[trigger] out@[i]).1.enabled && out@[
                    i].1.name@ == spec_default_source_name(out@[i].0)
                        && out@[i].1.shairport.volume_topic is None,
                forall|i: int|
                    configured <= i < out@.len() ==> 1 <= (#[trigger] out@[i]).0.spec_to_byte()
                        <= k,
                forall|a: int, b: int|
                    configured <= a < b < out@.len() ==> (#[trigger] out@[a]).0.spec_to_byte() < (
                    #[trigger] out@[b]).0.spec_to_byte(),
                forall|i: int|
                    configured <= i < out@.len() ==> !spec_has_source(
                        self.sources@,
                        (#[trigger] out@[i]).0,
                    ),
                forall|j: int|
                    #![trigger all@[j]]
                    0 <= j < k ==> spec_has_source(self.sources@, all@[j]) || exists|i: int|
                        configured <= i < out@.len() && (#[trigger] out@[i]).0 == all@[j],
                forall|j: int|
                    #![trigger all@[j]]
                    0 <= j < k ==> exists|i: int|
                        0 <= i < out@.len() && (#[trigger] out@[i]).0 == all@[j],
            decreases all@.len() - k,
        {
            let id = all[k];
            let mut present: bool = false;
            let mut j: usize = 0;
            while j < out.len() && !present
                invariant
                    j <= out@.len(),
                    !present ==> forall|b: int| 0 <= b < j ==> (#[trigger] out@[b]).0 != id,
                    present ==> exists|b: int| 0 <= b < out@.len() && (#[trigger] out@[b]).0 == id,
                decreases out@.len() - j + (if present {
                    0int
                } else {
                    1int
                }),
            {
                if out[j].0 == id {
                    present = true;
                } else {
                    j = j + 1;
                }
            }
            if !present {
                let mut name = "Source ".to_owned();
                push_decimal_chars(&mut name, id.to_byte() as u32);
                let ghost pre = out@;
                proof {
                    // the id is nowhere in the result so far, so in
                    // particular the configuration misses it
                    if spec_has_source(self.sources@, id) {
                        let w = choose|w: int|
                            0 <= w < self.sources@.len() && self.sources@[w].0 == id;
                        assert(pre.take(configured)[w] == pre[w]);
                        assert(pre[w].0 == id);
                        assert(false);
                    }
                }
                out.push(
                    (
                        id,
                        SourceConfig {
                            name,
                            enabled: true,
                            shairport: SourceShairportConfig { volume_topic: None },
                        },
                    ),
                );
                proof {
                    assert(out@.drop_last() =~= pre);
                    assert(out@.take(configured) =~= pre.take(configured));
                    assert(out@.last().1.name@ == spec_default_source_name(id));
                    assert(out@.last().0.spec_to_byte() == k + 1);
                    assert forall|a: int, b: int|
                        configured <= a < b < out@.len() implies (#[trigger] out@[
                    a]).0.spec_to_byte() < (#[trigger] out@[b]).0.spec_to_byte() by {
                        if b == out@.len() - 1 {
                            assert(out@[a] == pre[a]);
                            assert(pre[a].0.spec_to_byte() <= k);
                        } else {
                            assert(out@[a] == pre[a] && out@[b] == pre[b]);
                        }
                    }
                    assert forall|jj: int| #![trigger all@[jj]] 0 <= jj < k + 1 implies exists|
                        i: int,
                    |
                        0 <= i < out@.len() && (#[trigger] out@[i]).0 == all@[jj] by {
                        if jj < k {
                            let i = choose|i: int|
                                0 <= i < pre.len() && (#[trigger] pre[i]).0 == all@[jj];
                            assert(out@[i].0 == all@[jj]);
                        } else {
                            assert(out@[out@.len() - 1].0 == all@[jj]);
                        }
                    }
                }
            } else {
                proof {
                    // the id is already in the result: in the suffix it
                    // would carry an earlier candidate's number, so it
                    // sits in the configured prefix
                    let b = choose|b: int| 0 <= b < out@.len() && (#[trigger] out@[b]).0 == id;
                    if b >= configured {
                        assert(out@[b].0.spec_to_byte() <= k);
                        assert(id.spec_to_byte() == k + 1);
                        assert(false);
                    } else {
                        assert(out@.take(configured)[b] == out@[b]);
                        assert(self.sources@[b].0 == id);
                        assert(spec_has_source(self.sources@, id));
                    }
                }
            }
            k = k + 1;
        }
        proof {
            assert forall|id: SourceId| id.wf() implies exists|i: int|
                0 <= i < out@.len() && (#[trigger] out@[i]).0 == id by {
                let j = id.spec_to_byte() - 1;
                assert(all@[j as int].spec_to_byte() == id.spec_to_byte());
                SourceId::lemma_byte_injective(all@[j as int], id);
                assert(all@[j as int] == id);
            }
            assert forall|id: SourceId|
                id.wf() && !spec_has_source(self.spec_sources(), id) implies exists|i: int|
                self.spec_sources().len() <= i < out@.len() && (#[trigger] out@[i]).0 == id by {
                let j = id.spec_to_byte() - 1;
                assert(all@[j as int].spec_to_byte() == id.spec_to_byte());
                SourceId::lemma_byte_injective(all@[j as int], id);
                assert(all@[j as int] == id);
            }
        }
        out
    }
}

/// The logging section. The gateway takes its logger as an injected
/// collaborator, so nothing is configured here yet.
#[derive(Clone, Debug, Default)]
pub struct LoggingConfig {}

/// Global AirPlay volume mapping defaults.
#[derive(Clone, Debug)]
pub struct ShairportConfig {
    /// The loudest volume an AirPlay adjustment may set.
    pub max_zone_volume: u8,
    /// Offset added to every mapped AirPlay volume.
    pub zone_volume_offset: i8,
}

impl ShairportConfig {
    /// By default AirPlay may use the whole volume range.
    pub fn default_max_zone_volume() -> (r: u8)
        ensures
            r == crate::zone::VOLUME_MAX,
    {
        crate::zone::VOLUME_MAX
    }

    /// By default no offset is applied.
    pub fn default_zone_volume_offset() -> (r: i8)
        ensures
            r == 0,
    {
        0
    }
}

impl Default for ShairportConfig {
    fn default() -> (r: Self)
        ensures
            r.max_zone_volume == crate::zone::VOLUME_MAX,
            r.zone_volume_offset == 0,
    {
        ShairportConfig { max_zone_volume: crate::zone::VOLUME_MAX, zone_volume_offset: 0 }
    }
}

/// The whole configuration snapshot.
#[derive(Clone, Debug)]
pub struct Config {
    pub logging: LoggingConfig,
    pub port: PortConfig,
    pub mqtt: MqttConfig,
    pub amp: AmpConfig,
    pub shairport: ShairportConfig,
}

} // verus!
