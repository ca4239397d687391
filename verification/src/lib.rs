//! A gateway between a publish/subscribe message bus and a proprietary
//! multi-zone amplifier control protocol carried over a serial line or a
//! raw TCP socket.
//!
//! The library holds the verified core: the addressing and attribute
//! model (`zone`, `ids`), the device protocol driver (`amp`), baud-rate
//! negotiation (`serial`), the bus subscription correlation table and
//! payload decoding (`mqtt`), the synchronization worker's cycle logic
//! (`worker`), the configuration snapshot (`config`), client-side status
//! types (`client`), and an in-process device emulator (`emu`). The
//! transports, threads and process plumbing around it are ordinary code
//! kept outside the library.

pub mod amp;
pub mod client;
pub mod config;
pub mod emu;
pub mod ids;
pub mod mqtt;
pub mod serial;
pub mod strfmt;
pub mod worker;
pub mod zone;
