//! Reassembly of the GOES-R HRIT/LRIT downlink: fixed-size transfer frames are
//! demultiplexed by virtual channel, sliced into CRC-checked transport packets, and the
//! packets of each APID are concatenated into LRIT files with typed header records.
pub mod bytes;
pub mod channel;
pub mod crc;
pub mod dcs;
pub mod handlers;
pub mod headers;
pub mod laws;
pub mod lrit;
pub mod packet;
pub mod session;
pub mod stats;
