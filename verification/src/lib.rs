//! Storage of the liveness of IPv4 hosts, one record of a few bits for each
//! address.
//!
//! The records of all addresses that share their first two octets stand in
//! one file of fixed length, a shard, in the order of the last two octets.
//! A record takes less than a byte, so writing one means replacing single
//! bits of a byte that other records share.
//!
//! * [`bit_stream`] reads and writes single bits of a byte stream.
//! * [`ping_state`] holds the representations of the state of a host and
//!   stores them in a stream.
//! * [`address`] holds host addresses and their octets.
//! * [`host_state_database`] finds the shard and the record of an address.
//! * [`pinger`] turns the result of a probe into a state.
//! * [`ping_job`] lists the addresses of a range and says what to write for
//!   each result.
//!
//! Nothing here opens a file or a socket. The functions compute which file
//! to open, which length to give it and which byte to replace by which, and
//! they carry out the same steps on bytes in memory.

pub mod address;
pub mod bit_stream;
pub mod host_state_database;
pub mod ping_job;
pub mod ping_state;
pub mod pinger;
