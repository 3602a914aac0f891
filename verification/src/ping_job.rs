//! The steps of a scan of a range of addresses: which hosts to probe, and
//! what to write for each result.

use crate::address::{ipv4_octets, is_ipv4, HostAddress};
use crate::bit_stream::{bits_of, in_stream, StreamError};
use crate::host_state_database::{
    HostStateDatabase, Level2HostStateDatabase, ResolveError, ShardLocation,
};
use crate::ping_state::{record_fits, BinaryPingState, GeneralPingState, PingState};
use vstd::prelude::*;
use vstd::std_specs::convert::FromSpec;

verus! {

/// Every address from `start` to `end`, both included, in ascending order.
/// There is none if `end` is below `start`.
pub fn addresses_in_range(start: u32, end: u32) -> (hosts: Vec<HostAddress>)
    ensures
        hosts@.len() == (if start <= end {
            end - start + 1
        } else {
            0
        }),
        forall|i: int| 0 <= i < hosts@.len() ==> is_ipv4(#[trigger] hosts@[i], start + i),
{
    let mut hosts: Vec<HostAddress> = Vec::new();
    if start > end {
        return hosts;
    }
    let mut ipaddr: u32 = start;
    loop
        invariant_except_break
            hosts@.len() == ipaddr - start,
        invariant
            start <= ipaddr <= end,
            forall|i: int| 0 <= i < hosts@.len() ==> is_ipv4(#[trigger] hosts@[i], start + i),
        ensures
            hosts@.len() == end - start + 1,
            forall|i: int| 0 <= i < hosts@.len() ==> is_ipv4(#[trigger] hosts@[i], start + i),
        decreases end - ipaddr,
    {
        hosts.push(HostAddress::V4(ipv4_octets(ipaddr)));
        if ipaddr == end {
            break ;
        }
        ipaddr += 1;
    }
    hosts
}

/// One record to write: the place of the record and the state to store
/// there.
#[derive(Debug, Clone, Copy, PartialEq, Eq, Structural)]
pub struct RecordWrite {
    /// The file and the record offset in it.
    pub location: ShardLocation,
    /// The state to store.
    pub state: BinaryPingState,
}

/// What is to be written for the state of one probed host: the state as one
/// bit, at the place that the database gives the address.
///
/// Fails with [`ResolveError::NotIpv4`] exactly for an address that is not
/// IPv4.
pub fn record_write(
    db: &Level2HostStateDatabase,
    addr: HostAddress,
    state: GeneralPingState,
) -> (r: Result<RecordWrite, ResolveError>)
    requires
        db.wf(),
    ensures
        match addr {
            HostAddress::V4(octets) => r == Ok::<RecordWrite, ResolveError>(
                RecordWrite {
                    location: db.location_of(octets),
                    state: BinaryPingState::from_spec(state),
                },
            ),
            HostAddress::V6(_) => r == Err::<RecordWrite, ResolveError>(ResolveError::NotIpv4),
        },
        r matches Ok(write) ==> (write.location.offset + 1) * db.record_bit_size <= 8
            * write.location.len,
{
    match db.ipaddr_to_file_offset(addr) {
        Ok(location) => Ok(RecordWrite { location, state: BinaryPingState::from(state) }),
        Err(e) => Err(e),
    }
}

/// No record spans two shards: where the records of a database are those of
/// the representation `S`, a shard of the length that the database gives it
/// holds the whole record of every address that resolves to it.
pub proof fn lemma_record_within_shard<S: PingState>(
    db: Level2HostStateDatabase,
    ipaddr: [u8; 4],
    shard: Seq<u8>,
)
    requires
        db.wf(),
        db.record_bit_size == S::width(),
        shard.len() == db.location_of(ipaddr).len,
    ensures
        record_fits(shard, db.location_of(ipaddr).offset as int, S::width()),
{
    let records = db.location_of(ipaddr).offset + 1;
    let bits = db.record_bit_size as int;
    assert(records * bits <= 65536 * bits) by (nonlinear_arith)
        requires
            0 < records <= 65536,
            0 <= bits,
    ;
}

impl RecordWrite {
    /// Writes the state into its shard, given as the bytes of the file.
    ///
    /// Fails, leaving the shard as it was, exactly when the shard has no
    /// byte for the record. On success the bit of the record holds the state
    /// and no other bit of the shard has changed.
    pub fn apply(&self, shard: &mut [u8]) -> (r: Result<(), StreamError>)
        ensures
            r is Ok <==> in_stream(old(shard)@, self.location.offset as int),
            r matches Err(e) ==> e == StreamError::UnexpectedEof,
            final(shard)@ == self.state.written(old(shard)@, self.location.offset as int),
            final(shard)@.len() == old(shard)@.len(),
            r is Ok ==> bits_of(final(shard)@) == bits_of(old(shard)@).update(
                self.location.offset as int,
                self.state.0,
            ),
    {
        self.state.write_to(shard, self.location.offset)
    }
}

} // verus!
