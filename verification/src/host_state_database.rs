//! Where the record of an address is kept: one file for each pair of leading
//! octets, one record offset for each pair of trailing octets.
//!
//! Below the root of a database stands one directory for each first octet,
//! named by the octet in decimal notation. It holds one file for each second
//! octet, named by that octet in decimal notation and the extension `.bin`.
//! Such a file, a shard, holds the records of the 65536 addresses that share
//! those two octets, in the order of their last two octets. Nothing here
//! touches the file system: a [`ShardLocation`] says which file to open, how
//! long it has to be made, and where in it the record stands.
//!
//! A shard always has the one length that follows from the size of a record.
//! A file that is shorter is filled up with zero bytes, which read as records
//! of hosts that were not tested. A file that is longer is cut, and what
//! stood beyond that length is lost: a database is meant to be used with one
//! record size for as long as it exists.

use crate::address::HostAddress;
use vstd::prelude::*;

verus! {

/// The decimal digit for `d`.
pub open spec fn digit(d: nat) -> char
    recommends
        d < 10,
{
    if d == 0 {
        '0'
    } else if d == 1 {
        '1'
    } else if d == 2 {
        '2'
    } else if d == 3 {
        '3'
    } else if d == 4 {
        '4'
    } else if d == 5 {
        '5'
    } else if d == 6 {
        '6'
    } else if d == 7 {
        '7'
    } else if d == 8 {
        '8'
    } else {
        '9'
    }
}

/// `n` in decimal notation, without leading zeros.
pub open spec fn decimal(n: nat) -> Seq<char>
    decreases n,
{
    if n < 10 {
        seq![digit(n)]
    } else {
        decimal(n / 10).push(digit(n % 10))
    }
}

fn digit_str(d: u8) -> (s: &'static str)
    requires
        d < 10,
    ensures
        s@ == seq![digit(d as nat)],
{
    proof {
        reveal_strlit("0");
        reveal_strlit("1");
        reveal_strlit("2");
        reveal_strlit("3");
        reveal_strlit("4");
        reveal_strlit("5");
        reveal_strlit("6");
        reveal_strlit("7");
        reveal_strlit("8");
        reveal_strlit("9");
    }
    let s = if d == 0 {
        "0"
    } else if d == 1 {
        "1"
    } else if d == 2 {
        "2"
    } else if d == 3 {
        "3"
    } else if d == 4 {
        "4"
    } else if d == 5 {
        "5"
    } else if d == 6 {
        "6"
    } else if d == 7 {
        "7"
    } else if d == 8 {
        "8"
    } else {
        "9"
    };
    s
}

/// Different octets have different names.
pub proof fn lemma_decimal_distinct(a: u8, b: u8)
    ensures
        decimal(a as nat) == decimal(b as nat) <==> a == b,
{
    reveal_with_fuel(decimal, 3);
    let da = decimal(a as nat);
    let db = decimal(b as nat);
    if da == db {
        assert(da[da.len() - 1] == db[db.len() - 1]);
        if a >= 10 {
            assert(da[da.len() - 2] == db[db.len() - 2]);
        }
        if a >= 100 {
            assert(da[0] == db[0]);
        }
    }
}

/// An octet in decimal notation.
pub fn octet_name(octet: u8) -> (name: String)
    ensures
        name@ == decimal(octet as nat),
{
    let mut name = String::new();
    if octet >= 100 {
        name.append(digit_str(octet / 100));
    }
    if octet >= 10 {
        name.append(digit_str((octet / 10) % 10));
    }
    name.append(digit_str(octet % 10));
    proof {
        reveal_with_fuel(decimal, 3);
    }
    name
}

/// The number of addresses whose records one shard holds.
pub const SHARD_RECORDS: u64 = 65536;

/// The length in bytes of a shard whose records have `record_bit_size` bits
/// each: the bytes that 65536 such records need, a last byte that is only
/// partly used counted in full.
pub open spec fn shard_bytes(record_bit_size: nat) -> nat {
    ((SHARD_RECORDS * record_bit_size + 7) / 8) as nat
}

/// `bytes` cut or filled up with zero bytes to the length `len`.
pub open spec fn sized(bytes: Seq<u8>, len: nat) -> Seq<u8> {
    Seq::new(
        len,
        |i: int|
            if i < bytes.len() {
                bytes[i]
            } else {
                0u8
            },
    )
}

/// The file that holds the record of an address, and where in it the record
/// stands.
#[derive(Debug, Clone, Copy, PartialEq, Eq, Structural)]
pub struct ShardLocation {
    /// The first octet of the addresses in the shard. It names the directory.
    pub first_octet: u8,
    /// The second octet of the addresses in the shard. It names the file.
    pub second_octet: u8,
    /// The length in bytes that the file is given whenever it is opened.
    pub len: u64,
    /// The number of the record within the shard, in records.
    pub offset: usize,
}

impl ShardLocation {
    /// The name of the directory below the root of the database.
    pub open spec fn directory(&self) -> Seq<char> {
        decimal(self.first_octet as nat)
    }

    /// The name of the file in its directory.
    pub open spec fn file(&self) -> Seq<char> {
        decimal(self.second_octet as nat) + ".bin"@
    }

    /// Both locations are in the same file.
    pub open spec fn same_file(&self, other: &ShardLocation) -> bool {
        self.directory() == other.directory() && self.file() == other.file()
    }

    /// Gives the bytes of a shard the length that the file is given whenever
    /// it is opened, whatever length they had: bytes beyond that length are
    /// cut off, and missing ones are filled up with zero bytes.
    pub fn force_len(&self, shard: &mut Vec<u8>)
        requires
            self.len <= usize::MAX,
        ensures
            final(shard)@.len() == self.len,
            final(shard)@ == sized(old(shard)@, self.len as nat),
    {
        shard.resize(self.len as usize, 0u8);
    }

    /// The name of the directory below the root of the database: the first
    /// octet in decimal notation.
    pub fn directory_name(&self) -> (name: String)
        ensures
            name@ == self.directory(),
    {
        octet_name(self.first_octet)
    }

    /// The name of the file in its directory: the second octet in decimal
    /// notation, with the extension `.bin`.
    pub fn file_name(&self) -> (name: String)
        ensures
            name@ == self.file(),
    {
        let mut name = octet_name(self.second_octet);
        name.append(".bin");
        name
    }
}

/// Why an address has no place in a database.
#[derive(Debug, Clone, Copy, PartialEq, Eq, Structural)]
pub enum ResolveError {
    /// The address is not an IPv4 address: the database holds no other.
    NotIpv4,
}

/// A database that resolves the address of a host to the place of its
/// record.
pub trait HostStateDatabase {
    /// The database can be used.
    spec fn wf(&self) -> bool;

    /// The number of bits of one record.
    spec fn record_bits(&self) -> nat;

    /// The place of the record of the address with the given octets.
    spec fn location_of(&self, ipaddr: [u8; 4]) -> ShardLocation;

    /// Takes an IP address and returns the file that holds the state of that
    /// address and the offset of the record inside the file, in records.
    ///
    /// An IPv4 address has one place, and its record lies within the length
    /// that the file is given. Any other address is refused with
    /// [`ResolveError::NotIpv4`].
    fn ipaddr_to_file_offset(&self, ipaddr: HostAddress) -> (r: Result<ShardLocation, ResolveError>)
        requires
            self.wf(),
        ensures
            match ipaddr {
                HostAddress::V4(octets) => r == Ok::<ShardLocation, ResolveError>(
                    self.location_of(octets),
                ),
                HostAddress::V6(_) => r == Err::<ShardLocation, ResolveError>(
                    ResolveError::NotIpv4,
                ),
            },
            r matches Ok(location) ==> (location.offset + 1) * self.record_bits() <= 8
                * location.len,
    ;
}

/// Stores the states of the addresses from `192.168.0.0` to
/// `192.168.255.255` in the file `192/168.bin` below `db_path`, and those of
/// every other pair of leading octets likewise.
pub struct Level2HostStateDatabase {
    /// The root directory of the database.
    pub db_path: String,
    /// The number of bits of one record.
    pub record_bit_size: u64,
}

impl Level2HostStateDatabase {
    /// The length in bytes that every shard of this database has.
    pub open spec fn shard_size(&self) -> nat {
        shard_bytes(self.record_bit_size as nat)
    }

    /// The length in bytes that every shard of this database has.
    pub fn shard_len(&self) -> (len: u64)
        requires
            self.shard_size() <= u64::MAX,
        ensures
            len == self.shard_size(),
            len == 8192 * self.record_bit_size,
    {
        let bytes_per_bit: u64 = SHARD_RECORDS / 8;
        assert(bytes_per_bit == 8192);
        self.record_bit_size * bytes_per_bit
    }

    /// The length in bytes that every shard of this database has, or `None`
    /// if a `u64` cannot hold it.
    pub fn checked_shard_len(&self) -> (len: Option<u64>)
        ensures
            match len {
                Some(len) => len == self.shard_size(),
                None => self.shard_size() > u64::MAX,
            },
    {
        let bytes_per_bit: u64 = SHARD_RECORDS / 8;
        assert(bytes_per_bit == 8192);
        self.record_bit_size.checked_mul(bytes_per_bit)
    }
}

impl HostStateDatabase for Level2HostStateDatabase {
    /// The length of a shard can be held in a `u64`.
    open spec fn wf(&self) -> bool {
        shard_bytes(self.record_bit_size as nat) <= u64::MAX
    }

    open spec fn record_bits(&self) -> nat {
        self.record_bit_size as nat
    }

    open spec fn location_of(&self, ipaddr: [u8; 4]) -> ShardLocation {
        ShardLocation {
            first_octet: ipaddr[0],
            second_octet: ipaddr[1],
            len: self.shard_size() as u64,
            offset: (ipaddr[2] * 256 + ipaddr[3]) as usize,
        }
    }

    /// The first two octets choose the file, the last two the record in it:
    /// the address `a.b.c.d` has record `c * 256 + d` of the file `a/b.bin`.
    /// Whatever the address, the file is given the one length of all shards.
    fn ipaddr_to_file_offset(&self, ipaddr: HostAddress) -> (r: Result<ShardLocation, ResolveError>)
        ensures
            r matches Ok(location) ==> ipaddr matches HostAddress::V4(octets) && {
                &&& location.first_octet == octets[0]
                &&& location.second_octet == octets[1]
                &&& location.len == shard_bytes(self.record_bit_size as nat)
                &&& location.offset == octets[2] * 256 + octets[3]
            },
    {
        match ipaddr {
            HostAddress::V4(octets) => {
                let len = self.shard_len();
                let offset = octets[2] as usize * 256 + octets[3] as usize;
                proof {
                    let records = offset + 1;
                    let bits = self.record_bit_size as int;
                    assert(records * bits <= 65536 * bits) by (nonlinear_arith)
                        requires
                            0 < records <= 65536,
                            0 <= bits,
                    ;
                }
                Ok(ShardLocation { first_octet: octets[0], second_octet: octets[1], len, offset })
            },
            HostAddress::V6(_) => Err(ResolveError::NotIpv4),
        }
    }
}

/// Two addresses are kept in the same file if their first two octets are
/// equal, and in different files if they differ in one of the two.
pub proof fn lemma_same_file(db: Level2HostStateDatabase, a: [u8; 4], b: [u8; 4])
    ensures
        db.location_of(a).same_file(&db.location_of(b)) <==> a[0] == b[0] && a[1] == b[1],
{
    let at = db.location_of(a);
    let bt = db.location_of(b);
    lemma_decimal_distinct(a[0], b[0]);
    lemma_decimal_distinct(a[1], b[1]);
    let an = decimal(a[1] as nat);
    let bn = decimal(b[1] as nat);
    if at.file() == bt.file() {
        assert(at.file().len() == an.len() + ".bin"@.len());
        assert(bt.file().len() == bn.len() + ".bin"@.len());
        assert forall|i: int| 0 <= i < an.len() implies an[i] == bn[i] by {
            assert(at.file()[i] == an[i]);
            assert(bt.file()[i] == bn[i]);
        }
        assert(an =~= bn);
    }
}

/// Whatever address of a shard is resolved, and whatever length the shard
/// had before, the shard then has the length that belongs to the size of the
/// records.
pub proof fn lemma_fixed_size(db: Level2HostStateDatabase, ipaddr: [u8; 4], before: Seq<u8>)
    requires
        db.wf(),
    ensures
        sized(before, db.location_of(ipaddr).len as nat).len() == shard_bytes(
            db.record_bit_size as nat,
        ),
        shard_bytes(db.record_bit_size as nat) == 8192 * db.record_bit_size,
{
}

/// Within a file every address has a record of its own: two addresses have
/// the same record offset exactly when their last two octets are equal.
pub proof fn lemma_offset_distinct(db: Level2HostStateDatabase, a: [u8; 4], b: [u8; 4])
    ensures
        db.location_of(a).offset == db.location_of(b).offset <==> a[2] == b[2] && a[3] == b[3],
        db.location_of(a).offset < SHARD_RECORDS,
{
}

/// Every bit of a file belongs to the record of one address: the bit with
/// number `bit`, counted from the start of the file, is one of the record
/// with offset `bit / record_bit_size`, whose address has that offset
/// divided by 256 as its third octet and the remainder as its fourth.
pub proof fn lemma_address_of_bit(db: Level2HostStateDatabase, ipaddr: [u8; 4], bit: int)
    requires
        db.record_bit_size > 0,
        db.location_of(ipaddr).offset * db.record_bit_size <= bit < (db.location_of(ipaddr).offset
            + 1) * db.record_bit_size,
    ensures
        bit / (db.record_bit_size as int) == db.location_of(ipaddr).offset,
        bit / (db.record_bit_size as int) / 256 == ipaddr[2],
        bit / (db.record_bit_size as int) % 256 == ipaddr[3],
{
    let offset = db.location_of(ipaddr).offset as int;
    let width = db.record_bit_size as int;
    assert(bit / width == offset) by (nonlinear_arith)
        requires
            width > 0,
            offset * width <= bit < (offset + 1) * width,
    ;
}

} // verus!
