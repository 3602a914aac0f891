use ping_store::address::{ipv4_octets, HostAddress};
use ping_store::bit_stream::StreamError;
use ping_store::host_state_database::{Level2HostStateDatabase, ResolveError, ShardLocation};
use ping_store::ping_job::{addresses_in_range, record_write, RecordWrite};
use ping_store::ping_state::{BinaryPingState, GeneralPingState, TimeTaken};
use ping_store::pinger::{ping_result_state, PingResult, MAX_RTT_MILLIS};

fn one_bit_database() -> Level2HostStateDatabase {
    Level2HostStateDatabase { db_path: String::from("db"), record_bit_size: 1 }
}

#[test]
fn octets_of_an_address_number() {
    assert_eq!(ipv4_octets(0xC0A8_0001), [192, 168, 0, 1]);
    assert_eq!(ipv4_octets(0), [0, 0, 0, 0]);
    assert_eq!(ipv4_octets(u32::MAX), [255, 255, 255, 255]);
    assert_eq!(ipv4_octets(0x0102_0304), [1, 2, 3, 4]);
    assert_eq!(ipv4_octets(0x0A01_0005), [10, 1, 0, 5]);
}

#[test]
fn range_holds_every_address_in_ascending_order() {
    let hosts = addresses_in_range(0x0A01_00FE, 0x0A01_0101);
    assert_eq!(
        hosts,
        vec![
            HostAddress::V4([10, 1, 0, 254]),
            HostAddress::V4([10, 1, 0, 255]),
            HostAddress::V4([10, 1, 1, 0]),
            HostAddress::V4([10, 1, 1, 1]),
        ]
    );
}

#[test]
fn range_of_one_address_and_of_none() {
    assert_eq!(addresses_in_range(7, 7), vec![HostAddress::V4([0, 0, 0, 7])]);
    assert_eq!(addresses_in_range(8, 7), Vec::new());
    assert_eq!(addresses_in_range(u32::MAX, 0), Vec::new());
}

#[test]
fn range_up_to_the_last_address() {
    assert_eq!(
        addresses_in_range(u32::MAX - 1, u32::MAX),
        vec![HostAddress::V4([255, 255, 255, 254]), HostAddress::V4([255, 255, 255, 255])]
    );
    assert_eq!(addresses_in_range(0, 0), vec![HostAddress::V4([0, 0, 0, 0])]);
    assert_eq!(addresses_in_range(0, 999).len(), 1000);
}

#[test]
fn probe_results_become_states() {
    assert_eq!(MAX_RTT_MILLIS, 250);
    let addr = HostAddress::V4([8, 8, 8, 8]);
    assert_eq!(
        ping_result_state(PingResult::Idle { addr }),
        (
            addr,
            GeneralPingState {
                is_up: false,
                is_tested: true,
                time_taken: TimeTaken { secs: 0, subsec_nanos: 250_000_000 },
            }
        )
    );
    let rtt = TimeTaken { secs: 0, subsec_nanos: 17_000_000 };
    assert_eq!(
        ping_result_state(PingResult::Receive { addr, rtt }),
        (addr, GeneralPingState { is_up: true, is_tested: true, time_taken: rtt })
    );
    let v6 = HostAddress::V6([0x20, 0x01, 0x48, 0x60, 0x48, 0x60, 0, 0, 0, 0, 0, 0, 0, 0, 0x88, 0x88]);
    assert_eq!(ping_result_state(PingResult::Idle { addr: v6 }).0, v6);
}

#[test]
fn record_for_a_host_that_answered() {
    let state = GeneralPingState {
        is_up: true,
        is_tested: true,
        time_taken: TimeTaken::from_millis(3),
    };
    assert_eq!(
        record_write(&one_bit_database(), HostAddress::V4([10, 1, 0, 5]), state),
        Ok(RecordWrite {
            location: ShardLocation { first_octet: 10, second_octet: 1, len: 8192, offset: 5 },
            state: BinaryPingState(true),
        })
    );
}

#[test]
fn record_for_an_address_that_is_not_ipv4() {
    let state = GeneralPingState {
        is_up: true,
        is_tested: true,
        time_taken: TimeTaken::from_millis(3),
    };
    assert_eq!(
        record_write(&one_bit_database(), HostAddress::V6([0; 16]), state),
        Err(ResolveError::NotIpv4)
    );
}

#[test]
fn record_is_applied_to_its_shard_only_where_it_fits() {
    let write = RecordWrite {
        location: ShardLocation { first_octet: 10, second_octet: 1, len: 2, offset: 15 },
        state: BinaryPingState(true),
    };
    let mut shard = vec![0u8; 2];
    assert_eq!(write.apply(&mut shard), Ok(()));
    assert_eq!(shard, vec![0x00, 0x01]);
    let mut short = vec![0u8; 1];
    assert_eq!(write.apply(&mut short), Err(StreamError::UnexpectedEof));
    assert_eq!(short, vec![0x00]);
}

#[test]
fn scan_of_two_hosts_end_to_end() {
    let db = one_bit_database();
    let hosts = addresses_in_range(0x0A01_0005, 0x0A01_0006);
    assert_eq!(hosts, vec![HostAddress::V4([10, 1, 0, 5]), HostAddress::V4([10, 1, 0, 6])]);
    let results = [
        PingResult::Receive {
            addr: hosts[0],
            rtt: TimeTaken { secs: 0, subsec_nanos: 4_000_000 },
        },
        PingResult::Idle { addr: hosts[1] },
    ];

    for fill in [0x00u8, 0xFF] {
        let mut shard: Vec<u8> = vec![fill; 100];
        for result in results {
            let (addr, state) = ping_result_state(result);
            let write = record_write(&db, addr, state).unwrap();
            assert_eq!((write.location.first_octet, write.location.second_octet), (10, 1));
            assert_eq!(write.location.directory_name(), "10");
            assert_eq!(write.location.file_name(), "1.bin");
            write.location.force_len(&mut shard);
            assert_eq!(shard.len(), 8192);
            write.apply(&mut shard).unwrap();
        }
        assert_eq!(BinaryPingState::read_from(&shard, 5), Ok(BinaryPingState(true)));
        assert_eq!(BinaryPingState::read_from(&shard, 6), Ok(BinaryPingState(false)));
        let first = (fill | 0b0000_0100) & 0b1111_1101;
        assert_eq!(shard[0], first);
        assert!(shard[1..100].iter().all(|byte| *byte == fill));
        assert!(shard[100..].iter().all(|byte| *byte == 0));
    }
}
