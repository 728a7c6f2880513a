//! The constants of the protocol.

use vstd::prelude::*;

verus! {

/// The version of the protocol.
pub const MORSH_PROTOCOL_VERSION: u32 = 2;

/// The same version under the name that the protocol is known by.
pub const MOSH_PROTOCOL_VERSION: u32 = 2;

/// Bytes added to a fragment before encryption and around it: 8 nonce, 4 timestamps.
pub const ADDED_BYTES: usize = 12;

/// Bytes added by encryption: the tag.
pub const SESSION_ADDED_BYTES: usize = 16;

/// Bytes of a fragment's header: 8 id, 2 flag and number.
pub const FRAG_HEADER_LEN: usize = 10;

pub const SEND_INTERVAL_MIN_MS: u64 = 20;

pub const SEND_INTERVAL_MAX_MS: u64 = 250;

pub const ACK_INTERVAL_MS: u64 = 3000;

pub const ACK_DELAY_MS: u64 = 100;

pub const SEND_MINDELAY_MS: u64 = 8;

pub const ACTIVE_RETRY_TIMEOUT_MS: u64 = 10000;

pub const MIN_RTO_MS: u64 = 50;

pub const MAX_RTO_MS: u64 = 1000;

pub const PORT_RANGE_LOW: u16 = 60001;

pub const PORT_RANGE_HIGH: u16 = 60999;

pub const PORT_HOP_INTERVAL_MS: u64 = 10000;

pub const MAX_PORTS_OPEN: usize = 10;

pub const MAX_OLD_SOCKET_AGE_MS: u64 = 60000;

pub const SERVER_ASSOCIATION_TIMEOUT_MS: u64 = 40000;

pub const SHUTDOWN_RETRIES: u32 = 16;

pub const CHAFF_MAX: usize = 16;

pub const CONGESTION_TIMESTAMP_PENALTY_MS: u64 = 500;

/// 1280 less 20 bytes of IPv4 header and 8 of UDP header.
pub const MTU_IPV4: usize = 1252;

/// 1280 less 40 bytes of IPv6 header, 16 of extensions and 8 of UDP header.
pub const MTU_IPV6: usize = 1216;

pub const MTU_FALLBACK: usize = 500;

/// The room for a fragment's payload in a packet of `mtu` bytes.
pub open spec fn payload_room(mtu: int) -> int {
    if mtu >= ADDED_BYTES + SESSION_ADDED_BYTES + FRAG_HEADER_LEN {
        mtu - (ADDED_BYTES + SESSION_ADDED_BYTES + FRAG_HEADER_LEN)
    } else {
        0
    }
}

/// The room for a fragment's payload in a packet of `mtu` bytes.
pub fn max_fragment_payload(mtu: usize) -> (res: usize)
    ensures
        res == payload_room(mtu as int),
{
    mtu.saturating_sub(ADDED_BYTES + SESSION_ADDED_BYTES + FRAG_HEADER_LEN)
}

/// A packet holds a fragment's payload and thirty-eight bytes more: a nonce of eight, two timestamps
/// of two, a tag of sixteen and a header of ten. What is shorter has no room.
pub proof fn packets_are_filled(mtu: int)
    ensures
        mtu >= 38 ==> 8 + 4 + 16 + 10 + payload_room(mtu) == mtu,
        mtu <= 38 ==> payload_room(mtu) == 0,
        payload_room(MTU_IPV4 as int) == 1280 - 20 - 8 - 38,
        payload_room(MTU_IPV6 as int) == 1280 - 40 - 16 - 8 - 38,
{
}

/// The timing and the sizes of the protocol.
pub proof fn protocol_is_fixed()
    ensures
        MORSH_PROTOCOL_VERSION == 2 && MOSH_PROTOCOL_VERSION == 2,
        ADDED_BYTES == 12 && SESSION_ADDED_BYTES == 16 && FRAG_HEADER_LEN == 10,
        SEND_INTERVAL_MIN_MS == 20 && SEND_INTERVAL_MAX_MS == 250,
        ACK_INTERVAL_MS == 3000 && ACK_DELAY_MS == 100 && SEND_MINDELAY_MS == 8,
        ACTIVE_RETRY_TIMEOUT_MS == 10000,
        MIN_RTO_MS == 50 && MAX_RTO_MS == 1000,
        PORT_RANGE_LOW == 60001 && PORT_RANGE_HIGH == 60999,
        PORT_HOP_INTERVAL_MS == 10000 && MAX_PORTS_OPEN == 10 && MAX_OLD_SOCKET_AGE_MS == 60000,
        SERVER_ASSOCIATION_TIMEOUT_MS == 40000,
        SHUTDOWN_RETRIES == 16,
        CHAFF_MAX == 16,
        CONGESTION_TIMESTAMP_PENALTY_MS == 500,
        MTU_IPV4 == 1252 && MTU_IPV6 == 1216 && MTU_FALLBACK == 500,
{
}

} // verus!
