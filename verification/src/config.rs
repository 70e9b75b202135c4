//! Development-time configuration: tick rates, limits, and the fixed
//! credentials a local development setup runs with. None of this is for
//! production use.

use vstd::prelude::*;
use vstd::array::ArrayAdditionalExecFns;

verus! {

/// Simulation ticks per second on the server.
pub const DEV_SERVER_TICK_RATE: u64 = 20;

/// One server tick, in milliseconds.
pub const DEV_SERVER_TICK_MILLIS: u64 = 1000 / DEV_SERVER_TICK_RATE;

/// Replication (network) ticks per second.
pub const DEV_NETWORK_TICK_RATE: u64 = 10;

/// One network tick, in milliseconds.
pub const DEV_NETWORK_TICK_MILLIS: u64 = 1000 / DEV_NETWORK_TICK_RATE;

pub const DEV_SERVER_LISTEN_PORT: u16 = 5000;

pub const DEV_SERVER_MAX_CLIENTS: usize = 10;

pub const DEV_CLIENT_TIME_OUT_SEC: i32 = 15;

pub const DEV_TOKEN_EXPIRE_SEC: u64 = 300;

/// Capacity of every snapshot and input buffer.
pub const DEV_MAX_BUFFER_SIZE: usize = 100;

/// The development protocol identifier.
pub fn get_dev_protocol_id() -> (r: u64)
    ensures
        r == 0x655ea1eecade99ad,
{
    0x655ea1eecade99ad
}

/// The bytes of the development private key.
pub open spec fn dev_private_key_bytes() -> Seq<u8> {
    seq![
        0x78u8, 0xe8, 0xbb, 0x30, 0xa2, 0x0b, 0x11, 0xf2,
        0xaa, 0xf6, 0x61, 0x3e, 0xa3, 0xb9, 0xf2, 0x9a,
        0x53, 0x1f, 0xa7, 0x63, 0x27, 0x27, 0x53, 0x69,
        0xe4, 0xb2, 0x34, 0x54, 0x15, 0x48, 0x2c, 0xaf,
    ]
}

/// The development private key, fixed and public by design: it protects
/// nothing and only lets a local client and server pair up.
pub fn get_dev_private_key() -> (r: [u8; 32])
    ensures
        r@ == dev_private_key_bytes(),
{
    let key: [u8; 32] = [
        0x78, 0xe8, 0xbb, 0x30, 0xa2, 0x0b, 0x11, 0xf2,
        0xaa, 0xf6, 0x61, 0x3e, 0xa3, 0xb9, 0xf2, 0x9a,
        0x53, 0x1f, 0xa7, 0x63, 0x27, 0x27, 0x53, 0x69,
        0xe4, 0xb2, 0x34, 0x54, 0x15, 0x48, 0x2c, 0xaf,
    ];
    proof {
        assert(key@ =~= dev_private_key_bytes());
    }
    key
}

/// Relies on std::time::SystemTime: the milliseconds elapsed since the
/// unix epoch, by the system clock. Nothing can be promised of a clock
/// reading; a clock before the epoch reads as zero.
#[verifier::external_body]
fn unix_millis() -> u64 {
    match std::time::SystemTime::now().duration_since(std::time::SystemTime::UNIX_EPOCH) {
        Ok(d) => d.as_millis() as u64,
        Err(_) => 0,
    }
}

/// A development client identity: the wall clock in milliseconds, unique
/// enough for local runs.
pub fn get_dev_client_id() -> u64 {
    unix_millis()
}

/// A development session payload: 16 random bytes standing in for the
/// session identity a backend would issue, zero-padded to the fixed
/// payload size.
pub fn get_dev_user_data() -> (r: [u8; 256])
    ensures
        forall|k: int| 16 <= k < 256 ==> r@[k] == 0,
{
    let mut data: [u8; 256] = [0u8; 256];
    let mut i: usize = 0;
    while i < 16
        invariant
            i <= 16,
            forall|k: int| 16 <= k < 256 ==> data@[k] == 0,
        decreases 16 - i,
    {
        data.set(i, crate::game::random_channel());
        i = i + 1;
    }
    data
}

} // verus!
