//! The rules of the Bluetooth Low Energy link.

use vstd::prelude::*;

verus! {

/// The most bytes that one write takes on the link: the unit of the
/// attribute protocol less its header.
pub const BLE_MTU: usize = 247 - 3;

/// Number of times that a connection is tried before it is given up.
pub const MAX_RETRIES: usize = 3;

/// Milliseconds to rest between two tries of a connection.
pub const RETRY_DELAY_MS: u64 = 1000;

/// A device as the scan shows it.
#[derive(Debug, Clone)]
pub struct BleDevice {
    pub name: String,
    pub address: String,
    pub isconnected: bool,
}

/// Why the link refuses a write before it reaches the radio.
#[derive(Debug, Clone, Copy, PartialEq, Eq, Structural)]
pub enum TransferError {
    /// The write holds `len` bytes, and the link takes `mtu` at most.
    TooLarge { len: usize, mtu: usize },
}

/// What to do after a try of a connection failed.
#[derive(Debug, Clone, Copy, PartialEq, Eq, Structural)]
pub enum ConnectRetry {
    /// Rest for this many milliseconds, then try again.
    After { delay_ms: u64 },
    /// Give up: every try has failed.
    GiveUp,
}

/// Admits a write of `len` bytes on a link that takes `mtu` bytes: a write
/// is refused exactly where it is longer than that.
pub fn check_send(len: usize, mtu: usize) -> (admitted: Result<(), TransferError>)
    ensures
        admitted is Ok <==> len <= mtu,
        admitted is Err ==> admitted == Err::<(), TransferError>(
            TransferError::TooLarge { len, mtu },
        ),
{
    if len <= mtu {
        Ok(())
    } else {
        Err(TransferError::TooLarge { len, mtu })
    }
}

/// Says what to do once `failed` tries of a connection have failed: try
/// again after a rest while fewer than [`MAX_RETRIES`] have, and give up
/// from then on.
pub fn after_connect_failure(failed: usize) -> (retry: ConnectRetry)
    ensures
        failed < MAX_RETRIES ==> retry == (ConnectRetry::After { delay_ms: RETRY_DELAY_MS }),
        failed >= MAX_RETRIES ==> retry == ConnectRetry::GiveUp,
{
    if failed < MAX_RETRIES {
        ConnectRetry::After { delay_ms: RETRY_DELAY_MS }
    } else {
        ConnectRetry::GiveUp
    }
}

} // verus!
