//! Station-mode Wi-Fi decisions: the status reported each frame with its
//! reconnect counter, and the client settings for a join request.

use vstd::prelude::*;

verus! {

/// Reconnect attempts reported before giving up.
pub const MAX_RETRY: u8 = 10;

/// Longest SSID, in bytes, a join request carries.
pub const SSID_MAX: usize = 32;
/// Longest password, in bytes, a join request carries.
pub const PASSWORD_MAX: usize = 64;

/// Connection state shown to the user.
#[derive(Clone, Copy, PartialEq, Eq, Debug, Structural)]
pub enum WifiStatus {
    Idle,
    Connecting,
    Connected,
    Failed,
}

/// The status for one frame: idle before the driver started; connected
/// (and the counter reset) when the link is up; otherwise one more
/// reconnect attempt is counted until `MAX_RETRY`, after which the link
/// has failed.
pub open spec fn status_step(started: bool, connected: bool, retry: u8) -> (WifiStatus, u8) {
    if !started {
        (WifiStatus::Idle, retry)
    } else if connected {
        (WifiStatus::Connected, 0)
    } else if retry < MAX_RETRY {
        (WifiStatus::Connecting, (retry + 1) as u8)
    } else {
        (WifiStatus::Failed, retry)
    }
}

/// The status for this frame, given whether the driver was started and
/// whether the link is up; counts reconnect attempts in `retry_count`.
pub fn tick(started: bool, connected: bool, retry_count: &mut u8) -> (s: WifiStatus)
    ensures
        (s, *final(retry_count)) == status_step(started, connected, *old(retry_count)),
{
    if !started {
        return WifiStatus::Idle;
    }
    if connected {
        *retry_count = 0;
        WifiStatus::Connected
    } else if *retry_count < MAX_RETRY {
        *retry_count = *retry_count + 1;
        WifiStatus::Connecting
    } else {
        WifiStatus::Failed
    }
}

/// Once the counter is within `MAX_RETRY` it stays there, and a link that
/// stays down is reported failed after at most `MAX_RETRY` frames.
pub proof fn lemma_retry_bounded(started: bool, connected: bool, retry: u8)
    requires
        retry <= MAX_RETRY,
    ensures
        status_step(started, connected, retry).1 <= MAX_RETRY,
        started && !connected && retry == MAX_RETRY ==> status_step(started, connected, retry).0
            == WifiStatus::Failed,
        started && connected ==> status_step(started, connected, retry).1 == 0,
{
}

/// How the station authenticates.
#[derive(Clone, Copy, PartialEq, Eq, Debug, Structural)]
pub enum Auth {
    /// Open network.
    Open,
    /// WPA2 with a pre-shared key.
    Wpa2Personal,
}

/// Why a join request cannot be made.
#[derive(Clone, Copy, PartialEq, Eq, Debug, Structural)]
pub enum ConnectError {
    SsidTooLong,
    PasswordTooLong,
}

/// The authentication a join request uses, or why it cannot be made: an
/// SSID over 32 bytes or a password over 64 bytes does not fit the driver's
/// configuration; an empty password means an open network.
pub fn connect_params(ssid: &str, password: &str) -> (r: Result<Auth, ConnectError>)
    ensures
        vstd::utf8::encode_utf8(ssid@).len() > SSID_MAX ==> r == Err::<Auth, ConnectError>(
            ConnectError::SsidTooLong,
        ),
        vstd::utf8::encode_utf8(ssid@).len() <= SSID_MAX && vstd::utf8::encode_utf8(password@).len()
            > PASSWORD_MAX ==> r == Err::<Auth, ConnectError>(ConnectError::PasswordTooLong),
        vstd::utf8::encode_utf8(ssid@).len() <= SSID_MAX && vstd::utf8::encode_utf8(password@).len()
            <= PASSWORD_MAX ==> r == Ok::<Auth, ConnectError>(
            if password@.len() == 0 { Auth::Open } else { Auth::Wpa2Personal },
        ),
{
    let auth = if password.is_empty() { Auth::Open } else { Auth::Wpa2Personal };
    if ssid.as_bytes().len() > SSID_MAX {
        return Err(ConnectError::SsidTooLong);
    }
    if password.as_bytes().len() > PASSWORD_MAX {
        return Err(ConnectError::PasswordTooLong);
    }
    Ok(auth)
}

} // verus!
