//! Soft-AP provisioning state: the credentials a phone sends while the
//! device runs its own access point, and the provisioning clock.

use vstd::prelude::*;

verus! {

/// Name of the access point the device opens for provisioning.
pub const AP_SSID: &'static str = "u8gg-Config";

/// A network name of at most 32 bytes, kept in a `heapless::String<32>`.
#[verifier::external_body]
pub struct SsidString {
    s: heapless::String<32>,
}

/// A password of at most 64 bytes, kept in a `heapless::String<64>`.
#[verifier::external_body]
pub struct PasswordString {
    s: heapless::String<64>,
}

/// The characters an `SsidString` holds.
pub uninterp spec fn ssid_chars(s: SsidString) -> Seq<char>;

/// The characters a `PasswordString` holds.
pub uninterp spec fn password_chars(s: PasswordString) -> Seq<char>;

/// `heapless::String::<32>::new()`: an empty string.
#[verifier::external_body]
fn empty_ssid() -> (r: SsidString)
    ensures
        ssid_chars(r) == Seq::<char>::empty(),
{
    SsidString { s: heapless::String::new() }
}

/// `heapless::String::<64>::new()`: an empty string.
#[verifier::external_body]
fn empty_password() -> (r: PasswordString)
    ensures
        password_chars(r) == Seq::<char>::empty(),
{
    PasswordString { s: heapless::String::new() }
}

/// Credentials received from the phone.
pub struct WifiCreds {
    pub ssid: SsidString,
    pub password: PasswordString,
    pub received: bool,
}

/// Provisioning state: credentials, whether the access point is up, and
/// milliseconds elapsed (wrapping).
pub struct Provisioning {
    pub creds: WifiCreds,
    pub started: bool,
    pub tick_ms: u32,
}

impl Provisioning {
    /// Nothing received, access point not started, clock at zero.
    pub fn new() -> (p: Self)
        ensures
            ssid_chars(p.creds.ssid) == Seq::<char>::empty(),
            password_chars(p.creds.password) == Seq::<char>::empty(),
            !p.creds.received,
            !p.started,
            p.tick_ms == 0,
    {
        Provisioning {
            creds: WifiCreds { ssid: empty_ssid(), password: empty_password(), received: false },
            started: false,
            tick_ms: 0,
        }
    }

    /// Records that the access point was configured.
    pub fn mark_started(&mut self)
        ensures
            final(self).started,
            final(self).tick_ms == old(self).tick_ms,
            final(self).creds == old(self).creds,
    {
        self.started = true;
    }

    /// Advances the clock by `dt_ms` milliseconds, wrapping at 2^32.
    pub fn tick(&mut self, dt_ms: u32)
        ensures
            final(self).tick_ms == (old(self).tick_ms + dt_ms) % 0x1_0000_0000,
            final(self).started == old(self).started,
            final(self).creds == old(self).creds,
    {
        self.tick_ms = self.tick_ms.wrapping_add(dt_ms);
    }

    /// Whether credentials were received.
    pub fn has_creds(&self) -> (b: bool)
        ensures
            b == self.creds.received,
    {
        self.creds.received
    }
}

} // verus!
