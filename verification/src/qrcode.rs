//! QR matrices for the 128x64 display: encoding bytes with the first of
//! versions 2 to 6 that holds them, else version 1 (error correction level
//! M), the Wi-Fi join payload, and a row-major matrix of modules.

use vstd::prelude::*;
use embedded_qr::{EccLevel, QrBuilder, Version1, Version2, Version3, Version4, Version5, Version6, Version10};

verus! {

/// The modules, row by row, of the QR symbol of version `version` that
/// `embedded_qr`'s builder makes for `data`, with error correction level M
/// when `ecc_m` holds and the strongest level that fits otherwise; `None`
/// when the data does not fit that version.
pub uninterp spec fn qr_modules(version: nat, ecc_m: bool, data: Seq<u8>) -> Option<Seq<bool>>;

/// Side length in modules of a symbol of version `v`.
pub open spec fn qr_width(v: nat) -> nat {
    4 * v + 17
}

/// `QrBuilder::<Version1>::new().with_ecc_level(EccLevel::M).build(data)`,
/// its modules read out row by row with `QrMatrix::iter`: named
/// `qr_modules(1, true, data)`, 21 x 21 modules when the data fits.
#[verifier::external_body]
fn build_v1_m(data: &[u8]) -> (r: Option<Vec<bool>>)
    ensures
        match r {
            Some(m) => qr_modules(1, true, data@) == Some(m@) && m@.len() == qr_width(1) * qr_width(1),
            None => qr_modules(1, true, data@) is None,
        },
{
    QrBuilder::<Version1>::new().with_ecc_level(EccLevel::M).build(data).ok().map(|m| m.iter().map(|(_, _, d)| d).collect())
}

/// As `build_v1_m`, for version 2 (25 x 25 modules).
#[verifier::external_body]
fn build_v2_m(data: &[u8]) -> (r: Option<Vec<bool>>)
    ensures
        match r {
            Some(m) => qr_modules(2, true, data@) == Some(m@) && m@.len() == qr_width(2) * qr_width(2),
            None => qr_modules(2, true, data@) is None,
        },
{
    QrBuilder::<Version2>::new().with_ecc_level(EccLevel::M).build(data).ok().map(|m| m.iter().map(|(_, _, d)| d).collect())
}

/// As `build_v1_m`, for version 3 (29 x 29 modules).
#[verifier::external_body]
fn build_v3_m(data: &[u8]) -> (r: Option<Vec<bool>>)
    ensures
        match r {
            Some(m) => qr_modules(3, true, data@) == Some(m@) && m@.len() == qr_width(3) * qr_width(3),
            None => qr_modules(3, true, data@) is None,
        },
{
    QrBuilder::<Version3>::new().with_ecc_level(EccLevel::M).build(data).ok().map(|m| m.iter().map(|(_, _, d)| d).collect())
}

/// As `build_v1_m`, for version 4 (33 x 33 modules).
#[verifier::external_body]
fn build_v4_m(data: &[u8]) -> (r: Option<Vec<bool>>)
    ensures
        match r {
            Some(m) => qr_modules(4, true, data@) == Some(m@) && m@.len() == qr_width(4) * qr_width(4),
            None => qr_modules(4, true, data@) is None,
        },
{
    QrBuilder::<Version4>::new().with_ecc_level(EccLevel::M).build(data).ok().map(|m| m.iter().map(|(_, _, d)| d).collect())
}

/// As `build_v1_m`, for version 5 (37 x 37 modules).
#[verifier::external_body]
fn build_v5_m(data: &[u8]) -> (r: Option<Vec<bool>>)
    ensures
        match r {
            Some(m) => qr_modules(5, true, data@) == Some(m@) && m@.len() == qr_width(5) * qr_width(5),
            None => qr_modules(5, true, data@) is None,
        },
{
    QrBuilder::<Version5>::new().with_ecc_level(EccLevel::M).build(data).ok().map(|m| m.iter().map(|(_, _, d)| d).collect())
}

/// As `build_v1_m`, for version 6 (41 x 41 modules).
#[verifier::external_body]
fn build_v6_m(data: &[u8]) -> (r: Option<Vec<bool>>)
    ensures
        match r {
            Some(m) => qr_modules(6, true, data@) == Some(m@) && m@.len() == qr_width(6) * qr_width(6),
            None => qr_modules(6, true, data@) is None,
        },
{
    QrBuilder::<Version6>::new().with_ecc_level(EccLevel::M).build(data).ok().map(|m| m.iter().map(|(_, _, d)| d).collect())
}

/// `QrBuilder::<Version10>::new().build(data)` (error correction chosen by
/// the builder), its modules read out row by row: named
/// `qr_modules(10, false, data)`, 57 x 57 modules when the data fits.
#[verifier::external_body]
fn build_v10_auto(data: &[u8]) -> (r: Option<Vec<bool>>)
    ensures
        match r {
            Some(m) => qr_modules(10, false, data@) == Some(m@) && m@.len() == qr_width(10) * qr_width(10),
            None => qr_modules(10, false, data@) is None,
        },
{
    QrBuilder::<Version10>::new().build(data).ok().map(|m| m.iter().map(|(_, _, d)| d).collect())
}

/// A QR matrix as mathematical values: side length and row-major modules.
pub struct QrGrid {
    pub size: nat,
    pub dark: Seq<bool>,
}

/// The grid of a symbol of version `v` with the given modules.
pub open spec fn grid_of(v: nat, modules: Seq<bool>) -> QrGrid {
    QrGrid { size: qr_width(v), dark: modules }
}

/// Row-major QR matrix: byte `y * size + x` is 1 for a dark module, 0 for
/// a light one.
pub struct QrCode {
    pub size: u8,
    data: Vec<u8>,
}

impl View for QrCode {
    type V = QrGrid;

    closed spec fn view(&self) -> QrGrid {
        QrGrid { size: self.size as nat, dark: self.data@.map_values(|b: u8| b != 0) }
    }
}

impl QrCode {
    /// The matrix holds `size * size` modules.
    pub closed spec fn wf(&self) -> bool {
        self.data@.len() == self.size * self.size
    }

    /// A well-formed matrix has `size * size` modules.
    pub proof fn lemma_wf_len(&self)
        requires
            self.wf(),
        ensures
            self@.dark.len() == self@.size * self@.size,
    {
    }

    /// A matrix of side `size` with the given row-major modules.
    fn from_modules(size: u8, modules: Vec<bool>) -> (q: QrCode)
        requires
            modules@.len() == size * size,
        ensures
            q.wf(),
            q@ == (QrGrid { size: size as nat, dark: modules@ }),
    {
        let mut data: Vec<u8> = Vec::new();
        let mut i: usize = 0;
        while i < modules.len()
            invariant
                i <= modules@.len(),
                data@.len() == i,
                forall|j: int| 0 <= j < i ==> data@[j] == (if modules@[j] { 1u8 } else { 0u8 }),
            decreases modules@.len() - i,
        {
            data.push(if modules[i] { 1u8 } else { 0u8 });
            i = i + 1;
        }
        let q = QrCode { size, data };
        assert(q@.dark =~= modules@);
        q
    }

    /// Side length in modules.
    pub fn side(&self) -> (s: u8)
        ensures
            s == self@.size,
    {
        self.size
    }

    /// Whether module `(x, y)` is dark; modules outside the matrix are light.
    pub fn get(&self, x: usize, y: usize) -> (dark: bool)
        requires
            self.wf(),
        ensures
            dark == (x < self@.size && y < self@.size && self@.dark[y * self@.size + x]),
    {
        if x >= self.size as usize || y >= self.size as usize {
            return false;
        }
        let n = self.size as usize;
        assert(y * n + x < n * n && n * n <= 65025) by (nonlinear_arith)
            requires
                x < n,
                y < n,
                n <= 255,
        ;
        self.data[y * n + x] != 0
    }
}

/// The symbol `encode` chooses: the first of versions 2 to 6 that fits,
/// then version 1, all at error correction level M.
pub open spec fn encode_choice(data: Seq<u8>) -> Option<QrGrid> {
    if qr_modules(2, true, data) is Some {
        Some(grid_of(2, qr_modules(2, true, data)->0))
    } else if qr_modules(3, true, data) is Some {
        Some(grid_of(3, qr_modules(3, true, data)->0))
    } else if qr_modules(4, true, data) is Some {
        Some(grid_of(4, qr_modules(4, true, data)->0))
    } else if qr_modules(5, true, data) is Some {
        Some(grid_of(5, qr_modules(5, true, data)->0))
    } else if qr_modules(6, true, data) is Some {
        Some(grid_of(6, qr_modules(6, true, data)->0))
    } else if qr_modules(1, true, data) is Some {
        Some(grid_of(1, qr_modules(1, true, data)->0))
    } else {
        None
    }
}

/// `encode`'s choice is the first of versions 2, 3, 4, 5 and 6 (level M)
/// that holds the data, else version 1; there is none exactly when no
/// version from 1 to 6 holds it.
pub proof fn lemma_encode_choice_first_fit(data: Seq<u8>, v: nat)
    ensures
        2 <= v <= 6 && qr_modules(v, true, data) is Some && (forall|w: nat| 2 <= w < v ==> #[trigger] qr_modules(w, true, data) is None)
            ==> encode_choice(data) == Some(grid_of(v, qr_modules(v, true, data)->0)),
        (forall|w: nat| 2 <= w <= 6 ==> #[trigger] qr_modules(w, true, data) is None) && qr_modules(1, true, data) is Some
            ==> encode_choice(data) == Some(grid_of(1, qr_modules(1, true, data)->0)),
        encode_choice(data) is None <==> (forall|w: nat| 1 <= w <= 6 ==> #[trigger] qr_modules(w, true, data) is None),
        encode_choice(data) matches Some(g) ==> exists|w: nat| 1 <= w <= 6 && #[trigger] qr_modules(w, true, data) == Some(g.dark) && g.size == qr_width(w),
{
    if 2 <= v <= 6 && qr_modules(v, true, data) is Some && (forall|w: nat| 2 <= w < v ==> #[trigger] qr_modules(w, true, data) is None) {
        assert(v > 2 ==> qr_modules(2, true, data) is None);
        assert(v > 3 ==> qr_modules(3, true, data) is None);
        assert(v > 4 ==> qr_modules(4, true, data) is None);
        assert(v > 5 ==> qr_modules(5, true, data) is None);
    }
    if forall|w: nat| 1 <= w <= 6 ==> #[trigger] qr_modules(w, true, data) is None {
        assert(qr_modules(1, true, data) is None);
        assert(qr_modules(2, true, data) is None);
        assert(qr_modules(3, true, data) is None);
        assert(qr_modules(4, true, data) is None);
        assert(qr_modules(5, true, data) is None);
        assert(qr_modules(6, true, data) is None);
    }
    if (forall|w: nat| 2 <= w <= 6 ==> #[trigger] qr_modules(w, true, data) is None) {
        assert(qr_modules(2, true, data) is None);
        assert(qr_modules(3, true, data) is None);
        assert(qr_modules(4, true, data) is None);
        assert(qr_modules(5, true, data) is None);
        assert(qr_modules(6, true, data) is None);
    }
    if encode_choice(data) is None {
        assert forall|w: nat| 1 <= w <= 6 implies #[trigger] qr_modules(w, true, data) is None by {
            assert(w == 1 || w == 2 || w == 3 || w == 4 || w == 5 || w == 6);
        }
    }
    if let Some(g) = encode_choice(data) {
        if qr_modules(2, true, data) is Some {
            assert(qr_modules(2, true, data) == Some(g.dark));
        } else if qr_modules(3, true, data) is Some {
            assert(qr_modules(3, true, data) == Some(g.dark));
        } else if qr_modules(4, true, data) is Some {
            assert(qr_modules(4, true, data) == Some(g.dark));
        } else if qr_modules(5, true, data) is Some {
            assert(qr_modules(5, true, data) == Some(g.dark));
        } else if qr_modules(6, true, data) is Some {
            assert(qr_modules(6, true, data) == Some(g.dark));
        } else {
            assert(qr_modules(1, true, data) == Some(g.dark));
        }
    }
}

/// Encodes `data` (see `encode_choice`); `Err` when no version up to 6
/// holds it.
pub fn encode(data: &[u8]) -> (r: Result<QrCode, ()>)
    ensures
        match r {
            Ok(q) => q.wf() && encode_choice(data@) == Some(q@),
            Err(_) => encode_choice(data@) is None,
        },
{
    if let Some(m) = build_v2_m(data) {
        return Ok(QrCode::from_modules(25, m));
    }
    if let Some(m) = build_v3_m(data) {
        return Ok(QrCode::from_modules(29, m));
    }
    if let Some(m) = build_v4_m(data) {
        return Ok(QrCode::from_modules(33, m));
    }
    if let Some(m) = build_v5_m(data) {
        return Ok(QrCode::from_modules(37, m));
    }
    if let Some(m) = build_v6_m(data) {
        return Ok(QrCode::from_modules(41, m));
    }
    if let Some(m) = build_v1_m(data) {
        return Ok(QrCode::from_modules(21, m));
    }
    Err(())
}

/// Encodes `data` as a version 10 symbol with the strongest error
/// correction that fits (the Wi-Fi join code on the QR screen).
pub fn encode_v10(data: &[u8]) -> (r: Option<QrCode>)
    ensures
        match r {
            Some(q) => q.wf() && q@ == grid_of(10, qr_modules(10, false, data@)->0) && qr_modules(
                10,
                false,
                data@,
            ) is Some,
            None => qr_modules(10, false, data@) is None,
        },
{
    match build_v10_auto(data) {
        Some(m) => Some(QrCode::from_modules(57, m)),
        None => None,
    }
}

/// The bytes of `s` (its UTF-8 encoding).
pub open spec fn utf8_bytes(s: Seq<char>) -> Seq<u8> {
    vstd::utf8::encode_utf8(s)
}

/// The Wi-Fi join payload `WIFI:S:<ssid>;T:WPA;P:<password>;;`.
pub open spec fn wifi_payload(ssid: Seq<char>, password: Seq<char>) -> Seq<u8> {
    seq![87u8, 73, 70, 73, 58, 83, 58] + utf8_bytes(ssid) + seq![59u8, 84, 58, 87, 80, 65, 59, 80, 58]
        + utf8_bytes(password) + seq![59u8, 59]
}

/// The join payload is the network name and the password, in order, with
/// 18 bytes of framing: it opens with `WIFI:S:`, the name follows at once,
/// then `;T:WPA;P:` and the password, and it closes with `;;`.
pub proof fn lemma_wifi_payload_layout(ssid: Seq<char>, password: Seq<char>)
    ensures
        ({
            let p = wifi_payload(ssid, password);
            let s = utf8_bytes(ssid);
            let w = utf8_bytes(password);
    let n = s.len() as int;
    let k = w.len() as int;
            let n = s.len() as int;
            let k = w.len() as int;
            &&& p.len() == s.len() + w.len() + 18
            &&& p.take(7) == seq![87u8, 73, 70, 73, 58, 83, 58]
            &&& p.subrange(7, 7 + n) == s
            &&& p.subrange(7 + n, 16 + n) == seq![59u8, 84, 58, 87, 80, 65, 59, 80, 58]
            &&& p.subrange(16 + n, 16 + n + k) == w
            &&& p.skip(16 + n + k) == seq![59u8, 59]
        }),
{
    let p = wifi_payload(ssid, password);
    let s = utf8_bytes(ssid);
    let w = utf8_bytes(password);
    let n = s.len() as int;
    let k = w.len() as int;
    assert(p.take(7) =~= seq![87u8, 73, 70, 73, 58, 83, 58]);
    assert(p.subrange(7, 7 + n) =~= s);
    assert(p.subrange(7 + n, 16 + n) =~= seq![59u8, 84, 58, 87, 80, 65, 59, 80, 58]);
    assert(p.subrange(16 + n, 16 + n + k) =~= w);
    assert(p.skip(16 + n + k) =~= seq![59u8, 59]);
}

/// The Wi-Fi join payload for a network.
pub fn wifi_payload_bytes(ssid: &str, password: &str) -> (b: Vec<u8>)
    ensures
        b@ == wifi_payload(ssid@, password@),
{
    let mut b: Vec<u8> = vec![87u8, 73, 70, 73, 58, 83, 58];
    b.extend_from_slice(ssid.as_bytes());
    b.extend_from_slice(&[59u8, 84, 58, 87, 80, 65, 59, 80, 58]);
    b.extend_from_slice(password.as_bytes());
    b.extend_from_slice(&[59u8, 59]);
    assert(b@ =~= wifi_payload(ssid@, password@));
    b
}

/// A QR code that joins the phone to the network `ssid` with `password`
/// (see `encode`).
pub fn encode_wifi(ssid: &str, password: &str) -> (r: Result<QrCode, ()>)
    ensures
        match r {
            Ok(q) => q.wf() && encode_choice(wifi_payload(ssid@, password@)) == Some(q@),
            Err(_) => encode_choice(wifi_payload(ssid@, password@)) is None,
        },
{
    let b = wifi_payload_bytes(ssid, password);
    encode(b.as_slice())
}

} // verus!
