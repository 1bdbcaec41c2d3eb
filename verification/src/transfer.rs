//! Rules of the LAN file-transfer protocol: pairing codes, trusted devices,
//! request framing, admission of incoming files and the names under which
//! received files are stored.
use vstd::prelude::*;
use crate::text::{
    chars_of, decimal, has_char, is_digit, is_white_space, push_decimal, push_zero_padded, string_of,
    trim, trim_both, trim_pred, zero_padded, TrimSet, digit, copy_range, contains_seq, starts_with, str_eq,
};
use sha2::Digest;
use crate::file_names::{sanitize_file_name, sanitized_name, stem_of, extension_of, file_stem,
    find_last, last_index_of};

verus! {

// ---------------------------------------------------------------------------
// Records exchanged with the user interface and other devices
// ---------------------------------------------------------------------------

/// A device announced on the LAN.
pub struct DeviceInfo {
    pub id: String,
    pub name: String,
    pub ip: String,
    pub port: u16,
    pub os: String,
}

/// A device whose files are accepted without asking.
pub struct TrustedDevice {
    pub id: String,
    pub name: String,
}

/// A device the user picked for pairing.
pub struct PairCandidate {
    pub id: String,
    pub name: String,
    pub ip: String,
}

/// What a QR code for pairing carries.
pub struct PairingPayload {
    pub uri: String,
    pub code: String,
    pub ip: String,
}

/// An incoming file waiting for the user's approval.
pub struct IncomingRequest {
    pub transfer_id: String,
    pub device_id: String,
    pub device_name: String,
    pub file_name: String,
    pub file_size: u64,
}

/// The direction of a transfer.
pub enum TransferDirection {
    Send,
    Receive,
}

/// A file opened through the Android content resolver.
pub struct OpenedContent {
    pub fd: i32,
    pub file_name: String,
    pub file_size: u64,
}

/// A file created in the Android download collection.
pub struct CreatedReceivedFile {
    pub fd: i32,
    pub uri: String,
    pub file_name: String,
}

/// The settings kept on disk.
pub struct PersistedSettings {
    pub device_id: String,
    pub device_name: String,
    pub trusted_devices: Vec<TrustedDevice>,
    pub receive_directory: Option<String>,
    pub max_file_size: u64,
}

/// The settings shown to the user, with this session's pairing code.
pub struct PublicSettings {
    pub device_id: String,
    pub device_name: String,
    pub pair_code: String,
    pub trusted_devices: Vec<TrustedDevice>,
    pub receive_directory: Option<String>,
    pub max_file_size: u64,
}

/// Default largest file accepted: 100 GiB.
pub const DEFAULT_MAX_FILE_SIZE: u64 = 107374182400;

/// Largest request header, in bytes.
pub const MAX_HEADER_SIZE: usize = 16384;

/// Size of the chunks a transfer reads and writes.
pub const CHUNK_SIZE: usize = 1048576;

/// Status byte: the peer refused.
pub const STATUS_REJECTED: u8 = 0;

/// Status byte: the peer accepted.
pub const STATUS_ACCEPTED: u8 = 1;

/// Status byte: the peer is receiving another file.
pub const STATUS_BUSY: u8 = 2;

// ---------------------------------------------------------------------------
// Error messages
// ---------------------------------------------------------------------------

/// Prefix of every I/O failure reported during a transfer.
pub open spec fn transfer_error_prefix() -> Seq<char> {
    "파일 전송 중 오류가 발생했습니다: "@
}

/// `transfer_error`: the message shown for an I/O failure whose own text is
/// `message`.
pub fn transfer_error(message: &str) -> (r: String)
    ensures
        r@ == transfer_error_prefix() + message@,
{
    let mut r = "파일 전송 중 오류가 발생했습니다: ".to_owned();
    r.append(message);
    r
}

// ---------------------------------------------------------------------------
// Pairing codes
// ---------------------------------------------------------------------------

/// The ASCII digits of `s`, in order.
pub open spec fn keep_digits(s: Seq<char>) -> Seq<char>
    decreases s.len(),
{
    if s.len() == 0 {
        s
    } else if is_digit(s.last()) {
        keep_digits(s.drop_last()).push(s.last())
    } else {
        keep_digits(s.drop_last())
    }
}

/// Message for a pairing code that does not have six digits.
pub open spec fn pair_code_error() -> Seq<char> {
    "6자리 페어링 코드를 입력해 주세요."@
}

/// `normalize_pair_code`: keeps the digits of what the user typed; succeeds
/// exactly when there are six of them.
pub fn normalize_pair_code(code: &str) -> (r: Result<String, String>)
    ensures
        keep_digits(code@).len() == 6 <==> r is Ok,
        r matches Ok(v) ==> v@ == keep_digits(code@),
        r matches Err(e) ==> e@ == pair_code_error(),
{
    let chars = chars_of(code);
    let mut kept: Vec<char> = Vec::new();
    let mut i: usize = 0;
    while i < chars.len()
        invariant
            i <= chars.len(),
            chars@ == code@,
            kept@ == keep_digits(chars@.take(i as int)),
        decreases chars.len() - i,
    {
        assert(chars@.take(i + 1).drop_last() =~= chars@.take(i as int));
        if digit(chars[i]) {
            kept.push(chars[i]);
        }
        i += 1;
    }
    assert(chars@.take(chars.len() as int) =~= chars@);
    if kept.len() != 6 {
        return Err("6자리 페어링 코드를 입력해 주세요.".to_owned());
    }
    Ok(string_of(&kept))
}

/// The six-digit pairing code derived from a random seed: the seed's low
/// 32 bits modulo one million, zero-padded to six digits.
pub open spec fn pair_code_of_seed(seed: u128) -> Seq<char> {
    zero_padded(((seed % 0x1_0000_0000) % 1_000_000) as nat, 6)
}

proof fn lemma_decimal_len(n: nat)
    ensures
        decimal(n).len() >= 1,
        n < 10 ==> decimal(n).len() == 1,
        n >= 10 ==> decimal(n).len() == decimal(n / 10).len() + 1,
        n < 10 ==> decimal(n).len() <= 1,
        n < 100 ==> decimal(n).len() <= 2,
        n < 1000 ==> decimal(n).len() <= 3,
        n < 10000 ==> decimal(n).len() <= 4,
        n < 100000 ==> decimal(n).len() <= 5,
        n < 1_000_000 ==> decimal(n).len() <= 6,
        forall|i: int| 0 <= i < decimal(n).len() ==> is_digit(#[trigger] decimal(n)[i]),
    decreases n,
{
    if n >= 10 {
        lemma_decimal_len(n / 10);
        let d = decimal(n / 10);
        assert forall|i: int| 0 <= i < decimal(n).len() implies is_digit(#[trigger] decimal(n)[i]) by {
            if i < d.len() {
                assert(decimal(n)[i] == d[i]);
            }
        }
    }
}

/// A pairing code is six ASCII digits.
pub open spec fn is_pair_code(s: Seq<char>) -> bool {
    s.len() == 6 && forall|i: int| 0 <= i < 6 ==> is_digit(#[trigger] s[i])
}

proof fn lemma_pair_code_shape(seed: u128)
    ensures
        is_pair_code(pair_code_of_seed(seed)),
{
    let n = ((seed % 0x1_0000_0000) % 1_000_000) as nat;
    lemma_decimal_len(n);
    let d = decimal(n);
    let s = pair_code_of_seed(seed);
    if d.len() < 6 {
        let pad = Seq::new((6 - d.len()) as nat, |i: int| '0');
        assert(s == pad + d);
        assert forall|i: int| 0 <= i < 6 implies is_digit(#[trigger] s[i]) by {
            if i < pad.len() {
                assert(s[i] == '0');
            } else {
                assert(s[i] == d[i - pad.len()]);
            }
        }
    }
}

/// `pair_code_from_seed`: the pairing code a session shows, from a random
/// seed.
pub fn pair_code_from_seed(seed: u128) -> (r: String)
    ensures
        r@ == pair_code_of_seed(seed),
        is_pair_code(r@),
{
    let low = (seed % 0x1_0000_0000) as u64;
    let n = low % 1_000_000;
    let mut out: Vec<char> = Vec::new();
    push_zero_padded(&mut out, n, 6);
    assert(out@ =~= pair_code_of_seed(seed));
    proof {
        lemma_pair_code_shape(seed);
    }
    string_of(&out)
}

/// A random 128-bit number from a version-4 UUID (`uuid::Uuid::new_v4`).
/// Nothing is promised of the value.
#[verifier::external_body]
fn random_u128() -> u128 {
    uuid::Uuid::new_v4().as_u128()
}

/// A fresh pairing code for this session.
pub fn generate_pair_code() -> (r: String)
    ensures
        is_pair_code(r@),
{
    pair_code_from_seed(random_u128())
}

/// Every pairing code that a session can show is accepted, unchanged, by
/// `normalize_pair_code`.
pub proof fn law_pair_code_round_trip(seed: u128)
    ensures
        keep_digits(pair_code_of_seed(seed)) == pair_code_of_seed(seed),
        keep_digits(pair_code_of_seed(seed)).len() == 6,
{
    lemma_pair_code_shape(seed);
    lemma_keep_digits_of_digits(pair_code_of_seed(seed));
}

proof fn lemma_keep_digits_of_digits(s: Seq<char>)
    requires
        forall|i: int| 0 <= i < s.len() ==> is_digit(#[trigger] s[i]),
    ensures
        keep_digits(s) == s,
    decreases s.len(),
{
    if s.len() > 0 {
        let t = s.drop_last();
        assert forall|i: int| 0 <= i < t.len() implies is_digit(#[trigger] t[i]) by {
            assert(t[i] == s[i]);
        }
        lemma_keep_digits_of_digits(t);
        assert(is_digit(s[s.len() - 1]));
        assert(t.push(s.last()) =~= s);
    }
}

// ---------------------------------------------------------------------------
// Device names and the pairing URI
// ---------------------------------------------------------------------------

/// Longest device name, in characters.
pub const MAX_DEVICE_NAME_CHARS: usize = 48;

/// Message for an empty device name.
pub open spec fn empty_device_name_error() -> Seq<char> {
    "기기 이름을 입력해 주세요."@
}

/// The device name kept for what the user typed: trimmed of white space and
/// cut to 48 characters.
pub open spec fn device_name_of(s: Seq<char>) -> Seq<char> {
    let t = trim_both(s, trim_pred(TrimSet::WhiteSpace));
    if t.len() <= MAX_DEVICE_NAME_CHARS {
        t
    } else {
        t.take(MAX_DEVICE_NAME_CHARS as int)
    }
}

/// `set_device_name`'s rule: the name to store, or the error when nothing is
/// left of it.
pub fn normalize_device_name(name: &str) -> (r: Result<String, String>)
    ensures
        r is Ok <==> device_name_of(name@).len() > 0,
        r matches Ok(v) ==> v@ == device_name_of(name@),
        r matches Err(e) ==> e@ == empty_device_name_error(),
{
    let chars = chars_of(name);
    let t = trim(&chars, TrimSet::WhiteSpace);
    let kept = if t.len() <= MAX_DEVICE_NAME_CHARS {
        t
    } else {
        copy_range(&t, 0, MAX_DEVICE_NAME_CHARS)
    };
    if kept.len() == 0 {
        return Err("기기 이름을 입력해 주세요.".to_owned());
    }
    Ok(string_of(&kept))
}

/// `'&'`, `'?'` and `'='` in a device name become `'_'` in the pairing URI.
pub open spec fn uri_safe_name(s: Seq<char>) -> Seq<char> {
    s.map_values(|c: char| if c == '&' || c == '?' || c == '=' { '_' } else { c })
}

/// The pairing URI: `vesperdrop://lan-pair?deviceId=..&name=..&ip=..&code=..`.
pub open spec fn pairing_uri_of(
    device_id: Seq<char>,
    device_name: Seq<char>,
    ip: Seq<char>,
    code: Seq<char>,
) -> Seq<char> {
    "vesperdrop://lan-pair?deviceId="@ + device_id + "&name="@ + uri_safe_name(device_name)
        + "&ip="@ + ip + "&code="@ + code
}

fn uri_safe(s: &str) -> (r: String)
    ensures
        r@ == uri_safe_name(s@),
{
    let chars = chars_of(s);
    let mut out: Vec<char> = Vec::new();
    let mut i: usize = 0;
    while i < chars.len()
        invariant
            i <= chars.len(),
            chars@ == s@,
            out@ == uri_safe_name(chars@.take(i as int)),
        decreases chars.len() - i,
    {
        let c = chars[i];
        if c == '&' || c == '?' || c == '=' {
            out.push('_');
        } else {
            out.push(c);
        }
        assert(chars@.take(i + 1) =~= chars@.take(i as int).push(c));
        assert(uri_safe_name(chars@.take(i + 1)) =~= uri_safe_name(chars@.take(i as int)).push(
            out@.last(),
        ));
        i += 1;
    }
    assert(chars@.take(chars.len() as int) =~= chars@);
    string_of(&out)
}

/// `get_pairing_payload`'s result for this device, its local address and
/// the session's pairing code.
pub fn pairing_payload(device_id: &str, device_name: &str, ip: &str, code: &str) -> (r:
    PairingPayload)
    ensures
        r.uri@ == pairing_uri_of(device_id@, device_name@, ip@, code@),
        r.code@ == code@,
        r.ip@ == ip@,
{
    let mut uri = "vesperdrop://lan-pair?deviceId=".to_owned();
    uri.append(device_id);
    uri.append("&name=");
    let safe = uri_safe(device_name);
    uri.append(safe.as_str());
    uri.append("&ip=");
    uri.append(ip);
    uri.append("&code=");
    uri.append(code);
    PairingPayload { uri, code: code.to_owned(), ip: ip.to_owned() }
}

// ---------------------------------------------------------------------------
// Trusted devices
// ---------------------------------------------------------------------------

/// The identifiers of a list of trusted devices.
pub open spec fn trusted_ids(devices: Seq<TrustedDevice>) -> Seq<Seq<char>> {
    devices.map_values(|d: TrustedDevice| d.id@)
}

/// No device is listed twice.
pub open spec fn ids_unique(devices: Seq<TrustedDevice>) -> bool {
    forall|i: int, j: int|
        0 <= i < devices.len() && 0 <= j < devices.len() && i != j ==> #[trigger] devices[i].id@
            != #[trigger] devices[j].id@
}

/// The devices whose identifier is not `id`, in order.
pub open spec fn without_id(devices: Seq<TrustedDevice>, id: Seq<char>) -> Seq<TrustedDevice> {
    devices.filter(|d: TrustedDevice| d.id@ != id)
}

/// Some listed device has identifier `id`.
pub open spec fn lists_id(devices: Seq<TrustedDevice>, id: Seq<char>) -> bool {
    exists|i: int| 0 <= i < devices.len() && #[trigger] devices[i].id@ == id
}

fn copy_device(d: &TrustedDevice) -> (r: TrustedDevice)
    ensures
        r == *d,
{
    TrustedDevice { id: d.id.clone(), name: d.name.clone() }
}

fn eq_string(a: &String, b: &String) -> (r: bool)
    ensures
        r == (a@ == b@),
{
    *a == *b
}

proof fn lemma_filter_push(s: Seq<TrustedDevice>, x: TrustedDevice, id: Seq<char>)
    ensures
        without_id(s.push(x), id) == if x.id@ != id {
            without_id(s, id).push(x)
        } else {
            without_id(s, id)
        },
{
    reveal(Seq::filter);
    assert(s.push(x).drop_last() =~= s);
}

proof fn lemma_without_id_props(s: Seq<TrustedDevice>, id: Seq<char>)
    ensures
        !lists_id(without_id(s, id), id),
        forall|k: Seq<char>| k != id ==> (lists_id(without_id(s, id), k) <==> lists_id(s, k)),
        ids_unique(s) ==> ids_unique(without_id(s, id)),
    decreases s.len(),
{
    if s.len() > 0 {
        let t = s.drop_last();
        let x = s.last();
        lemma_without_id_props(t, id);
        assert(t.push(x) =~= s);
        lemma_filter_push(t, x, id);
        let wt = without_id(t, id);
        assert forall|k: Seq<char>| k != id implies (lists_id(without_id(s, id), k) <==> lists_id(s, k)) by {
            if lists_id(s, k) {
                let i = choose|i: int| 0 <= i < s.len() && #[trigger] s[i].id@ == k;
                if i < t.len() {
                    assert(t[i].id@ == k);
                    assert(lists_id(t, k));
                    assert(lists_id(without_id(t, id), k) <==> lists_id(t, k));
                    let j = choose|j: int| 0 <= j < wt.len() && #[trigger] wt[j].id@ == k;
                    let w = without_id(s, id);
                    assert(w[j].id@ == k);
                } else {
                    let w = without_id(s, id);
                    assert(w[w.len() - 1].id@ == k);
                }
            }
            if lists_id(without_id(s, id), k) {
                let w = without_id(s, id);
                let i = choose|i: int| 0 <= i < w.len() && #[trigger] w[i].id@ == k;
                if i < wt.len() {
                    assert(wt[i].id@ == k);
                    assert(lists_id(wt, k));
                    assert(lists_id(without_id(t, id), k) <==> lists_id(t, k));
                    assert(lists_id(t, k));
                    let j = choose|j: int| 0 <= j < t.len() && #[trigger] t[j].id@ == k;
                    assert(s[j].id@ == k);
                } else {
                    assert(s[s.len() - 1].id@ == k);
                }
            }
        }
        assert(!lists_id(without_id(s, id), id)) by {
            let w = without_id(s, id);
            if lists_id(w, id) {
                let i = choose|i: int| 0 <= i < w.len() && #[trigger] w[i].id@ == id;
                if i < wt.len() {
                    assert(wt[i].id@ == id);
                }
            }
        }
        if ids_unique(s) {
            assert forall|i: int, j: int|
                0 <= i < t.len() && 0 <= j < t.len() && i != j implies #[trigger] t[i].id@
                != #[trigger] t[j].id@ by {
                assert(s[i] == t[i] && s[j] == t[j]);
            }
            let w = without_id(s, id);
            if x.id@ != id {
                assert(!lists_id(wt, x.id@)) by {
                    if lists_id(wt, x.id@) {
                        assert(lists_id(without_id(t, id), x.id@) <==> lists_id(t, x.id@));
                        let j = choose|j: int| 0 <= j < t.len() && #[trigger] t[j].id@ == x.id@;
                        assert(s[j].id@ == s[s.len() - 1].id@);
                    }
                }
                assert forall|i: int, j: int|
                    0 <= i < w.len() && 0 <= j < w.len() && i != j implies #[trigger] w[i].id@
                    != #[trigger] w[j].id@ by {
                    if i < wt.len() && j < wt.len() {
                        assert(w[i] == wt[i] && w[j] == wt[j]);
                    } else if i < wt.len() {
                        assert(w[i] == wt[i]);
                        assert(wt[i].id@ != x.id@);
                    } else {
                        assert(w[j] == wt[j]);
                        assert(wt[j].id@ != x.id@);
                    }
                }
            }
        }
    } else {
        assert(without_id(s, id) =~= s) by {
            reveal(Seq::filter);
        }
    }
}

/// Drops every device with identifier `id` (`Vec::retain`).
fn remove_id(devices: &mut Vec<TrustedDevice>, id: &String)
    ensures
        final(devices)@ == without_id(old(devices)@, id@),
{
    let ghost orig = devices@;
    let mut kept: Vec<TrustedDevice> = Vec::new();
    let mut i: usize = 0;
    while i < devices.len()
        invariant
            i <= devices.len(),
            devices@ == orig,
            kept@ == without_id(orig.take(i as int), id@),
        decreases devices.len() - i,
    {
        proof {
            lemma_filter_push(orig.take(i as int), orig[i as int], id@);
            assert(orig.take(i + 1) =~= orig.take(i as int).push(orig[i as int]));
        }
        if !eq_string(&devices[i].id, id) {
            kept.push(copy_device(&devices[i]));
        }
        i += 1;
    }
    assert(orig.take(orig.len() as int) =~= orig);
    *devices = kept;
}

impl PersistedSettings {
    /// Fresh settings for a device that has none on disk.
    pub fn fresh(device_id: String, device_name: String) -> (r: PersistedSettings)
        ensures
            r.device_id == device_id,
            r.device_name == device_name,
            r.trusted_devices@.len() == 0,
            r.receive_directory is None,
            r.max_file_size == DEFAULT_MAX_FILE_SIZE,
    {
        PersistedSettings {
            device_id,
            device_name,
            trusted_devices: Vec::new(),
            receive_directory: None,
            max_file_size: DEFAULT_MAX_FILE_SIZE,
        }
    }

    /// `is_trusted`: some trusted device has this identifier.
    pub fn is_trusted(&self, device_id: &String) -> (r: bool)
        ensures
            r == lists_id(self.trusted_devices@, device_id@),
    {
        let mut i: usize = 0;
        while i < self.trusted_devices.len()
            invariant
                i <= self.trusted_devices.len(),
                forall|j: int| 0 <= j < i ==> self.trusted_devices@[j].id@ != device_id@,
            decreases self.trusted_devices.len() - i,
        {
            if eq_string(&self.trusted_devices[i].id, device_id) {
                return true;
            }
            i += 1;
        }
        false
    }

    /// `trust`: any earlier entry for the device is dropped and the device is
    /// appended.
    pub fn trust(&mut self, device: TrustedDevice)
        ensures
            final(self).trusted_devices@ == without_id(old(self).trusted_devices@, device.id@).push(
                device,
            ),
            final(self).device_id == old(self).device_id,
            final(self).device_name == old(self).device_name,
            final(self).receive_directory == old(self).receive_directory,
            final(self).max_file_size == old(self).max_file_size,
    {
        remove_id(&mut self.trusted_devices, &device.id);
        self.trusted_devices.push(device);
    }

    /// `forget_device`: every entry with this identifier is dropped.
    pub fn forget_device(&mut self, device_id: &String)
        ensures
            final(self).trusted_devices@ == without_id(old(self).trusted_devices@, device_id@),
            final(self).device_id == old(self).device_id,
            final(self).device_name == old(self).device_name,
            final(self).receive_directory == old(self).receive_directory,
            final(self).max_file_size == old(self).max_file_size,
    {
        remove_id(&mut self.trusted_devices, device_id);
    }
}

/// After `trust(d)`, `d` is trusted, exactly once, other devices keep their
/// standing, and no device is listed twice if none was before.
pub proof fn law_trust(before: Seq<TrustedDevice>, d: TrustedDevice)
    ensures
        lists_id(without_id(before, d.id@).push(d), d.id@),
        forall|k: Seq<char>|
            k != d.id@ ==> (lists_id(without_id(before, d.id@).push(d), k) <==> lists_id(before, k)),
        ids_unique(before) ==> ids_unique(without_id(before, d.id@).push(d)),
{
    lemma_without_id_props(before, d.id@);
    let w = without_id(before, d.id@);
    let after = w.push(d);
    assert(after[after.len() - 1].id@ == d.id@);
    assert forall|k: Seq<char>| k != d.id@ implies (lists_id(after, k) <==> lists_id(w, k)) by {
        if lists_id(after, k) {
            let i = choose|i: int| 0 <= i < after.len() && #[trigger] after[i].id@ == k;
            assert(i < w.len());
            assert(w[i].id@ == k);
        }
        if lists_id(w, k) {
            let i = choose|i: int| 0 <= i < w.len() && #[trigger] w[i].id@ == k;
            assert(after[i].id@ == k);
        }
    }
    if ids_unique(before) {
        assert forall|i: int, j: int|
            0 <= i < after.len() && 0 <= j < after.len() && i != j implies #[trigger] after[i].id@
            != #[trigger] after[j].id@ by {
            if i < w.len() && j < w.len() {
                assert(after[i] == w[i] && after[j] == w[j]);
            } else if i < w.len() {
                assert(after[i] == w[i]);
            } else {
                assert(after[j] == w[j]);
            }
        }
    }
}

/// After `forget_device(id)`, the device is no longer trusted and the others
/// keep their standing.
pub proof fn law_forget(before: Seq<TrustedDevice>, id: Seq<char>)
    ensures
        !lists_id(without_id(before, id), id),
        forall|k: Seq<char>| k != id ==> (lists_id(without_id(before, id), k) <==> lists_id(before, k)),
        ids_unique(before) ==> ids_unique(without_id(before, id)),
{
    lemma_without_id_props(before, id);
}


// ---------------------------------------------------------------------------
// Hexadecimal digests
// ---------------------------------------------------------------------------

/// Lowercase hexadecimal digit for `d` (taken modulo 16).
pub open spec fn hex_digit(d: nat) -> char {
    let d = d % 16;
    if d < 10 {
        crate::text::digit_char(d)
    } else if d == 10 {
        'a'
    } else if d == 11 {
        'b'
    } else if d == 12 {
        'c'
    } else if d == 13 {
        'd'
    } else if d == 14 {
        'e'
    } else {
        'f'
    }
}

/// Each byte as two lowercase hexadecimal digits (`format!("{byte:02x}")`).
pub open spec fn hex_of(bytes: Seq<u8>) -> Seq<char>
    decreases bytes.len(),
{
    if bytes.len() == 0 {
        seq![]
    } else {
        hex_of(bytes.drop_last()) + seq![
            hex_digit((bytes.last() / 16) as nat),
            hex_digit((bytes.last() % 16) as nat),
        ]
    }
}

fn hex_digit_of(d: u8) -> (c: char)
    ensures
        c == hex_digit(d as nat),
{
    let d = d % 16;
    if d < 10 {
        crate::text::digit_of(d as u64)
    } else if d == 10 {
        'a'
    } else if d == 11 {
        'b'
    } else if d == 12 {
        'c'
    } else if d == 13 {
        'd'
    } else if d == 14 {
        'e'
    } else {
        'f'
    }
}

/// `to_hex`: the digest shown to the user.
pub fn to_hex(bytes: &[u8]) -> (r: String)
    ensures
        r@ == hex_of(bytes@),
        r@.len() == 2 * bytes@.len(),
{
    let mut out: Vec<char> = Vec::new();
    let mut i: usize = 0;
    while i < bytes.len()
        invariant
            i <= bytes.len(),
            out@ == hex_of(bytes@.take(i as int)),
            out@.len() == 2 * i,
        decreases bytes.len() - i,
    {
        let b = bytes[i];
        out.push(hex_digit_of(b / 16));
        out.push(hex_digit_of(b % 16));
        assert(bytes@.take(i + 1).drop_last() =~= bytes@.take(i as int));
        assert(hex_of(bytes@.take(i + 1)) =~= hex_of(bytes@.take(i as int)) + seq![
            hex_digit((b / 16) as nat),
            hex_digit((b % 16) as nat),
        ]);
        i += 1;
    }
    assert(bytes@.take(bytes.len() as int) =~= bytes@);
    string_of(&out)
}

// ---------------------------------------------------------------------------
// Request frames
// ---------------------------------------------------------------------------

/// The eight bytes that open every request: `CDROP002`.
pub open spec fn frame_magic() -> Seq<u8> {
    seq![67u8, 68u8, 82u8, 79u8, 80u8, 48u8, 48u8, 50u8]
}

/// A 32-bit length in big-endian byte order (`u32::to_be_bytes`).
pub open spec fn be_bytes(n: u32) -> Seq<u8> {
    seq![
        (n / 0x1000000) as u8,
        ((n / 0x10000) % 0x100) as u8,
        ((n / 0x100) % 0x100) as u8,
        (n % 0x100) as u8,
    ]
}

/// The value of four big-endian bytes (`u32::from_be_bytes`).
pub open spec fn be_value(b: Seq<u8>) -> nat {
    (b[0] as nat) * 0x1000000 + (b[1] as nat) * 0x10000 + (b[2] as nat) * 0x100 + (b[3] as nat)
}

/// Message for a header too large to send.
pub open spec fn header_too_large_error() -> Seq<char> {
    "연결 정보가 너무 큽니다."@
}

/// Message for a connection that does not open with the magic bytes.
pub open spec fn bad_magic_error() -> Seq<char> {
    "Vesper Drop 파일 연결이 아닙니다."@
}

/// Message for a header length of zero or above the limit.
pub open spec fn bad_length_error() -> Seq<char> {
    "연결 정보의 크기가 올바르지 않습니다."@
}

/// `write_request`'s framing: magic, big-endian length, then the encoded
/// request; refused when the request is larger than the header limit.
pub fn encode_request_frame(payload: &[u8]) -> (r: Result<Vec<u8>, String>)
    ensures
        r is Ok <==> payload@.len() <= MAX_HEADER_SIZE,
        r matches Ok(frame) ==> frame@ == frame_magic() + be_bytes(payload@.len() as u32)
            + payload@,
        r matches Err(e) ==> e@ == header_too_large_error(),
{
    if payload.len() > MAX_HEADER_SIZE {
        return Err("연결 정보가 너무 큽니다.".to_owned());
    }
    let n = payload.len() as u32;
    let mut out: Vec<u8> = vec![67u8, 68u8, 82u8, 79u8, 80u8, 48u8, 48u8, 50u8];
    out.push((n / 0x1000000) as u8);
    out.push(((n / 0x10000) % 0x100) as u8);
    out.push(((n / 0x100) % 0x100) as u8);
    out.push((n % 0x100) as u8);
    let ghost head = out@;
    assert(head =~= frame_magic() + be_bytes(n));
    let mut i: usize = 0;
    while i < payload.len()
        invariant
            i <= payload.len(),
            out@ == head + payload@.take(i as int),
        decreases payload.len() - i,
    {
        out.push(payload[i]);
        assert(payload@.take(i + 1) =~= payload@.take(i as int).push(payload@[i as int]));
        i += 1;
    }
    assert(payload@.take(payload.len() as int) =~= payload@);
    Ok(out)
}

/// `read_request`'s check of the first eight bytes.
pub fn check_frame_magic(magic: &[u8]) -> (r: Result<(), String>)
    ensures
        r is Ok <==> magic@ == frame_magic(),
        r matches Err(e) ==> e@ == bad_magic_error(),
{
    if magic.len() == 8 && magic[0] == 67 && magic[1] == 68 && magic[2] == 82 && magic[3] == 79
        && magic[4] == 80 && magic[5] == 48 && magic[6] == 48 && magic[7] == 50 {
        assert(magic@ =~= frame_magic());
        Ok(())
    } else {
        assert(magic@ != frame_magic()) by {
            if magic@ == frame_magic() {
                assert(magic@[0] == 67u8);
            }
        }
        Err("Vesper Drop 파일 연결이 아닙니다.".to_owned())
    }
}

/// `read_request`'s check of the four length bytes: the length of the
/// request that follows, between 1 and the header limit.
pub fn check_frame_length(length: &[u8]) -> (r: Result<usize, String>)
    requires
        length@.len() == 4,
    ensures
        r is Ok <==> 0 < be_value(length@) <= MAX_HEADER_SIZE,
        r matches Ok(n) ==> n as nat == be_value(length@),
        r matches Err(e) ==> e@ == bad_length_error(),
{
    let n: u64 = (length[0] as u64) * 0x1000000 + (length[1] as u64) * 0x10000 + (length[2] as u64)
        * 0x100 + (length[3] as u64);
    if n == 0 || n > MAX_HEADER_SIZE as u64 {
        return Err("연결 정보의 크기가 올바르지 않습니다.".to_owned());
    }
    Ok(n as usize)
}

proof fn lemma_be_round_trip(n: u32)
    ensures
        be_value(be_bytes(n)) == n,
{
    let b = be_bytes(n);
    assert(b[0] as nat == n / 0x1000000);
    assert(b[1] as nat == (n / 0x10000) % 0x100);
    assert(b[2] as nat == (n / 0x100) % 0x100);
    assert(b[3] as nat == n % 0x100);
    assert((n / 0x1000000) * 0x1000000 + ((n / 0x10000) % 0x100) * 0x10000 + ((n / 0x100) % 0x100)
        * 0x100 + n % 0x100 == n) by (nonlinear_arith);
}

/// A frame built by `encode_request_frame` passes both checks of
/// `read_request`, which then reads back exactly the request that was sent.
pub proof fn law_frame_round_trip(payload: Seq<u8>)
    requires
        0 < payload.len() <= MAX_HEADER_SIZE,
    ensures
        ({
            let frame = frame_magic() + be_bytes(payload.len() as u32) + payload;
            &&& frame.subrange(0, 8) == frame_magic()
            &&& be_value(frame.subrange(8, 12)) == payload.len()
            &&& frame.subrange(12, frame.len() as int) == payload
        }),
{
    let frame = frame_magic() + be_bytes(payload.len() as u32) + payload;
    assert(frame.subrange(0, 8) =~= frame_magic());
    assert(frame.subrange(8, 12) =~= be_bytes(payload.len() as u32));
    assert(frame.subrange(12, frame.len() as int) =~= payload);
    lemma_be_round_trip(payload.len() as u32);
}

// ---------------------------------------------------------------------------
// Admission of requests
// ---------------------------------------------------------------------------

/// What the receiving side does with a file request.
pub enum FileAdmission {
    /// Another file is being received: answer busy.
    Busy,
    /// Larger than allowed: refuse with this message.
    TooLarge(String),
    /// The sender is trusted: accept without asking.
    Accept,
    /// Ask the user, who has thirty seconds to answer.
    AskUser,
}

/// Message for a file above the size limit.
pub open spec fn too_large_message(file_size: u64) -> Seq<char> {
    "허용된 최대 파일 크기를 초과했습니다: "@ + decimal(file_size as nat) + " bytes"@
}

/// `handle_connection`'s decision for a file request: busy first, then the
/// size limit, then trust.
pub fn admit_file(busy: bool, file_size: u64, max_file_size: u64, trusted: bool) -> (r:
    FileAdmission)
    ensures
        busy ==> r is Busy,
        !busy && file_size > max_file_size ==> (r matches FileAdmission::TooLarge(m) && m@
            == too_large_message(file_size)),
        !busy && file_size <= max_file_size && trusted ==> r is Accept,
        !busy && file_size <= max_file_size && !trusted ==> r is AskUser,
{
    if busy {
        return FileAdmission::Busy;
    }
    if file_size > max_file_size {
        let mut digits: Vec<char> = Vec::new();
        push_decimal(&mut digits, file_size);
        let mut m = "허용된 최대 파일 크기를 초과했습니다: ".to_owned();
        let d = string_of(&digits);
        m.append(d.as_str());
        m.append(" bytes");
        return FileAdmission::TooLarge(m);
    }
    if trusted {
        FileAdmission::Accept
    } else {
        FileAdmission::AskUser
    }
}

/// The single permit of the receiving side: at most one file is received
/// at a time.
pub struct ReceiveGate {
    receiving: bool,
}

impl ReceiveGate {
    /// A file is being received (the permit is held).
    pub closed spec fn is_receiving(&self) -> bool {
        self.receiving
    }

    /// No file is being received.
    pub fn new() -> (r: ReceiveGate)
        ensures
            !r.is_receiving(),
    {
        ReceiveGate { receiving: false }
    }

    /// Whether a file is being received.
    pub fn receiving(&self) -> (r: bool)
        ensures
            r == self.is_receiving(),
    {
        self.receiving
    }

    /// `handle_connection`'s admission of a file request (see
    /// [`admit_file`]), taking the permit for a request that may go on to
    /// be received. While a file is being received every request is
    /// answered busy and the permit stays held; otherwise the permit is
    /// held afterwards exactly when the request is accepted or put to the
    /// user. So a receive is only ever admitted when none is running.
    pub fn admit_request(&mut self, file_size: u64, max_file_size: u64, trusted: bool) -> (r: FileAdmission)
        ensures
            old(self).is_receiving() ==> r is Busy && final(self).is_receiving(),
            !old(self).is_receiving() ==> final(self).is_receiving() == (r is Accept || r is AskUser),
            !old(self).is_receiving() && file_size > max_file_size ==> (r matches FileAdmission::TooLarge(
                m,
            ) && m@ == too_large_message(file_size)),
            !old(self).is_receiving() && file_size <= max_file_size && trusted ==> r is Accept,
            !old(self).is_receiving() && file_size <= max_file_size && !trusted ==> r is AskUser,
            (r is Accept || r is AskUser) ==> !old(self).is_receiving(),
    {
        let r = admit_file(self.receiving, file_size, max_file_size, trusted);
        match r {
            FileAdmission::Accept | FileAdmission::AskUser => {
                self.receiving = true;
            },
            _ => {},
        }
        r
    }

    /// The receive ended (stored, refused by the user, or failed): the
    /// permit is given back.
    pub fn release(&mut self)
        ensures
            !final(self).is_receiving(),
    {
        self.receiving = false;
    }
}

/// The status byte answering a request: accepted or rejected.
pub fn decision_status(accepted: bool) -> (r: u8)
    ensures
        r == if accepted { STATUS_ACCEPTED } else { STATUS_REJECTED },
{
    if accepted {
        STATUS_ACCEPTED
    } else {
        STATUS_REJECTED
    }
}

/// Whether a pairing request carries this session's code.
pub fn pair_request_accepted(offered: &String, session_code: &String) -> (r: bool)
    ensures
        r == (offered@ == session_code@),
{
    *offered == *session_code
}

/// Message when the peer is receiving another file.
pub open spec fn peer_busy_error() -> Seq<char> {
    "상대 기기가 다른 파일을 받고 있습니다."@
}

/// Message when the peer refused or let the request expire.
pub open spec fn peer_refused_error() -> Seq<char> {
    "상대 기기에서 수신을 거절했거나 요청이 만료되었습니다."@
}

/// `send_source`'s reading of the peer's answer to a file request.
pub fn interpret_send_status(status: u8) -> (r: Result<(), String>)
    ensures
        r is Ok <==> status == STATUS_ACCEPTED,
        status == STATUS_BUSY ==> (r matches Err(e) && e@ == peer_busy_error()),
        status != STATUS_BUSY && status != STATUS_ACCEPTED ==> (r matches Err(e) && e@
            == peer_refused_error()),
{
    if status == STATUS_ACCEPTED {
        Ok(())
    } else if status == STATUS_BUSY {
        Err("상대 기기가 다른 파일을 받고 있습니다.".to_owned())
    } else {
        Err("상대 기기에서 수신을 거절했거나 요청이 만료되었습니다.".to_owned())
    }
}

/// Message when the receiver did not confirm the stored file.
pub open spec fn receiver_check_error() -> Seq<char> {
    "수신 측 파일 검증에 실패했습니다."@
}

/// `send_source`'s reading of the receiver's final answer, sent after the
/// file and its digest: the send is complete only when the receiver
/// confirms that it stored the file.
pub fn interpret_final_ack(status: u8) -> (r: Result<(), String>)
    ensures
        r is Ok <==> status == STATUS_ACCEPTED,
        r matches Err(e) ==> e@ == receiver_check_error(),
{
    if status == STATUS_ACCEPTED {
        Ok(())
    } else {
        Err("수신 측 파일 검증에 실패했습니다.".to_owned())
    }
}

/// The smaller of two numbers.
pub open spec fn min_of(a: int, b: int) -> int {
    if a < b {
        a
    } else {
        b
    }
}

/// Message when the user cancelled the transfer.
pub open spec fn cancelled_error() -> Seq<char> {
    "전송을 취소했습니다."@
}

/// Message when the stream ended before the announced size.
pub open spec fn early_end_error() -> Seq<char> {
    "파일 전송이 예정보다 일찍 종료되었습니다."@
}

/// `copy_with_progress`'s decision before each read: a cancelled transfer
/// stops; otherwise the read asks for what is left, at most
/// [`CHUNK_SIZE`] bytes.
pub fn before_read(total_bytes: u64, transferred: u64, cancelled: bool) -> (r: Result<usize, String>)
    requires
        transferred < total_bytes,
    ensures
        cancelled ==> (r matches Err(e) && e@ == cancelled_error()),
        !cancelled ==> (r matches Ok(n) && n as int == min_of(
            total_bytes - transferred,
            CHUNK_SIZE as int,
        )),
{
    if cancelled {
        return Err("전송을 취소했습니다.".to_owned());
    }
    Ok(next_read_limit(total_bytes, transferred))
}

/// `copy_with_progress`'s decision after each read of `count` bytes: an
/// empty read means the sender stopped early; otherwise the count of bytes
/// moved grows by `count`.
pub fn after_read(total_bytes: u64, transferred: u64, count: usize) -> (r: Result<u64, String>)
    requires
        transferred < total_bytes,
        count <= total_bytes - transferred,
    ensures
        count == 0 ==> (r matches Err(e) && e@ == early_end_error()),
        count > 0 ==> r == Ok::<u64, String>((transferred + count) as u64),
{
    if count == 0 {
        return Err("파일 전송이 예정보다 일찍 종료되었습니다.".to_owned());
    }
    Ok(transferred + count as u64)
}

/// How many bytes the next read of a transfer asks for: what is left, at
/// most one chunk.
pub fn next_read_limit(total_bytes: u64, transferred: u64) -> (r: usize)
    requires
        transferred <= total_bytes,
    ensures
        r as int == if total_bytes - transferred < CHUNK_SIZE {
            total_bytes - transferred
        } else {
            CHUNK_SIZE as int
        },
{
    let left = total_bytes - transferred;
    if left < CHUNK_SIZE as u64 {
        left as usize
    } else {
        CHUNK_SIZE
    }
}

/// Message when the received bytes do not have the sender's digest.
pub open spec fn checksum_error() -> Seq<char> {
    "파일 체크섬이 일치하지 않습니다."@
}

/// `receive_file`'s comparison of the computed digest with the sender's.
pub fn verify_checksum(computed: &[u8], expected: &[u8]) -> (r: Result<(), String>)
    ensures
        r is Ok <==> computed@ == expected@,
        r matches Err(e) ==> e@ == checksum_error(),
{
    let same = crate::text::bytes_equal(computed, expected);
    if same {
        Ok(())
    } else {
        Err("파일 체크섬이 일치하지 않습니다.".to_owned())
    }
}

/// The SHA-256 digest of a byte sequence (FIPS 180-4), as `sha2::Sha256`
/// computes it.
pub uninterp spec fn sha256(data: Seq<u8>) -> Seq<u8>;

/// Hashes `data` with SHA-256 (`sha2::Digest::digest` on `sha2::Sha256`).
/// The digest is named by `sha256` and is 32 bytes long, the output size of
/// `Sha256`.
#[verifier::external_body]
fn sha256_digest(data: &[u8]) -> (r: Vec<u8>)
    ensures
        r@ == sha256(data@),
        r@.len() == 32,
{
    sha2::Sha256::digest(data).to_vec()
}

/// The checksum of a transferred file as shown to the user: the SHA-256
/// digest of its bytes in lowercase hexadecimal.
pub fn content_checksum_hex(data: &[u8]) -> (r: String)
    ensures
        r@ == hex_of(sha256(data@)),
        r@.len() == 64,
{
    let digest = sha256_digest(data);
    to_hex(&digest)
}

/// `receive_file`'s check of the received bytes against the digest that
/// the sender appends after them.
pub fn verify_received_content(data: &[u8], expected: &[u8]) -> (r: Result<(), String>)
    ensures
        r is Ok <==> sha256(data@) == expected@,
        r matches Err(e) ==> e@ == checksum_error(),
{
    let digest = sha256_digest(data);
    verify_checksum(&digest, expected)
}

// ---------------------------------------------------------------------------
// Discovery and incoming requests
// ---------------------------------------------------------------------------

/// `start_discovery_listener`'s rule for an announcement received from
/// `source_ip`: this device's own announcements are dropped; others are
/// reported with the address they came from.
pub fn accept_announcement(device: DeviceInfo, own_id: &String, source_ip: String) -> (r: Option<
    DeviceInfo,
>)
    ensures
        device.id@ == own_id@ <==> r is None,
        r matches Some(d) ==> d.id == device.id && d.name == device.name && d.port == device.port
            && d.os == device.os && d.ip == source_ip,
{
    if device.id == *own_id {
        None
    } else {
        Some(DeviceInfo { id: device.id, name: device.name, ip: source_ip, port: device.port, os: device.os })
    }
}

/// The request shown to the user for an incoming file; the name is the one
/// the file would be stored under.
pub fn incoming_request(
    transfer_id: String,
    sender_id: String,
    sender_name: String,
    file_name: &str,
    file_size: u64,
) -> (r: IncomingRequest)
    ensures
        r.transfer_id == transfer_id,
        r.device_id == sender_id,
        r.device_name == sender_name,
        r.file_name@ == sanitized_name(file_name@),
        r.file_size == file_size,
{
    IncomingRequest {
        transfer_id,
        device_id: sender_id,
        device_name: sender_name,
        file_name: sanitize_file_name(file_name),
        file_size,
    }
}

impl PersistedSettings {
    /// `get_app_settings`: the settings with this session's pairing code.
    pub fn public_view(self, pair_code: String) -> (r: PublicSettings)
        ensures
            r.device_id == self.device_id,
            r.device_name == self.device_name,
            r.pair_code == pair_code,
            r.trusted_devices == self.trusted_devices,
            r.receive_directory == self.receive_directory,
            r.max_file_size == self.max_file_size,
    {
        PublicSettings {
            device_id: self.device_id,
            device_name: self.device_name,
            pair_code,
            trusted_devices: self.trusted_devices,
            receive_directory: self.receive_directory,
            max_file_size: self.max_file_size,
        }
    }
}

// ---------------------------------------------------------------------------
// Names of stored files
// ---------------------------------------------------------------------------

/// `safe_file_name`'s rule, given the file-name component of the path (or
/// `None` when the path has none, or it is not valid text).
pub fn safe_file_name_from(component: Option<&str>) -> (r: String)
    ensures
        component matches Some(c) ==> r@ == sanitized_name(c@),
        component is None ==> r@ == crate::file_names::fallback_name(),
{
    match component {
        Some(c) => sanitize_file_name(c),
        None => string_of(&['f', 'i', 'l', 'e']),
    }
}

/// The text after the last `'/'` of a path (all of it when there is none).
pub open spec fn last_segment(path: Seq<char>) -> Seq<char> {
    path.skip(crate::file_names::last_index_of(path, '/') + 1)
}

/// A path whose last component is read the same way on every platform:
/// no `'\\'` (a separator on Windows), no `':'` (a Windows drive), no
/// leading `//` (a Windows network share), and a last `/`-separated segment
/// that is neither empty nor `.` nor `..`.
pub open spec fn plain_path(path: Seq<char>) -> bool {
    &&& !path.contains('\\')
    &&& !path.contains(':')
    &&& !starts_with(path, "//"@)
    &&& last_segment(path).len() > 0
    &&& last_segment(path) != "."@
    &&& last_segment(path) != ".."@
}

/// A possible last component of `path`: non-empty text found in the path,
/// which is neither `.` nor `..`.
pub open spec fn is_component_of(c: Seq<char>, path: Seq<char>) -> bool {
    &&& c.len() > 0
    &&& contains_seq(path, c)
    &&& c != "."@
    &&& c != ".."@
}

/// The last component of a path as text (`Path::file_name` then
/// `OsStr::to_str`). Components are non-empty pieces of the path between
/// separators, and `file_name` answers only a normal component (never `.`
/// or `..`), so a component found is such a piece; an empty path has none.
/// For a [`plain_path`] the component is its last segment. Which separators
/// count otherwise depends on the platform, and is not stated.
#[verifier::external_body]
fn path_file_name(path: &str) -> (r: Option<String>)
    ensures
        r matches Some(c) ==> is_component_of(c@, path@),
        path@.len() == 0 ==> r.is_none(),
        plain_path(path@) ==> r.is_some() && r.unwrap()@ == last_segment(path@),
{
    std::path::Path::new(path).file_name().and_then(|n| n.to_str()).map(|n| n.to_owned())
}

/// `safe_file_name`: the name under which a file sent from `path` is offered:
/// the [`sanitized_name`] of the path's last component, or `"file"` when
/// there is none (see [`path_file_name`]).
pub fn safe_file_name(path: &str) -> (r: String)
    ensures
        r@ == crate::file_names::fallback_name() || exists|c: Seq<char>|
            is_component_of(c, path@) && r@ == sanitized_name(c),
        path@.len() == 0 ==> r@ == crate::file_names::fallback_name(),
        plain_path(path@) ==> r@ == sanitized_name(last_segment(path@)),
{
    let component = path_file_name(path);
    match component {
        Some(c) => {
            safe_file_name_from(Some(c.as_str()))
        },
        None => safe_file_name_from(None),
    }
}

/// The name tried for the `index`-th duplicate of a received file:
/// the name itself first, then `stem (index).ext`, or `stem (index)` when
/// there is no extension.
pub open spec fn download_candidate(name: Seq<char>, index: nat) -> Seq<char> {
    let stem = if stem_of(name).len() == 0 { crate::file_names::fallback_name() } else { stem_of(name) };
    if index == 0 {
        name
    } else {
        match extension_of(name) {
            Some(ext) => stem + " ("@ + decimal(index) + ")."@ + ext,
            None => stem + " ("@ + decimal(index) + ")"@,
        }
    }
}

/// `available_download_path`'s candidate names, for a stored (sanitized)
/// file name.
pub fn download_candidate_name(file_name: &str, index: u64) -> (r: String)
    ensures
        r@ == download_candidate(file_name@, index as nat),
{
    if index == 0 {
        return file_name.to_owned();
    }
    let name = chars_of(file_name);
    let stem0 = file_stem(&name);
    let stem = if stem0.len() == 0 {
        string_of(&['f', 'i', 'l', 'e'])
    } else {
        string_of(&stem0)
    };
    let mut digits: Vec<char> = Vec::new();
    push_decimal(&mut digits, index);
    let num = string_of(&digits);
    let mut out = stem;
    out.append(" (");
    out.append(num.as_str());
    let k = find_last(&name, '.');
    let dot = name.len() == 1 && name[0] == '.';
    let dotdot = name.len() == 2 && name[0] == '.' && name[1] == '.';
    assert(dot <==> name@ == seq!['.']) by {
        if name@ == seq!['.'] {
            assert(name@.len() == 1 && name@[0] == '.');
        }
        if dot {
            assert(name@ =~= seq!['.']);
        }
    }
    assert(dotdot <==> name@ == seq!['.', '.']) by {
        if name@ == seq!['.', '.'] {
            assert(name@.len() == 2 && name@[0] == '.' && name@[1] == '.');
        }
        if dotdot {
            assert(name@ =~= seq!['.', '.']);
        }
    }
    let pos: usize = match k {
        Some(i) => i,
        None => 0,
    };
    if name.len() == 0 || dot || dotdot || pos == 0 {
        out.append(")");
    } else {
        proof {
            crate::file_names::lemma_last_index_bounds(name@, '.');
        }
        out.append(").");
        let ext = copy_range(&name, pos + 1, name.len());
        assert(ext@ =~= name@.skip(pos + 1));
        let ext_s = string_of(&ext);
        out.append(ext_s.as_str());
    }
    out
}

/// How many names are tried for a received file before giving up.
pub const MAX_NAME_TRIES: u64 = 10_000;

/// Message when every name tried is taken.
pub open spec fn too_many_duplicates_error() -> Seq<char> {
    "같은 이름의 파일이 너무 많아 저장할 수 없습니다."@
}

/// The first index, from `i` on and below [`MAX_NAME_TRIES`], whose
/// candidate name is not taken.
pub open spec fn first_free(name: Seq<char>, taken: Seq<Seq<char>>, i: int) -> Option<int>
    decreases MAX_NAME_TRIES - i,
{
    if i < 0 || i >= MAX_NAME_TRIES {
        None
    } else if !taken.contains(download_candidate(name, i as nat)) {
        Some(i)
    } else {
        first_free(name, taken, i + 1)
    }
}

fn names_contain(list: &Vec<String>, name: &String) -> (r: bool)
    ensures
        r == list@.map_values(|s: String| s@).contains(name@),
{
    let ghost v = list@.map_values(|s: String| s@);
    let mut k: usize = 0;
    while k < list.len()
        invariant
            k <= list.len(),
            v == list@.map_values(|s: String| s@),
            forall|j: int| 0 <= j < k ==> v[j] != name@,
        decreases list.len() - k,
    {
        if str_eq(list[k].as_str(), name.as_str()) {
            assert(v[k as int] == name@);
            return true;
        }
        k += 1;
    }
    false
}

/// `available_download_path`'s search, given the names already present in
/// the receive folder: the first candidate name (see
/// [`download_candidate`]) that is free, trying at most
/// [`MAX_NAME_TRIES`] of them.
pub fn first_free_download_name(file_name: &str, taken: &Vec<String>) -> (r: Result<String, String>)
    ensures
        match first_free(file_name@, taken@.map_values(|s: String| s@), 0) {
            Some(i) => r matches Ok(n) && n@ == download_candidate(file_name@, i as nat),
            None => r matches Err(e) && e@ == too_many_duplicates_error(),
        },
{
    let ghost names = taken@.map_values(|s: String| s@);
    let mut index: u64 = 0;
    while index < MAX_NAME_TRIES
        invariant
            index <= MAX_NAME_TRIES,
            names == taken@.map_values(|s: String| s@),
            first_free(file_name@, names, 0) == first_free(file_name@, names, index as int),
        decreases MAX_NAME_TRIES - index,
    {
        let candidate = download_candidate_name(file_name, index);
        if !names_contain(taken, &candidate) {
            return Ok(candidate);
        }
        index += 1;
    }
    Err("같은 이름의 파일이 너무 많아 저장할 수 없습니다.".to_owned())
}

// ---------------------------------------------------------------------------
// A receive session
// ---------------------------------------------------------------------------

/// `handle_connection`'s reading of the user's answer to a file request:
/// `None` when no answer came within the wait (or the request was
/// dropped); only an explicit yes accepts.
pub fn approval_granted(answer: Option<bool>) -> (r: bool)
    ensures
        r == (answer == Some(true)),
{
    match answer {
        Some(a) => a,
        None => false,
    }
}

/// Where a receive session stands.
pub enum ReceivePhase {
    /// The file request is being admitted.
    Admitting,
    /// The user is asked whether to accept.
    AwaitingUser,
    /// The file's bytes are being received.
    Transferring,
    /// The session is over.
    Finished,
}

/// What happens next in a receive session.
pub enum ReceiveInput {
    /// The file request, with whether another receive runs, its size, the
    /// size limit, and whether the sender is trusted.
    Request { busy: bool, file_size: u64, max_file_size: u64, trusted: bool },
    /// The user's answer, or `None` when none came within the wait.
    UserAnswer(Option<bool>),
    /// Every byte arrived; whether their digest matches the sender's.
    Completed { digest_matches: bool },
    /// The transfer failed (cancelled, timed out, ended early).
    Failed,
}

/// What the receiver does.
pub enum ReceiveAction {
    /// Send this status byte to the sender.
    Reply(u8),
    /// Ask the user.
    AskUser,
    /// Nothing.
    Nothing,
}

/// The session's next phase and action (`handle_connection` and
/// `receive_file` without their I/O): busy and too-large requests are
/// answered at once; a trusted sender is accepted, anyone else is put to
/// the user; only a yes accepts; the stored file is confirmed only when its
/// digest matches, and a failure or mismatch is refused.
pub open spec fn next_receive(p: ReceivePhase, i: ReceiveInput) -> (ReceivePhase, ReceiveAction) {
    match (p, i) {
        (ReceivePhase::Admitting, ReceiveInput::Request { busy, file_size, max_file_size, trusted }) => {
            if busy {
                (ReceivePhase::Finished, ReceiveAction::Reply(STATUS_BUSY))
            } else if file_size > max_file_size {
                (ReceivePhase::Finished, ReceiveAction::Reply(STATUS_REJECTED))
            } else if trusted {
                (ReceivePhase::Transferring, ReceiveAction::Reply(STATUS_ACCEPTED))
            } else {
                (ReceivePhase::AwaitingUser, ReceiveAction::AskUser)
            }
        },
        (ReceivePhase::AwaitingUser, ReceiveInput::UserAnswer(a)) => {
            if a == Some(true) {
                (ReceivePhase::Transferring, ReceiveAction::Reply(STATUS_ACCEPTED))
            } else {
                (ReceivePhase::Finished, ReceiveAction::Reply(STATUS_REJECTED))
            }
        },
        (ReceivePhase::Transferring, ReceiveInput::Completed { digest_matches }) => {
            (
                ReceivePhase::Finished,
                ReceiveAction::Reply(if digest_matches { STATUS_ACCEPTED } else { STATUS_REJECTED }),
            )
        },
        (ReceivePhase::Transferring, ReceiveInput::Failed) => {
            (ReceivePhase::Finished, ReceiveAction::Reply(STATUS_REJECTED))
        },
        _ => (p, ReceiveAction::Nothing),
    }
}

/// Computes [`next_receive`].
pub fn receive_step(p: ReceivePhase, i: ReceiveInput) -> (r: (ReceivePhase, ReceiveAction))
    ensures
        r == next_receive(p, i),
{
    match (p, i) {
        (ReceivePhase::Admitting, ReceiveInput::Request { busy, file_size, max_file_size, trusted }) => {
            if busy {
                (ReceivePhase::Finished, ReceiveAction::Reply(STATUS_BUSY))
            } else if file_size > max_file_size {
                (ReceivePhase::Finished, ReceiveAction::Reply(STATUS_REJECTED))
            } else if trusted {
                (ReceivePhase::Transferring, ReceiveAction::Reply(STATUS_ACCEPTED))
            } else {
                (ReceivePhase::AwaitingUser, ReceiveAction::AskUser)
            }
        },
        (ReceivePhase::AwaitingUser, ReceiveInput::UserAnswer(a)) => {
            if approval_granted(a) {
                (ReceivePhase::Transferring, ReceiveAction::Reply(STATUS_ACCEPTED))
            } else {
                (ReceivePhase::Finished, ReceiveAction::Reply(STATUS_REJECTED))
            }
        },
        (ReceivePhase::Transferring, ReceiveInput::Completed { digest_matches }) => {
            let status = if digest_matches {
                STATUS_ACCEPTED
            } else {
                STATUS_REJECTED
            };
            (ReceivePhase::Finished, ReceiveAction::Reply(status))
        },
        (ReceivePhase::Transferring, ReceiveInput::Failed) => {
            (ReceivePhase::Finished, ReceiveAction::Reply(STATUS_REJECTED))
        },
        (p, _) => (p, ReceiveAction::Nothing),
    }
}

/// The phase a session reaches from [`ReceivePhase::Admitting`] by these
/// inputs.
pub open spec fn phase_after(inputs: Seq<ReceiveInput>) -> ReceivePhase
    decreases inputs.len(),
{
    if inputs.len() == 0 {
        ReceivePhase::Admitting
    } else {
        next_receive(phase_after(inputs.drop_last()), inputs.last()).0
    }
}

/// A request that passes admission: no other receive runs and it is within
/// the size limit.
pub open spec fn admitted_request(i: ReceiveInput) -> bool {
    i matches ReceiveInput::Request { busy, file_size, max_file_size, .. } && !busy && file_size
        <= max_file_size
}

proof fn lemma_open_session_was_admitted(inputs: Seq<ReceiveInput>)
    ensures
        (phase_after(inputs) is AwaitingUser || phase_after(inputs) is Transferring) ==> exists|j: int|
            0 <= j < inputs.len() && admitted_request(#[trigger] inputs[j]),
    decreases inputs.len(),
{
    if inputs.len() > 0 {
        let front = inputs.drop_last();
        lemma_open_session_was_admitted(front);
        let p = phase_after(front);
        if phase_after(inputs) is AwaitingUser || phase_after(inputs) is Transferring {
            if p is AwaitingUser || p is Transferring {
                let j = choose|j: int| 0 <= j < front.len() && admitted_request(#[trigger] front[j]);
                assert(inputs[j] == front[j]);
            } else {
                assert(admitted_request(inputs[inputs.len() - 1]));
            }
        }
    }
}

/// A receive is confirmed to the sender only at the end: the final status
/// byte `ACCEPTED` that finishes a session comes only when every byte
/// arrived with a matching digest, after a request that passed the busy and
/// size checks.
pub proof fn law_final_ack_follows_checks(inputs: Seq<ReceiveInput>)
    requires
        inputs.len() > 0,
        next_receive(phase_after(inputs.drop_last()), inputs.last()) == (
            ReceivePhase::Finished,
            ReceiveAction::Reply(STATUS_ACCEPTED),
        ),
    ensures
        inputs.last() == (ReceiveInput::Completed { digest_matches: true }),
        phase_after(inputs.drop_last()) is Transferring,
        exists|j: int| 0 <= j < inputs.len() - 1 && admitted_request(#[trigger] inputs[j]),
{
    let front = inputs.drop_last();
    lemma_open_session_was_admitted(front);
    let j = choose|j: int| 0 <= j < front.len() && admitted_request(#[trigger] front[j]);
    assert(inputs[j] == front[j]);
}

} // verus!
