use vstd::prelude::*;
use vstd::string::StrSliceExecFns;
use vstd::string::StringExecFns;

use crate::error::{JkError, Result};
use crate::text::str_eq;

verus! {

// ---------------------------------------------------------------------------
// Text helpers
// ---------------------------------------------------------------------------

/// Index of the first `c` in `s` at or after `i`.
pub open spec fn first_of(s: Seq<char>, c: char, i: int) -> Option<int>
    decreases s.len() - i,
{
    if i < 0 || i >= s.len() {
        None
    } else if s[i] == c {
        Some(i)
    } else {
        first_of(s, c, i + 1)
    }
}

pub proof fn lemma_first_of_range(s: Seq<char>, c: char, i: int)
    ensures
        first_of(s, c, i) matches Some(k) ==> 0 <= i <= k < s.len() && s[k] == c,
    decreases s.len() - i,
{
    if !(i < 0 || i >= s.len()) && s[i] != c {
        lemma_first_of_range(s, c, i + 1);
    }
}

/// Position of the first `c` in `s` at or after `from`.
fn find_char(s: &str, c: char, from: usize) -> (r: Option<usize>)
    ensures
        match r {
            Some(k) => first_of(s@, c, from as int) == Some(k as int) && k < s@.len(),
            None => first_of(s@, c, from as int) is None,
        },
{
    proof {
        lemma_first_of_range(s@, c, from as int);
    }
    let n: usize = s.unicode_len();
    let mut i: usize = from;
    while i < n
        invariant
            n == s@.len(),
            from <= i,
            first_of(s@, c, from as int) == first_of(s@, c, i as int),
        decreases n - i,
    {
        if s.get_char(i) == c {
            return Some(i);
        }
        i += 1;
    }
    None
}

/// `s` with every leading copy of `p` removed (nothing is removed for an empty `p`).
pub open spec fn strip_all(s: Seq<char>, p: Seq<char>) -> Seq<char>
    decreases s.len(),
{
    if p.len() > 0 && p.len() <= s.len() && s.take(p.len() as int) == p {
        strip_all(s.skip(p.len() as int), p)
    } else {
        s
    }
}

/// Remove every leading copy of `p` from `s`.
fn trim_start_matches<'a>(s: &'a str, p: &str) -> (r: &'a str)
    ensures
        r@ == strip_all(s@, p@),
{
    let n: usize = s.unicode_len();
    let m: usize = p.unicode_len();
    let mut i: usize = 0;
    assert(s@.skip(0) =~= s@);
    while m > 0 && m <= n - i && str_eq(s.substring_char(i, i + m), p)
        invariant
            n == s@.len(),
            m == p@.len(),
            i <= n,
            strip_all(s@, p@) == strip_all(s@.skip(i as int), p@),
        decreases n - i,
    {
        proof {
            let t = s@.skip(i as int);
            assert(t.take(m as int) =~= s@.subrange(i as int, i + m));
            assert(t.skip(m as int) =~= s@.skip(i + m));
        }
        i = i + m;
    }
    proof {
        let t = s@.skip(i as int);
        if m > 0 && m <= n - i {
            assert(t.take(m as int) =~= s@.subrange(i as int, i + m));
        }
        assert(s@.subrange(i as int, n as int) =~= t);
    }
    s.substring_char(i, n)
}

// ---------------------------------------------------------------------------
// Integers in text
// ---------------------------------------------------------------------------

/// The value of digit `c` in base `radix` (0-9, then a-z or A-Z for 10 and up), where it
/// is a digit of that base.
pub open spec fn digit_value(c: char, radix: u32) -> Option<nat> {
    let v: int = if '0' <= c && c <= '9' {
        c as int - 48
    } else if 'a' <= c && c <= 'z' {
        c as int - 87
    } else if 'A' <= c && c <= 'Z' {
        c as int - 55
    } else {
        36
    };
    if v < radix {
        Some(v as nat)
    } else {
        None
    }
}

/// The value of a run of digits of base `radix`, most significant first.
pub open spec fn digits_value(s: Seq<char>, radix: u32) -> Option<nat>
    decreases s.len(),
{
    if s.len() == 0 {
        Some(0)
    } else {
        match (digits_value(s.drop_last(), radix), digit_value(s.last(), radix)) {
            (Some(a), Some(d)) => Some(a * (radix as nat) + d),
            _ => None,
        }
    }
}

/// An unsigned 32-bit integer in base `radix`: an optional '+', then one or more digits of
/// the base, of a value that fits.
pub open spec fn spec_parse_u32(s: Seq<char>, radix: u32) -> Option<u32> {
    let digits = if s.len() > 0 && s[0] == '+' {
        s.skip(1)
    } else {
        s
    };
    if digits.len() == 0 {
        None
    } else {
        match digits_value(digits, radix) {
            Some(v) => if v <= u32::MAX {
                Some(v as u32)
            } else {
                None
            },
            None => None,
        }
    }
}

/// The value of digit `c` in base `radix`, where it is one.
fn digit_of(c: char, radix: u32) -> (r: Option<u32>)
    ensures
        match digit_value(c, radix) {
            Some(v) => r == Some(v as u32),
            None => r is None,
        },
{
    let v: u32 = if '0' <= c && c <= '9' {
        (c as u32) - 48
    } else if 'a' <= c && c <= 'z' {
        (c as u32) - 87
    } else if 'A' <= c && c <= 'Z' {
        (c as u32) - 55
    } else {
        36
    };
    if v < radix {
        Some(v)
    } else {
        None
    }
}

/// The digits of a prefix bound those of the whole: where the prefix is not all digits
/// neither is the whole, and otherwise the whole is worth at least as much.
proof fn lemma_digits_prefix(s: Seq<char>, k: int, radix: u32)
    requires
        0 <= k <= s.len(),
        radix >= 1,
    ensures
        digits_value(s.take(k), radix) is None ==> digits_value(s, radix) is None,
        digits_value(s.take(k), radix) is Some && digits_value(s, radix) is Some ==> digits_value(
            s,
            radix,
        ).unwrap() >= digits_value(s.take(k), radix).unwrap(),
    decreases s.len(),
{
    if k == s.len() {
        assert(s.take(k) =~= s);
    } else {
        lemma_digits_prefix(s.drop_last(), k, radix);
        assert(s.drop_last().take(k) =~= s.take(k));
        if let Some(a) = digits_value(s.drop_last(), radix) {
            if let Some(d) = digit_value(s.last(), radix) {
                assert(a * (radix as nat) + d >= a) by (nonlinear_arith)
                    requires
                        radix >= 1,
                ;
            }
        }
    }
}

/// Read an unsigned 32-bit integer in base `radix` (see [`spec_parse_u32`]; this is what
/// `u32::from_str_radix` accepts, and `str::parse::<u32>` in base 10).
fn parse_u32_radix(s: &str, radix: u32) -> (r: Option<u32>)
    requires
        2 <= radix <= 36,
    ensures
        r == spec_parse_u32(s@, radix),
{
    let n: usize = s.unicode_len();
    let start: usize = if n > 0 && s.get_char(0) == '+' {
        1
    } else {
        0
    };
    let ghost d = s@.skip(start as int);
    proof {
        if start == 0 {
            assert(d =~= s@);
        }
    }
    if start == n {
        return None;
    }
    let mut acc: u64 = 0;
    let mut k: usize = start;
    assert(d.take(0) =~= Seq::<char>::empty());
    while k < n
        invariant
            start <= k <= n,
            n == s@.len(),
            start <= 1,
            2 <= radix <= 36,
            d == s@.skip(start as int),
            digits_value(d.take(k - start), radix) == Some(acc as nat),
            acc <= u32::MAX,
            spec_parse_u32(s@, radix) == match digits_value(d, radix) {
                Some(v) => if v <= u32::MAX {
                    Some(v as u32)
                } else {
                    None
                },
                None => None,
            },
        decreases n - k,
    {
        let c = s.get_char(k);
        let ghost i: int = k - start;
        proof {
            assert(d[i] == c);
            assert(d.take(i + 1).drop_last() =~= d.take(i));
            assert(d.take(i + 1).last() == c);
            lemma_digits_prefix(d, i + 1, radix);
        }
        let v: u32 = match digit_of(c, radix) {
            Some(v) => v,
            None => return None,
        };
        assert(acc * (radix as u64) <= 4294967295u64 * 36) by (nonlinear_arith)
            requires
                acc <= 4294967295u64,
                radix <= 36,
        ;
        let next: u64 = acc * (radix as u64) + (v as u64);
        assert(digits_value(d.take(i + 1), radix) == Some(next as nat));
        if next > 4294967295u64 {
            return None;
        }
        acc = next;
        k += 1;
    }
    proof {
        assert(d.take(n - start) =~= d);
    }
    Some(acc as u32)
}

// ---------------------------------------------------------------------------
// Serial targets
// ---------------------------------------------------------------------------

/// Line speed of a serial target that names none, or none that reads as a number.
pub const DEFAULT_BAUD_RATE: u32 = 9600;

/// A serial target: the device path and its line speed.
#[derive(Debug, Clone)]
pub struct SerialTarget {
    pub port: String,
    pub baud_rate: u32,
}

/// `port[,baud[,...]]`: the port is the text before the first ',', the speed the decimal
/// number between the first and the second ',' (or the end), 9600 where it is missing or
/// not a number.
pub open spec fn spec_serial_target(s: Seq<char>) -> (Seq<char>, u32) {
    match first_of(s, ',', 0) {
        None => (s, DEFAULT_BAUD_RATE),
        Some(k1) => {
            let k2 = match first_of(s, ',', k1 + 1) {
                Some(k) => k,
                None => s.len() as int,
            };
            let baud = match spec_parse_u32(s.subrange(k1 + 1, k2), 10) {
                Some(b) => b,
                None => DEFAULT_BAUD_RATE,
            };
            (s.take(k1), baud)
        },
    }
}

impl SerialTarget {
    /// Read a serial target (see [`spec_serial_target`]).
    pub fn from_target(target: &str) -> (r: Self)
        ensures
            (r.port@, r.baud_rate) == spec_serial_target(target@),
    {
        let n: usize = target.unicode_len();
        match find_char(target, ',', 0) {
            None => SerialTarget { port: String::from_str(target), baud_rate: DEFAULT_BAUD_RATE },
            Some(k1) => {
                proof {
                    lemma_first_of_range(target@, ',', k1 + 1);
                }
                let k2: usize = match find_char(target, ',', k1 + 1) {
                    Some(k) => k,
                    None => n,
                };
                let field = target.substring_char(k1 + 1, k2);
                let baud_rate: u32 = match parse_u32_radix(field, 10) {
                    Some(b) => b,
                    None => DEFAULT_BAUD_RATE,
                };
                let port = target.substring_char(0, k1);
                proof {
                    assert(port@ =~= target@.take(k1 as int));
                }
                SerialTarget { port: String::from_str(port), baud_rate }
            },
        }
    }
}

// ---------------------------------------------------------------------------
// CAN targets
// ---------------------------------------------------------------------------

/// A CAN target: the interface and the identifiers the BMS sends on (rx) and listens on
/// (tx).
#[derive(Debug, Clone)]
pub struct CanTarget {
    pub interface: String,
    pub rx_id: u32,
    pub tx_id: u32,
}

/// Why a CAN target is refused.
pub enum CanTargetError {
    Format,
    RxId,
    TxId,
}

/// The message of a refused CAN target.
pub open spec fn can_target_message(e: CanTargetError) -> Seq<char> {
    match e {
        CanTargetError::Format => "Invalid CAN target format. Use: can:/dev/can0,rx_id,tx_id"@,
        CanTargetError::RxId => "Invalid RX CAN ID"@,
        CanTargetError::TxId => "Invalid TX CAN ID"@,
    }
}

/// `interface,rx,tx[,...]`: at least three ','-separated fields; the interface is the
/// first field without its leading "can:" prefixes, and the two identifiers are the next
/// fields without their leading "0x" prefixes, read as hexadecimal. The format is checked
/// first, then the rx identifier, then the tx identifier.
pub open spec fn spec_can_target(s: Seq<char>) -> core::result::Result<
    (Seq<char>, u32, u32),
    CanTargetError,
> {
    match first_of(s, ',', 0) {
        None => Err(CanTargetError::Format),
        Some(k1) => match first_of(s, ',', k1 + 1) {
            None => Err(CanTargetError::Format),
            Some(k2) => {
                let k3 = match first_of(s, ',', k2 + 1) {
                    Some(k) => k,
                    None => s.len() as int,
                };
                let interface = strip_all(s.take(k1), "can:"@);
                match spec_parse_u32(strip_all(s.subrange(k1 + 1, k2), "0x"@), 16) {
                    None => Err(CanTargetError::RxId),
                    Some(rx) => match spec_parse_u32(strip_all(s.subrange(k2 + 1, k3), "0x"@), 16) {
                        None => Err(CanTargetError::TxId),
                        Some(tx) => Ok((interface, rx, tx)),
                    },
                }
            },
        },
    }
}

fn can_target_error(e: CanTargetError) -> (r: JkError)
    ensures
        r matches JkError::TransportError(m) && m@ == can_target_message(e),
{
    let m = match e {
        CanTargetError::Format => "Invalid CAN target format. Use: can:/dev/can0,rx_id,tx_id",
        CanTargetError::RxId => "Invalid RX CAN ID",
        CanTargetError::TxId => "Invalid TX CAN ID",
    };
    JkError::TransportError(String::from_str(m))
}

impl CanTarget {
    /// Read a CAN target (see [`spec_can_target`]); a refused one is a transport error with
    /// [`can_target_message`].
    pub fn from_target(target: &str) -> (r: Result<Self>)
        ensures
            match spec_can_target(target@) {
                Ok((interface, rx, tx)) => r matches Ok(t) && t.interface@ == interface
                    && t.rx_id == rx && t.tx_id == tx,
                Err(e) => r matches Err(JkError::TransportError(m)) && m@ == can_target_message(
                    e,
                ),
            },
    {
        let n: usize = target.unicode_len();
        let k1: usize = match find_char(target, ',', 0) {
            Some(k) => k,
            None => return Err(can_target_error(CanTargetError::Format)),
        };
        proof {
            lemma_first_of_range(target@, ',', k1 + 1);
        }
        let k2: usize = match find_char(target, ',', k1 + 1) {
            Some(k) => k,
            None => return Err(can_target_error(CanTargetError::Format)),
        };
        proof {
            lemma_first_of_range(target@, ',', k2 + 1);
        }
        let k3: usize = match find_char(target, ',', k2 + 1) {
            Some(k) => k,
            None => n,
        };
        let head = target.substring_char(0, k1);
        proof {
            assert(head@ =~= target@.take(k1 as int));
        }
        let interface = trim_start_matches(head, "can:");
        let rx_text = trim_start_matches(target.substring_char(k1 + 1, k2), "0x");
        let rx_id: u32 = match parse_u32_radix(rx_text, 16) {
            Some(v) => v,
            None => return Err(can_target_error(CanTargetError::RxId)),
        };
        let tx_text = trim_start_matches(target.substring_char(k2 + 1, k3), "0x");
        let tx_id: u32 = match parse_u32_radix(tx_text, 16) {
            Some(v) => v,
            None => return Err(can_target_error(CanTargetError::TxId)),
        };
        Ok(CanTarget { interface: String::from_str(interface), rx_id, tx_id })
    }
}

// ---------------------------------------------------------------------------
// Bluetooth targets
// ---------------------------------------------------------------------------

/// The Unicode White_Space characters.
pub open spec fn is_white_space(c: char) -> bool {
    ||| ('\u{9}' <= c && c <= '\u{d}')
    ||| c == ' '
    ||| c == '\u{85}'
    ||| c == '\u{a0}'
    ||| c == '\u{1680}'
    ||| ('\u{2000}' <= c && c <= '\u{200a}')
    ||| c == '\u{2028}'
    ||| c == '\u{2029}'
    ||| c == '\u{202f}'
    ||| c == '\u{205f}'
    ||| c == '\u{3000}'
}

/// `s` without its leading white space.
pub open spec fn skip_white(s: Seq<char>) -> Seq<char>
    decreases s.len(),
{
    if s.len() > 0 && is_white_space(s[0]) {
        skip_white(s.skip(1))
    } else {
        s
    }
}

/// `s` without its trailing white space.
pub open spec fn drop_white(s: Seq<char>) -> Seq<char>
    decreases s.len(),
{
    if s.len() > 0 && is_white_space(s.last()) {
        drop_white(s.drop_last())
    } else {
        s
    }
}

/// Whether `c` is a Unicode White_Space character.
fn white_space(c: char) -> (r: bool)
    ensures
        r == is_white_space(c),
{
    ('\u{9}' <= c && c <= '\u{d}') || c == ' ' || c == '\u{85}' || c == '\u{a0}' || c
        == '\u{1680}' || ('\u{2000}' <= c && c <= '\u{200a}') || c == '\u{2028}' || c
        == '\u{2029}' || c == '\u{202f}' || c == '\u{205f}' || c == '\u{3000}'
}

/// The text without its leading and trailing white space (what `str::trim` gives).
fn trim(s: &str) -> (r: &str)
    ensures
        r@ == drop_white(skip_white(s@)),
{
    let n: usize = s.unicode_len();
    let mut i: usize = 0;
    assert(s@.skip(0) =~= s@);
    while i < n && white_space(s.get_char(i))
        invariant
            n == s@.len(),
            i <= n,
            skip_white(s@) == skip_white(s@.skip(i as int)),
        decreases n - i,
    {
        assert(s@.skip(i as int).skip(1) =~= s@.skip(i + 1));
        i += 1;
    }
    assert(skip_white(s@.skip(i as int)) == s@.skip(i as int));
    let mut j: usize = n;
    assert(s@.subrange(i as int, n as int) =~= s@.skip(i as int));
    while j > i && white_space(s.get_char(j - 1))
        invariant
            n == s@.len(),
            i <= j <= n,
            drop_white(skip_white(s@)) == drop_white(s@.subrange(i as int, j as int)),
        decreases j - i,
    {
        assert(s@.subrange(i as int, j as int).drop_last() =~= s@.subrange(i as int, j - 1));
        j -= 1;
    }
    assert(drop_white(s@.subrange(i as int, j as int)) == s@.subrange(i as int, j as int));
    s.substring_char(i, j)
}

/// Number of UTF-8 bytes of a text.
pub open spec fn utf8_len(s: Seq<char>) -> int {
    vstd::utf8::encode_utf8(s).len() as int
}

/// The characteristic of a BLE target: the JK default FFE1 where none is named; a 16-bit
/// UUID (given as up to four bytes after "0x", or as any other text that is not a full
/// 36-byte UUID with dashes) is placed in the Bluetooth base UUID; anything else is taken
/// as it stands. Surrounding white space is ignored.
pub open spec fn spec_ble_characteristic(topts: Option<Seq<char>>) -> Seq<char> {
    match topts {
        None => "0000ffe1-0000-1000-8000-00805f9b34fb"@,
        Some(o) => {
            let t = drop_white(skip_white(o));
            if t.len() >= 2 && t.take(2) == "0x"@ {
                if utf8_len(t.skip(2)) <= 4 {
                    "0000"@ + t.skip(2) + "-0000-1000-8000-00805f9b34fb"@
                } else {
                    t
                }
            } else if utf8_len(t) == 36 && t.contains('-') {
                t
            } else {
                "0000"@ + t + "-0000-1000-8000-00805f9b34fb"@
            }
        },
    }
}

/// Whether `s` holds `c`.
fn contains_char(s: &str, c: char) -> (r: bool)
    ensures
        r == s@.contains(c),
{
    proof {
        lemma_first_of_range(s@, c, 0);
        if s@.contains(c) {
            let k = choose|k: int| 0 <= k < s@.len() && s@[k] == c;
            lemma_first_of_none(s@, c, 0, k);
        }
    }
    find_char(s, c, 0).is_some()
}

proof fn lemma_first_of_none(s: Seq<char>, c: char, i: int, k: int)
    requires
        0 <= i <= k < s.len(),
        s[k] == c,
    ensures
        first_of(s, c, i) is Some,
    decreases k - i,
{
    if s[i] != c {
        lemma_first_of_none(s, c, i + 1, k);
    }
}

/// The characteristic UUID text for the option of a BLE target (see
/// [`spec_ble_characteristic`]).
pub fn ble_characteristic(topts: Option<&str>) -> (r: String)
    ensures
        r@ == spec_ble_characteristic(
            match topts {
                Some(o) => Some(o@),
                None => None,
            },
        ),
{
    let o = match topts {
        None => return String::from_str("0000ffe1-0000-1000-8000-00805f9b34fb"),
        Some(o) => o,
    };
    let t = trim(o);
    let n: usize = t.unicode_len();
    let prefixed = n >= 2 && str_eq(t.substring_char(0, 2), "0x");
    proof {
        if n >= 2 {
            assert(t@.subrange(0, 2) =~= t@.take(2));
        }
    }
    if prefixed {
        let hex = t.substring_char(2, n);
        proof {
            assert(hex@ =~= t@.skip(2));
        }
        if hex.as_bytes().len() <= 4 {
            let mut out = String::from_str("0000");
            out.append(hex);
            out.append("-0000-1000-8000-00805f9b34fb");
            out
        } else {
            String::from_str(t)
        }
    } else if t.as_bytes().len() == 36 && contains_char(t, '-') {
        String::from_str(t)
    } else {
        let mut out = String::from_str("0000");
        out.append(t);
        out.append("-0000-1000-8000-00805f9b34fb");
        out
    }
}

/// A BLE target: the device address and the characteristic UUID text.
#[derive(Debug, Clone)]
pub struct BleTarget {
    pub address: String,
    pub characteristic: String,
}

/// `address[,characteristic[,...]]`: the address is the text before the first ',', the
/// option the text between the first and the second ',' (or the end), if there is a ','.
pub open spec fn spec_ble_target(s: Seq<char>) -> (Seq<char>, Option<Seq<char>>) {
    match first_of(s, ',', 0) {
        None => (s, None),
        Some(k1) => {
            let k2 = match first_of(s, ',', k1 + 1) {
                Some(k) => k,
                None => s.len() as int,
            };
            (s.take(k1), Some(s.subrange(k1 + 1, k2)))
        },
    }
}

impl BleTarget {
    /// Read a BLE target (see [`spec_ble_target`] and [`spec_ble_characteristic`]).
    pub fn from_target(target: &str) -> (r: Self)
        ensures
            r.address@ == spec_ble_target(target@).0,
            r.characteristic@ == spec_ble_characteristic(spec_ble_target(target@).1),
    {
        let n: usize = target.unicode_len();
        match find_char(target, ',', 0) {
            None => BleTarget {
                address: String::from_str(target),
                characteristic: ble_characteristic(None),
            },
            Some(k1) => {
                proof {
                    lemma_first_of_range(target@, ',', k1 + 1);
                }
                let k2: usize = match find_char(target, ',', k1 + 1) {
                    Some(k) => k,
                    None => n,
                };
                let address = target.substring_char(0, k1);
                proof {
                    assert(address@ =~= target@.take(k1 as int));
                }
                BleTarget {
                    address: String::from_str(address),
                    characteristic: ble_characteristic(Some(target.substring_char(k1 + 1, k2))),
                }
            },
        }
    }
}

} // verus!
