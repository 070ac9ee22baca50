use vstd::prelude::*;
use vstd::string::StrSliceExecFns;
use vstd::string::StringExecFns;

use crate::error::JkError;
use crate::text::{decimal, str_eq, u32_to_string};

verus! {

/// Index of the first ':' in `s`.
pub open spec fn first_colon(s: Seq<char>, i: int) -> Option<int>
    decreases s.len() - i,
{
    if i < 0 || i >= s.len() {
        None
    } else if s[i] == ':' {
        Some(i)
    } else {
        first_colon(s, i + 1)
    }
}

/// Split a `transport:target` specification at its first ':'; without a ':' the whole
/// text is a serial target.
pub fn parse_transport<'a>(spec: &'a str) -> (r: (&'a str, &'a str))
    ensures
        match first_colon(spec@, 0) {
            Some(k) => r.0@ == spec@.take(k) && r.1@ == spec@.skip(k + 1),
            None => r.0@ == "serial"@ && r.1@ == spec@,
        },
{
    let n: usize = spec.unicode_len();
    let mut i: usize = 0;
    while i < n
        invariant
            n == spec@.len(),
            i <= n,
            first_colon(spec@, 0) == first_colon(spec@, i as int),
        decreases n - i,
    {
        if spec.get_char(i) == ':' {
            let head = spec.substring_char(0, i);
            let tail = spec.substring_char(i + 1, n);
            proof {
                assert(spec@.subrange(0, i as int) =~= spec@.take(i as int));
                assert(spec@.subrange(i + 1, n as int) =~= spec@.skip(i + 1));
            }
            return (head, tail);
        }
        i += 1;
    }
    ("serial", spec)
}

/// Runtime as days, hours and minutes: "{d}d {h}h {m}m" from one day on, "{h}h {m}m"
/// from one hour on, else "{m}m".
pub open spec fn spec_format_runtime(seconds: u32) -> Seq<char> {
    let days = seconds / 86400;
    let hours = (seconds % 86400) / 3600;
    let mins = (seconds % 3600) / 60;
    if days > 0 {
        decimal(days as nat) + "d "@ + decimal(hours as nat) + "h "@ + decimal(mins as nat) + "m"@
    } else if hours > 0 {
        decimal(hours as nat) + "h "@ + decimal(mins as nat) + "m"@
    } else {
        decimal(mins as nat) + "m"@
    }
}

/// Format a runtime given in seconds.
pub fn format_runtime(seconds: u32) -> (r: String)
    ensures
        r@ == spec_format_runtime(seconds),
{
    let days: u32 = seconds / 86400;
    let hours: u32 = (seconds % 86400) / 3600;
    let mins: u32 = (seconds % 3600) / 60;
    let mut out = String::new();
    if days > 0 {
        out.append(u32_to_string(days).as_str());
        out.append("d ");
        out.append(u32_to_string(hours).as_str());
        out.append("h ");
    } else if hours > 0 {
        out.append(u32_to_string(hours).as_str());
        out.append("h ");
    }
    out.append(u32_to_string(mins).as_str());
    out.append("m");
    proof {
        if days > 0 {
            assert(out@ =~= spec_format_runtime(seconds));
        } else if hours > 0 {
            assert(out@ =~= spec_format_runtime(seconds));
        } else {
            assert(out@ =~= spec_format_runtime(seconds));
        }
    }
    out
}


/// The transports a `transport:target` specification can name.
#[derive(Debug, Clone, Copy, PartialEq, Eq, Structural)]
pub enum TransportKind {
    Serial,
    Can,
    Bluetooth,
}

/// The transport named "serial", "can" or "bt"; none for any other name.
pub open spec fn spec_transport_kind(name: Seq<char>) -> Option<TransportKind> {
    if name == "serial"@ {
        Some(TransportKind::Serial)
    } else if name == "can"@ {
        Some(TransportKind::Can)
    } else if name == "bt"@ {
        Some(TransportKind::Bluetooth)
    } else {
        None
    }
}

/// The transport a name selects (see [`spec_transport_kind`]).
pub fn transport_kind(name: &str) -> (r: Option<TransportKind>)
    ensures
        r == spec_transport_kind(name@),
{
    if str_eq(name, "serial") {
        Some(TransportKind::Serial)
    } else if str_eq(name, "can") {
        Some(TransportKind::Can)
    } else if str_eq(name, "bt") {
        Some(TransportKind::Bluetooth)
    } else {
        None
    }
}

/// The error for a transport name that selects no transport: "Unsupported transport: "
/// and the name.
pub fn unsupported_transport(name: &str) -> (e: JkError)
    ensures
        e matches JkError::TransportError(m) && m@ == "Unsupported transport: "@ + name@,
{
    let mut m = String::from_str("Unsupported transport: ");
    m.append(name);
    JkError::TransportError(m)
}


// ---------------------------------------------------------------------------
// Hex dumps
// ---------------------------------------------------------------------------

/// The lowercase hexadecimal digit of `d` (below 16), as an ASCII byte.
pub open spec fn hex_digit(d: nat) -> u8 {
    if d < 10 {
        (48 + d) as u8
    } else {
        (87 + d) as u8
    }
}

/// Lowercase hexadecimal notation of `n`, without leading zeros.
pub open spec fn hex_text(n: nat) -> Seq<u8>
    decreases n,
{
    if n < 16 {
        seq![hex_digit(n)]
    } else {
        hex_text(n / 16).push(hex_digit(n % 16))
    }
}

/// `n` in lowercase hexadecimal, zero-padded to at least four digits.
pub open spec fn offset_text(n: nat) -> Seq<u8> {
    let h = hex_text(n);
    if h.len() < 4 {
        Seq::new((4 - h.len()) as nat, |i: int| 0x30u8) + h
    } else {
        h
    }
}

/// How a byte shows in the text column: printable ASCII (space to '~') as itself, any
/// other byte as '.'.
pub open spec fn shown(b: u8) -> u8 {
    if 0x20 <= b && b <= 0x7E {
        b
    } else {
        0x2E
    }
}

/// The hex column of a chunk: two digits and a space per byte.
pub open spec fn hex_column(c: Seq<u8>) -> Seq<u8>
    decreases c.len(),
{
    if c.len() == 0 {
        Seq::empty()
    } else {
        hex_column(c.drop_last()) + seq![
            hex_digit((c.last() / 16) as nat),
            hex_digit((c.last() % 16) as nat),
            0x20u8,
        ]
    }
}

/// One line of a hex dump of at most sixteen bytes: the offset, " | ", the hex column
/// padded with spaces to sixteen bytes, "| ", the text column and a newline.
pub open spec fn dump_line(offset: nat, c: Seq<u8>) -> Seq<u8> {
    offset_text(offset) + seq![0x20u8, 0x7C, 0x20] + hex_column(c) + Seq::new(
        (3 * (16 - c.len())) as nat,
        |i: int| 0x20u8,
    ) + seq![0x7Cu8, 0x20] + c.map_values(|b: u8| shown(b)) + seq![0x0Au8]
}

/// The lines of a hex dump of `d` from byte `start` on, sixteen bytes a line.
pub open spec fn dump_from(d: Seq<u8>, start: nat) -> Seq<u8>
    decreases d.len() + 16 - start,
{
    if start >= d.len() {
        Seq::empty()
    } else {
        let end: int = if start + 16 <= d.len() {
            (start + 16) as int
        } else {
            d.len() as int
        };
        dump_line(start, d.subrange(start as int, end)) + dump_from(d, (start + 16) as nat)
    }
}

fn hex_digit_byte(d: u8) -> (r: u8)
    requires
        d < 16,
    ensures
        r == hex_digit(d as nat),
{
    if d < 10 {
        48 + d
    } else {
        87 + d
    }
}

fn push_hex(out: &mut Vec<u8>, n: usize)
    ensures
        final(out)@ == old(out)@ + hex_text(n as nat),
    decreases n,
{
    let ghost before = out@;
    if n >= 16 {
        push_hex(out, n / 16);
    }
    let d: u8 = (n % 16) as u8;
    out.push(hex_digit_byte(d));
    proof {
        if n >= 16 {
            assert(out@ =~= before + hex_text((n / 16) as nat).push(hex_digit((n % 16) as nat)));
        } else {
            assert(out@ =~= before + seq![hex_digit(n as nat)]);
        }
    }
}

proof fn lemma_hex_text_len(n: nat)
    ensures
        n < 16 ==> hex_text(n).len() == 1,
        16 <= n < 256 ==> hex_text(n).len() == 2,
        256 <= n < 4096 ==> hex_text(n).len() == 3,
        n >= 4096 ==> hex_text(n).len() >= 4,
    decreases n,
{
    if n >= 16 {
        lemma_hex_text_len(n / 16);
    }
}

fn push_offset(out: &mut Vec<u8>, n: usize)
    ensures
        final(out)@ == old(out)@ + offset_text(n as nat),
{
    let ghost before = out@;
    proof {
        lemma_hex_text_len(n as nat);
    }
    let pad: usize = if n < 16 {
        3
    } else if n < 256 {
        2
    } else if n < 4096 {
        1
    } else {
        0
    };
    let mut i: usize = 0;
    while i < pad
        invariant
            i <= pad,
            out@ == before + Seq::new(i as nat, |k: int| 0x30u8),
        decreases pad - i,
    {
        out.push(0x30);
        i += 1;
        proof {
            assert(out@ =~= before + Seq::new(i as nat, |k: int| 0x30u8));
        }
    }
    let ghost zeros = out@;
    push_hex(out, n);
    proof {
        let h = hex_text(n as nat);
        if h.len() < 4 {
            assert(pad == 4 - h.len());
            assert(out@ =~= before + (Seq::new((4 - h.len()) as nat, |k: int| 0x30u8) + h));
        } else {
            assert(pad == 0);
            assert(out@ =~= before + h);
        }
    }
}

fn push_line(out: &mut Vec<u8>, offset: usize, c: &[u8])
    requires
        c@.len() <= 16,
    ensures
        final(out)@ == old(out)@ + dump_line(offset as nat, c@),
{
    let ghost before = out@;
    push_offset(out, offset);
    out.push(0x20);
    out.push(0x7C);
    out.push(0x20);
    let ghost head = out@;
    let mut i: usize = 0;
    while i < c.len()
        invariant
            i <= c@.len(),
            out@ == head + hex_column(c@.take(i as int)),
        decreases c@.len() - i,
    {
        let b = c[i];
        out.push(hex_digit_byte(b / 16));
        out.push(hex_digit_byte(b % 16));
        out.push(0x20);
        proof {
            assert(c@.take(i + 1).drop_last() =~= c@.take(i as int));
            assert(out@ =~= head + hex_column(c@.take(i + 1)));
        }
        i += 1;
    }
    assert(c@.take(c@.len() as int) =~= c@);
    let ghost cols = out@;
    let pad: usize = 3 * (16 - c.len());
    let mut k: usize = 0;
    while k < pad
        invariant
            k <= pad,
            out@ == cols + Seq::new(k as nat, |j: int| 0x20u8),
        decreases pad - k,
    {
        out.push(0x20);
        k += 1;
        proof {
            assert(out@ =~= cols + Seq::new(k as nat, |j: int| 0x20u8));
        }
    }
    out.push(0x7C);
    out.push(0x20);
    let ghost text = out@;
    let mut j: usize = 0;
    while j < c.len()
        invariant
            j <= c@.len(),
            out@ == text + c@.take(j as int).map_values(|b: u8| shown(b)),
        decreases c@.len() - j,
    {
        let b = c[j];
        let s: u8 = if 0x20 <= b && b <= 0x7E {
            b
        } else {
            0x2E
        };
        out.push(s);
        proof {
            assert(c@.take(j + 1).map_values(|b: u8| shown(b)) =~= c@.take(j as int).map_values(
                |b: u8| shown(b),
            ).push(shown(b)));
            assert(out@ =~= text + c@.take(j + 1).map_values(|b: u8| shown(b)));
        }
        j += 1;
    }
    out.push(0x0A);
    proof {
        assert(out@ =~= before + dump_line(offset as nat, c@));
    }
}

/// The hex dump of `data` as ASCII text, sixteen bytes a line (see [`dump_line`]).
pub fn hex_dump(data: &[u8]) -> (r: Vec<u8>)
    ensures
        r@ == dump_from(data@, 0),
{
    let mut out: Vec<u8> = Vec::new();
    let mut start: usize = 0;
    assert(out@ + dump_from(data@, 0) =~= dump_from(data@, 0));
    while start < data.len()
        invariant
            start <= data@.len(),
            out@ + dump_from(data@, start as nat) == dump_from(data@, 0),
        decreases data@.len() - start,
    {
        let end: usize = if data.len() - start >= 16 {
            start + 16
        } else {
            data.len()
        };
        let ghost before = out@;
        push_line(&mut out, start, &data[start..end]);
        proof {
            let rest = dump_from(data@, (start + 16) as nat);
            assert(dump_from(data@, start as nat) == dump_line(
                start as nat,
                data@.subrange(start as int, end as int),
            ) + rest);
            if end == data.len() {
                assert(rest =~= Seq::<u8>::empty());
                assert(dump_from(data@, end as nat) =~= Seq::<u8>::empty());
            }
            assert(out@ + dump_from(data@, end as nat) =~= before + dump_from(data@, start as nat));
        }
        start = end;
    }
    assert(dump_from(data@, start as nat) =~= Seq::<u8>::empty());
    assert(out@ + Seq::<u8>::empty() =~= out@);
    out
}

} // verus!
