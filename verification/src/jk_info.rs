use vstd::prelude::*;

use crate::bytes::spec_get_32bit;
use crate::pack::{MybmmPack, RawEncoding};
use crate::protocol::get_32bit;
use crate::text::{string_from_utf8_lossy, utf8_lossy};

verus! {

pub const INFO_MAX_STRINGS: usize = 32;
pub const INFO_MAX_TEMP_PROBES: usize = 6;

/// Device information texts of an info frame, and the measurements of a pack reading as
/// raw words (see [`MybmmPack`] for their units and encodings).
#[derive(Debug, Clone)]
pub struct JkInfo {
    pub model: String,
    pub hwvers: String,
    pub swvers: String,
    pub uptime: u32,
    pub device: String,
    pub pin: String,
    pub num1: String,
    pub num2: String,
    pub pass: String,
    /// Total voltage word, mV.
    pub voltage: u32,
    /// Current word, mA.
    pub current: i32,
    pub protectbits: u16,
    pub state: u16,
    pub strings: usize,
    /// How `cellvolt` and `cellres` read.
    pub cell_encoding: RawEncoding,
    pub cellvolt: [u32; 32],
    pub cellres: [u32; 32],
    pub probes: usize,
    /// Temperature probes, 0.1 °C.
    pub temps: [i16; 6],
}

impl JkInfo {
    pub fn new() -> (r: Self)
        ensures
            r.model@ == Seq::<char>::empty(),
            r.hwvers@ == Seq::<char>::empty(),
            r.swvers@ == Seq::<char>::empty(),
            r.uptime == 0,
            r.device@ == Seq::<char>::empty(),
            r.pin@ == Seq::<char>::empty(),
            r.num1@ == Seq::<char>::empty(),
            r.num2@ == Seq::<char>::empty(),
            r.pass@ == Seq::<char>::empty(),
            r.protectbits == 0,
            r.state == 0,
            r.strings == 0,
            r.probes == 0,
            r.voltage == 0,
            r.current == 0,
            r.cell_encoding == RawEncoding::Scaled,
            r.cellvolt@ == Seq::new(32, |i: int| 0u32),
            r.cellres@ == Seq::new(32, |i: int| 0u32),
            r.temps@ == Seq::new(6, |i: int| 0i16),
    {
        let r = JkInfo {
            model: String::new(),
            hwvers: String::new(),
            swvers: String::new(),
            uptime: 0,
            device: String::new(),
            pin: String::new(),
            num1: String::new(),
            num2: String::new(),
            pass: String::new(),
            voltage: 0,
            current: 0,
            protectbits: 0,
            state: 0,
            strings: 0,
            cell_encoding: RawEncoding::Scaled,
            cellvolt: [0u32; 32],
            cellres: [0u32; 32],
            probes: 0,
            temps: [0i16; 6],
        };
        assert(r.cellvolt@ =~= Seq::new(32, |i: int| 0u32));
        assert(r.cellres@ =~= Seq::new(32, |i: int| 0u32));
        assert(r.temps@ =~= Seq::new(6, |i: int| 0i16));
        r
    }

    /// The information a pack reading gives: its total voltage and current words, its
    /// cell voltage words (with their encoding), its first six temperature probes, and its
    /// numbers of cells and of probes; the texts stay empty and the cell resistances zero.
    /// (The cell voltage statistics of a reading are single-precision arithmetic over
    /// these words and are not held here.)
    pub fn from_pack(pack: &MybmmPack) -> (r: Self)
        ensures
            r.voltage == pack.voltage,
            r.current == pack.current,
            r.strings == pack.cells as usize,
            r.probes == pack.ntemps as usize,
            r.cell_encoding == pack.cell_encoding,
            r.cellvolt@ == pack.cellvolt@,
            r.cellres@ == Seq::new(32, |i: int| 0u32),
            r.temps@ == pack.temps@.take(6),
            r.model@ == Seq::<char>::empty(),
            r.hwvers@ == Seq::<char>::empty(),
            r.swvers@ == Seq::<char>::empty(),
            r.uptime == 0,
            r.device@ == Seq::<char>::empty(),
            r.pin@ == Seq::<char>::empty(),
            r.num1@ == Seq::<char>::empty(),
            r.num2@ == Seq::<char>::empty(),
            r.pass@ == Seq::<char>::empty(),
            r.protectbits == 0,
            r.state == 0,
    {
        let mut temps: [i16; 6] = [0i16; 6];
        let mut i: usize = 0;
        while i < INFO_MAX_TEMP_PROBES
            invariant
                i <= INFO_MAX_TEMP_PROBES,
                pack.temps@.len() == 8,
                forall|k: int| 0 <= k < i ==> temps@[k] == pack.temps@[k],
            decreases INFO_MAX_TEMP_PROBES - i,
        {
            temps[i] = pack.temps[i];
            i += 1;
        }
        let mut info = JkInfo::new();
        info.voltage = pack.voltage;
        info.current = pack.current;
        info.strings = pack.cells as usize;
        info.probes = pack.ntemps as usize;
        info.cell_encoding = pack.cell_encoding;
        info.cellvolt = pack.cellvolt;
        info.temps = temps;
        assert(info.temps@ =~= pack.temps@.take(6));
        info
    }
}

/// End of the run of nonzero bytes from `i`: the first index at or after `i` that is 300,
/// past the data, or holds a zero.
pub open spec fn run_end(d: Seq<u8>, i: int) -> int
    decreases 300 - i,
{
    if i >= 300 || i >= d.len() || d[i] == 0 {
        i
    } else {
        run_end(d, i + 1)
    }
}

/// End of the run of zero bytes from `i`: the first index at or after `i` that is 300,
/// past the data, or holds a nonzero byte.
pub open spec fn zeros_end(d: Seq<u8>, i: int) -> int
    decreases 300 - i,
{
    if i >= 300 || i >= d.len() || d[i] != 0 {
        i
    } else {
        zeros_end(d, i + 1)
    }
}

/// Whether the scan stops at `k` for want of data: below 300 but past the end.
pub open spec fn short_at(d: Seq<u8>, k: int) -> bool {
    k < 300 && k >= d.len()
}

/// The texts of an info frame from `i` on (each a run of nonzero bytes, separated by
/// zero runs, up to byte 300 or a zero where a text would begin), as index ranges; the
/// position where the scan stops; and whether it stayed within the data.
pub open spec fn text_runs(d: Seq<u8>, i: int) -> (Seq<(int, int)>, int, bool)
    decreases 300 - i,
{
    if i >= 300 {
        (Seq::empty(), i, true)
    } else if i >= d.len() {
        (Seq::empty(), i, false)
    } else if d[i] == 0 {
        (Seq::empty(), i, true)
    } else {
        let e = run_end(d, i);
        let z = zeros_end(d, e);
        if short_at(d, e) || short_at(d, z) {
            (Seq::empty(), z, false)
        } else {
            proof {
                lemma_run_end_ge(d, i);
                lemma_zeros_end_ge(d, e);
            }
            let (rest, end, ok) = text_runs(d, z);
            (seq![(i, e)] + rest, end, ok)
        }
    }
}

pub proof fn lemma_run_end_ge(d: Seq<u8>, i: int)
    ensures
        run_end(d, i) >= i,
        i <= 300 ==> run_end(d, i) <= 300,
        i < 300 && i < d.len() && d[i] != 0 ==> run_end(d, i) > i,
    decreases 300 - i,
{
    if !(i >= 300 || i >= d.len() || d[i] == 0) {
        lemma_run_end_ge(d, i + 1);
    }
}

pub proof fn lemma_zeros_end_ge(d: Seq<u8>, i: int)
    ensures
        zeros_end(d, i) >= i,
        i <= 300 ==> zeros_end(d, i) <= 300,
    decreases 300 - i,
{
    if !(i >= 300 || i >= d.len() || d[i] != 0) {
        lemma_zeros_end_ge(d, i + 1);
    }
}

/// Where the texts of an info frame end.
pub open spec fn texts_end(d: Seq<u8>) -> int {
    text_runs(d, 6).1
}

/// The position after the uptime word (which follows the texts where 8 bytes remain).
pub open spec fn after_uptime(d: Seq<u8>) -> int {
    if texts_end(d) + 8 <= d.len() {
        texts_end(d) + 8
    } else {
        texts_end(d)
    }
}

/// Whether reading the texts of `d` stays within the data: every byte the scan examines
/// below index 300 exists.
pub open spec fn info_strings_in_bounds(d: Seq<u8>) -> bool {
    text_runs(d, 6).2 && !short_at(d, zeros_end(d, after_uptime(d)))
}

/// Text `k` of an info frame, where there is one.
pub open spec fn info_text(d: Seq<u8>, k: int) -> Option<Seq<char>> {
    let runs = text_runs(d, 6).0;
    if 0 <= k < runs.len() {
        Some(utf8_lossy(d.subrange(runs[k].0, runs[k].1)))
    } else {
        None
    }
}

/// The new value of a text field: text `k` where there is one, else the old value.
pub open spec fn text_or(d: Seq<u8>, k: int, old_value: Seq<char>) -> Seq<char> {
    match info_text(d, k) {
        Some(t) => t,
        None => old_value,
    }
}

/// Read the texts of an info frame into `info`: model, hardware version, software
/// version, then (after the uptime word) device name, pin, two numbers and password.
pub fn parse_info_strings(info: &mut JkInfo, data: &[u8])
    requires
        info_strings_in_bounds(data@),
    ensures
        final(info).model@ == text_or(data@, 0, old(info).model@),
        final(info).hwvers@ == text_or(data@, 1, old(info).hwvers@),
        final(info).swvers@ == text_or(data@, 2, old(info).swvers@),
        final(info).device@ == text_or(data@, 3, old(info).device@),
        final(info).pin@ == text_or(data@, 4, old(info).pin@),
        final(info).num1@ == text_or(data@, 5, old(info).num1@),
        final(info).num2@ == text_or(data@, 6, old(info).num2@),
        final(info).pass@ == text_or(data@, 7, old(info).pass@),
        final(info).uptime == if texts_end(data@) + 8 <= data@.len() {
            spec_get_32bit(data@, texts_end(data@))
        } else {
            old(info).uptime
        },
        final(info).protectbits == old(info).protectbits,
        final(info).state == old(info).state,
        final(info).strings == old(info).strings,
        final(info).probes == old(info).probes,
        final(info).voltage == old(info).voltage,
        final(info).current == old(info).current,
        final(info).cell_encoding == old(info).cell_encoding,
        final(info).cellvolt == old(info).cellvolt,
        final(info).cellres == old(info).cellres,
        final(info).temps == old(info).temps,
{
    let ghost d = data@;
    let ghost runs = text_runs(d, 6).0;
    let mut i: usize = 6;
    let mut strings: Vec<String> = Vec::new();
    while i < 300 && data[i] != 0
        invariant
            d == data@,
            6 <= i <= 300,
            text_runs(d, 6).2 == text_runs(d, i as int).2,
            text_runs(d, 6).2,
            text_runs(d, 6).1 == text_runs(d, i as int).1,
            runs == text_runs(d, 6).0,
            runs.len() == strings@.len() + text_runs(d, i as int).0.len(),
            forall|k: int|
                #![trigger strings@[k]]
                0 <= k < strings@.len() ==> strings@[k]@ == utf8_lossy(
                    d.subrange(runs[k].0, runs[k].1),
                ),
            text_runs(d, i as int).0 =~= runs.skip(strings@.len() as int),
        decreases 300 - i,
    {
        let start: usize = i;
        let ghost old_len = strings@.len();
        proof {
            lemma_run_end_ge(d, i as int);
        }
        while i < 300 && data[i] != 0
            invariant
                d == data@,
                start <= i <= 300,
                start < data@.len(),
                i <= data@.len(),
                run_end(d, start as int) == run_end(d, i as int),
                !short_at(d, run_end(d, start as int)),
            decreases 300 - i,
        {
            i += 1;
        }
        let end: usize = i;
        if start < i {
            strings.push(string_from_utf8_lossy(&data[start..i]));
        }
        let ghost before = text_runs(d, start as int).0;
        proof {
            lemma_zeros_end_ge(d, i as int);
        }
        while i < 300 && data[i] == 0
            invariant
                d == data@,
                end <= i <= 300,
                zeros_end(d, end as int) == zeros_end(d, i as int),
                !short_at(d, zeros_end(d, end as int)),
            decreases 300 - i,
        {
            i += 1;
        }
        proof {
            assert(before == seq![(start as int, end as int)] + text_runs(d, i as int).0);
            assert(before =~= runs.skip(old_len as int));
            assert(text_runs(d, i as int).0 =~= before.skip(1));
            assert(runs.skip(old_len as int).skip(1) =~= runs.skip(old_len as int + 1));
            assert(before[0] == (start as int, end as int));
            assert(runs.skip(old_len as int)[0] == runs[old_len as int]);
            assert(runs[old_len as int] == (start as int, end as int));
        }
    }
    let mut idx: usize = 0;
    if idx < strings.len() {
        info.model = strings[idx].clone();
        idx += 1;
    }
    if idx < strings.len() {
        info.hwvers = strings[idx].clone();
        idx += 1;
    }
    if idx < strings.len() {
        info.swvers = strings[idx].clone();
        idx += 1;
    }
    if i <= data.len() && data.len() - i >= 8 {
        info.uptime = get_32bit(data, i);
        i += 8;
    }
    while i < 300 && data[i] == 0
        invariant
            d == data@,
            i <= 308,
            zeros_end(d, after_uptime(d)) == zeros_end(d, i as int),
            !short_at(d, zeros_end(d, i as int)),
        decreases 308 - i,
    {
        i += 1;
    }
    if idx < strings.len() {
        info.device = strings[idx].clone();
        idx += 1;
    }
    if idx < strings.len() {
        info.pin = strings[idx].clone();
        idx += 1;
    }
    if idx < strings.len() {
        info.num1 = strings[idx].clone();
        idx += 1;
    }
    if idx < strings.len() {
        info.num2 = strings[idx].clone();
        idx += 1;
    }
    if idx < strings.len() {
        info.pass = strings[idx].clone();
    }
}

} // verus!
