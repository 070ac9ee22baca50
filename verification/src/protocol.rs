use vstd::prelude::*;

use crate::bytes::{
    byte_or_zero, byte_sum, flag_at, spec_crc, spec_crc_ok, spec_get_16bit, spec_get_32bit,
};
use crate::pack::{
    empty_settings_model, JkSettings, MybmmPack, PackModel, ProtocolVersion, RawEncoding,
    SettingsModel, spec_from_model,
};
use crate::text::{string_from_utf8_lossy, utf8_lossy};

verus! {

/// Unsigned little-endian 16-bit value at `offset`; 0 where the two bytes are not there.
pub fn get_short(data: &[u8], offset: usize) -> (r: u16)
    ensures
        r == spec_get_16bit(data@, offset as int),
{
    if offset <= data.len() && data.len() - offset >= 2 {
        (data[offset] as u16) + (data[offset + 1] as u16) * 256
    } else {
        0
    }
}

/// Signed little-endian 16-bit value at `offset`; 0 where the two bytes are not there.
pub fn get_signed_short(data: &[u8], offset: usize) -> (r: i16)
    ensures
        r == spec_get_16bit(data@, offset as int) as i16,
{
    let u: u16 = get_short(data, offset);
    u as i16
}

/// 16-bit value at `offset`, high byte second: `(data[offset + 1] << 8) | data[offset]`.
pub fn get_16bit(data: &[u8], offset: usize) -> (r: u16)
    ensures
        r == spec_get_16bit(data@, offset as int),
{
    if offset <= data.len() && data.len() - offset >= 2 {
        let lo: u8 = data[offset];
        let hi: u8 = data[offset + 1];
        let r: u16 = ((hi as u16) << 8u16) | ((lo as u16) << 0u16);
        assert(((hi as u16) << 8u16) | ((lo as u16) << 0u16) == lo as u16 + (hi as u16) * 256)
            by (bit_vector);
        r
    } else {
        0
    }
}

/// 32-bit value at `offset`: `(get_16bit(offset + 2) << 16) | get_16bit(offset)`.
pub fn get_32bit(data: &[u8], offset: usize) -> (r: u32)
    ensures
        r == spec_get_32bit(data@, offset as int),
{
    if offset <= data.len() && data.len() - offset >= 4 {
        let hi: u16 = get_16bit(data, offset + 2);
        let lo: u16 = get_16bit(data, offset);
        let r: u32 = ((hi as u32) << 16u32) | ((lo as u32) << 0u32);
        assert(((hi as u32) << 16u32) | ((lo as u32) << 0u32) == lo as u32 + (hi as u32) * 65536)
            by (bit_vector);
        r
    } else {
        0
    }
}

/// Additive checksum (sum of bytes mod 256) of the first `len` bytes of `data`.
pub fn crc(data: &[u8], len: usize) -> (r: u8)
    ensures
        r == spec_crc(data@, len as int),
{
    let n: usize = if len < data.len() { len } else { data.len() };
    let mut c: u8 = 0;
    let mut i: usize = 0;
    while i < n
        invariant
            n <= data@.len(),
            i <= n,
            c as nat == byte_sum(data@.take(i as int)) % 256,
        decreases n - i,
    {
        assert(data@.take(i as int + 1).drop_last() =~= data@.take(i as int));
        c = c.wrapping_add(data[i]);
        i += 1;
    }
    c
}

/// Whether `data` holds a whole 300-byte frame whose byte 299 is the checksum of bytes 0..299.
pub fn verify_crc(data: &[u8]) -> (r: bool)
    ensures
        r == spec_crc_ok(data@),
{
    if data.len() < 300 {
        return false;
    }
    let computed: u8 = crc(data, 299);
    let expected: u8 = data[299];
    computed == expected
}


/// The byte at `offset`, or 0 past the end.
fn byte_at(data: &[u8], offset: usize) -> (r: u8)
    ensures
        r == byte_or_zero(data@, offset as int),
{
    if offset < data.len() {
        data[offset]
    } else {
        0
    }
}

/// Whether the byte at `offset` exists and is nonzero.
fn flag(data: &[u8], offset: usize) -> (r: bool)
    ensures
        r == flag_at(data@, offset as int),
{
    offset < data.len() && data[offset] != 0
}

// ---------------------------------------------------------------------------
// Cell info frames (frame type 0x02)
// ---------------------------------------------------------------------------

/// The first `n` cell voltage words (mV) of a 24S/32S cell info frame.
pub open spec fn jk02_cell_words(d: Seq<u8>, n: int) -> Seq<u32> {
    Seq::new(n as nat, |i: int| spec_get_16bit(d, 6 + 2 * i) as u32)
}

/// The first `n` cell resistance words (mΩ) of a 24S/32S cell info frame.
pub open spec fn jk02_res_words(d: Seq<u8>, n: int, offset: int) -> Seq<u32> {
    Seq::new(n as nat, |i: int| spec_get_16bit(d, 64 + offset + 2 * i) as u32)
}

/// Number of nonzero words.
pub open spec fn count_nonzero(s: Seq<u32>) -> nat
    decreases s.len(),
{
    if s.len() == 0 {
        0
    } else {
        count_nonzero(s.drop_last()) + if s.last() > 0 { 1nat } else { 0nat }
    }
}

/// Sum of the words.
pub open spec fn sum_words(s: Seq<u32>) -> nat
    decreases s.len(),
{
    if s.len() == 0 {
        0
    } else {
        sum_words(s.drop_last()) + s.last() as nat
    }
}

/// Least nonzero word, or 100000 (100 V in mV) where there is none below that.
pub open spec fn min_nonzero(s: Seq<u32>) -> u32
    decreases s.len(),
{
    if s.len() == 0 {
        100000
    } else {
        let m = min_nonzero(s.drop_last());
        if s.last() > 0 && s.last() < m {
            s.last()
        } else {
            m
        }
    }
}

/// Greatest word (0 for no words).
pub open spec fn max_word(s: Seq<u32>) -> u32
    decreases s.len(),
{
    if s.len() == 0 {
        0
    } else {
        let m = max_word(s.drop_last());
        if s.last() > m {
            s.last()
        } else {
            m
        }
    }
}

/// `base` with its first `new.len()` entries replaced by `new`.
pub open spec fn overlay(base: Seq<u32>, new: Seq<u32>) -> Seq<u32> {
    Seq::new(base.len(), |i: int| if i < new.len() { new[i] } else { base[i] })
}

/// The pack after the cell block of a 24S/32S cell info frame: per-slot voltage and
/// resistance words, the number of nonzero cells, their least and greatest voltage,
/// their difference, and (where any cell is nonzero) their sum and count.
pub open spec fn jk02_cells_model(p: PackModel, d: Seq<u8>) -> PackModel {
    let n = p.protocol_version.spec_max_frame_cells() as int;
    let offset = p.protocol_version.spec_cell_offset() as int;
    let v = jk02_cell_words(d, n);
    let r = jk02_res_words(d, n, offset);
    let count = count_nonzero(v);
    PackModel {
        cellvolt: overlay(p.cellvolt, v),
        cellres: overlay(p.cellres, r),
        cells: count as i32,
        cell_avg_sum: if count > 0 { sum_words(v) as u32 } else { p.cell_avg_sum },
        cell_avg_cells: if count > 0 { count as u32 } else { p.cell_avg_cells },
        cell_min: min_nonzero(v),
        cell_max: max_word(v),
        cell_diff: (max_word(v) - min_nonzero(v)) as i32,
        ..p
    }
}

pub proof fn lemma_cell_stats_bounds(s: Seq<u32>)
    requires
        forall|i: int| 0 <= i < s.len() ==> s[i] <= 65535,
    ensures
        count_nonzero(s) <= s.len(),
        sum_words(s) <= 65535 * s.len(),
        min_nonzero(s) <= 100000,
        max_word(s) <= 65535,
    decreases s.len(),
{
    if s.len() > 0 {
        lemma_cell_stats_bounds(s.drop_last());
    }
}

/// Parse the cell voltages and resistances of a 24S/32S cell info frame.
fn parse_jk02_cell_voltages(pp: &mut MybmmPack, data: &[u8], offset: usize)
    requires
        offset == old(pp).protocol_version.spec_cell_offset(),
        old(pp).protocol_version != ProtocolVersion::Jk04,
    ensures
        final(pp)@ == jk02_cells_model(old(pp)@, data@),
{
    let cells: usize = pp.protocol_version.max_frame_cells();
    let ghost v = jk02_cell_words(data@, cells as int);
    let ghost r = jk02_res_words(data@, cells as int, offset as int);
    let mut cells_enabled: usize = 0;
    let mut min_cell_voltage: u32 = 100000;
    let mut max_cell_voltage: u32 = 0;
    let mut total: u32 = 0;
    let mut cellvolt: [u32; 32] = pp.cellvolt;
    let mut cellres: [u32; 32] = pp.cellres;
    let ghost old_volt = cellvolt@;
    let ghost old_res = cellres@;
    let mut i: usize = 0;
    while i < cells
        invariant
            cells <= 32,
            i <= cells,
            offset <= 16,
            v == jk02_cell_words(data@, cells as int),
            r == jk02_res_words(data@, cells as int, offset as int),
            cells_enabled == count_nonzero(v.take(i as int)),
            total == sum_words(v.take(i as int)),
            min_cell_voltage == min_nonzero(v.take(i as int)),
            max_cell_voltage == max_word(v.take(i as int)),
            cells_enabled <= i,
            total <= 65535 * i,
            cellvolt@ == overlay(old_volt, v.take(i as int)),
            cellres@ == overlay(old_res, r.take(i as int)),
            old_volt.len() == 32,
            old_res.len() == 32,
        decreases cells - i,
    {
        let cell_voltage: u32 = get_16bit(data, i * 2 + 6) as u32;
        let cell_resistance: u32 = get_16bit(data, i * 2 + 64 + offset) as u32;
        proof {
            assert(v.take(i as int + 1).drop_last() =~= v.take(i as int));
            assert(v.take(i as int + 1).last() == cell_voltage);
            lemma_cell_stats_bounds(v.take(i as int));
        }
        if cell_voltage > 0 {
            total = total + cell_voltage;
            cells_enabled = cells_enabled + 1;
        }
        if cell_voltage > 0 && cell_voltage < min_cell_voltage {
            min_cell_voltage = cell_voltage;
        }
        if cell_voltage > max_cell_voltage {
            max_cell_voltage = cell_voltage;
        }
        cellvolt[i] = cell_voltage;
        cellres[i] = cell_resistance;
        i = i + 1;
        proof {
            assert(cellvolt@ =~= overlay(old_volt, v.take(i as int)));
            assert(cellres@ =~= overlay(old_res, r.take(i as int)));
        }
    }
    proof {
        assert(v.take(cells as int) =~= v);
        assert(r.take(cells as int) =~= r);
        lemma_cell_stats_bounds(v);
    }
    pp.cellvolt = cellvolt;
    pp.cellres = cellres;
    pp.cells = cells_enabled as i32;
    if cells_enabled > 0 {
        pp.cell_avg_sum = total;
        pp.cell_avg_cells = cells_enabled as u32;
    }
    pp.cell_min = min_cell_voltage;
    pp.cell_max = max_cell_voltage;
    pp.cell_diff = max_cell_voltage as i32 - min_cell_voltage as i32;
}


/// Whether the extra temperature probes of the 32S layout are read: they are where the
/// frame reaches past byte `223 + offset2`.
pub open spec fn has_extra_probes(p: PackModel, d: Seq<u8>) -> bool {
    let offset2 = 2 * p.protocol_version.spec_cell_offset() as int;
    p.protocol_version == ProtocolVersion::Jk02_32S && d.len() > 223 + offset2
}

/// The pack after a 24S/32S cell info frame. Past the cell block every field sits
/// `offset2` (twice the cell offset) later than in the 24S layout. The 32S layout has the
/// MOSFET temperature at 112 and the error bitmask at 134; the 24S layout has the MOSFET
/// temperature at 134 and the error bitmask at 136.
pub open spec fn jk02_cell_info_model(p: PackModel, d: Seq<u8>) -> PackModel {
    let v = p.protocol_version;
    let offset = v.spec_cell_offset() as int;
    let o2 = 2 * offset;
    let is32 = v == ProtocolVersion::Jk02_32S;
    let c = jk02_cells_model(p, d);
    let t2 = c.temps.update(0, spec_get_16bit(d, 130 + o2) as i16).update(
        1,
        spec_get_16bit(d, 132 + o2) as i16,
    );
    let t5 = t2.update(2, spec_get_16bit(d, 226 + o2) as i16).update(
        3,
        spec_get_16bit(d, 224 + o2) as i16,
    ).update(4, spec_get_16bit(d, 222 + o2) as i16);
    PackModel {
        enabled_cells_bitmask: spec_get_32bit(d, 54 + offset),
        power_tube_temp: if is32 {
            spec_get_16bit(d, 112 + o2) as i16
        } else {
            spec_get_16bit(d, 134 + o2) as i16
        },
        voltage: spec_get_32bit(d, 118 + o2),
        current: spec_get_32bit(d, 126 + o2) as i32,
        temps: if has_extra_probes(p, d) { t5 } else { t2 },
        ntemps: if has_extra_probes(p, d) { 5 } else { 2 },
        error_bitmask: if is32 { spec_get_16bit(d, 134 + o2) } else { spec_get_16bit(d, 136 + o2) },
        balancing_current: spec_get_16bit(d, 138 + o2) as i16,
        balancing: flag_at(d, 140 + o2),
        soc: byte_or_zero(d, 141 + o2),
        capacity_remaining: spec_get_32bit(d, 142 + o2),
        total_battery_capacity: spec_get_32bit(d, 146 + o2),
        charging_cycles: spec_get_32bit(d, 150 + o2),
        total_charging_cycle_capacity: spec_get_32bit(d, 154 + o2),
        soh: byte_or_zero(d, 158 + o2),
        total_runtime: spec_get_32bit(d, 162 + o2),
        charging: flag_at(d, 166 + o2),
        discharging: flag_at(d, 167 + o2),
        precharging: flag_at(d, 168 + o2),
        heating: flag_at(d, 183 + o2),
        cell_encoding: RawEncoding::Scaled,
        ..c
    }
}

/// Parse a 24S/32S cell info frame.
fn parse_jk02_cell_info(pp: &mut MybmmPack, data: &[u8])
    requires
        old(pp).protocol_version != ProtocolVersion::Jk04,
    ensures
        final(pp)@ == jk02_cell_info_model(old(pp)@, data@),
{
    let offset: usize = pp.protocol_version.cell_offset();
    parse_jk02_cell_voltages(pp, data, offset);
    pp.enabled_cells_bitmask = get_32bit(data, 54 + offset);
    let offset2: usize = offset * 2;
    let is32: bool = pp.protocol_version == ProtocolVersion::Jk02_32S;
    if is32 {
        pp.power_tube_temp = get_16bit(data, 112 + offset2) as i16;
    }
    pp.voltage = get_32bit(data, 118 + offset2);
    pp.current = get_32bit(data, 126 + offset2) as i32;
    pp.temps[0] = get_16bit(data, 130 + offset2) as i16;
    pp.temps[1] = get_16bit(data, 132 + offset2) as i16;
    pp.ntemps = 2;
    if is32 {
        pp.error_bitmask = get_16bit(data, 134 + offset2);
    } else {
        pp.power_tube_temp = get_16bit(data, 134 + offset2) as i16;
    }
    if !is32 {
        pp.error_bitmask = get_16bit(data, 136 + offset2);
    }
    pp.balancing_current = get_16bit(data, 138 + offset2) as i16;
    pp.balancing = flag(data, 140 + offset2);
    pp.soc = byte_at(data, 141 + offset2);
    pp.capacity_remaining = get_32bit(data, 142 + offset2);
    pp.total_battery_capacity = get_32bit(data, 146 + offset2);
    pp.charging_cycles = get_32bit(data, 150 + offset2);
    pp.total_charging_cycle_capacity = get_32bit(data, 154 + offset2);
    pp.soh = byte_at(data, 158 + offset2);
    pp.total_runtime = get_32bit(data, 162 + offset2);
    pp.charging = flag(data, 166 + offset2);
    pp.discharging = flag(data, 167 + offset2);
    pp.precharging = flag(data, 168 + offset2);
    pp.heating = flag(data, 183 + offset2);
    if is32 {
        if data.len() > 223 + offset2 {
            pp.temps[2] = get_16bit(data, 226 + offset2) as i16;
            pp.temps[3] = get_16bit(data, 224 + offset2) as i16;
            pp.temps[4] = get_16bit(data, 222 + offset2) as i16;
            pp.ntemps = 5;
        }
    }
    pp.cell_encoding = RawEncoding::Scaled;
    proof {
        let ghost c = jk02_cells_model(old(pp)@, data@);
        assert(pp.temps@.len() == 8);
        if has_extra_probes(old(pp)@, data@) {
            assert(pp.temps@ =~= jk02_cell_info_model(old(pp)@, data@).temps);
        } else {
            assert(pp.temps@ =~= jk02_cell_info_model(old(pp)@, data@).temps);
        }
    }
}


/// Whether the single-precision value with bit pattern `w` is greater than zero: the sign
/// bit is clear, the pattern is not +0, and it is not a NaN (exponent all ones with a
/// nonzero fraction); +infinity (0x7F800000) counts as positive.
pub open spec fn f32_bits_positive(w: u32) -> bool {
    0 < w && w <= 0x7F80_0000
}

/// Number of words whose single-precision value is greater than zero.
pub open spec fn count_positive_f32(s: Seq<u32>) -> nat
    decreases s.len(),
{
    if s.len() == 0 {
        0
    } else {
        count_positive_f32(s.drop_last()) + if f32_bits_positive(s.last()) { 1nat } else { 0nat }
    }
}

/// The 24 cell voltage words of a JK04 cell info frame (single-precision, V).
pub open spec fn jk04_cell_words(d: Seq<u8>) -> Seq<u32> {
    Seq::new(24, |i: int| spec_get_32bit(d, 6 + 4 * i))
}

/// The 24 cell resistance words of a JK04 cell info frame (single-precision, Ω).
pub open spec fn jk04_res_words(d: Seq<u8>) -> Seq<u32> {
    Seq::new(24, |i: int| spec_get_32bit(d, 102 + 4 * i))
}

/// The pack after a JK04 cell info frame: the 24 voltage and resistance words, the number
/// of cells with a positive voltage, the balancing flag (byte 220), the balancing current
/// word (222) and the runtime (286). The totals and extremes of the cell voltages of
/// this layout are single-precision arithmetic and are not part of the pack's words.
pub open spec fn jk04_cell_info_model(p: PackModel, d: Seq<u8>) -> PackModel {
    PackModel {
        cellvolt: overlay(p.cellvolt, jk04_cell_words(d)),
        cellres: overlay(p.cellres, jk04_res_words(d)),
        cells: count_positive_f32(jk04_cell_words(d)) as i32,
        balancing_current_bits: spec_get_32bit(d, 222),
        balancing: flag_at(d, 220),
        total_runtime: spec_get_32bit(d, 286),
        cell_encoding: RawEncoding::Ieee754,
        ..p
    }
}

pub proof fn lemma_count_positive_bound(s: Seq<u32>)
    ensures
        count_positive_f32(s) <= s.len(),
    decreases s.len(),
{
    if s.len() > 0 {
        lemma_count_positive_bound(s.drop_last());
    }
}

/// Parse a JK04 cell info frame (single-precision cell voltages and resistances).
fn parse_jk04_cell_info(pp: &mut MybmmPack, data: &[u8])
    ensures
        final(pp)@ == jk04_cell_info_model(old(pp)@, data@),
{
    let cells: usize = 24;
    let ghost v = jk04_cell_words(data@);
    let ghost r = jk04_res_words(data@);
    let mut cells_enabled: usize = 0;
    let mut cellvolt: [u32; 32] = pp.cellvolt;
    let mut cellres: [u32; 32] = pp.cellres;
    let ghost old_volt = cellvolt@;
    let ghost old_res = cellres@;
    let mut i: usize = 0;
    while i < cells
        invariant
            cells == 24,
            i <= cells,
            v == jk04_cell_words(data@),
            r == jk04_res_words(data@),
            cells_enabled == count_positive_f32(v.take(i as int)),
            cells_enabled <= i,
            cellvolt@ == overlay(old_volt, v.take(i as int)),
            cellres@ == overlay(old_res, r.take(i as int)),
            old_volt.len() == 32,
            old_res.len() == 32,
        decreases cells - i,
    {
        let cell_voltage: u32 = get_32bit(data, i * 4 + 6);
        let cell_resistance: u32 = get_32bit(data, i * 4 + 102);
        proof {
            assert(v.take(i as int + 1).drop_last() =~= v.take(i as int));
            assert(v.take(i as int + 1).last() == cell_voltage);
        }
        if 0 < cell_voltage && cell_voltage <= 0x7F80_0000 {
            cells_enabled = cells_enabled + 1;
        }
        cellvolt[i] = cell_voltage;
        cellres[i] = cell_resistance;
        i = i + 1;
        proof {
            assert(cellvolt@ =~= overlay(old_volt, v.take(i as int)));
            assert(cellres@ =~= overlay(old_res, r.take(i as int)));
        }
    }
    proof {
        assert(v.take(24) =~= v);
        assert(r.take(24) =~= r);
    }
    pp.cellvolt = cellvolt;
    pp.cellres = cellres;
    pp.cells = cells_enabled as i32;
    pp.balancing_current_bits = get_32bit(data, 222);
    pp.balancing = flag(data, 220);
    pp.total_runtime = get_32bit(data, 286);
    pp.cell_encoding = RawEncoding::Ieee754;
}

/// The pack after a cell info frame of the pack's protocol version.
#[verifier::opaque]
pub open spec fn cell_info_model(p: PackModel, d: Seq<u8>) -> PackModel {
    if p.protocol_version == ProtocolVersion::Jk04 {
        jk04_cell_info_model(p, d)
    } else {
        jk02_cell_info_model(p, d)
    }
}

/// Parse a cell info frame according to the pack's protocol version.
fn parse_cell_info(pp: &mut MybmmPack, data: &[u8])
    ensures
        final(pp)@ == cell_info_model(old(pp)@, data@),
{
    reveal(cell_info_model);
    match pp.protocol_version {
        ProtocolVersion::Jk04 => parse_jk04_cell_info(pp, data),
        ProtocolVersion::Jk02_24S | ProtocolVersion::Jk02_32S => parse_jk02_cell_info(pp, data),
    }
}


// ---------------------------------------------------------------------------
// Settings frames (frame type 0x01)
// ---------------------------------------------------------------------------

/// The first (up to) 300 bytes of a frame.
pub open spec fn first_300(d: Seq<u8>) -> Seq<u8> {
    if d.len() < 300 {
        d
    } else {
        d.take(300)
    }
}

/// Settings words common to the 24S and 32S settings layouts.
pub open spec fn jk02_common_settings_model(d: Seq<u8>) -> SettingsModel {
    SettingsModel {
        raw_frame: first_300(d),
        smart_sleep_voltage: spec_get_32bit(d, 6),
        cell_uvp: spec_get_32bit(d, 10),
        cell_uvpr: spec_get_32bit(d, 14),
        cell_ovp: spec_get_32bit(d, 18),
        cell_ovpr: spec_get_32bit(d, 22),
        balance_trigger_voltage: spec_get_32bit(d, 26),
        cell_soc100_voltage: spec_get_32bit(d, 30),
        cell_soc0_voltage: spec_get_32bit(d, 34),
        cell_request_charge_voltage: spec_get_32bit(d, 38),
        cell_request_float_voltage: spec_get_32bit(d, 42),
        power_off_voltage: spec_get_32bit(d, 46),
        max_charge_current: spec_get_32bit(d, 50),
        charge_ocp_delay: spec_get_32bit(d, 54),
        charge_ocp_recovery: spec_get_32bit(d, 58),
        max_discharge_current: spec_get_32bit(d, 62),
        discharge_ocp_delay: spec_get_32bit(d, 66),
        discharge_ocp_recovery: spec_get_32bit(d, 70),
        scp_recovery: spec_get_32bit(d, 74),
        max_balance_current: spec_get_32bit(d, 78),
        charge_otp: spec_get_32bit(d, 82),
        charge_otp_recovery: spec_get_32bit(d, 86),
        discharge_otp: spec_get_32bit(d, 90),
        discharge_otp_recovery: spec_get_32bit(d, 94),
        charge_utp: spec_get_32bit(d, 98) as i32,
        charge_utp_recovery: spec_get_32bit(d, 102) as i32,
        power_tube_otp: spec_get_32bit(d, 106) as i32,
        power_tube_otp_recovery: spec_get_32bit(d, 110) as i32,
        cell_count: byte_or_zero(d, 114),
        charging_switch: flag_at(d, 118),
        discharging_switch: flag_at(d, 122),
        balancer_switch: flag_at(d, 126),
        total_battery_capacity: spec_get_32bit(d, 130),
        scp_delay: spec_get_32bit(d, 134),
        balance_starting_voltage: spec_get_32bit(d, 138),
        ..empty_settings_model()
    }
}

/// Settings of a 24S/32S settings frame. The 24S layout has wire resistances 1-24 at
/// 158; the 32S layout has wire resistances 1-32 at 142, the precharge time (274), the
/// control bits (282, 283) and four whole-degree temperatures (284, 285, 296, 297).
pub open spec fn jk02_settings_model(version: ProtocolVersion, d: Seq<u8>) -> SettingsModel {
    let c = jk02_common_settings_model(d);
    if version == ProtocolVersion::Jk02_24S {
        SettingsModel {
            wire_resistance: overlay(c.wire_resistance, Seq::new(24, |i: int| spec_get_32bit(d, 158 + 4 * i))),
            ..c
        }
    } else {
        let lo = byte_or_zero(d, 282);
        let hi = byte_or_zero(d, 283);
        SettingsModel {
            wire_resistance: Seq::new(32, |i: int| spec_get_32bit(d, 142 + 4 * i)),
            discharge_precharge_time: byte_or_zero(d, 274),
            heating_switch: (lo & 0x01) != 0,
            disable_temp_sensors: (lo & 0x02) != 0,
            display_always_on: (lo & 0x10) != 0,
            smart_sleep_switch: (lo & 0x40) != 0,
            disable_pcl_module: (lo & 0x80) != 0,
            timed_stored_data: (hi & 0x01) != 0,
            charging_float_mode: (hi & 0x02) != 0,
            heating_start_temperature: byte_or_zero(d, 284) as i8,
            heating_stop_temperature: byte_or_zero(d, 285) as i8,
            discharge_utp: byte_or_zero(d, 296) as i8,
            discharge_utp_recovery: byte_or_zero(d, 297) as i8,
            ..c
        }
    }
}

/// Copy of the first (up to) 300 bytes of a frame.
fn frame_prefix(data: &[u8]) -> (r: Vec<u8>)
    ensures
        r@ == first_300(data@),
{
    let n: usize = if data.len() < 300 { data.len() } else { 300 };
    let r = vstd::slice::slice_to_vec(&data[0..n]);
    proof {
        if data@.len() < 300 {
            assert(data@.subrange(0, n as int) =~= data@);
        }
    }
    r
}

/// Parse a 24S/32S settings frame.
fn parse_jk02_settings(version: ProtocolVersion, data: &[u8]) -> (s: JkSettings)
    ensures
        s@ == jk02_settings_model(version, data@),
{
    let mut s = JkSettings::new();
    s.raw_frame = frame_prefix(data);
    s.smart_sleep_voltage = get_32bit(data, 6);
    s.cell_uvp = get_32bit(data, 10);
    s.cell_uvpr = get_32bit(data, 14);
    s.cell_ovp = get_32bit(data, 18);
    s.cell_ovpr = get_32bit(data, 22);
    s.balance_trigger_voltage = get_32bit(data, 26);
    s.cell_soc100_voltage = get_32bit(data, 30);
    s.cell_soc0_voltage = get_32bit(data, 34);
    s.cell_request_charge_voltage = get_32bit(data, 38);
    s.cell_request_float_voltage = get_32bit(data, 42);
    s.power_off_voltage = get_32bit(data, 46);
    s.max_charge_current = get_32bit(data, 50);
    s.charge_ocp_delay = get_32bit(data, 54);
    s.charge_ocp_recovery = get_32bit(data, 58);
    s.max_discharge_current = get_32bit(data, 62);
    s.discharge_ocp_delay = get_32bit(data, 66);
    s.discharge_ocp_recovery = get_32bit(data, 70);
    s.scp_recovery = get_32bit(data, 74);
    s.max_balance_current = get_32bit(data, 78);
    s.charge_otp = get_32bit(data, 82);
    s.charge_otp_recovery = get_32bit(data, 86);
    s.discharge_otp = get_32bit(data, 90);
    s.discharge_otp_recovery = get_32bit(data, 94);
    s.charge_utp = get_32bit(data, 98) as i32;
    s.charge_utp_recovery = get_32bit(data, 102) as i32;
    s.power_tube_otp = get_32bit(data, 106) as i32;
    s.power_tube_otp_recovery = get_32bit(data, 110) as i32;
    s.cell_count = byte_at(data, 114);
    s.charging_switch = flag(data, 118);
    s.discharging_switch = flag(data, 122);
    s.balancer_switch = flag(data, 126);
    s.total_battery_capacity = get_32bit(data, 130);
    s.scp_delay = get_32bit(data, 134);
    s.balance_starting_voltage = get_32bit(data, 138);
    let mut wire: [u32; 32] = s.wire_resistance;
    let ghost old_wire = wire@;
    if version == ProtocolVersion::Jk02_24S {
        let ghost w = Seq::new(24, |i: int| spec_get_32bit(data@, 158 + 4 * i));
        let mut i: usize = 0;
        while i < 24
            invariant
                i <= 24,
                old_wire.len() == 32,
                w == Seq::new(24, |i: int| spec_get_32bit(data@, 158 + 4 * i)),
                wire@ == overlay(old_wire, w.take(i as int)),
            decreases 24 - i,
        {
            wire[i] = get_32bit(data, 158 + i * 4);
            i = i + 1;
            proof {
                assert(wire@ =~= overlay(old_wire, w.take(i as int)));
            }
        }
        proof {
            assert(w.take(24) =~= w);
        }
        s.wire_resistance = wire;
    } else {
        let ghost w = Seq::new(32, |i: int| spec_get_32bit(data@, 142 + 4 * i));
        let mut i: usize = 0;
        while i < 32
            invariant
                i <= 32,
                old_wire.len() == 32,
                w == Seq::new(32, |i: int| spec_get_32bit(data@, 142 + 4 * i)),
                wire@ == overlay(old_wire, w.take(i as int)),
            decreases 32 - i,
        {
            wire[i] = get_32bit(data, 142 + i * 4);
            i = i + 1;
            proof {
                assert(wire@ =~= overlay(old_wire, w.take(i as int)));
            }
        }
        proof {
            assert(overlay(old_wire, w.take(32)) =~= w);
        }
        s.wire_resistance = wire;
        s.discharge_precharge_time = byte_at(data, 274);
        let ctrl_lo: u8 = byte_at(data, 282);
        let ctrl_hi: u8 = byte_at(data, 283);
        s.heating_switch = (ctrl_lo & 0x01) != 0;
        s.disable_temp_sensors = (ctrl_lo & 0x02) != 0;
        s.display_always_on = (ctrl_lo & 0x10) != 0;
        s.smart_sleep_switch = (ctrl_lo & 0x40) != 0;
        s.disable_pcl_module = (ctrl_lo & 0x80) != 0;
        s.timed_stored_data = (ctrl_hi & 0x01) != 0;
        s.charging_float_mode = (ctrl_hi & 0x02) != 0;
        s.heating_start_temperature = byte_at(data, 284) as i8;
        s.heating_stop_temperature = byte_at(data, 285) as i8;
        s.discharge_utp = byte_at(data, 296) as i8;
        s.discharge_utp_recovery = byte_at(data, 297) as i8;
    }
    proof {
        assert(s@.wire_resistance =~= jk02_settings_model(version, data@).wire_resistance);
    }
    s
}

/// Settings of a JK04 settings frame: the cell count (34), the balancer switch (114) and
/// four single-precision words: power-off voltage (38), balance start voltage (98),
/// balance trigger voltage (106), maximal balance current (110).
pub open spec fn jk04_settings_model(d: Seq<u8>) -> SettingsModel {
    SettingsModel {
        encoding: RawEncoding::Ieee754,
        raw_frame: first_300(d),
        cell_count: byte_or_zero(d, 34),
        power_off_voltage: spec_get_32bit(d, 38),
        balance_starting_voltage: spec_get_32bit(d, 98),
        balance_trigger_voltage: spec_get_32bit(d, 106),
        max_balance_current: spec_get_32bit(d, 110),
        balancer_switch: flag_at(d, 114),
        ..empty_settings_model()
    }
}

/// Parse a JK04 settings frame.
fn parse_jk04_settings(data: &[u8]) -> (s: JkSettings)
    ensures
        s@ == jk04_settings_model(data@),
{
    let mut s = JkSettings::new();
    s.encoding = RawEncoding::Ieee754;
    s.raw_frame = frame_prefix(data);
    s.cell_count = byte_at(data, 34);
    s.power_off_voltage = get_32bit(data, 38);
    s.balance_starting_voltage = get_32bit(data, 98);
    s.balance_trigger_voltage = get_32bit(data, 106);
    s.max_balance_current = get_32bit(data, 110);
    s.balancer_switch = flag(data, 114);
    s
}

/// Settings of a settings frame, read in the layout of the given protocol version.
#[verifier::opaque]
pub open spec fn settings_model(version: ProtocolVersion, d: Seq<u8>) -> SettingsModel {
    if version == ProtocolVersion::Jk04 {
        jk04_settings_model(d)
    } else {
        jk02_settings_model(version, d)
    }
}


// ---------------------------------------------------------------------------
// Info frames (frame type 0x03)
// ---------------------------------------------------------------------------

/// Index of the first zero byte at or after `i`.
pub open spec fn first_zero(f: Seq<u8>, i: int) -> Option<int>
    decreases f.len() - i,
{
    if i < 0 || i >= f.len() {
        None
    } else if f[i] == 0 {
        Some(i)
    } else {
        first_zero(f, i + 1)
    }
}

/// Length of the zero-terminated text at `from`; 0 where no zero byte follows.
pub open spec fn nul_len(f: Seq<u8>, from: int) -> int {
    match first_zero(f, from) {
        Some(z) => z - from,
        None => 0,
    }
}

/// Index of the first nonzero byte at or after `i` (the length where there is none).
pub open spec fn skip_zeros(f: Seq<u8>, i: int) -> int
    decreases f.len() - i,
{
    if i >= f.len() || i < 0 {
        i
    } else if f[i] != 0 {
        i
    } else {
        skip_zeros(f, i + 1)
    }
}

/// The zero-terminated text at `pos`, where it is nonempty.
pub open spec fn text_field(f: Seq<u8>, pos: int) -> Option<Seq<char>> {
    if 0 <= pos < f.len() && nul_len(f, pos) > 0 {
        Some(utf8_lossy(f.subrange(pos, pos + nul_len(f, pos))))
    } else {
        None
    }
}

/// Position after the text at `pos` and its terminating zero (`pos` where there is no text).
pub open spec fn after_text(f: Seq<u8>, pos: int) -> int {
    if text_field(f, pos) is Some {
        pos + nul_len(f, pos) + 1
    } else {
        pos
    }
}

/// The pack after an info frame `f`: the zero-terminated model text at 6 sets the model
/// and the protocol version; after zero padding come the hardware and software version
/// texts. An empty text leaves its field as it was.
#[verifier::opaque]
pub open spec fn info_model(p: PackModel, f: Seq<u8>) -> PackModel {
    if f.len() > 10 {
        let p1 = match text_field(f, 6) {
            Some(m) => PackModel { protocol_version: spec_from_model(m), model: m, ..p },
            None => p,
        };
        let pos1 = skip_zeros(f, 7 + nul_len(f, 6));
        let p2 = match text_field(f, pos1) {
            Some(h) => PackModel { hwvers: h, ..p1 },
            None => p1,
        };
        let pos2 = skip_zeros(f, after_text(f, pos1));
        match text_field(f, pos2) {
            Some(sw) => PackModel { swvers: sw, ..p2 },
            None => p2,
        }
    } else {
        p
    }
}

/// Length of the zero-terminated text at `from` (0 where no zero byte follows).
fn find_nul(f: &[u8], from: usize) -> (r: usize)
    requires
        from <= f@.len(),
    ensures
        r == nul_len(f@, from as int),
        from + r <= f@.len(),
        first_zero(f@, from as int) is Some ==> from + r < f@.len() && f@[from + r] == 0,
{
    let mut i: usize = from;
    while i < f.len()
        invariant
            from <= i <= f@.len(),
            first_zero(f@, from as int) == first_zero(f@, i as int),
        decreases f@.len() - i,
    {
        if f[i] == 0 {
            return i - from;
        }
        i += 1;
    }
    0
}

/// Position of the first nonzero byte at or after `from` (the length where there is none).
fn skip_nul_padding(f: &[u8], from: usize) -> (r: usize)
    requires
        from <= f@.len(),
    ensures
        r == skip_zeros(f@, from as int),
        from <= r <= f@.len(),
{
    let mut pos: usize = from;
    while pos < f.len() && f[pos] == 0
        invariant
            from <= pos <= f@.len(),
            skip_zeros(f@, from as int) == skip_zeros(f@, pos as int),
        decreases f@.len() - pos,
    {
        pos += 1;
    }
    pos
}

/// The zero-terminated text at `pos`, where it is nonempty, and the position after it.
fn read_text(f: &[u8], pos: usize) -> (r: (Option<String>, usize))
    requires
        pos <= f@.len(),
    ensures
        r.0 is Some <==> text_field(f@, pos as int) is Some,
        r.0 is Some ==> r.0.unwrap()@ == text_field(f@, pos as int).unwrap(),
        r.1 == after_text(f@, pos as int),
        r.1 <= f@.len(),
{
    if pos < f.len() {
        let end: usize = find_nul(f, pos);
        if end > 0 {
            let t = string_from_utf8_lossy(&f[pos..pos + end]);
            return (Some(t), pos + end + 1);
        }
    }
    (None, pos)
}

/// Parse an info frame: model, hardware and software version texts.
fn parse_info(pp: &mut MybmmPack, frame_data: &[u8])
    ensures
        final(pp)@ == info_model(old(pp)@, frame_data@),
{
    reveal(info_model);
    if frame_data.len() > 10 {
        let (model, _after) = read_text(frame_data, 6);
        let model_end: usize = find_nul(frame_data, 6);
        if let Some(m) = model {
            pp.protocol_version = ProtocolVersion::from_model(m.as_str());
            pp.model = m;
        }
        let pos: usize = skip_nul_padding(frame_data, 6 + model_end + 1);
        let (hw, next) = read_text(frame_data, pos);
        if let Some(h) = hw {
            pp.hwvers = h;
        }
        let pos2: usize = skip_nul_padding(frame_data, next);
        let (sw, _end) = read_text(frame_data, pos2);
        if let Some(t) = sw {
            pp.swvers = t;
        }
    }
}


// ---------------------------------------------------------------------------
// Frame scanner
// ---------------------------------------------------------------------------

/// Which kinds of frame a call of [`getdata`] decoded.
#[derive(Debug, Clone, Copy, PartialEq, Eq, Structural)]
pub struct ParseFlags {
    pub got_res: bool,
    pub got_volts: bool,
    pub got_info: bool,
}

/// No frame decoded yet.
pub open spec fn no_flags() -> ParseFlags {
    ParseFlags { got_res: false, got_volts: false, got_info: false }
}

impl ParseFlags {
    pub fn new() -> (r: Self)
        ensures
            r == no_flags(),
    {
        ParseFlags { got_res: false, got_volts: false, got_info: false }
    }
}

/// Byte `j` of the response signature 55 AA EB 90.
pub open spec fn spec_sig_byte(j: int) -> u8 {
    if j == 0 {
        0x55
    } else if j == 1 {
        0xAA
    } else if j == 2 {
        0xEB
    } else {
        0x90
    }
}

fn sig_byte(j: usize) -> (r: u8)
    requires
        j < 4,
    ensures
        r == spec_sig_byte(j as int),
{
    if j == 0 {
        0x55
    } else if j == 1 {
        0xAA
    } else if j == 2 {
        0xEB
    } else {
        0x90
    }
}

/// Whether the response signature 55 AA EB 90 starts at `p`.
pub open spec fn sig_at(d: Seq<u8>, p: int) -> bool {
    &&& 0 <= p
    &&& p + 4 <= d.len()
    &&& d[p] == 0x55
    &&& d[p + 1] == 0xAA
    &&& d[p + 2] == 0xEB
    &&& d[p + 3] == 0x90
}

/// The first signature at or after `i`.
pub open spec fn next_sig(d: Seq<u8>, i: int) -> Option<int>
    decreases d.len() - i,
{
    if i < 0 || i + 4 > d.len() {
        None
    } else if sig_at(d, i) {
        Some(i)
    } else {
        next_sig(d, i + 1)
    }
}

/// Where the scan goes on after a signature at `s`: 168 bytes on, or the end of the data.
pub open spec fn resume_after(d: Seq<u8>, s: int) -> int {
    if d.len() - s < 168 {
        d.len() as int
    } else {
        s + 168
    }
}

/// The effect of the signature at `s`. The byte after the signature is the frame type;
/// types 1 (settings), 2 (cell info) and 3 (info) need 300 bytes, others 6. A frame
/// that is all there and passes the checksum (over the data from `s` on) is decoded
/// according to its type; anything else leaves pack and flags as they were.
pub open spec fn frame_step(p: PackModel, fl: ParseFlags, d: Seq<u8>, s: int) -> (
    PackModel,
    ParseFlags,
) {
    if s + 4 < d.len() {
        let subtype = d[s + 4];
        let required: int = if subtype == 1 || subtype == 2 || subtype == 3 {
            300
        } else {
            6
        };
        let f = d.subrange(s, d.len() as int);
        if s + required <= d.len() && spec_crc_ok(f) {
            if subtype == 3 {
                (info_model(p, f), ParseFlags { got_info: true, ..fl })
            } else if subtype == 1 {
                (
                    PackModel { settings: Some(settings_model(p.protocol_version, f)), ..p },
                    ParseFlags { got_res: true, ..fl },
                )
            } else if subtype == 2 {
                (cell_info_model(p, f), ParseFlags { got_volts: true, ..fl })
            } else {
                (p, fl)
            }
        } else {
            (p, fl)
        }
    } else {
        (p, fl)
    }
}

pub proof fn lemma_next_sig_range(d: Seq<u8>, i: int)
    ensures
        next_sig(d, i) matches Some(s) ==> i <= s && s + 4 <= d.len() && sig_at(d, s),
    decreases d.len() - i,
{
    if !(i < 0 || i + 4 > d.len()) && !sig_at(d, i) {
        lemma_next_sig_range(d, i + 1);
    }
}

/// Scan `d` from `i` on: decode the frame at each signature in turn, going on 168 bytes
/// after each, until a cell info frame has been decoded or no signature is left.
pub open spec fn scan_frames(p: PackModel, fl: ParseFlags, d: Seq<u8>, i: int) -> (
    PackModel,
    ParseFlags,
)
    decreases d.len() - i,
{
    match next_sig(d, i) {
        None => (p, fl),
        Some(s) => {
            let (p2, f2) = frame_step(p, fl, d, s);
            if f2.got_volts {
                (p2, f2)
            } else {
                proof {
                    lemma_next_sig_range(d, i);
                }
                scan_frames(p2, f2, d, resume_after(d, s))
            }
        },
    }
}

proof fn lemma_next_sig_skip(d: Seq<u8>, from: int, to: int)
    requires
        0 <= from <= to,
        forall|p: int| from <= p < to ==> !sig_at(d, p),
    ensures
        next_sig(d, from) == next_sig(d, to),
    decreases to - from,
{
    if from < to {
        lemma_next_sig_skip(d, from + 1, to);
    }
}

/// Decode the frame whose signature starts at `start` (see [`frame_step`]).
fn decode_frame_at(pp: &mut MybmmPack, flags: &mut ParseFlags, data: &[u8], start: usize)
    requires
        sig_at(data@, start as int),
    ensures
        (final(pp)@, *final(flags)) == frame_step(old(pp)@, *old(flags), data@, start as int),
{
    let len: usize = data.len();
    if start < len && len - start > 4 {
        let subtype: u8 = data[start + 4];
        let required_size: usize = if subtype == 2 {
            300
        } else if subtype == 3 {
            300
        } else if subtype == 1 {
            300
        } else {
            6
        };
        if required_size <= data.len() - start {
            let frame_data = &data[start..data.len()];
            if !verify_crc(frame_data) {
                return;
            }
            if subtype == 3 {
                parse_info(pp, frame_data);
                flags.got_info = true;
            } else if subtype == 1 {
                proof {
                    reveal(settings_model);
                }
                let settings = if pp.protocol_version.is_jk04() {
                    parse_jk04_settings(frame_data)
                } else {
                    parse_jk02_settings(pp.protocol_version, frame_data)
                };
                pp.settings = Some(settings);
                flags.got_res = true;
            } else if subtype == 2 {
                parse_cell_info(pp, frame_data);
                flags.got_volts = true;
            }
        }
    }
}

/// Scan `data` for JK BMS response frames and decode them into `pp`.
pub fn getdata(pp: &mut MybmmPack, data: &[u8]) -> (flags: ParseFlags)
    ensures
        (final(pp)@, flags) == scan_frames(old(pp)@, no_flags(), data@, 0),
{
    let mut flags = ParseFlags::new();
    let mut j: usize = 0;
    let mut start: usize = 0;
    let mut i: usize = 0;
    let ghost d = data@;
    let ghost target = scan_frames(pp@, no_flags(), d, 0);
    let ghost mut resume: int = 0;

    while i < data.len()
        invariant_except_break
            j <= 3,
            j > 0 ==> start + j == i && resume <= start,
            j > 0 ==> forall|k: int| 0 <= k < j ==> data@[start + k] == spec_sig_byte(k),
            j == 0 ==> resume <= i,
            forall|p: int| resume <= p < i - j ==> !sig_at(d, p),
            flags.got_volts ==> j == 0,
            !flags.got_volts ==> scan_frames(pp@, flags, d, resume) == target,
        invariant
            d == data@,
            0 <= resume,
            i <= data@.len(),
            flags.got_volts ==> (pp@, flags) == target,
        ensures
            flags.got_volts || (j <= 3 && i >= data@.len() && resume <= i - j && (forall|p: int|
                resume <= p < i - j ==> !sig_at(d, p)) && scan_frames(pp@, flags, d, resume)
                == target),
        decreases data@.len() - i, 3 - j,
    {
        let byte: u8 = data[i];
        let ghost old_j = j;
        let ghost old_start = start;
        if j < 4 && byte == sig_byte(j) {
            if j == 0 {
                start = i;
            }
            j += 1;
            if j >= 4 {
                let ghost p0 = pp@;
                let ghost f0 = flags;
                proof {
                    assert(old_j == 3);
                    assert(data@[start + 0] == spec_sig_byte(0));
                    assert(data@[start + 1] == spec_sig_byte(1));
                    assert(data@[start + 2] == spec_sig_byte(2));
                    assert(sig_at(d, start as int));
                    lemma_next_sig_skip(d, resume, start as int);
                    assert(next_sig(d, resume) == Some(start as int));
                }
                decode_frame_at(pp, &mut flags, data, start);
                i = start + if data.len() - start < 168 { data.len() - start } else { 168 };
                j = 0;
                proof {
                    resume = i as int;
                }
                continue;
            }
            proof {
                assert forall|k: int| 0 <= k < j implies data@[start + k] == spec_sig_byte(k) by {
                    if k < old_j {
                    } else {
                        assert(start + k == i);
                    }
                }
            }
        } else {
            proof {
                assert forall|p: int| resume <= p < i + 1 - (if byte == 0x55 { 1int } else { 0int })
                    implies !sig_at(d, p) by {
                    if p < i - old_j {
                    } else if p == old_start && old_j > 0 {
                        assert(data@[p + old_j] == byte);
                        assert(byte != spec_sig_byte(old_j as int));
                    } else if p < i {
                        assert(old_j > 0);
                        assert(data@[old_start + (p - old_start)] == spec_sig_byte(p - old_start));
                    } else {
                        assert(p == i);
                    }
                }
            }
            if byte == 0x55 {
                j = 1;
                start = i;
            } else {
                j = 0;
            }
        }
        if flags.got_volts {
            break;
        }
        i += 1;
    }
    proof {
        if !flags.got_volts {
            lemma_next_sig_skip(d, resume, i - j);
            assert(next_sig(d, i - j) is None);
        }
    }
    flags
}


// ---------------------------------------------------------------------------
// Error flags
// ---------------------------------------------------------------------------

/// Description of error flag bit `bit` (0..16).
pub open spec fn error_text(bit: int) -> Seq<char> {
    if bit == 0 {
        "Charge Overtemperature"@
    } else if bit == 1 {
        "Charge Undertemperature"@
    } else if bit == 2 {
        "Coprocessor communication error"@
    } else if bit == 3 {
        "Cell Undervoltage"@
    } else if bit == 4 {
        "Battery pack undervoltage"@
    } else if bit == 5 {
        "Discharge overcurrent"@
    } else if bit == 6 {
        "Discharge short circuit"@
    } else if bit == 7 {
        "Discharge overtemperature"@
    } else if bit == 8 {
        "Wire resistance"@
    } else if bit == 9 {
        "Mosfet overtemperature"@
    } else if bit == 10 {
        "Cell count is not equal to settings"@
    } else if bit == 11 {
        "Current sensor anomaly"@
    } else if bit == 12 {
        "Cell Overvoltage"@
    } else if bit == 13 {
        "Battery pack overvoltage"@
    } else if bit == 14 {
        "Charge overcurrent protection"@
    } else {
        "Charge short circuit"@
    }
}

/// Description of error flag bit `bit`.
pub fn error_description(bit: usize) -> (r: &'static str)
    requires
        bit < 16,
    ensures
        r@ == error_text(bit as int),
{
    match bit {
        0 => "Charge Overtemperature",
        1 => "Charge Undertemperature",
        2 => "Coprocessor communication error",
        3 => "Cell Undervoltage",
        4 => "Battery pack undervoltage",
        5 => "Discharge overcurrent",
        6 => "Discharge short circuit",
        7 => "Discharge overtemperature",
        8 => "Wire resistance",
        9 => "Mosfet overtemperature",
        10 => "Cell count is not equal to settings",
        11 => "Current sensor anomaly",
        12 => "Cell Overvoltage",
        13 => "Battery pack overvoltage",
        14 => "Charge overcurrent protection",
        _ => "Charge short circuit",
    }
}

/// Whether bit `bit` of `mask` is set.
pub open spec fn bit_set(mask: u16, bit: int) -> bool {
    mask & (1u16 << (bit as u16)) != 0
}

/// Descriptions of the set bits among the lowest `n` bits of `mask`, lowest bit first.
pub open spec fn error_list(mask: u16, n: int) -> Seq<Seq<char>>
    decreases n,
{
    if n <= 0 {
        Seq::empty()
    } else if bit_set(mask, n - 1) {
        error_list(mask, n - 1).push(error_text(n - 1))
    } else {
        error_list(mask, n - 1)
    }
}

/// Descriptions of the active error flags of `bitmask`, lowest bit first.
pub fn error_bitmask_to_strings(bitmask: u16) -> (r: Vec<&'static str>)
    ensures
        r@.map_values(|t: &'static str| t@) == error_list(bitmask, 16),
{
    let mut errors: Vec<&'static str> = Vec::new();
    let mut i: usize = 0;
    while i < 16
        invariant
            i <= 16,
            errors@.map_values(|t: &'static str| t@) == error_list(bitmask, i as int),
        decreases 16 - i,
    {
        if bitmask & (1u16 << (i as u16)) != 0 {
            errors.push(error_description(i));
        }
        i += 1;
        proof {
            assert(errors@.map_values(|t: &'static str| t@) =~= error_list(bitmask, i as int));
        }
    }
    errors
}

// ---------------------------------------------------------------------------
// Command frames
// ---------------------------------------------------------------------------

/// Request for the device info frame (command 0x97).
pub fn get_info_command() -> (r: [u8; 20])
    ensures
        r@ == seq![
            0xaau8, 0x55, 0x90, 0xeb, 0x97, 0x00, 0x00, 0x00, 0x00, 0x00,
            0x00, 0x00, 0x00, 0x00, 0x00, 0x00, 0x00, 0x00, 0x00, 0x11,
        ],
{
    let r: [u8; 20] = [
        0xaa, 0x55, 0x90, 0xeb, 0x97, 0x00, 0x00, 0x00, 0x00, 0x00,
        0x00, 0x00, 0x00, 0x00, 0x00, 0x00, 0x00, 0x00, 0x00, 0x11,
    ];
    assert(r@ =~= seq![
        0xaau8, 0x55, 0x90, 0xeb, 0x97, 0x00, 0x00, 0x00, 0x00, 0x00,
        0x00, 0x00, 0x00, 0x00, 0x00, 0x00, 0x00, 0x00, 0x00, 0x11,
    ]);
    r
}

/// Request for the cell info frame (command 0x96).
pub fn get_cell_info_command() -> (r: [u8; 20])
    ensures
        r@ == seq![
            0xaau8, 0x55, 0x90, 0xeb, 0x96, 0x00, 0x00, 0x00, 0x00, 0x00,
            0x00, 0x00, 0x00, 0x00, 0x00, 0x00, 0x00, 0x00, 0x00, 0x10,
        ],
{
    let r: [u8; 20] = [
        0xaa, 0x55, 0x90, 0xeb, 0x96, 0x00, 0x00, 0x00, 0x00, 0x00,
        0x00, 0x00, 0x00, 0x00, 0x00, 0x00, 0x00, 0x00, 0x00, 0x10,
    ];
    assert(r@ =~= seq![
        0xaau8, 0x55, 0x90, 0xeb, 0x96, 0x00, 0x00, 0x00, 0x00, 0x00,
        0x00, 0x00, 0x00, 0x00, 0x00, 0x00, 0x00, 0x00, 0x00, 0x10,
    ]);
    r
}

/// Request for the settings frame: the same bytes as the cell info request; the BMS
/// answers it with settings frames (type 0x01) among its cell info frames.
pub fn get_settings_command() -> (r: [u8; 20])
    ensures
        r@ == seq![
            0xaau8, 0x55, 0x90, 0xeb, 0x96, 0x00, 0x00, 0x00, 0x00, 0x00,
            0x00, 0x00, 0x00, 0x00, 0x00, 0x00, 0x00, 0x00, 0x00, 0x10,
        ],
{
    let r: [u8; 20] = [
        0xaa, 0x55, 0x90, 0xeb, 0x96, 0x00, 0x00, 0x00, 0x00, 0x00,
        0x00, 0x00, 0x00, 0x00, 0x00, 0x00, 0x00, 0x00, 0x00, 0x10,
    ];
    assert(r@ =~= seq![
        0xaau8, 0x55, 0x90, 0xeb, 0x96, 0x00, 0x00, 0x00, 0x00, 0x00,
        0x00, 0x00, 0x00, 0x00, 0x00, 0x00, 0x00, 0x00, 0x00, 0x10,
    ]);
    r
}

} // verus!
