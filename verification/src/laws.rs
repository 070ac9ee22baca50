use vstd::prelude::*;

use crate::assembler::{decode_model, feed_model, starts_with_preamble};
use crate::can::{spec_can_setting_write_frame, CAN_CMD_WRITE_REG};
use crate::bytes::{byte_sum, spec_crc, spec_crc_ok, spec_get_16bit, spec_get_32bit};
use crate::module::{spec_jk_read_next, JkReadState, JK_READ_RETRIES};
use crate::pack::{spec_from_model, PackModel, ProtocolVersion, RawEncoding};
use crate::polling::{spec_poll_step, PollEvent, PollPhase, PollRead};
use crate::protocol::{
    settings_model, error_text, error_list, bit_set, first_zero, skip_zeros, nul_len,
    count_nonzero, count_positive_f32, jk04_cell_info_model, jk04_cell_words, lemma_count_positive_bound, jk02_cell_info_model, jk02_cell_words, lemma_cell_stats_bounds, max_word, min_nonzero, sum_words,
    cell_info_model, frame_step, info_model, next_sig, text_field, no_flags, resume_after, scan_frames, sig_at,
    ParseFlags,
};
use crate::text::utf8_lossy;
use crate::settings::{
    first_named, first_with_register, lemma_first_named_range, spec_setting, SETTINGS_COUNT, spec_setting_register, spec_setting_write_frame,
    spec_switch_value, write_frame, write_frame_body,
};

verus! {

// ---------------------------------------------------------------------------
// Checksums
// ---------------------------------------------------------------------------

proof fn lemma_byte_sum_update(s: Seq<u8>, k: int, b: u8)
    requires
        0 <= k < s.len(),
    ensures
        byte_sum(s.update(k, b)) + s[k] == byte_sum(s) + b,
    decreases s.len(),
{
    if k < s.len() - 1 {
        assert(s.update(k, b).drop_last() =~= s.drop_last().update(k, b));
        lemma_byte_sum_update(s.drop_last(), k, b);
    } else {
        assert(s.update(k, b).drop_last() =~= s.drop_last());
    }
}

/// A 300-byte frame with a valid checksum fails the checksum once any one of its first
/// 300 bytes is changed.
pub proof fn law_single_byte_change_detected(f: Seq<u8>, k: int, b: u8)
    requires
        spec_crc_ok(f),
        0 <= k < 300,
        b != f[k],
    ensures
        !spec_crc_ok(f.update(k, b)),
{
    let g = f.update(k, b);
    if k < 299 {
        assert(g.take(299) =~= f.take(299).update(k, b));
        lemma_byte_sum_update(f.take(299), k, b);
        let s1 = byte_sum(f.take(299));
        let s2 = byte_sum(g.take(299));
        assert(s2 + f[k] == s1 + b);
        assert(s1 % 256 == f[299] as int);
        assert(g[299] == f[299]);
        assert((s2 % 256) != (s1 % 256)) by (nonlinear_arith)
            requires
                s2 + f[k] == s1 + b,
                f[k] != b,
                0 <= f[k] < 256,
                0 <= b < 256,
                s1 >= 0,
                s2 >= 0,
        ;
    } else {
        assert(g.take(299) =~= f.take(299));
    }
}

// ---------------------------------------------------------------------------
// Write frames
// ---------------------------------------------------------------------------

/// A write frame carries its register and length, and its value reads back as the
/// 32-bit word at offset 6.
pub proof fn law_write_frame_readback(register: u8, value: u32, length: u8)
    ensures
        write_frame(register, value, length).len() == 20,
        write_frame(register, value, length)[4] == register,
        write_frame(register, value, length)[5] == length,
        spec_get_32bit(write_frame(register, value, length), 6) == value,
{
    let f = write_frame(register, value, length);
    let b0 = #[verifier::truncate] ((value >> 0u32) as u8);
    let b1 = #[verifier::truncate] ((value >> 8u32) as u8);
    let b2 = #[verifier::truncate] ((value >> 16u32) as u8);
    let b3 = #[verifier::truncate] ((value >> 24u32) as u8);
    assert(f[6] == b0 && f[7] == b1 && f[8] == b2 && f[9] == b3);
    assert(spec_get_16bit(f, 6) == b0 as int + 256 * (b1 as int));
    assert(spec_get_16bit(f, 8) == b2 as int + 256 * (b3 as int));
    assert(b0 as u32 + 256 * (b1 as u32) + 65536 * (b2 as u32) + 16777216 * (b3 as u32) == value)
        by (bit_vector)
        requires
            b0 == #[verifier::truncate] ((value >> 0u32) as u8),
            b1 == #[verifier::truncate] ((value >> 8u32) as u8),
            b2 == #[verifier::truncate] ((value >> 16u32) as u8),
            b3 == #[verifier::truncate] ((value >> 24u32) as u8),
    ;
}

/// The last byte of a write frame is the checksum of the 19 before it.
pub proof fn law_write_frame_checksum(register: u8, value: u32, length: u8)
    ensures
        write_frame(register, value, length)[19] == spec_crc(write_frame(register, value, length), 19),
{
    let b = write_frame_body(register, value, length);
    let f = write_frame(register, value, length);
    assert(f.take(19) =~= b);
    assert(b.take(19) =~= b);
}

/// The info and cell info requests are write frames for registers 0x97 and 0x96 with
/// value 0 and length 0; the settings request is the cell info request.
pub proof fn law_commands_are_write_frames()
    ensures
        write_frame(0x97, 0, 0) == seq![
            0xaau8, 0x55, 0x90, 0xeb, 0x97, 0x00, 0x00, 0x00, 0x00, 0x00,
            0x00, 0x00, 0x00, 0x00, 0x00, 0x00, 0x00, 0x00, 0x00, 0x11,
        ],
        write_frame(0x96, 0, 0) == seq![
            0xaau8, 0x55, 0x90, 0xeb, 0x96, 0x00, 0x00, 0x00, 0x00, 0x00,
            0x00, 0x00, 0x00, 0x00, 0x00, 0x00, 0x00, 0x00, 0x00, 0x10,
        ],
{
    assert((0u32 >> 0u32) as u8 == 0u8 && (0u32 >> 8u32) as u8 == 0u8 && (0u32 >> 16u32) as u8 == 0u8
        && (0u32 >> 24u32) as u8 == 0u8) by (bit_vector);
    let b1 = write_frame_body(0x97, 0, 0);
    let b2 = write_frame_body(0x96, 0, 0);
    reveal_with_fuel(byte_sum, 20);
    assert(b1.take(19) =~= b1);
    assert(b2.take(19) =~= b2);
    assert(byte_sum(b1) == 785);
    assert(byte_sum(b2) == 784);
    assert(write_frame(0x97, 0, 0) =~= seq![
        0xaau8, 0x55, 0x90, 0xeb, 0x97, 0x00, 0x00, 0x00, 0x00, 0x00,
        0x00, 0x00, 0x00, 0x00, 0x00, 0x00, 0x00, 0x00, 0x00, 0x11,
    ]);
    assert(write_frame(0x96, 0, 0) =~= seq![
        0xaau8, 0x55, 0x90, 0xeb, 0x96, 0x00, 0x00, 0x00, 0x00, 0x00,
        0x00, 0x00, 0x00, 0x00, 0x00, 0x00, 0x00, 0x00, 0x00, 0x10,
    ]);
}


// ---------------------------------------------------------------------------
// Frame scanner
// ---------------------------------------------------------------------------

proof fn lemma_no_sig_from(d: Seq<u8>, i: int)
    requires
        0 <= i,
        forall|q: int| i <= q ==> !sig_at(d, q),
    ensures
        next_sig(d, i) is None,
    decreases d.len() - i,
{
    if !(i < 0 || i + 4 > d.len()) {
        lemma_no_sig_from(d, i + 1);
    }
}

proof fn lemma_first_sig(d: Seq<u8>, i: int, s: int)
    requires
        0 <= i <= s,
        sig_at(d, s),
        forall|q: int| i <= q < s ==> !sig_at(d, q),
    ensures
        next_sig(d, i) == Some(s),
    decreases s - i,
{
    if i < s {
        lemma_first_sig(d, i + 1, s);
    }
}

/// Data without a response signature leaves the pack as it was and decodes nothing.
pub proof fn law_no_signature_no_change(p: PackModel, d: Seq<u8>)
    requires
        forall|q: int| !sig_at(d, q),
    ensures
        scan_frames(p, no_flags(), d, 0) == (p, no_flags()),
{
    lemma_no_sig_from(d, 0);
}

/// A valid cell info frame is decoded wherever it starts in the data, after any bytes
/// without a signature, and the scan ends with it.
pub proof fn law_first_cell_frame_decoded(p: PackModel, d: Seq<u8>, s: int)
    requires
        sig_at(d, s),
        forall|q: int| 0 <= q < s ==> !sig_at(d, q),
        s + 300 <= d.len(),
        d[s + 4] == 2,
        spec_crc_ok(d.subrange(s, d.len() as int)),
    ensures
        scan_frames(p, no_flags(), d, 0) == (
            cell_info_model(p, d.subrange(s, d.len() as int)),
            ParseFlags { got_res: false, got_volts: true, got_info: false },
        ),
{
    lemma_first_sig(d, 0, s);
}

/// An info frame is decoded wherever it starts in the data (with no other signature in
/// the data): the pack takes the model from its text at offset 6 and the protocol version
/// from that model, and nothing but the model, the version and the hardware and software
/// version texts changes.
pub proof fn law_info_frame_sets_version(p: PackModel, d: Seq<u8>, s: int)
    requires
        sig_at(d, s),
        forall|q: int| q != s ==> !sig_at(d, q),
        s + 300 <= d.len(),
        d[s + 4] == 3,
        spec_crc_ok(d.subrange(s, d.len() as int)),
        text_field(d.subrange(s, d.len() as int), 6) is Some,
    ensures
        ({
            let (q, fl) = scan_frames(p, no_flags(), d, 0);
            let m = text_field(d.subrange(s, d.len() as int), 6).unwrap();
            &&& fl == ParseFlags { got_res: false, got_volts: false, got_info: true }
            &&& q.model == m
            &&& q.protocol_version == spec_from_model(m)
            &&& q == PackModel {
                model: q.model,
                protocol_version: q.protocol_version,
                hwvers: q.hwvers,
                swvers: q.swvers,
                ..p
            }
        }),
{
    reveal(info_model);
    let f = d.subrange(s, d.len() as int);
    let q = info_model(p, f);
    let fl = ParseFlags { got_res: false, got_volts: false, got_info: true };
    lemma_first_sig(d, 0, s);
    lemma_no_sig_from(d, s + 168);
    assert(frame_step(p, no_flags(), d, s) == (q, fl));
    assert(resume_after(d, s) == s + 168);
    assert(scan_frames(q, fl, d, s + 168) == (q, fl));
    assert(scan_frames(p, no_flags(), d, 0) == (q, fl));
}

proof fn lemma_max_word(s: Seq<u32>)
    ensures
        forall|i: int| 0 <= i < s.len() ==> #[trigger] s[i] <= max_word(s),
        s.len() > 0 ==> exists|i: int| 0 <= i < s.len() && #[trigger] s[i] == max_word(s),
    decreases s.len(),
{
    if s.len() > 0 {
        let t = s.drop_last();
        lemma_max_word(t);
        assert forall|i: int| 0 <= i < s.len() implies #[trigger] s[i] <= max_word(s) by {
            if i < t.len() {
                assert(t[i] == s[i]);
            }
        }
        if s.last() > max_word(t) || t.len() == 0 {
            assert(s[s.len() - 1] == max_word(s));
        } else {
            let j = choose|j: int| 0 <= j < t.len() && #[trigger] t[j] == max_word(t);
            assert(s[j] == max_word(s));
        }
    }
}

proof fn lemma_min_nonzero(s: Seq<u32>)
    ensures
        min_nonzero(s) <= 100000,
        forall|i: int| 0 <= i < s.len() && s[i] > 0 ==> min_nonzero(s) <= #[trigger] s[i],
        (exists|i: int| 0 <= i < s.len() && 0 < #[trigger] s[i] < 100000) ==> exists|i: int|
            0 <= i < s.len() && 0 < #[trigger] s[i] && s[i] == min_nonzero(s),
    decreases s.len(),
{
    if s.len() > 0 {
        let t = s.drop_last();
        lemma_min_nonzero(t);
        assert forall|i: int| 0 <= i < s.len() && s[i] > 0 implies min_nonzero(s) <= #[trigger] s[i] by {
            if i < t.len() {
                assert(t[i] == s[i]);
            }
        }
        if exists|i: int| 0 <= i < s.len() && 0 < #[trigger] s[i] < 100000 {
            let k = choose|i: int| 0 <= i < s.len() && 0 < #[trigger] s[i] < 100000;
            if s.last() > 0 && s.last() < min_nonzero(t) {
                assert(s[s.len() - 1] == min_nonzero(s));
            } else if k < t.len() {
                assert(t[k] == s[k]);
                let j = choose|j: int| 0 <= j < t.len() && 0 < #[trigger] t[j] && t[j] == min_nonzero(t);
                assert(s[j] == t[j]);
            } else {
                assert(s.last() == s[k]);
                assert(min_nonzero(t) <= s.last());
                if min_nonzero(t) < 100000 {
                    assert(exists|i: int| 0 <= i < t.len() && 0 < #[trigger] t[i] < 100000) by {
                        lemma_min_nonzero_witness(t);
                    }
                    let j = choose|j: int| 0 <= j < t.len() && 0 < #[trigger] t[j] && t[j] == min_nonzero(t);
                    assert(s[j] == t[j]);
                } else {
                    assert(s[s.len() - 1] == min_nonzero(s));
                }
            }
        }
    }
}

proof fn lemma_min_nonzero_witness(s: Seq<u32>)
    ensures
        min_nonzero(s) < 100000 ==> exists|i: int| 0 <= i < s.len() && 0 < #[trigger] s[i]
            < 100000,
    decreases s.len(),
{
    if s.len() > 0 {
        let t = s.drop_last();
        lemma_min_nonzero_witness(t);
        if min_nonzero(t) < 100000 {
            let j = choose|j: int| 0 <= j < t.len() && 0 < #[trigger] t[j] < 100000;
            assert(s[j] == t[j]);
        } else if min_nonzero(s) < 100000 {
            assert(0 < s[s.len() - 1] < 100000);
        }
    }
}

/// A 24S/32S cell info frame, first in the data, sets each cell slot of the layout to its
/// voltage word and the cell count to the number of nonzero words; the greatest cell value
/// is the greatest word; the least is the least nonzero word (zero words are left out, and
/// it is 100000 where every word is zero); their difference is kept; and where any cell is
/// nonzero the sum and count of the nonzero words, whose quotient is the average, are kept.
pub proof fn law_cell_statistics(p: PackModel, d: Seq<u8>, s: int)
    requires
        p.protocol_version != ProtocolVersion::Jk04,
        p.cellvolt.len() == 32,
        sig_at(d, s),
        forall|q: int| 0 <= q < s ==> !sig_at(d, q),
        s + 300 <= d.len(),
        d[s + 4] == 2,
        spec_crc_ok(d.subrange(s, d.len() as int)),
    ensures
        ({
            let (q, fl) = scan_frames(p, no_flags(), d, 0);
            let n = p.protocol_version.spec_max_frame_cells() as int;
            let v = jk02_cell_words(d.subrange(s, d.len() as int), n);
            &&& fl.got_volts
            &&& forall|i: int| 0 <= i < n ==> q.cellvolt[i] == #[trigger] v[i]
            &&& q.cells == count_nonzero(v)
            &&& forall|i: int| 0 <= i < n ==> #[trigger] v[i] <= q.cell_max
            &&& exists|i: int| 0 <= i < n && #[trigger] v[i] == q.cell_max
            &&& forall|i: int| 0 <= i < n && v[i] > 0 ==> q.cell_min <= #[trigger] v[i]
            &&& (exists|i: int| 0 <= i < n && #[trigger] v[i] > 0) ==> exists|i: int|
                0 <= i < n && #[trigger] v[i] > 0 && v[i] == q.cell_min
            &&& (forall|i: int| 0 <= i < n ==> #[trigger] v[i] == 0) ==> q.cell_min == 100000
            &&& q.cell_diff == q.cell_max - q.cell_min
            &&& q.cells > 0 ==> q.cell_avg_sum == sum_words(v) && q.cell_avg_cells == q.cells
        }),
{
    reveal(cell_info_model);
    law_first_cell_frame_decoded(p, d, s);
    let n = p.protocol_version.spec_max_frame_cells() as int;
    let v = jk02_cell_words(d.subrange(s, d.len() as int), n);
    assert forall|i: int| 0 <= i < v.len() implies #[trigger] v[i] <= 65535 by {}
    lemma_cell_stats_bounds(v);
    lemma_max_word(v);
    lemma_min_nonzero(v);
    if exists|i: int| 0 <= i < n && #[trigger] v[i] > 0 {
        let k = choose|i: int| 0 <= i < n && #[trigger] v[i] > 0;
        assert(0 < v[k] < 100000);
    }
    if forall|i: int| 0 <= i < n ==> #[trigger] v[i] == 0 {
        lemma_min_nonzero_witness(v);
    }
}

/// A frame that fails its checksum changes nothing: the scan goes on 168 bytes after
/// its signature.
pub proof fn law_bad_frame_skipped(p: PackModel, fl: ParseFlags, d: Seq<u8>, i: int, s: int)
    requires
        0 <= i <= s,
        sig_at(d, s),
        forall|q: int| i <= q < s ==> !sig_at(d, q),
        !spec_crc_ok(d.subrange(s, d.len() as int)),
        !fl.got_volts,
    ensures
        scan_frames(p, fl, d, i) == scan_frames(p, fl, d, resume_after(d, s)),
{
    lemma_first_sig(d, i, s);
}

// ---------------------------------------------------------------------------
// Frame assembler
// ---------------------------------------------------------------------------

/// The buffer after feeding `chunks` in order.
pub open spec fn feed_all(buf: Seq<u8>, chunks: Seq<Seq<u8>>) -> Seq<u8>
    decreases chunks.len(),
{
    if chunks.len() == 0 {
        buf
    } else {
        feed_all(feed_model(buf, chunks[0]), chunks.drop_first())
    }
}

/// The chunks joined in order.
pub open spec fn concat(chunks: Seq<Seq<u8>>) -> Seq<u8>
    decreases chunks.len(),
{
    if chunks.len() == 0 {
        Seq::empty()
    } else {
        chunks[0] + concat(chunks.drop_first())
    }
}

/// Feeding `a` and then `b` fills the buffer as feeding `a + b` at once, where `a` holds
/// at least a preamble's worth of bytes, `b` does not begin with the preamble, and the
/// buffer after `a` has not overgrown.
pub proof fn law_feed_split(buf: Seq<u8>, a: Seq<u8>, b: Seq<u8>)
    requires
        a.len() >= 4,
        !starts_with_preamble(b),
        feed_model(buf, a).len() <= 400,
    ensures
        feed_model(feed_model(buf, a), b) == feed_model(buf, a + b),
{
    assert(starts_with_preamble(a + b) == starts_with_preamble(a));
    assert(feed_model(buf, a) + b =~= feed_model(buf, a + b));
}

/// A whole valid frame fed in one chunk is handed out exactly, whatever was buffered.
pub proof fn law_whole_frame_reassembled(buf: Seq<u8>, f: Seq<u8>)
    requires
        f.len() == 300,
        starts_with_preamble(f),
        spec_crc_ok(f),
    ensures
        decode_model(feed_model(buf, f)) == (Some(f), Seq::<u8>::empty()),
{
    assert(feed_model(buf, f) =~= f);
    assert(f.take(300) =~= f);
    assert(f.skip(300) =~= Seq::<u8>::empty());
}

proof fn lemma_feed_all_appends(x: Seq<u8>, chunks: Seq<Seq<u8>>)
    requires
        x.len() + concat(chunks).len() <= 400,
        forall|k: int| 0 <= k < chunks.len() ==> !starts_with_preamble(#[trigger] chunks[k]),
    ensures
        feed_all(x, chunks) == x + concat(chunks),
    decreases chunks.len(),
{
    if chunks.len() == 0 {
        assert(x + concat(chunks) =~= x);
    } else {
        let c = chunks[0];
        let rest = chunks.drop_first();
        assert(!starts_with_preamble(c));
        assert(feed_model(x, c) == x + c);
        assert forall|k: int| 0 <= k < rest.len() implies !starts_with_preamble(#[trigger] rest[k]) by {
            assert(rest[k] == chunks[k + 1]);
        }
        lemma_feed_all_appends(x + c, rest);
        assert((x + c) + concat(rest) =~= x + concat(chunks));
    }
}

/// A valid frame delivered in chunks (the first beginning with the preamble, no later
/// one beginning with it) is reassembled and handed out exactly, whatever was buffered.
pub proof fn law_chunked_frame_reassembled(buf: Seq<u8>, chunks: Seq<Seq<u8>>)
    requires
        chunks.len() > 0,
        starts_with_preamble(chunks[0]),
        forall|k: int| 1 <= k < chunks.len() ==> !starts_with_preamble(#[trigger] chunks[k]),
        concat(chunks).len() == 300,
        spec_crc_ok(concat(chunks)),
    ensures
        decode_model(feed_all(buf, chunks)) == (Some(concat(chunks)), Seq::<u8>::empty()),
{
    let f = concat(chunks);
    let c0 = chunks[0];
    let rest = chunks.drop_first();
    assert(f == c0 + concat(rest));
    assert(feed_model(buf, c0) =~= c0);
    assert forall|k: int| 0 <= k < rest.len() implies !starts_with_preamble(#[trigger] rest[k]) by {
        assert(rest[k] == chunks[k + 1]);
    }
    lemma_feed_all_appends(c0, rest);
    assert(feed_all(buf, chunks) == f);
    assert(f.take(300) =~= f);
    assert(f.skip(300) =~= Seq::<u8>::empty());
}

// ---------------------------------------------------------------------------
// Settings
// ---------------------------------------------------------------------------

/// A setting's write frame addresses the register that the register lookup gives for
/// that setting and version, and carries the setting's word: 1 or 0 for a switch, the
/// caller's scaled value otherwise.
pub proof fn law_setting_frame_matches_register(
    name: Seq<char>,
    value: Seq<char>,
    scaled: Option<u32>,
    version: ProtocolVersion,
)
    ensures
        spec_setting_write_frame(name, value, scaled, version) matches Some(f) ==> {
            &&& f.len() == 20
            &&& f.take(4) == seq![0xAAu8, 0x55, 0x90, 0xEB]
            &&& spec_setting_register(name, version) == Some(f[4])
            &&& f[4] != 0
            &&& f[5] == spec_setting(first_named(name, 0).unwrap()).length
            &&& f[19] == spec_crc(f, 19)
            &&& spec_get_32bit(f, 6) == if spec_setting(first_named(name, 0).unwrap()).is_switch {
                if spec_switch_value(value) {
                    1u32
                } else {
                    0u32
                }
            } else {
                scaled.unwrap()
            }
        },
        spec_setting_register(name, version) is None ==> spec_setting_write_frame(
            name,
            value,
            scaled,
            version,
        ) is None,
{
    if let Some(i) = first_named(name, 0) {
        let d = spec_setting(i);
        let r = d.registers[version.spec_register_index()];
        let w: u32 = if spec_switch_value(value) { 1 } else { 0 };
        law_write_frame_readback(r, w, d.length);
        law_write_frame_checksum(r, w, d.length);
        assert(write_frame(r, w, d.length).take(4) =~= seq![0xAAu8, 0x55, 0x90, 0xEB]);
        if let Some(raw) = scaled {
            law_write_frame_readback(r, raw, d.length);
            law_write_frame_checksum(r, raw, d.length);
            assert(write_frame(r, raw, d.length).take(4) =~= seq![0xAAu8, 0x55, 0x90, 0xEB]);
        }
    }
}

/// A setting's CAN write carries the write command, the register that the register lookup
/// gives for that setting and version, the setting's own length, and the setting's word
/// little-endian: 1 or 0 for a switch, the caller's scaled value otherwise.
pub proof fn law_can_setting_frame_fields(
    name: Seq<char>,
    value: Seq<char>,
    scaled: Option<u32>,
    version: ProtocolVersion,
)
    ensures
        spec_can_setting_write_frame(name, value, scaled, version) matches Some(c) ==> {
            &&& c.len() == 8
            &&& c[0] == CAN_CMD_WRITE_REG
            &&& spec_setting_register(name, version) == Some(c[1])
            &&& c[2] == spec_setting(first_named(name, 0).unwrap()).length
            &&& c[3] as int + 256 * c[4] + 65536 * c[5] + 16777216 * c[6] == if spec_setting(
                first_named(name, 0).unwrap(),
            ).is_switch {
                if spec_switch_value(value) {
                    1u32
                } else {
                    0u32
                }
            } else {
                scaled.unwrap()
            }
            &&& c[7] == 0
        },
        spec_setting_register(name, version) is None ==> spec_can_setting_write_frame(
            name,
            value,
            scaled,
            version,
        ) is None,
{
    law_setting_frame_matches_register(name, value, scaled, version);
    if let Some(f) = spec_setting_write_frame(name, value, scaled, version) {
        let v = spec_get_32bit(f, 6);
        let b0 = #[verifier::truncate] ((v >> 0u32) as u8);
        let b1 = #[verifier::truncate] ((v >> 8u32) as u8);
        let b2 = #[verifier::truncate] ((v >> 16u32) as u8);
        let b3 = #[verifier::truncate] ((v >> 24u32) as u8);
        assert(b0 as u32 + 256 * (b1 as u32) + 65536 * (b2 as u32) + 16777216 * (b3 as u32) == v)
            by (bit_vector)
            requires
                b0 == #[verifier::truncate] ((v >> 0u32) as u8),
                b1 == #[verifier::truncate] ((v >> 8u32) as u8),
                b2 == #[verifier::truncate] ((v >> 16u32) as u8),
                b3 == #[verifier::truncate] ((v >> 24u32) as u8),
        ;
    }
}



/// No two settings share a register of one version.
proof fn lemma_registers_distinct(i: int, j: int, col: int)
    requires
        0 <= j < i < SETTINGS_COUNT,
        0 <= col < 3,
        spec_setting(i).registers[col] != 0,
    ensures
        spec_setting(j).registers[col] != spec_setting(i).registers[col],
{
}

/// The search by register, started at or before entry `i`, stops at `i`.
proof fn lemma_register_search_finds(i: int, col: int, j: int)
    requires
        0 <= j <= i < SETTINGS_COUNT,
        0 <= col < 3,
        spec_setting(i).registers[col] != 0,
    ensures
        first_with_register(spec_setting(i).registers[col], col, j) == Some(i),
    decreases i - j,
{
    if j < i {
        lemma_registers_distinct(i, j, col);
        lemma_register_search_finds(i, col, j + 1);
    }
}

/// No two settings share a register of one version, so looking a setting up by the
/// register that its name gives for a version finds that same setting.
pub proof fn law_register_lookup_finds_named_setting(name: Seq<char>, version: ProtocolVersion)
    ensures
        spec_setting_register(name, version) matches Some(r) ==> first_with_register(
            r,
            version.spec_register_index(),
            0,
        ) == first_named(name, 0),
{
    lemma_first_named_range(name, 0);
    if let Some(i) = first_named(name, 0) {
        let col = version.spec_register_index();
        if spec_setting(i).registers[col] != 0 {
            lemma_register_search_finds(i, col, 0);
        }
    }
}


/// No two settings share a name.
proof fn lemma_names_distinct(i: int, j: int)
    requires
        0 <= j < i < SETTINGS_COUNT,
    ensures
        spec_setting(j).name != spec_setting(i).name,
{
    reveal_strlit("smart_sleep_voltage");
    reveal_strlit("cell_uvp");
    reveal_strlit("cell_uvpr");
    reveal_strlit("cell_ovp");
    reveal_strlit("cell_ovpr");
    reveal_strlit("balance_trigger_voltage");
    reveal_strlit("cell_soc100_voltage");
    reveal_strlit("cell_soc0_voltage");
    reveal_strlit("cell_request_charge_voltage");
    reveal_strlit("cell_request_float_voltage");
    reveal_strlit("power_off_voltage");
    reveal_strlit("balance_starting_voltage");
    reveal_strlit("max_charge_current");
    reveal_strlit("max_discharge_current");
    reveal_strlit("max_balance_current");
    reveal_strlit("charge_ocp_delay");
    reveal_strlit("charge_ocp_recovery");
    reveal_strlit("discharge_ocp_delay");
    reveal_strlit("discharge_ocp_recovery");
    reveal_strlit("scp_recovery");
    reveal_strlit("scp_delay");
    reveal_strlit("charge_otp");
    reveal_strlit("charge_otp_recovery");
    reveal_strlit("discharge_otp");
    reveal_strlit("discharge_otp_recovery");
    reveal_strlit("charge_utp");
    reveal_strlit("charge_utp_recovery");
    reveal_strlit("power_tube_otp");
    reveal_strlit("power_tube_otp_recovery");
    reveal_strlit("discharge_utp");
    reveal_strlit("discharge_utp_recovery");
    reveal_strlit("heating_start_temperature");
    reveal_strlit("heating_stop_temperature");
    reveal_strlit("cell_count");
    reveal_strlit("total_battery_capacity");
    reveal_strlit("voltage_calibration");
    reveal_strlit("current_calibration");
    reveal_strlit("discharge_precharge_time");
    reveal_strlit("cell_request_charge_voltage_time");
    reveal_strlit("cell_request_float_voltage_time");
    reveal_strlit("re_bulk_soc");
    reveal_strlit("charging");
    reveal_strlit("discharging");
    reveal_strlit("balancer");
    reveal_strlit("emergency");
    reveal_strlit("heating");
    reveal_strlit("disable_temperature_sensors");
    reveal_strlit("display_always_on");
    reveal_strlit("smart_sleep");
    reveal_strlit("disable_pcl_module");
    reveal_strlit("timed_stored_data");
    reveal_strlit("charging_float_mode");
    let a = spec_setting(i).name;
    let b = spec_setting(j).name;
    assert(a.len() != b.len() || a[0] != b[0] || a[1] != b[1] || a[2] != b[2] || a[3] != b[3] || a[4] != b[4] || a[5] != b[5] || a[6] != b[6] || a[7] != b[7] || a[8] != b[8] || a[9] != b[9] || a[10] != b[10] || a[11] != b[11] || a[12] != b[12] || a[13] != b[13]);
}


/// The search by name, started at or before entry `i`, stops at `i`.
proof fn lemma_name_search_finds(i: int, j: int)
    requires
        0 <= j <= i < SETTINGS_COUNT,
    ensures
        first_named(spec_setting(i).name, j) == Some(i),
    decreases i - j,
{
    if j < i {
        lemma_names_distinct(i, j);
        lemma_name_search_finds(i, j + 1);
    }
}

proof fn lemma_first_with_register_range(register: u8, col: int, i: int)
    ensures
        first_with_register(register, col, i) matches Some(k) ==> i <= k < SETTINGS_COUNT
            && spec_setting(k).registers[col] == register,
    decreases SETTINGS_COUNT - i,
{
    if !(i < 0 || i >= SETTINGS_COUNT) && spec_setting(i).registers[col] != register {
        lemma_first_with_register_range(register, col, i + 1);
    }
}

/// No two settings share a name, so the setting that a (nonzero) register of a version
/// finds has, under its name, that register for that version.
pub proof fn law_name_lookup_finds_register(register: u8, version: ProtocolVersion)
    requires
        register != 0,
    ensures
        first_with_register(register, version.spec_register_index(), 0) matches Some(i)
            ==> spec_setting_register(spec_setting(i).name, version) == Some(register),
{
    let col = version.spec_register_index();
    lemma_first_with_register_range(register, col, 0);
    if let Some(i) = first_with_register(register, col, 0) {
        lemma_name_search_finds(i, 0);
    }
}


// ---------------------------------------------------------------------------
// Reading procedures
// ---------------------------------------------------------------------------

/// A bound on the steps a read from `s` still takes.
pub open spec fn read_steps_left(s: JkReadState) -> nat {
    match s {
        JkReadState::Info(n) => (n + JK_READ_RETRIES + 3) as nat,
        JkReadState::CellCommand => (JK_READ_RETRIES + 2) as nat,
        JkReadState::Cells(n) => (n + 1) as nat,
        JkReadState::Done(_) => 0,
    }
}

/// Every step of an unfinished read brings it nearer its end, whatever the step decoded,
/// and a finished read stays as it is.
pub proof fn law_read_steps_decrease(s: JkReadState, flags: ParseFlags)
    ensures
        !(s is Done) ==> read_steps_left(spec_jk_read_next(s, flags).0) < read_steps_left(s),
        s is Done ==> spec_jk_read_next(s, flags).0 == s,
{
}

/// The state a read reaches from `s` when its steps decode `fs` in turn.
pub open spec fn read_run(s: JkReadState, fs: Seq<ParseFlags>) -> JkReadState
    decreases fs.len(),
{
    if fs.len() == 0 {
        s
    } else {
        read_run(spec_jk_read_next(s, fs[0]).0, fs.drop_first())
    }
}

/// Number of info queries a read in state `Info(n)` makes when they decode `fs` in turn:
/// up to and including the first that brings an info frame, and no more than `n` (one
/// at least).
pub open spec fn info_queries(fs: Seq<ParseFlags>, n: nat) -> nat
    decreases n,
{
    if n <= 1 {
        1
    } else if fs.len() > 0 && fs[0].got_info {
        1
    } else {
        1 + info_queries(fs.drop_first(), (n - 1) as nat)
    }
}

/// Whether one of `fs` holds cell voltages.
pub open spec fn any_volts(fs: Seq<ParseFlags>) -> bool {
    exists|j: int| 0 <= j < fs.len() && #[trigger] fs[j].got_volts
}

proof fn lemma_done_stays(b: bool, fs: Seq<ParseFlags>)
    ensures
        read_run(JkReadState::Done(b), fs) == JkReadState::Done(b),
    decreases fs.len(),
{
    if fs.len() > 0 {
        lemma_done_stays(b, fs.drop_first());
    }
}

proof fn lemma_cell_reads(n: u32, fs: Seq<ParseFlags>)
    requires
        n >= 1,
        fs.len() >= n,
    ensures
        read_run(JkReadState::Cells(n), fs) == JkReadState::Done(any_volts(fs.take(n as int))),
    decreases n,
{
    let t = fs.take(n as int);
    if fs[0].got_volts {
        lemma_done_stays(true, fs.drop_first());
        assert(t[0].got_volts);
    } else if n > 1 {
        let rest = fs.drop_first();
        lemma_cell_reads((n - 1) as u32, rest);
        let t2 = rest.take(n - 1);
        assert forall|j: int| 0 <= j < t.len() && #[trigger] t[j].got_volts implies (exists|k: int|
            0 <= k < t2.len() && #[trigger] t2[k].got_volts) by {
            assert(j != 0);
            assert(t2[j - 1] == t[j]);
        }
        assert forall|k: int| 0 <= k < t2.len() && #[trigger] t2[k].got_volts implies (exists|j: int|
            0 <= j < t.len() && #[trigger] t[j].got_volts) by {
            assert(t[k + 1] == t2[k]);
        }
    } else {
        lemma_done_stays(false, fs.drop_first());
        assert forall|j: int| 0 <= j < t.len() implies !(#[trigger] t[j]).got_volts by {
            assert(j == 0);
        }
    }
}

proof fn lemma_info_queries(n: u32, fs: Seq<ParseFlags>)
    requires
        fs.len() >= info_queries(fs, n as nat),
    ensures
        1 <= info_queries(fs, n as nat) <= if n >= 1 { n as nat } else { 1 },
        read_run(JkReadState::Info(n), fs) == read_run(
            JkReadState::CellCommand,
            fs.skip(info_queries(fs, n as nat) as int),
        ),
    decreases n,
{
    if n <= 1 || fs[0].got_info {
        assert(fs.skip(1) =~= fs.drop_first());
    } else {
        let rest = fs.drop_first();
        lemma_info_queries((n - 1) as u32, rest);
        assert(rest.skip(info_queries(rest, (n - 1) as nat) as int) =~= fs.skip(
            info_queries(fs, n as nat) as int,
        ));
    }
}

/// A read started afresh whose steps decode `fs` in turn (the step that sends the cell
/// request decodes nothing) makes info queries up to the first that brings an info frame,
/// five at most; then it sends the cell request and reads five times at most. It ends in
/// success exactly when one of those reads decoded cell voltages, and it has ended after
/// eleven steps.
pub proof fn law_read_outcome(fs: Seq<ParseFlags>)
    requires
        fs.len() >= 2 * JK_READ_RETRIES + 1,
    ensures
        1 <= info_queries(fs, JK_READ_RETRIES as nat) <= JK_READ_RETRIES,
        ({
            let m = info_queries(fs, JK_READ_RETRIES as nat) as int;
            read_run(JkReadState::Info(JK_READ_RETRIES), fs) == JkReadState::Done(
                any_volts(fs.subrange(m + 1, m + 1 + JK_READ_RETRIES)),
            )
        }),
{
    reveal_with_fuel(info_queries, 6);
    lemma_info_queries(JK_READ_RETRIES, fs);
    let m = info_queries(fs, JK_READ_RETRIES as nat) as int;
    let after = fs.skip(m);
    assert(after.drop_first() =~= fs.skip(m + 1));
    lemma_cell_reads(JK_READ_RETRIES, fs.skip(m + 1));
    assert(fs.skip(m + 1).take(JK_READ_RETRIES as int) =~= fs.subrange(m + 1, m + 1 + JK_READ_RETRIES));
}

/// A bound on the attempts and phase changes a polling read in `phase` still makes.
pub open spec fn poll_steps_left(phase: PollPhase) -> nat {
    match phase {
        PollPhase::SendInfo(n) => (2 * n + 9) as nat,
        PollPhase::ReadInfo(n) => (2 * n + 8) as nat,
        PollPhase::SendCells => 7,
        PollPhase::ReadCells(n) => (n + 1) as nat,
        PollPhase::Finished => 0,
    }
}

/// Whether `event` is what ends the current attempt or request of `phase`: a write or a
/// missing transport for a request; a failed read, the end of the window or a missing
/// transport for a read.
pub open spec fn ends_attempt(phase: PollPhase, event: PollEvent) -> bool {
    match phase {
        PollPhase::SendInfo(_) | PollPhase::SendCells => event is NoTransport || event is Written,
        PollPhase::ReadInfo(_) | PollPhase::ReadCells(_) => event is ReadFailed || event
            is WindowOver || event is NoTransport,
        PollPhase::Finished => false,
    }
}

/// No event moves a polling read away from its end, every end of an attempt brings it
/// nearer, and a finished read stays finished. Reads between the ends of attempts are
/// bounded by the read window, so a polling read ends.
pub proof fn law_poll_read_progresses(r: PollRead, event: PollEvent)
    ensures
        poll_steps_left(spec_poll_step(r, event).0.phase) <= poll_steps_left(r.phase),
        ends_attempt(r.phase, event) ==> poll_steps_left(spec_poll_step(r, event).0.phase)
            < poll_steps_left(r.phase),
        r.phase is Finished ==> spec_poll_step(r, event).0 == r,
{
}


// ---------------------------------------------------------------------------
// Frame layouts
// ---------------------------------------------------------------------------

/// A 24S/32S settings frame (the only signature in the data) sets the pack's settings
/// and nothing else; each setting is the word at its place in the frame: the 32-bit
/// little-endian words from byte 6 on in steps of 4 (smart sleep, UVP, UVP recovery, OVP,
/// OVP recovery, balance trigger, SOC 100 %, SOC 0 %, charge and float request voltages,
/// power off, max charge current, charge OCP delay and recovery, max discharge current,
/// discharge OCP delay and recovery, SCP recovery, max balance current, charge OTP and
/// recovery, discharge OTP and recovery, charge UTP and recovery, MOSFET OTP and recovery),
/// the cell count byte at 114, the switch bytes at 118, 122 and 126, the capacity, SCP
/// delay and balance start voltage words at 130, 134 and 138; the wire resistances at 158
/// (24S, 24 of them) or 142 (32S, 32 of them); and for 32S the precharge byte at 274, the
/// control bits at 282 and 283, and the temperature bytes at 284, 285, 296 and 297.
pub proof fn law_settings_frame_fields(p: PackModel, d: Seq<u8>, s: int)
    requires
        p.protocol_version != ProtocolVersion::Jk04,
        sig_at(d, s),
        forall|q: int| q != s ==> !sig_at(d, q),
        s + 300 <= d.len(),
        d[s + 4] == 1,
        spec_crc_ok(d.subrange(s, d.len() as int)),
    ensures
        ({
            let (q, fl) = scan_frames(p, no_flags(), d, 0);
            let f = d.subrange(s, d.len() as int);
            let t = q.settings.unwrap();
            &&& fl == ParseFlags { got_res: true, got_volts: false, got_info: false }
            &&& q.settings is Some
            &&& q == PackModel { settings: q.settings, ..p }
            &&& t.smart_sleep_voltage == spec_get_32bit(f, 6)
            &&& t.cell_uvp == spec_get_32bit(f, 10)
            &&& t.cell_uvpr == spec_get_32bit(f, 14)
            &&& t.cell_ovp == spec_get_32bit(f, 18)
            &&& t.cell_ovpr == spec_get_32bit(f, 22)
            &&& t.balance_trigger_voltage == spec_get_32bit(f, 26)
            &&& t.cell_soc100_voltage == spec_get_32bit(f, 30)
            &&& t.cell_soc0_voltage == spec_get_32bit(f, 34)
            &&& t.cell_request_charge_voltage == spec_get_32bit(f, 38)
            &&& t.cell_request_float_voltage == spec_get_32bit(f, 42)
            &&& t.power_off_voltage == spec_get_32bit(f, 46)
            &&& t.max_charge_current == spec_get_32bit(f, 50)
            &&& t.charge_ocp_delay == spec_get_32bit(f, 54)
            &&& t.charge_ocp_recovery == spec_get_32bit(f, 58)
            &&& t.max_discharge_current == spec_get_32bit(f, 62)
            &&& t.discharge_ocp_delay == spec_get_32bit(f, 66)
            &&& t.discharge_ocp_recovery == spec_get_32bit(f, 70)
            &&& t.scp_recovery == spec_get_32bit(f, 74)
            &&& t.max_balance_current == spec_get_32bit(f, 78)
            &&& t.charge_otp == spec_get_32bit(f, 82)
            &&& t.charge_otp_recovery == spec_get_32bit(f, 86)
            &&& t.discharge_otp == spec_get_32bit(f, 90)
            &&& t.discharge_otp_recovery == spec_get_32bit(f, 94)
            &&& t.charge_utp == spec_get_32bit(f, 98) as i32
            &&& t.charge_utp_recovery == spec_get_32bit(f, 102) as i32
            &&& t.power_tube_otp == spec_get_32bit(f, 106) as i32
            &&& t.power_tube_otp_recovery == spec_get_32bit(f, 110) as i32
            &&& t.cell_count == f[114]
            &&& t.charging_switch == (f[118] != 0)
            &&& t.discharging_switch == (f[122] != 0)
            &&& t.balancer_switch == (f[126] != 0)
            &&& t.total_battery_capacity == spec_get_32bit(f, 130)
            &&& t.scp_delay == spec_get_32bit(f, 134)
            &&& t.balance_starting_voltage == spec_get_32bit(f, 138)
            &&& t.raw_frame == f.take(300)
            &&& p.protocol_version == ProtocolVersion::Jk02_24S ==> forall|i: int|
                0 <= i < 24 ==> #[trigger] t.wire_resistance[i] == spec_get_32bit(f, 158 + 4 * i)
            &&& p.protocol_version == ProtocolVersion::Jk02_32S ==> {
                &&& forall|i: int|
                    0 <= i < 32 ==> #[trigger] t.wire_resistance[i] == spec_get_32bit(
                        f,
                        142 + 4 * i,
                    )
                &&& t.discharge_precharge_time == f[274]
                &&& t.heating_switch == (f[282] & 0x01 != 0)
                &&& t.disable_temp_sensors == (f[282] & 0x02 != 0)
                &&& t.display_always_on == (f[282] & 0x10 != 0)
                &&& t.smart_sleep_switch == (f[282] & 0x40 != 0)
                &&& t.disable_pcl_module == (f[282] & 0x80 != 0)
                &&& t.timed_stored_data == (f[283] & 0x01 != 0)
                &&& t.charging_float_mode == (f[283] & 0x02 != 0)
                &&& t.heating_start_temperature == f[284] as i8
                &&& t.heating_stop_temperature == f[285] as i8
                &&& t.discharge_utp == f[296] as i8
                &&& t.discharge_utp_recovery == f[297] as i8
            }
        }),
{
    reveal(settings_model);
    let f = d.subrange(s, d.len() as int);
    let q = PackModel { settings: Some(settings_model(p.protocol_version, f)), ..p };
    let fl = ParseFlags { got_res: true, got_volts: false, got_info: false };
    lemma_first_sig(d, 0, s);
    lemma_no_sig_from(d, s + 168);
    assert(frame_step(p, no_flags(), d, s) == (q, fl));
    assert(scan_frames(q, fl, d, s + 168) == (q, fl));
    assert(scan_frames(p, no_flags(), d, 0) == (q, fl));
}


/// A 24S cell info frame, first in the data, sets (besides its cell block) the pack's
/// words from their places in the frame: total voltage at 118, current at 126, probes at
/// 130 and 132, MOSFET temperature at 134, alarms at 136, balancing current at 138,
/// balancing at 140, SOC at 141, remaining, nominal and cycled capacity at 142, 146 and
/// 154, cycles at 150, SOH at 158, runtime at 162, the charge, discharge and precharge
/// flags at 166-168 and heating at 183. A 32S frame has all of these 32 bytes later
/// (heating at 215), the MOSFET temperature at 144 and the alarms at 166, the enabled
/// cells word at 70 rather than 54, and three more probes at 258, 256 and 254.
pub proof fn law_cell_frame_fields(p: PackModel, d: Seq<u8>, s: int)
    requires
        p.protocol_version != ProtocolVersion::Jk04,
        p.temps.len() == 8,
        sig_at(d, s),
        forall|q: int| 0 <= q < s ==> !sig_at(d, q),
        s + 300 <= d.len(),
        d[s + 4] == 2,
        spec_crc_ok(d.subrange(s, d.len() as int)),
    ensures
        ({
            let (t, fl) = scan_frames(p, no_flags(), d, 0);
            let f = d.subrange(s, d.len() as int);
            &&& fl.got_volts
            &&& p.protocol_version == ProtocolVersion::Jk02_24S ==> {
                &&& t.voltage == spec_get_32bit(f, 118)
                &&& t.current == spec_get_32bit(f, 126) as i32
                &&& t.temps[0] == spec_get_16bit(f, 130) as i16
                &&& t.temps[1] == spec_get_16bit(f, 132) as i16
                &&& t.power_tube_temp == spec_get_16bit(f, 134) as i16
                &&& t.error_bitmask == spec_get_16bit(f, 136)
                &&& t.ntemps == 2
                &&& t.enabled_cells_bitmask == spec_get_32bit(f, 54)
                &&& t.balancing_current == spec_get_16bit(f, 138) as i16
                &&& t.balancing == (f[140] != 0)
                &&& t.soc == f[141]
                &&& t.capacity_remaining == spec_get_32bit(f, 142)
                &&& t.total_battery_capacity == spec_get_32bit(f, 146)
                &&& t.charging_cycles == spec_get_32bit(f, 150)
                &&& t.total_charging_cycle_capacity == spec_get_32bit(f, 154)
                &&& t.soh == f[158]
                &&& t.total_runtime == spec_get_32bit(f, 162)
                &&& t.charging == (f[166] != 0)
                &&& t.discharging == (f[167] != 0)
                &&& t.precharging == (f[168] != 0)
                &&& t.heating == (f[183] != 0)
                &&& t.cell_encoding == RawEncoding::Scaled
            }
            &&& p.protocol_version == ProtocolVersion::Jk02_32S ==> {
                &&& t.voltage == spec_get_32bit(f, 150)
                &&& t.current == spec_get_32bit(f, 158) as i32
                &&& t.temps[0] == spec_get_16bit(f, 162) as i16
                &&& t.temps[1] == spec_get_16bit(f, 164) as i16
                &&& t.power_tube_temp == spec_get_16bit(f, 144) as i16
                &&& t.error_bitmask == spec_get_16bit(f, 166)
                &&& t.ntemps == 5
                &&& t.temps[2] == spec_get_16bit(f, 258) as i16
                &&& t.temps[3] == spec_get_16bit(f, 256) as i16
                &&& t.temps[4] == spec_get_16bit(f, 254) as i16
                &&& t.enabled_cells_bitmask == spec_get_32bit(f, 70)
                &&& t.balancing_current == spec_get_16bit(f, 170) as i16
                &&& t.balancing == (f[172] != 0)
                &&& t.soc == f[173]
                &&& t.capacity_remaining == spec_get_32bit(f, 174)
                &&& t.total_battery_capacity == spec_get_32bit(f, 178)
                &&& t.charging_cycles == spec_get_32bit(f, 182)
                &&& t.total_charging_cycle_capacity == spec_get_32bit(f, 186)
                &&& t.soh == f[190]
                &&& t.total_runtime == spec_get_32bit(f, 194)
                &&& t.charging == (f[198] != 0)
                &&& t.discharging == (f[199] != 0)
                &&& t.precharging == (f[200] != 0)
                &&& t.heating == (f[215] != 0)
                &&& t.cell_encoding == RawEncoding::Scaled
            }
        }),
{
    reveal(cell_info_model);
    law_first_cell_frame_decoded(p, d, s);
    let f = d.subrange(s, d.len() as int);
    assert(f.len() >= 300);
    assert(cell_info_model(p, f) == jk02_cell_info_model(p, f));
}


/// Whether every byte of `f` in `[i, j)` is nonzero.
pub open spec fn nonzero_bytes(f: Seq<u8>, i: int, j: int) -> bool {
    forall|k: int| i <= k < j ==> #[trigger] f[k] != 0
}

/// Whether every byte of `f` in `[i, j)` is zero.
pub open spec fn zero_bytes(f: Seq<u8>, i: int, j: int) -> bool {
    forall|k: int| i <= k < j ==> #[trigger] f[k] == 0
}

proof fn lemma_first_zero_at(f: Seq<u8>, i: int, j: int)
    requires
        0 <= i <= j < f.len(),
        nonzero_bytes(f, i, j),
        f[j] == 0,
    ensures
        first_zero(f, i) == Some(j),
    decreases j - i,
{
    if i < j {
        lemma_first_zero_at(f, i + 1, j);
    }
}

proof fn lemma_skip_zeros_at(f: Seq<u8>, i: int, j: int)
    requires
        0 <= i <= j < f.len(),
        zero_bytes(f, i, j),
        f[j] != 0,
    ensures
        skip_zeros(f, i) == j,
    decreases j - i,
{
    if i < j {
        lemma_skip_zeros_at(f, i + 1, j);
    }
}

/// An info frame (the only signature in the data) holding, from byte 6 on, the model
/// text, a run of zero bytes, the hardware version text, a run of zero bytes and the
/// software version text ended by a zero byte, sets the model, the hardware version and
/// the software version to those three texts however long the zero runs are, and the
/// protocol version from the model.
pub proof fn law_info_frame_texts(
    p: PackModel,
    d: Seq<u8>,
    s: int,
    a: int,
    h: int,
    b: int,
    w: int,
    c: int,
)
    requires
        sig_at(d, s),
        forall|q: int| q != s ==> !sig_at(d, q),
        s + 300 <= d.len(),
        d[s + 4] == 3,
        spec_crc_ok(d.subrange(s, d.len() as int)),
        6 < a < h < b < w < c < d.len() - s,
        nonzero_bytes(d.subrange(s, d.len() as int), 6, a),
        zero_bytes(d.subrange(s, d.len() as int), a, h),
        nonzero_bytes(d.subrange(s, d.len() as int), h, b),
        zero_bytes(d.subrange(s, d.len() as int), b, w),
        nonzero_bytes(d.subrange(s, d.len() as int), w, c),
        d[s + c] == 0,
    ensures
        ({
            let (q, fl) = scan_frames(p, no_flags(), d, 0);
            let f = d.subrange(s, d.len() as int);
            &&& fl == ParseFlags { got_res: false, got_volts: false, got_info: true }
            &&& q.model == utf8_lossy(f.subrange(6, a))
            &&& q.hwvers == utf8_lossy(f.subrange(h, b))
            &&& q.swvers == utf8_lossy(f.subrange(w, c))
            &&& q.protocol_version == spec_from_model(q.model)
        }),
{
    reveal(info_model);
    let f = d.subrange(s, d.len() as int);
    assert(f[c] == 0);
    assert(f[h] != 0);
    assert(f[w] != 0);
    assert(f[a] == 0);
    assert(f[b] == 0);
    lemma_first_zero_at(f, 6, a);
    lemma_skip_zeros_at(f, a + 1, h);
    lemma_first_zero_at(f, h, b);
    lemma_skip_zeros_at(f, b + 1, w);
    lemma_first_zero_at(f, w, c);
    assert(nul_len(f, 6) == a - 6);
    assert(skip_zeros(f, 7 + nul_len(f, 6)) == h);
    assert(text_field(f, h) == Some(utf8_lossy(f.subrange(h, b))));
    let q = info_model(p, f);
    let fl = ParseFlags { got_res: false, got_volts: false, got_info: true };
    lemma_first_sig(d, 0, s);
    lemma_no_sig_from(d, s + 168);
    assert(frame_step(p, no_flags(), d, s) == (q, fl));
    assert(scan_frames(q, fl, d, s + 168) == (q, fl));
    assert(scan_frames(p, no_flags(), d, 0) == (q, fl));
}


/// The alarm that each bit of the BMS error bitmask reports (bits 0 to 15).
pub open spec fn documented_alarm(bit: int) -> Seq<char> {
    if bit == 0 {
        "Charge Overtemperature"@
    } else if bit == 1 {
        "Charge Undertemperature"@
    } else if bit == 2 {
        "Coprocessor communication error"@
    } else if bit == 3 {
        "Cell Undervoltage"@
    } else if bit == 4 {
        "Battery pack undervoltage"@
    } else if bit == 5 {
        "Discharge overcurrent"@
    } else if bit == 6 {
        "Discharge short circuit"@
    } else if bit == 7 {
        "Discharge overtemperature"@
    } else if bit == 8 {
        "Wire resistance"@
    } else if bit == 9 {
        "Mosfet overtemperature"@
    } else if bit == 10 {
        "Cell count is not equal to settings"@
    } else if bit == 11 {
        "Current sensor anomaly"@
    } else if bit == 12 {
        "Cell Overvoltage"@
    } else if bit == 13 {
        "Battery pack overvoltage"@
    } else if bit == 14 {
        "Charge overcurrent protection"@
    } else {
        "Charge short circuit"@
    }
}

proof fn lemma_single_bit(k: u16, j: u16)
    by (bit_vector)
    requires
        k < 16,
        j < 16,
    ensures
        ((1u16 << k) & (1u16 << j) != 0) == (k == j),
{
}

proof fn lemma_single_bit_list(k: int, n: int)
    requires
        0 <= k < 16,
        0 <= n <= 16,
    ensures
        error_list((1u16 << (k as u16)) as u16, n) == if n <= k {
            Seq::<Seq<char>>::empty()
        } else {
            seq![error_text(k)]
        },
    decreases n,
{
    if n > 0 {
        lemma_single_bit_list(k, n - 1);
        lemma_single_bit(k as u16, (n - 1) as u16);
        assert(bit_set((1u16 << (k as u16)) as u16, n - 1) == (k == n - 1));
    }
}

/// Each bit of the error bitmask reports its own alarm (the bitmask with only bit `bit`
/// set lists exactly that alarm); a bitmask lists the alarm of each of its set bits, and
/// every alarm it lists is that of one of its set bits.
pub proof fn law_alarm_texts(bit: int, mask: u16)
    requires
        0 <= bit < 16,
    ensures
        error_text(bit) == documented_alarm(bit),
        error_list((1u16 << (bit as u16)) as u16, 16) == seq![documented_alarm(bit)],
        error_list(mask, 16).contains(documented_alarm(bit)) <== bit_set(mask, bit),
        forall|i: int|
            #![trigger error_list(mask, 16)[i]]
            0 <= i < error_list(mask, 16).len() ==> exists|j: int|
                #![trigger bit_set(mask, j)]
                0 <= j < 16 && bit_set(mask, j) && error_list(mask, 16)[i] == documented_alarm(j),
{
    assert forall|j: int| 0 <= j < 16 implies #[trigger] error_text(j) == documented_alarm(j) by {}
    assert forall|i: int|
        #![trigger error_list(mask, 16)[i]]
        0 <= i < error_list(mask, 16).len() implies exists|j: int|
            #![trigger bit_set(mask, j)]
            0 <= j < 16 && bit_set(mask, j) && error_list(mask, 16)[i] == documented_alarm(j) by {
        lemma_entry_of_set_bit(mask, 16, i);
        let j = choose|j: int|
            #![trigger bit_set(mask, j)]
            0 <= j < 16 && bit_set(mask, j) && error_list(mask, 16)[i] == error_text(j);
        assert(error_text(j) == documented_alarm(j));
    }
    lemma_single_bit_list(bit, 16);
    if bit_set(mask, bit) {
        lemma_list_has_set_bits(mask, 16, bit);
    }
}

proof fn lemma_entry_of_set_bit(mask: u16, n: int, i: int)
    requires
        0 <= n <= 16,
        0 <= i < error_list(mask, n).len(),
    ensures
        exists|j: int|
            #![trigger bit_set(mask, j)]
            0 <= j < n && bit_set(mask, j) && error_list(mask, n)[i] == error_text(j),
    decreases n,
{
    if i < error_list(mask, n - 1).len() {
        lemma_entry_of_set_bit(mask, n - 1, i);
        let j = choose|j: int|
            #![trigger bit_set(mask, j)]
            0 <= j < n - 1 && bit_set(mask, j) && error_list(mask, n - 1)[i] == error_text(j);
        if bit_set(mask, n - 1) {
            assert(error_list(mask, n)[i] == error_list(mask, n - 1)[i]);
        }
        assert(bit_set(mask, j));
    } else {
        assert(bit_set(mask, n - 1));
    }
}

proof fn lemma_list_has_set_bits(mask: u16, n: int, bit: int)
    requires
        0 <= bit < n <= 16,
        bit_set(mask, bit),
    ensures
        error_list(mask, n).contains(error_text(bit)),
    decreases n,
{
    let l = error_list(mask, n);
    if bit == n - 1 {
        assert(l[l.len() - 1] == error_text(bit));
    } else {
        lemma_list_has_set_bits(mask, n - 1, bit);
        let prev = error_list(mask, n - 1);
        let j = choose|j: int| 0 <= j < prev.len() && prev[j] == error_text(bit);
        if bit_set(mask, n - 1) {
            assert(l[j] == prev[j]);
        }
    }
}


/// A JK04 settings frame (the only signature in the data) sets the pack's settings and
/// nothing else: single-precision words, with the cell count byte at 34, the power off
/// voltage at 38, the balance start voltage at 98, the balance trigger at 106, the max
/// balance current at 110 and the balancer switch byte at 114.
pub proof fn law_jk04_settings_frame_fields(p: PackModel, d: Seq<u8>, s: int)
    requires
        p.protocol_version == ProtocolVersion::Jk04,
        sig_at(d, s),
        forall|q: int| q != s ==> !sig_at(d, q),
        s + 300 <= d.len(),
        d[s + 4] == 1,
        spec_crc_ok(d.subrange(s, d.len() as int)),
    ensures
        ({
            let (q, fl) = scan_frames(p, no_flags(), d, 0);
            let f = d.subrange(s, d.len() as int);
            let t = q.settings.unwrap();
            &&& fl == ParseFlags { got_res: true, got_volts: false, got_info: false }
            &&& q.settings is Some
            &&& q == PackModel { settings: q.settings, ..p }
            &&& t.encoding == RawEncoding::Ieee754
            &&& t.cell_count == f[34]
            &&& t.power_off_voltage == spec_get_32bit(f, 38)
            &&& t.balance_starting_voltage == spec_get_32bit(f, 98)
            &&& t.balance_trigger_voltage == spec_get_32bit(f, 106)
            &&& t.max_balance_current == spec_get_32bit(f, 110)
            &&& t.balancer_switch == (f[114] != 0)
            &&& t.raw_frame == f.take(300)
        }),
{
    reveal(settings_model);
    let f = d.subrange(s, d.len() as int);
    let q = PackModel { settings: Some(settings_model(p.protocol_version, f)), ..p };
    let fl = ParseFlags { got_res: true, got_volts: false, got_info: false };
    lemma_first_sig(d, 0, s);
    lemma_no_sig_from(d, s + 168);
    assert(frame_step(p, no_flags(), d, s) == (q, fl));
    assert(scan_frames(q, fl, d, s + 168) == (q, fl));
    assert(scan_frames(p, no_flags(), d, 0) == (q, fl));
}

/// A JK04 cell info frame, first in the data, sets the 24 cell voltage and resistance
/// slots to the single-precision words at 6 and 102 (4 bytes apart), the cell count to the
/// number of those voltages above zero, the balancing flag from byte 220, the balancing
/// current word from 222 and the runtime from 286.
pub proof fn law_jk04_cell_frame_fields(p: PackModel, d: Seq<u8>, s: int)
    requires
        p.protocol_version == ProtocolVersion::Jk04,
        p.cellvolt.len() == 32,
        p.cellres.len() == 32,
        sig_at(d, s),
        forall|q: int| 0 <= q < s ==> !sig_at(d, q),
        s + 300 <= d.len(),
        d[s + 4] == 2,
        spec_crc_ok(d.subrange(s, d.len() as int)),
    ensures
        ({
            let (t, fl) = scan_frames(p, no_flags(), d, 0);
            let f = d.subrange(s, d.len() as int);
            &&& fl.got_volts
            &&& t.cell_encoding == RawEncoding::Ieee754
            &&& forall|i: int| 0 <= i < 24 ==> #[trigger] t.cellvolt[i] == spec_get_32bit(f, 6 + 4 * i)
            &&& forall|i: int| 0 <= i < 24 ==> #[trigger] t.cellres[i] == spec_get_32bit(f, 102 + 4 * i)
            &&& t.cells == count_positive_f32(Seq::new(24, |i: int| spec_get_32bit(f, 6 + 4 * i)))
            &&& t.balancing == (f[220] != 0)
            &&& t.balancing_current_bits == spec_get_32bit(f, 222)
            &&& t.total_runtime == spec_get_32bit(f, 286)
        }),
{
    reveal(cell_info_model);
    law_first_cell_frame_decoded(p, d, s);
    let f = d.subrange(s, d.len() as int);
    assert(jk04_cell_words(f) =~= Seq::new(24, |i: int| spec_get_32bit(f, 6 + 4 * i)));
    lemma_count_positive_bound(jk04_cell_words(f));
    assert(cell_info_model(p, f) == jk04_cell_info_model(p, f));
}

} // verus!
