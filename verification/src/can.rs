use vstd::prelude::*;

use crate::bytes::spec_get_32bit;
use crate::pack::ProtocolVersion;
use crate::protocol::get_32bit;
use crate::settings::{build_setting_write_frame, spec_setting_write_frame};

verus! {

/// A CAN frame carries at most eight bytes.
pub const CAN_FRAME_SIZE: usize = 8;

/// Command byte of the device info request on a CAN bus.
pub const CAN_CMD_INFO: u8 = 0x97;

/// Command byte of the cell info request on a CAN bus.
pub const CAN_CMD_CELL_INFO: u8 = 0x96;

/// Command byte of a register write on a CAN bus.
pub const CAN_CMD_WRITE_REG: u8 = 0x05;

/// A CAN command frame: the command byte, then seven zero bytes.
pub open spec fn can_command(cmd: u8) -> Seq<u8> {
    seq![cmd, 0u8, 0, 0, 0, 0, 0, 0]
}

/// The CAN frame of command `cmd`.
pub fn build_can_command(cmd: u8) -> (r: [u8; 8])
    ensures
        r@ == can_command(cmd),
{
    let r: [u8; 8] = [cmd, 0, 0, 0, 0, 0, 0, 0];
    assert(r@ =~= can_command(cmd));
    r
}

/// The device info request on a CAN bus.
pub fn get_can_info_command() -> (r: [u8; 8])
    ensures
        r@ == can_command(CAN_CMD_INFO),
{
    build_can_command(CAN_CMD_INFO)
}

/// The cell info request on a CAN bus.
pub fn get_can_cell_info_command() -> (r: [u8; 8])
    ensures
        r@ == can_command(CAN_CMD_CELL_INFO),
{
    build_can_command(CAN_CMD_CELL_INFO)
}

/// A register write on a CAN bus: the write command byte, then the fields of a write
/// frame in its order (register, length, the value little-endian) and a zero byte. The
/// bus protocol fixes only the command byte; the layout of the bytes after it is this
/// library's own choice.
pub open spec fn can_write_frame(register: u8, value: u32, length: u8) -> Seq<u8> {
    seq![
        CAN_CMD_WRITE_REG, register, length,
        #[verifier::truncate] ((value >> 0u32) as u8), #[verifier::truncate] ((value >> 8u32) as u8),
        #[verifier::truncate] ((value >> 16u32) as u8), #[verifier::truncate] ((value >> 24u32) as u8),
        0u8,
    ]
}

/// The CAN frame that writes `value` to `register`.
pub fn build_can_write_frame(register: u8, value: u32, length: u8) -> (r: [u8; 8])
    ensures
        r@ == can_write_frame(register, value, length),
{
    let r: [u8; 8] = [
        CAN_CMD_WRITE_REG,
        register,
        length,
        #[verifier::truncate] ((value >> 0u32) as u8),
        #[verifier::truncate] ((value >> 8u32) as u8),
        #[verifier::truncate] ((value >> 16u32) as u8),
        #[verifier::truncate] ((value >> 24u32) as u8),
        0,
    ];
    assert(r@ =~= can_write_frame(register, value, length));
    r
}

/// The CAN write for a named setting: the register, length and value of its write frame
/// (see `spec_setting_write_frame`), none where there is no write frame.
pub open spec fn spec_can_setting_write_frame(
    name: Seq<char>,
    value: Seq<char>,
    scaled: Option<u32>,
    version: ProtocolVersion,
) -> Option<Seq<u8>> {
    match spec_setting_write_frame(name, value, scaled, version) {
        Some(f) => Some(can_write_frame(f[4], spec_get_32bit(f, 6), f[5])),
        None => None,
    }
}

/// Build the CAN write for a named setting (see [`spec_can_setting_write_frame`]).
pub fn build_can_setting_write_frame(
    name: &str,
    value: &str,
    scaled: Option<u32>,
    version: ProtocolVersion,
) -> (r: Option<[u8; 8]>)
    ensures
        match r {
            Some(f) => spec_can_setting_write_frame(name@, value@, scaled, version) == Some(f@),
            None => spec_can_setting_write_frame(name@, value@, scaled, version) is None,
        },
{
    match build_setting_write_frame(name, value, scaled, version) {
        Some(f) => Some(build_can_write_frame(f[4], get_32bit(&f, 6), f[5])),
        None => None,
    }
}

/// The identifier the BMS listens on, given the one it answered on: 0x1000000 below it
/// where there is room, else the next one.
pub open spec fn spec_can_tx_id(rx_id: u32) -> u32 {
    if rx_id >= 0x1000000 {
        (rx_id - 0x1000000) as u32
    } else {
        (rx_id + 1) as u32
    }
}

/// The identifier to query a BMS found answering on `rx_id`.
pub fn can_tx_id(rx_id: u32) -> (r: u32)
    ensures
        r == spec_can_tx_id(rx_id),
{
    if rx_id >= 0x1000000 {
        rx_id - 0x1000000
    } else {
        rx_id + 1
    }
}

/// The data of the CAN frame that carries `data`: its first eight bytes (a longer message
/// is cut), zero-padded, and their number.
pub fn can_payload(data: &[u8]) -> (r: ([u8; 8], u8))
    ensures
        r.1 as int == if data@.len() < 8 {
            data@.len() as int
        } else {
            8
        },
        forall|i: int| 0 <= i < r.1 ==> r.0@[i] == data@[i],
        forall|i: int| r.1 <= i < 8 ==> r.0@[i] == 0,
{
    let mut out: [u8; 8] = [0u8; 8];
    let n: usize = if data.len() < CAN_FRAME_SIZE {
        data.len()
    } else {
        CAN_FRAME_SIZE
    };
    let mut i: usize = 0;
    while i < n
        invariant
            n <= 8,
            n <= data@.len(),
            i <= n,
            forall|k: int| 0 <= k < i ==> out@[k] == data@[k],
            forall|k: int| n <= k < 8 ==> out@[k] == 0,
        decreases n - i,
    {
        out[i] = data[i];
        i += 1;
    }
    (out, n as u8)
}

/// Whether a received CAN frame is the start of a JK response (the 55 AA EB 90 header in
/// its first four data bytes).
pub fn is_jk_can_response(data: &[u8; 8], len: u8) -> (r: bool)
    ensures
        r == (len >= 4 && data@[0] == 0x55 && data@[1] == 0xAA && data@[2] == 0xEB && data@[3]
            == 0x90),
{
    len >= 4 && data[0] == 0x55 && data[1] == 0xAA && data[2] == 0xEB && data[3] == 0x90
}

} // verus!
