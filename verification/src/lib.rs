pub mod assembler;
pub mod bytes;
pub mod can;
pub mod cli;
pub mod error;
pub mod jk_info;
pub mod laws;
pub mod module;
pub mod pack;
pub mod polling;
pub mod protocol;
pub mod session;
pub mod settings;
pub mod target;
pub mod text;

pub use assembler::FrameAssembler;
pub use can::{
    build_can_command, build_can_setting_write_frame, build_can_write_frame, can_payload, can_tx_id,
    get_can_cell_info_command, get_can_info_command, is_jk_can_response, CAN_CMD_CELL_INFO,
    CAN_CMD_INFO, CAN_CMD_WRITE_REG, CAN_FRAME_SIZE,
};
pub use cli::{
    format_runtime, hex_dump, parse_transport, transport_kind, unsupported_transport, TransportKind,
};
pub use error::{JkError, Result};
pub use jk_info::{parse_info_strings, JkInfo};
pub use module::{
    jk_close, jk_control, jk_init, jk_new, jk_open, jk_read_action, jk_read_next, jk_read_result,
    jk_read_start, JkReadAction, JkReadState, MybmmModule, ReadProgress, Transport,
    MYBMM_BALANCE_CONTROL, MYBMM_CHARGE_CONTROL, MYBMM_DISCHARGE_CONTROL,
};
pub use pack::{JkSettings, MybmmPack, ProtocolVersion, RawEncoding};
pub use polling::{PollAction, PollEvent, PollPhase, PollRead};
pub use protocol::{
    crc, error_bitmask_to_strings, error_description, get_16bit, get_32bit, get_cell_info_command,
    get_info_command, get_settings_command, get_short, get_signed_short, getdata, verify_crc,
    ParseFlags,
};
pub use session::JkSession;
pub use settings::{
    build_setting_write_frame, build_write_frame, get_setting_by_register, get_setting_def,
    get_setting_register, register_index, setting_def_at, setting_defs, supported_settings,
    SettingDef,
    SETTINGS_COUNT,
};
pub use target::{ble_characteristic, BleTarget, CanTarget, SerialTarget};

use vstd::prelude::*;

verus! {

pub const JK_MODULE_NAME: &'static str = "jk";

pub const JK_MODULE_TYPE: i32 = 1;

/// The JK module with charge, discharge and balance control.
pub fn create_jk_module() -> (r: MybmmModule)
    ensures
        r.module_type == module::MYBMM_MODTYPE_CELLMON,
        r.name@ == "jk"@,
        r.capabilities == 7,
{
    assert((MYBMM_CHARGE_CONTROL | MYBMM_DISCHARGE_CONTROL | MYBMM_BALANCE_CONTROL) == 7u16)
        by (bit_vector);
    MybmmModule::new(
        JK_MODULE_NAME,
        (MYBMM_CHARGE_CONTROL | MYBMM_DISCHARGE_CONTROL | MYBMM_BALANCE_CONTROL) as u16,
    )
}

} // verus!
