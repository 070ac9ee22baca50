use vstd::prelude::*;

use crate::bytes::spec_crc;
use crate::pack::ProtocolVersion;
use crate::protocol::crc;
use crate::text::{lowercase, str_eq, to_lowercase};

verus! {

/// Number of entries of the settings register map.
pub const SETTINGS_COUNT: usize = 52;

/// One setting register: name, unit, register address per protocol version
/// (JK04, JK02_24S, JK02_32S; 0 where the version lacks it), the factor from the
/// human-readable value to the raw word (1, 10 or 1000), the number of value bytes
/// in a write frame, and whether it is an on/off switch.
#[derive(Debug, Clone, Copy)]
pub struct SettingDef {
    pub name: &'static str,
    pub unit: &'static str,
    pub registers: [u8; 3],
    pub factor: u32,
    pub length: u8,
    pub is_switch: bool,
}

/// Mathematical model of [`SettingDef`].
pub struct SettingSpec {
    pub name: Seq<char>,
    pub unit: Seq<char>,
    pub registers: Seq<u8>,
    pub factor: u32,
    pub length: u8,
    pub is_switch: bool,
}

impl View for SettingDef {
    type V = SettingSpec;

    open spec fn view(&self) -> SettingSpec {
        SettingSpec {
            name: self.name@,
            unit: self.unit@,
            registers: self.registers@,
            factor: self.factor,
            length: self.length,
            is_switch: self.is_switch,
        }
    }
}

/// Entry `i` of the settings register map.
pub open spec fn spec_setting(i: int) -> SettingSpec {
    if i == 0 {
        SettingSpec { name: "smart_sleep_voltage"@, unit: "V"@, registers: seq![0x00u8, 0x01, 0x01], factor: 1000, length: 4, is_switch: false }
    } else if i == 1 {
        SettingSpec { name: "cell_uvp"@, unit: "V"@, registers: seq![0x00u8, 0x02, 0x02], factor: 1000, length: 4, is_switch: false }
    } else if i == 2 {
        SettingSpec { name: "cell_uvpr"@, unit: "V"@, registers: seq![0x00u8, 0x03, 0x03], factor: 1000, length: 4, is_switch: false }
    } else if i == 3 {
        SettingSpec { name: "cell_ovp"@, unit: "V"@, registers: seq![0x00u8, 0x04, 0x04], factor: 1000, length: 4, is_switch: false }
    } else if i == 4 {
        SettingSpec { name: "cell_ovpr"@, unit: "V"@, registers: seq![0x00u8, 0x05, 0x05], factor: 1000, length: 4, is_switch: false }
    } else if i == 5 {
        SettingSpec { name: "balance_trigger_voltage"@, unit: "V"@, registers: seq![0x00u8, 0x06, 0x06], factor: 1000, length: 4, is_switch: false }
    } else if i == 6 {
        SettingSpec { name: "cell_soc100_voltage"@, unit: "V"@, registers: seq![0x00u8, 0x07, 0x07], factor: 1000, length: 4, is_switch: false }
    } else if i == 7 {
        SettingSpec { name: "cell_soc0_voltage"@, unit: "V"@, registers: seq![0x00u8, 0x08, 0x08], factor: 1000, length: 4, is_switch: false }
    } else if i == 8 {
        SettingSpec { name: "cell_request_charge_voltage"@, unit: "V"@, registers: seq![0x00u8, 0x09, 0x09], factor: 1000, length: 4, is_switch: false }
    } else if i == 9 {
        SettingSpec { name: "cell_request_float_voltage"@, unit: "V"@, registers: seq![0x00u8, 0x0A, 0x0A], factor: 1000, length: 4, is_switch: false }
    } else if i == 10 {
        SettingSpec { name: "power_off_voltage"@, unit: "V"@, registers: seq![0x00u8, 0x0B, 0x0B], factor: 1000, length: 4, is_switch: false }
    } else if i == 11 {
        SettingSpec { name: "balance_starting_voltage"@, unit: "V"@, registers: seq![0x00u8, 0x26, 0x22], factor: 1000, length: 4, is_switch: false }
    } else if i == 12 {
        SettingSpec { name: "max_charge_current"@, unit: "A"@, registers: seq![0x00u8, 0x0C, 0x0C], factor: 1000, length: 4, is_switch: false }
    } else if i == 13 {
        SettingSpec { name: "max_discharge_current"@, unit: "A"@, registers: seq![0x00u8, 0x0F, 0x0F], factor: 1000, length: 4, is_switch: false }
    } else if i == 14 {
        SettingSpec { name: "max_balance_current"@, unit: "A"@, registers: seq![0x00u8, 0x13, 0x13], factor: 1000, length: 4, is_switch: false }
    } else if i == 15 {
        SettingSpec { name: "charge_ocp_delay"@, unit: "s"@, registers: seq![0x00u8, 0x0D, 0x0D], factor: 1, length: 4, is_switch: false }
    } else if i == 16 {
        SettingSpec { name: "charge_ocp_recovery"@, unit: "s"@, registers: seq![0x00u8, 0x0E, 0x0E], factor: 1, length: 4, is_switch: false }
    } else if i == 17 {
        SettingSpec { name: "discharge_ocp_delay"@, unit: "s"@, registers: seq![0x00u8, 0x10, 0x10], factor: 1, length: 4, is_switch: false }
    } else if i == 18 {
        SettingSpec { name: "discharge_ocp_recovery"@, unit: "s"@, registers: seq![0x00u8, 0x11, 0x11], factor: 1, length: 4, is_switch: false }
    } else if i == 19 {
        SettingSpec { name: "scp_recovery"@, unit: "s"@, registers: seq![0x00u8, 0x12, 0x12], factor: 1, length: 4, is_switch: false }
    } else if i == 20 {
        SettingSpec { name: "scp_delay"@, unit: ""@, registers: seq![0x00u8, 0x25, 0x21], factor: 1, length: 4, is_switch: false }
    } else if i == 21 {
        SettingSpec { name: "charge_otp"@, unit: "°C"@, registers: seq![0x00u8, 0x14, 0x14], factor: 10, length: 4, is_switch: false }
    } else if i == 22 {
        SettingSpec { name: "charge_otp_recovery"@, unit: "°C"@, registers: seq![0x00u8, 0x15, 0x15], factor: 10, length: 4, is_switch: false }
    } else if i == 23 {
        SettingSpec { name: "discharge_otp"@, unit: "°C"@, registers: seq![0x00u8, 0x16, 0x16], factor: 10, length: 4, is_switch: false }
    } else if i == 24 {
        SettingSpec { name: "discharge_otp_recovery"@, unit: "°C"@, registers: seq![0x00u8, 0x17, 0x17], factor: 10, length: 4, is_switch: false }
    } else if i == 25 {
        SettingSpec { name: "charge_utp"@, unit: "°C"@, registers: seq![0x00u8, 0x18, 0x18], factor: 10, length: 4, is_switch: false }
    } else if i == 26 {
        SettingSpec { name: "charge_utp_recovery"@, unit: "°C"@, registers: seq![0x00u8, 0x19, 0x19], factor: 10, length: 4, is_switch: false }
    } else if i == 27 {
        SettingSpec { name: "power_tube_otp"@, unit: "°C"@, registers: seq![0x00u8, 0x1A, 0x1A], factor: 10, length: 4, is_switch: false }
    } else if i == 28 {
        SettingSpec { name: "power_tube_otp_recovery"@, unit: "°C"@, registers: seq![0x00u8, 0x1B, 0x1B], factor: 10, length: 4, is_switch: false }
    } else if i == 29 {
        SettingSpec { name: "discharge_utp"@, unit: "°C"@, registers: seq![0x00u8, 0x00, 0x3A], factor: 1, length: 1, is_switch: false }
    } else if i == 30 {
        SettingSpec { name: "discharge_utp_recovery"@, unit: "°C"@, registers: seq![0x00u8, 0x00, 0x3B], factor: 1, length: 1, is_switch: false }
    } else if i == 31 {
        SettingSpec { name: "heating_start_temperature"@, unit: "°C"@, registers: seq![0x00u8, 0x00, 0x37], factor: 1, length: 1, is_switch: false }
    } else if i == 32 {
        SettingSpec { name: "heating_stop_temperature"@, unit: "°C"@, registers: seq![0x00u8, 0x00, 0x38], factor: 1, length: 1, is_switch: false }
    } else if i == 33 {
        SettingSpec { name: "cell_count"@, unit: ""@, registers: seq![0x00u8, 0x1C, 0x1C], factor: 1, length: 4, is_switch: false }
    } else if i == 34 {
        SettingSpec { name: "total_battery_capacity"@, unit: "Ah"@, registers: seq![0x00u8, 0x20, 0x20], factor: 1000, length: 4, is_switch: false }
    } else if i == 35 {
        SettingSpec { name: "voltage_calibration"@, unit: "V"@, registers: seq![0x00u8, 0x21, 0x64], factor: 1000, length: 4, is_switch: false }
    } else if i == 36 {
        SettingSpec { name: "current_calibration"@, unit: "A"@, registers: seq![0x00u8, 0x24, 0x67], factor: 1000, length: 4, is_switch: false }
    } else if i == 37 {
        SettingSpec { name: "discharge_precharge_time"@, unit: "s"@, registers: seq![0x00u8, 0x00, 0x25], factor: 1, length: 4, is_switch: false }
    } else if i == 38 {
        SettingSpec { name: "cell_request_charge_voltage_time"@, unit: "h"@, registers: seq![0x00u8, 0x00, 0xB3], factor: 10, length: 1, is_switch: false }
    } else if i == 39 {
        SettingSpec { name: "cell_request_float_voltage_time"@, unit: "h"@, registers: seq![0x00u8, 0x00, 0xB4], factor: 10, length: 1, is_switch: false }
    } else if i == 40 {
        SettingSpec { name: "re_bulk_soc"@, unit: "%"@, registers: seq![0x00u8, 0x00, 0xB7], factor: 1, length: 1, is_switch: false }
    } else if i == 41 {
        SettingSpec { name: "charging"@, unit: ""@, registers: seq![0x00u8, 0x1D, 0x1D], factor: 1, length: 4, is_switch: true }
    } else if i == 42 {
        SettingSpec { name: "discharging"@, unit: ""@, registers: seq![0x00u8, 0x1E, 0x1E], factor: 1, length: 4, is_switch: true }
    } else if i == 43 {
        SettingSpec { name: "balancer"@, unit: ""@, registers: seq![0x6Cu8, 0x1F, 0x1F], factor: 1, length: 4, is_switch: true }
    } else if i == 44 {
        SettingSpec { name: "emergency"@, unit: ""@, registers: seq![0x00u8, 0x00, 0x6B], factor: 1, length: 4, is_switch: true }
    } else if i == 45 {
        SettingSpec { name: "heating"@, unit: ""@, registers: seq![0x00u8, 0x00, 0x27], factor: 1, length: 4, is_switch: true }
    } else if i == 46 {
        SettingSpec { name: "disable_temperature_sensors"@, unit: ""@, registers: seq![0x00u8, 0x00, 0x28], factor: 1, length: 4, is_switch: true }
    } else if i == 47 {
        SettingSpec { name: "display_always_on"@, unit: ""@, registers: seq![0x00u8, 0x00, 0x2B], factor: 1, length: 4, is_switch: true }
    } else if i == 48 {
        SettingSpec { name: "smart_sleep"@, unit: ""@, registers: seq![0x00u8, 0x00, 0x2D], factor: 1, length: 4, is_switch: true }
    } else if i == 49 {
        SettingSpec { name: "disable_pcl_module"@, unit: ""@, registers: seq![0x00u8, 0x00, 0x2E], factor: 1, length: 4, is_switch: true }
    } else if i == 50 {
        SettingSpec { name: "timed_stored_data"@, unit: ""@, registers: seq![0x00u8, 0x00, 0x2F], factor: 1, length: 4, is_switch: true }
    } else {
        SettingSpec { name: "charging_float_mode"@, unit: ""@, registers: seq![0x00u8, 0x00, 0x30], factor: 1, length: 4, is_switch: true }
    }
}

/// Entry `i` of the settings register map.
pub fn setting_def_at(i: usize) -> (r: SettingDef)
    requires
        i < SETTINGS_COUNT,
    ensures
        r@ == spec_setting(i as int),
{
    let r =     if i == 0 {
        SettingDef { name: "smart_sleep_voltage", unit: "V", registers: [0x00, 0x01, 0x01], factor: 1000, length: 4, is_switch: false }
    } else if i == 1 {
        SettingDef { name: "cell_uvp", unit: "V", registers: [0x00, 0x02, 0x02], factor: 1000, length: 4, is_switch: false }
    } else if i == 2 {
        SettingDef { name: "cell_uvpr", unit: "V", registers: [0x00, 0x03, 0x03], factor: 1000, length: 4, is_switch: false }
    } else if i == 3 {
        SettingDef { name: "cell_ovp", unit: "V", registers: [0x00, 0x04, 0x04], factor: 1000, length: 4, is_switch: false }
    } else if i == 4 {
        SettingDef { name: "cell_ovpr", unit: "V", registers: [0x00, 0x05, 0x05], factor: 1000, length: 4, is_switch: false }
    } else if i == 5 {
        SettingDef { name: "balance_trigger_voltage", unit: "V", registers: [0x00, 0x06, 0x06], factor: 1000, length: 4, is_switch: false }
    } else if i == 6 {
        SettingDef { name: "cell_soc100_voltage", unit: "V", registers: [0x00, 0x07, 0x07], factor: 1000, length: 4, is_switch: false }
    } else if i == 7 {
        SettingDef { name: "cell_soc0_voltage", unit: "V", registers: [0x00, 0x08, 0x08], factor: 1000, length: 4, is_switch: false }
    } else if i == 8 {
        SettingDef { name: "cell_request_charge_voltage", unit: "V", registers: [0x00, 0x09, 0x09], factor: 1000, length: 4, is_switch: false }
    } else if i == 9 {
        SettingDef { name: "cell_request_float_voltage", unit: "V", registers: [0x00, 0x0A, 0x0A], factor: 1000, length: 4, is_switch: false }
    } else if i == 10 {
        SettingDef { name: "power_off_voltage", unit: "V", registers: [0x00, 0x0B, 0x0B], factor: 1000, length: 4, is_switch: false }
    } else if i == 11 {
        SettingDef { name: "balance_starting_voltage", unit: "V", registers: [0x00, 0x26, 0x22], factor: 1000, length: 4, is_switch: false }
    } else if i == 12 {
        SettingDef { name: "max_charge_current", unit: "A", registers: [0x00, 0x0C, 0x0C], factor: 1000, length: 4, is_switch: false }
    } else if i == 13 {
        SettingDef { name: "max_discharge_current", unit: "A", registers: [0x00, 0x0F, 0x0F], factor: 1000, length: 4, is_switch: false }
    } else if i == 14 {
        SettingDef { name: "max_balance_current", unit: "A", registers: [0x00, 0x13, 0x13], factor: 1000, length: 4, is_switch: false }
    } else if i == 15 {
        SettingDef { name: "charge_ocp_delay", unit: "s", registers: [0x00, 0x0D, 0x0D], factor: 1, length: 4, is_switch: false }
    } else if i == 16 {
        SettingDef { name: "charge_ocp_recovery", unit: "s", registers: [0x00, 0x0E, 0x0E], factor: 1, length: 4, is_switch: false }
    } else if i == 17 {
        SettingDef { name: "discharge_ocp_delay", unit: "s", registers: [0x00, 0x10, 0x10], factor: 1, length: 4, is_switch: false }
    } else if i == 18 {
        SettingDef { name: "discharge_ocp_recovery", unit: "s", registers: [0x00, 0x11, 0x11], factor: 1, length: 4, is_switch: false }
    } else if i == 19 {
        SettingDef { name: "scp_recovery", unit: "s", registers: [0x00, 0x12, 0x12], factor: 1, length: 4, is_switch: false }
    } else if i == 20 {
        SettingDef { name: "scp_delay", unit: "", registers: [0x00, 0x25, 0x21], factor: 1, length: 4, is_switch: false }
    } else if i == 21 {
        SettingDef { name: "charge_otp", unit: "°C", registers: [0x00, 0x14, 0x14], factor: 10, length: 4, is_switch: false }
    } else if i == 22 {
        SettingDef { name: "charge_otp_recovery", unit: "°C", registers: [0x00, 0x15, 0x15], factor: 10, length: 4, is_switch: false }
    } else if i == 23 {
        SettingDef { name: "discharge_otp", unit: "°C", registers: [0x00, 0x16, 0x16], factor: 10, length: 4, is_switch: false }
    } else if i == 24 {
        SettingDef { name: "discharge_otp_recovery", unit: "°C", registers: [0x00, 0x17, 0x17], factor: 10, length: 4, is_switch: false }
    } else if i == 25 {
        SettingDef { name: "charge_utp", unit: "°C", registers: [0x00, 0x18, 0x18], factor: 10, length: 4, is_switch: false }
    } else if i == 26 {
        SettingDef { name: "charge_utp_recovery", unit: "°C", registers: [0x00, 0x19, 0x19], factor: 10, length: 4, is_switch: false }
    } else if i == 27 {
        SettingDef { name: "power_tube_otp", unit: "°C", registers: [0x00, 0x1A, 0x1A], factor: 10, length: 4, is_switch: false }
    } else if i == 28 {
        SettingDef { name: "power_tube_otp_recovery", unit: "°C", registers: [0x00, 0x1B, 0x1B], factor: 10, length: 4, is_switch: false }
    } else if i == 29 {
        SettingDef { name: "discharge_utp", unit: "°C", registers: [0x00, 0x00, 0x3A], factor: 1, length: 1, is_switch: false }
    } else if i == 30 {
        SettingDef { name: "discharge_utp_recovery", unit: "°C", registers: [0x00, 0x00, 0x3B], factor: 1, length: 1, is_switch: false }
    } else if i == 31 {
        SettingDef { name: "heating_start_temperature", unit: "°C", registers: [0x00, 0x00, 0x37], factor: 1, length: 1, is_switch: false }
    } else if i == 32 {
        SettingDef { name: "heating_stop_temperature", unit: "°C", registers: [0x00, 0x00, 0x38], factor: 1, length: 1, is_switch: false }
    } else if i == 33 {
        SettingDef { name: "cell_count", unit: "", registers: [0x00, 0x1C, 0x1C], factor: 1, length: 4, is_switch: false }
    } else if i == 34 {
        SettingDef { name: "total_battery_capacity", unit: "Ah", registers: [0x00, 0x20, 0x20], factor: 1000, length: 4, is_switch: false }
    } else if i == 35 {
        SettingDef { name: "voltage_calibration", unit: "V", registers: [0x00, 0x21, 0x64], factor: 1000, length: 4, is_switch: false }
    } else if i == 36 {
        SettingDef { name: "current_calibration", unit: "A", registers: [0x00, 0x24, 0x67], factor: 1000, length: 4, is_switch: false }
    } else if i == 37 {
        SettingDef { name: "discharge_precharge_time", unit: "s", registers: [0x00, 0x00, 0x25], factor: 1, length: 4, is_switch: false }
    } else if i == 38 {
        SettingDef { name: "cell_request_charge_voltage_time", unit: "h", registers: [0x00, 0x00, 0xB3], factor: 10, length: 1, is_switch: false }
    } else if i == 39 {
        SettingDef { name: "cell_request_float_voltage_time", unit: "h", registers: [0x00, 0x00, 0xB4], factor: 10, length: 1, is_switch: false }
    } else if i == 40 {
        SettingDef { name: "re_bulk_soc", unit: "%", registers: [0x00, 0x00, 0xB7], factor: 1, length: 1, is_switch: false }
    } else if i == 41 {
        SettingDef { name: "charging", unit: "", registers: [0x00, 0x1D, 0x1D], factor: 1, length: 4, is_switch: true }
    } else if i == 42 {
        SettingDef { name: "discharging", unit: "", registers: [0x00, 0x1E, 0x1E], factor: 1, length: 4, is_switch: true }
    } else if i == 43 {
        SettingDef { name: "balancer", unit: "", registers: [0x6C, 0x1F, 0x1F], factor: 1, length: 4, is_switch: true }
    } else if i == 44 {
        SettingDef { name: "emergency", unit: "", registers: [0x00, 0x00, 0x6B], factor: 1, length: 4, is_switch: true }
    } else if i == 45 {
        SettingDef { name: "heating", unit: "", registers: [0x00, 0x00, 0x27], factor: 1, length: 4, is_switch: true }
    } else if i == 46 {
        SettingDef { name: "disable_temperature_sensors", unit: "", registers: [0x00, 0x00, 0x28], factor: 1, length: 4, is_switch: true }
    } else if i == 47 {
        SettingDef { name: "display_always_on", unit: "", registers: [0x00, 0x00, 0x2B], factor: 1, length: 4, is_switch: true }
    } else if i == 48 {
        SettingDef { name: "smart_sleep", unit: "", registers: [0x00, 0x00, 0x2D], factor: 1, length: 4, is_switch: true }
    } else if i == 49 {
        SettingDef { name: "disable_pcl_module", unit: "", registers: [0x00, 0x00, 0x2E], factor: 1, length: 4, is_switch: true }
    } else if i == 50 {
        SettingDef { name: "timed_stored_data", unit: "", registers: [0x00, 0x00, 0x2F], factor: 1, length: 4, is_switch: true }
    } else {
        SettingDef { name: "charging_float_mode", unit: "", registers: [0x00, 0x00, 0x30], factor: 1, length: 4, is_switch: true }
    };
    assert(r.registers@ =~= spec_setting(i as int).registers);
    r
}

/// The whole settings register map, in order.
pub fn setting_defs() -> (r: Vec<SettingDef>)
    ensures
        r@.len() == SETTINGS_COUNT,
        forall|i: int| 0 <= i < SETTINGS_COUNT ==> #[trigger] r@[i]@ == spec_setting(i),
{
    let mut r: Vec<SettingDef> = Vec::new();
    let mut i: usize = 0;
    while i < SETTINGS_COUNT
        invariant
            i <= SETTINGS_COUNT,
            r@.len() == i,
            forall|k: int| 0 <= k < i ==> #[trigger] r@[k]@ == spec_setting(k),
        decreases SETTINGS_COUNT - i,
    {
        r.push(setting_def_at(i));
        i += 1;
    }
    r
}


// ---------------------------------------------------------------------------
// Lookups
// ---------------------------------------------------------------------------

/// Index of the first entry at or after `i` named `name`.
pub open spec fn first_named(name: Seq<char>, i: int) -> Option<int>
    decreases SETTINGS_COUNT - i,
{
    if i < 0 || i >= SETTINGS_COUNT {
        None
    } else if spec_setting(i).name == name {
        Some(i)
    } else {
        first_named(name, i + 1)
    }
}

/// Index of the first entry at or after `i` whose register for column `col` is `register`.
pub open spec fn first_with_register(register: u8, col: int, i: int) -> Option<int>
    decreases SETTINGS_COUNT - i,
{
    if i < 0 || i >= SETTINGS_COUNT {
        None
    } else if spec_setting(i).registers[col] == register {
        Some(i)
    } else {
        first_with_register(register, col, i + 1)
    }
}

/// The register of setting `name` for `version`: none where the name is unknown or the
/// version lacks the setting (register 0).
pub open spec fn spec_setting_register(name: Seq<char>, version: ProtocolVersion) -> Option<u8> {
    match first_named(name, 0) {
        Some(i) => {
            let r = spec_setting(i).registers[version.spec_register_index()];
            if r != 0 {
                Some(r)
            } else {
                None
            }
        },
        None => None,
    }
}

pub proof fn lemma_first_named_range(name: Seq<char>, i: int)
    ensures
        first_named(name, i) matches Some(k) ==> i <= k < SETTINGS_COUNT && spec_setting(k).name
            == name,
    decreases SETTINGS_COUNT - i,
{
    if !(i < 0 || i >= SETTINGS_COUNT) && spec_setting(i).name != name {
        lemma_first_named_range(name, i + 1);
    }
}

/// Index of the first setting named `name`.
fn find_setting(name: &str) -> (r: Option<usize>)
    ensures
        r matches Some(i) ==> first_named(name@, 0) == Some(i as int) && i < SETTINGS_COUNT,
        r is None ==> first_named(name@, 0) is None,
{
    let mut i: usize = 0;
    while i < SETTINGS_COUNT
        invariant
            i <= SETTINGS_COUNT,
            first_named(name@, 0) == first_named(name@, i as int),
        decreases SETTINGS_COUNT - i,
    {
        let def = setting_def_at(i);
        if str_eq(name, def.name) {
            return Some(i);
        }
        i += 1;
    }
    None
}

/// Column of `version` in a register triple.
pub fn register_index(version: ProtocolVersion) -> (r: usize)
    ensures
        r == version.spec_register_index(),
        r < 3,
{
    match version {
        ProtocolVersion::Jk04 => 0,
        ProtocolVersion::Jk02_24S => 1,
        ProtocolVersion::Jk02_32S => 2,
    }
}

/// Register address of setting `name` for `version`; `None` where the name is unknown or
/// the version lacks the setting.
pub fn get_setting_register(name: &str, version: ProtocolVersion) -> (r: Option<u8>)
    ensures
        r == spec_setting_register(name@, version),
{
    let idx: usize = register_index(version);
    match find_setting(name) {
        Some(i) => {
            let def = setting_def_at(i);
            let reg: u8 = def.registers[idx];
            if reg != 0 {
                Some(reg)
            } else {
                None
            }
        },
        None => None,
    }
}

/// Definition of the first setting named `name`.
pub fn get_setting_def(name: &str) -> (r: Option<SettingDef>)
    ensures
        match first_named(name@, 0) {
            Some(i) => r matches Some(d) && d@ == spec_setting(i),
            None => r is None,
        },
{
    match find_setting(name) {
        Some(i) => Some(setting_def_at(i)),
        None => None,
    }
}

/// Definition of the first setting whose register for `version` is `register`.
pub fn get_setting_by_register(register: u8, version: ProtocolVersion) -> (r: Option<SettingDef>)
    ensures
        match first_with_register(register, version.spec_register_index(), 0) {
            Some(i) => r matches Some(d) && d@ == spec_setting(i),
            None => r is None,
        },
{
    let idx: usize = register_index(version);
    let mut i: usize = 0;
    while i < SETTINGS_COUNT
        invariant
            i <= SETTINGS_COUNT,
            idx == version.spec_register_index(),
            idx < 3,
            first_with_register(register, idx as int, 0) == first_with_register(
                register,
                idx as int,
                i as int,
            ),
        decreases SETTINGS_COUNT - i,
    {
        let def = setting_def_at(i);
        if def.registers[idx] == register {
            return Some(def);
        }
        i += 1;
    }
    None
}

/// The entries among the first `n` of the map that `version` has (register not 0), in
/// order.
pub open spec fn supported_prefix(version: ProtocolVersion, n: int) -> Seq<SettingSpec>
    decreases n,
{
    if n <= 0 {
        Seq::empty()
    } else {
        let rest = supported_prefix(version, n - 1);
        if spec_setting(n - 1).registers[version.spec_register_index()] != 0 {
            rest.push(spec_setting(n - 1))
        } else {
            rest
        }
    }
}

/// The settings `version` supports, in map order.
pub fn supported_settings(version: ProtocolVersion) -> (r: Vec<SettingDef>)
    ensures
        r@.len() == supported_prefix(version, SETTINGS_COUNT as int).len(),
        forall|i: int|
            0 <= i < r@.len() ==> #[trigger] r@[i]@ == supported_prefix(
                version,
                SETTINGS_COUNT as int,
            )[i],
{
    let idx: usize = register_index(version);
    let mut r: Vec<SettingDef> = Vec::new();
    let mut i: usize = 0;
    while i < SETTINGS_COUNT
        invariant
            i <= SETTINGS_COUNT,
            idx == version.spec_register_index(),
            idx < 3,
            r@.len() == supported_prefix(version, i as int).len(),
            forall|k: int|
                0 <= k < r@.len() ==> #[trigger] r@[k]@ == supported_prefix(version, i as int)[k],
        decreases SETTINGS_COUNT - i,
    {
        let def = setting_def_at(i);
        if def.registers[idx] != 0 {
            r.push(def);
        }
        i += 1;
    }
    r
}

// ---------------------------------------------------------------------------
// Write frames
// ---------------------------------------------------------------------------

/// The first 19 bytes of a write-register frame: the write header AA 55 90 EB (the
/// response header reversed in pairs), register, length, the value little-endian, and
/// nine zero bytes.
pub open spec fn write_frame_body(register: u8, value: u32, length: u8) -> Seq<u8> {
    seq![
        0xAAu8, 0x55, 0x90, 0xEB, register, length,
        #[verifier::truncate] ((value >> 0u32) as u8), #[verifier::truncate] ((value >> 8u32) as u8), #[verifier::truncate] ((value >> 16u32) as u8), #[verifier::truncate] ((value >> 24u32) as u8),
        0, 0, 0, 0, 0, 0, 0, 0, 0,
    ]
}

/// A 20-byte write-register frame: the body and its checksum.
pub open spec fn write_frame(register: u8, value: u32, length: u8) -> Seq<u8> {
    let b = write_frame_body(register, value, length);
    b.push(spec_crc(b, 19))
}

/// Build the 20-byte frame that writes `value` to `register`.
pub fn build_write_frame(register: u8, value: u32, length: u8) -> (r: [u8; 20])
    ensures
        r@ == write_frame(register, value, length),
{
    let mut frame: [u8; 20] = [0u8; 20];
    frame[0] = 0xAA;
    frame[1] = 0x55;
    frame[2] = 0x90;
    frame[3] = 0xEB;
    frame[4] = register;
    frame[5] = length;
    frame[6] = #[verifier::truncate] ((value >> 0u32) as u8);
    frame[7] = #[verifier::truncate] ((value >> 8u32) as u8);
    frame[8] = #[verifier::truncate] ((value >> 16u32) as u8);
    frame[9] = #[verifier::truncate] ((value >> 24u32) as u8);
    let c: u8 = crc(&frame, 19);
    proof {
        let b = write_frame_body(register, value, length);
        assert(frame@.take(19) =~= b);
        assert(b.take(19) =~= b);
        assert(c == spec_crc(b, 19));
    }
    frame[19] = c;
    assert(frame@ =~= write_frame(register, value, length));
    frame
}

/// How a switch value reads: exactly "true" is on and exactly "false" is off; any other
/// text is on where its lowercase form is "1", "on", "true" or "yes".
pub open spec fn spec_switch_value(value: Seq<char>) -> bool {
    if value == "true"@ {
        true
    } else if value == "false"@ {
        false
    } else {
        let l = lowercase(value);
        l == "1"@ || l == "on"@ || l == "true"@ || l == "yes"@
    }
}

/// Read an on/off switch value.
pub fn switch_value(value: &str) -> (r: bool)
    ensures
        r == spec_switch_value(value@),
{
    if str_eq(value, "true") {
        true
    } else if str_eq(value, "false") {
        false
    } else {
        let l = to_lowercase(value);
        let t = l.as_str();
        str_eq(t, "1") || str_eq(t, "on") || str_eq(t, "true") || str_eq(t, "yes")
    }
}

/// The write frame for setting `name` with value text `value` under `version`: none where
/// the name is unknown or the version lacks the setting. A switch takes its word (1 or 0)
/// from the text; any other setting takes `scaled`, the value times the setting's factor
/// as the caller read it from the text, and there is no frame where `scaled` is none.
pub open spec fn spec_setting_write_frame(
    name: Seq<char>,
    value: Seq<char>,
    scaled: Option<u32>,
    version: ProtocolVersion,
) -> Option<Seq<u8>> {
    match first_named(name, 0) {
        Some(i) => {
            let d = spec_setting(i);
            let register = d.registers[version.spec_register_index()];
            if register == 0 {
                None
            } else if d.is_switch {
                Some(write_frame(register, if spec_switch_value(value) { 1 } else { 0 }, d.length))
            } else {
                match scaled {
                    Some(raw) => Some(write_frame(register, raw, d.length)),
                    None => None,
                }
            }
        },
        None => None,
    }
}

/// Build the write frame for a named setting (see [`spec_setting_write_frame`]).
pub fn build_setting_write_frame(
    name: &str,
    value: &str,
    scaled: Option<u32>,
    version: ProtocolVersion,
) -> (r: Option<[u8; 20]>)
    ensures
        match r {
            Some(f) => spec_setting_write_frame(name@, value@, scaled, version) == Some(f@),
            None => spec_setting_write_frame(name@, value@, scaled, version) is None,
        },
{
    let def = match get_setting_def(name) {
        Some(d) => d,
        None => return None,
    };
    let idx: usize = register_index(version);
    let register: u8 = def.registers[idx];
    if register == 0 {
        return None;
    }
    let raw_value: u32 = if def.is_switch {
        if switch_value(value) {
            1
        } else {
            0
        }
    } else {
        match scaled {
            Some(v) => v,
            None => return None,
        }
    };
    Some(build_write_frame(register, raw_value, def.length))
}

} // verus!
