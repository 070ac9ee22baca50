use vstd::prelude::*;
use vstd::string::StringExecFns;

verus! {

pub const MYBMM_PACK_NAME_LEN: usize = 32;
pub const MAX_TEMPS: usize = 8;
pub const MAX_CELLS: usize = 32;

/// JK BMS protocol variant.
/// - `Jk04`: older JK-BMS, cell voltages as IEEE 754 single-precision values (4 bytes per cell)
/// - `Jk02_24S`: JK-BMS BLE v2, up to 24 cells, 2-byte millivolt cell voltages
/// - `Jk02_32S`: JK-BMS BLE v2, up to 32 cells, fields after the cell block shifted by 16 bytes
#[allow(non_camel_case_types)]
#[derive(Debug, Clone, Copy, PartialEq, Eq, Structural)]
pub enum ProtocolVersion {
    Jk02_24S,
    Jk02_32S,
    Jk04,
}

impl Default for ProtocolVersion {
    fn default() -> (r: Self)
        ensures
            r == ProtocolVersion::Jk02_24S,
    {
        ProtocolVersion::Jk02_24S
    }
}

/// A model string selects the 32-cell layout when it starts with one of the
/// PB2 / BD / HY series prefixes, the JK04 layout when it starts with "JK04", and the
/// 24-cell layout otherwise.
pub open spec fn spec_from_model(model: Seq<char>) -> ProtocolVersion {
    if model_has_prefix(model, "JK_PB2"@) || model_has_prefix(model, "JK-BD"@) || model_has_prefix(
        model,
        "JK_HY"@,
    ) {
        ProtocolVersion::Jk02_32S
    } else if model_has_prefix(model, "JK04"@) {
        ProtocolVersion::Jk04
    } else {
        ProtocolVersion::Jk02_24S
    }
}

pub open spec fn model_has_prefix(model: Seq<char>, prefix: Seq<char>) -> bool {
    prefix.len() <= model.len() && model.take(prefix.len() as int) == prefix
}

impl ProtocolVersion {
    pub open spec fn spec_cell_offset(self) -> usize {
        match self {
            ProtocolVersion::Jk02_32S => 16,
            _ => 0,
        }
    }

    pub open spec fn spec_max_frame_cells(self) -> usize {
        match self {
            ProtocolVersion::Jk02_24S => 24,
            ProtocolVersion::Jk02_32S => 32,
            ProtocolVersion::Jk04 => 24,
        }
    }

    /// Column of this version in a setting's register triple (JK04, JK02_24S, JK02_32S).
    pub open spec fn spec_register_index(self) -> int {
        match self {
            ProtocolVersion::Jk04 => 0,
            ProtocolVersion::Jk02_24S => 1,
            ProtocolVersion::Jk02_32S => 2,
        }
    }

    /// Protocol version from the model string of an info frame.
    pub fn from_model(model: &str) -> (r: Self)
        ensures
            r == spec_from_model(model@),
    {
        if str_starts_with(model, "JK_PB2") || str_starts_with(model, "JK-BD") || str_starts_with(
            model,
            "JK_HY",
        ) {
            ProtocolVersion::Jk02_32S
        } else if str_starts_with(model, "JK04") {
            ProtocolVersion::Jk04
        } else {
            ProtocolVersion::Jk02_24S
        }
    }

    /// Whether this is a JK02 variant (24S or 32S).
    pub fn is_jk02(&self) -> (r: bool)
        ensures
            r == (*self == ProtocolVersion::Jk02_24S || *self == ProtocolVersion::Jk02_32S),
    {
        match self {
            ProtocolVersion::Jk02_24S | ProtocolVersion::Jk02_32S => true,
            _ => false,
        }
    }

    /// Whether this is the JK04 variant.
    pub fn is_jk04(&self) -> (r: bool)
        ensures
            r == (*self == ProtocolVersion::Jk04),
    {
        match self {
            ProtocolVersion::Jk04 => true,
            _ => false,
        }
    }

    /// Byte shift of the 32-cell layout (16) relative to the 24-cell layout.
    pub fn cell_offset(&self) -> (r: usize)
        ensures
            r == self.spec_cell_offset(),
    {
        match self {
            ProtocolVersion::Jk02_32S => 16,
            _ => 0,
        }
    }

    /// Number of cell slots in a cell info frame of this version.
    pub fn max_frame_cells(&self) -> (r: usize)
        ensures
            r == self.spec_max_frame_cells(),
    {
        match self {
            ProtocolVersion::Jk02_24S => 24,
            ProtocolVersion::Jk02_32S => 32,
            ProtocolVersion::Jk04 => 24,
        }
    }
}

/// Whether the characters of `s` begin with those of `prefix`.
pub fn str_starts_with(s: &str, prefix: &str) -> (r: bool)
    ensures
        r == model_has_prefix(s@, prefix@),
{
    let n: usize = s.unicode_len();
    let m: usize = prefix.unicode_len();
    if m > n {
        return false;
    }
    let mut i: usize = 0;
    while i < m
        invariant
            n == s@.len(),
            m == prefix@.len(),
            m <= n,
            i <= m,
            forall|k: int| 0 <= k < i ==> s@[k] == prefix@[k],
        decreases m - i,
    {
        if s.get_char(i) != prefix.get_char(i) {
            assert(s@.take(m as int)[i as int] != prefix@[i as int]);
            return false;
        }
        i += 1;
    }
    assert(s@.take(m as int) =~= prefix@);
    true
}


/// How the raw measurement words of a frame are to be read:
/// `Scaled` words are fixed-point integers (milli- or deci-units, as documented per field);
/// `Ieee754` words are the bit patterns of single-precision values.
#[derive(Debug, Clone, Copy, PartialEq, Eq, Structural)]
pub enum RawEncoding {
    Scaled,
    Ieee754,
}

/// JK BMS settings as carried by a settings frame (frame type 0x01), kept as the raw
/// words of the frame. With `encoding == Scaled`: voltages in mV, currents in mA,
/// temperatures in 0.1 °C, capacities in mAh, times in s (SCP delay in µs), wire
/// resistances in mΩ. With `encoding == Ieee754` the voltage and balance-current words
/// are single-precision bit patterns.
#[derive(Debug, Clone)]
pub struct JkSettings {
    pub encoding: RawEncoding,
    pub smart_sleep_voltage: u32,
    pub cell_uvp: u32,
    pub cell_uvpr: u32,
    pub cell_ovp: u32,
    pub cell_ovpr: u32,
    pub balance_trigger_voltage: u32,
    pub cell_soc100_voltage: u32,
    pub cell_soc0_voltage: u32,
    pub cell_request_charge_voltage: u32,
    pub cell_request_float_voltage: u32,
    pub power_off_voltage: u32,
    pub balance_starting_voltage: u32,
    pub max_charge_current: u32,
    pub max_discharge_current: u32,
    pub max_balance_current: u32,
    pub charge_ocp_delay: u32,
    pub charge_ocp_recovery: u32,
    pub discharge_ocp_delay: u32,
    pub discharge_ocp_recovery: u32,
    pub scp_recovery: u32,
    pub scp_delay: u32,
    pub charge_otp: u32,
    pub charge_otp_recovery: u32,
    pub discharge_otp: u32,
    pub discharge_otp_recovery: u32,
    pub charge_utp: i32,
    pub charge_utp_recovery: i32,
    pub power_tube_otp: i32,
    pub power_tube_otp_recovery: i32,
    /// JK02_32S only, whole °C.
    pub discharge_utp: i8,
    pub discharge_utp_recovery: i8,
    pub heating_start_temperature: i8,
    pub heating_stop_temperature: i8,
    pub cell_count: u8,
    pub total_battery_capacity: u32,
    pub charging_switch: bool,
    pub discharging_switch: bool,
    pub balancer_switch: bool,
    pub heating_switch: bool,
    pub disable_temp_sensors: bool,
    pub display_always_on: bool,
    pub smart_sleep_switch: bool,
    pub disable_pcl_module: bool,
    pub timed_stored_data: bool,
    pub charging_float_mode: bool,
    /// JK02_32S only, seconds.
    pub discharge_precharge_time: u8,
    /// Write-only registers: never read from a frame, kept at zero.
    pub cell_request_charge_voltage_time: u32,
    pub cell_request_float_voltage_time: u32,
    pub re_bulk_soc: u32,
    pub voltage_calibration: u32,
    pub current_calibration: u32,
    pub wire_resistance: [u32; 32],
    /// The first (up to) 300 bytes of the settings frame.
    pub raw_frame: Vec<u8>,
}

/// Mathematical model of [`JkSettings`].
pub struct SettingsModel {
    pub encoding: RawEncoding,
    pub smart_sleep_voltage: u32,
    pub cell_uvp: u32,
    pub cell_uvpr: u32,
    pub cell_ovp: u32,
    pub cell_ovpr: u32,
    pub balance_trigger_voltage: u32,
    pub cell_soc100_voltage: u32,
    pub cell_soc0_voltage: u32,
    pub cell_request_charge_voltage: u32,
    pub cell_request_float_voltage: u32,
    pub power_off_voltage: u32,
    pub balance_starting_voltage: u32,
    pub max_charge_current: u32,
    pub max_discharge_current: u32,
    pub max_balance_current: u32,
    pub charge_ocp_delay: u32,
    pub charge_ocp_recovery: u32,
    pub discharge_ocp_delay: u32,
    pub discharge_ocp_recovery: u32,
    pub scp_recovery: u32,
    pub scp_delay: u32,
    pub charge_otp: u32,
    pub charge_otp_recovery: u32,
    pub discharge_otp: u32,
    pub discharge_otp_recovery: u32,
    pub charge_utp: i32,
    pub charge_utp_recovery: i32,
    pub power_tube_otp: i32,
    pub power_tube_otp_recovery: i32,
    pub discharge_utp: i8,
    pub discharge_utp_recovery: i8,
    pub heating_start_temperature: i8,
    pub heating_stop_temperature: i8,
    pub cell_count: u8,
    pub total_battery_capacity: u32,
    pub charging_switch: bool,
    pub discharging_switch: bool,
    pub balancer_switch: bool,
    pub heating_switch: bool,
    pub disable_temp_sensors: bool,
    pub display_always_on: bool,
    pub smart_sleep_switch: bool,
    pub disable_pcl_module: bool,
    pub timed_stored_data: bool,
    pub charging_float_mode: bool,
    pub discharge_precharge_time: u8,
    pub cell_request_charge_voltage_time: u32,
    pub cell_request_float_voltage_time: u32,
    pub re_bulk_soc: u32,
    pub voltage_calibration: u32,
    pub current_calibration: u32,
    pub wire_resistance: Seq<u32>,
    pub raw_frame: Seq<u8>,
}

impl View for JkSettings {
    type V = SettingsModel;

    open spec fn view(&self) -> SettingsModel {
        SettingsModel {
            encoding: self.encoding,
            smart_sleep_voltage: self.smart_sleep_voltage,
            cell_uvp: self.cell_uvp,
            cell_uvpr: self.cell_uvpr,
            cell_ovp: self.cell_ovp,
            cell_ovpr: self.cell_ovpr,
            balance_trigger_voltage: self.balance_trigger_voltage,
            cell_soc100_voltage: self.cell_soc100_voltage,
            cell_soc0_voltage: self.cell_soc0_voltage,
            cell_request_charge_voltage: self.cell_request_charge_voltage,
            cell_request_float_voltage: self.cell_request_float_voltage,
            power_off_voltage: self.power_off_voltage,
            balance_starting_voltage: self.balance_starting_voltage,
            max_charge_current: self.max_charge_current,
            max_discharge_current: self.max_discharge_current,
            max_balance_current: self.max_balance_current,
            charge_ocp_delay: self.charge_ocp_delay,
            charge_ocp_recovery: self.charge_ocp_recovery,
            discharge_ocp_delay: self.discharge_ocp_delay,
            discharge_ocp_recovery: self.discharge_ocp_recovery,
            scp_recovery: self.scp_recovery,
            scp_delay: self.scp_delay,
            charge_otp: self.charge_otp,
            charge_otp_recovery: self.charge_otp_recovery,
            discharge_otp: self.discharge_otp,
            discharge_otp_recovery: self.discharge_otp_recovery,
            charge_utp: self.charge_utp,
            charge_utp_recovery: self.charge_utp_recovery,
            power_tube_otp: self.power_tube_otp,
            power_tube_otp_recovery: self.power_tube_otp_recovery,
            discharge_utp: self.discharge_utp,
            discharge_utp_recovery: self.discharge_utp_recovery,
            heating_start_temperature: self.heating_start_temperature,
            heating_stop_temperature: self.heating_stop_temperature,
            cell_count: self.cell_count,
            total_battery_capacity: self.total_battery_capacity,
            charging_switch: self.charging_switch,
            discharging_switch: self.discharging_switch,
            balancer_switch: self.balancer_switch,
            heating_switch: self.heating_switch,
            disable_temp_sensors: self.disable_temp_sensors,
            display_always_on: self.display_always_on,
            smart_sleep_switch: self.smart_sleep_switch,
            disable_pcl_module: self.disable_pcl_module,
            timed_stored_data: self.timed_stored_data,
            charging_float_mode: self.charging_float_mode,
            discharge_precharge_time: self.discharge_precharge_time,
            cell_request_charge_voltage_time: self.cell_request_charge_voltage_time,
            cell_request_float_voltage_time: self.cell_request_float_voltage_time,
            re_bulk_soc: self.re_bulk_soc,
            voltage_calibration: self.voltage_calibration,
            current_calibration: self.current_calibration,
            wire_resistance: self.wire_resistance@,
            raw_frame: self.raw_frame@,
        }
    }
}

/// The settings model of a freshly created [`JkSettings`]: every word zero, every
/// switch off, no raw frame.
pub open spec fn empty_settings_model() -> SettingsModel {
    SettingsModel {
        encoding: RawEncoding::Scaled,
        smart_sleep_voltage: 0,
        cell_uvp: 0,
        cell_uvpr: 0,
        cell_ovp: 0,
        cell_ovpr: 0,
        balance_trigger_voltage: 0,
        cell_soc100_voltage: 0,
        cell_soc0_voltage: 0,
        cell_request_charge_voltage: 0,
        cell_request_float_voltage: 0,
        power_off_voltage: 0,
        balance_starting_voltage: 0,
        max_charge_current: 0,
        max_discharge_current: 0,
        max_balance_current: 0,
        charge_ocp_delay: 0,
        charge_ocp_recovery: 0,
        discharge_ocp_delay: 0,
        discharge_ocp_recovery: 0,
        scp_recovery: 0,
        scp_delay: 0,
        charge_otp: 0,
        charge_otp_recovery: 0,
        discharge_otp: 0,
        discharge_otp_recovery: 0,
        charge_utp: 0,
        charge_utp_recovery: 0,
        power_tube_otp: 0,
        power_tube_otp_recovery: 0,
        discharge_utp: 0,
        discharge_utp_recovery: 0,
        heating_start_temperature: 0,
        heating_stop_temperature: 0,
        cell_count: 0,
        total_battery_capacity: 0,
        charging_switch: false,
        discharging_switch: false,
        balancer_switch: false,
        heating_switch: false,
        disable_temp_sensors: false,
        display_always_on: false,
        smart_sleep_switch: false,
        disable_pcl_module: false,
        timed_stored_data: false,
        charging_float_mode: false,
        discharge_precharge_time: 0,
        cell_request_charge_voltage_time: 0,
        cell_request_float_voltage_time: 0,
        re_bulk_soc: 0,
        voltage_calibration: 0,
        current_calibration: 0,
        wire_resistance: Seq::new(32, |i: int| 0u32),
        raw_frame: Seq::empty(),
    }
}

impl JkSettings {
    pub fn new() -> (r: Self)
        ensures
            r@ == empty_settings_model(),
    {
        let r = JkSettings {
            encoding: RawEncoding::Scaled,
            smart_sleep_voltage: 0,
            cell_uvp: 0,
            cell_uvpr: 0,
            cell_ovp: 0,
            cell_ovpr: 0,
            balance_trigger_voltage: 0,
            cell_soc100_voltage: 0,
            cell_soc0_voltage: 0,
            cell_request_charge_voltage: 0,
            cell_request_float_voltage: 0,
            power_off_voltage: 0,
            balance_starting_voltage: 0,
            max_charge_current: 0,
            max_discharge_current: 0,
            max_balance_current: 0,
            charge_ocp_delay: 0,
            charge_ocp_recovery: 0,
            discharge_ocp_delay: 0,
            discharge_ocp_recovery: 0,
            scp_recovery: 0,
            scp_delay: 0,
            charge_otp: 0,
            charge_otp_recovery: 0,
            discharge_otp: 0,
            discharge_otp_recovery: 0,
            charge_utp: 0,
            charge_utp_recovery: 0,
            power_tube_otp: 0,
            power_tube_otp_recovery: 0,
            discharge_utp: 0,
            discharge_utp_recovery: 0,
            heating_start_temperature: 0,
            heating_stop_temperature: 0,
            cell_count: 0,
            total_battery_capacity: 0,
            charging_switch: false,
            discharging_switch: false,
            balancer_switch: false,
            heating_switch: false,
            disable_temp_sensors: false,
            display_always_on: false,
            smart_sleep_switch: false,
            disable_pcl_module: false,
            timed_stored_data: false,
            charging_float_mode: false,
            discharge_precharge_time: 0,
            cell_request_charge_voltage_time: 0,
            cell_request_float_voltage_time: 0,
            re_bulk_soc: 0,
            voltage_calibration: 0,
            current_calibration: 0,
            wire_resistance: [0u32; 32],
            raw_frame: Vec::new(),
        };
        assert(r.wire_resistance@ =~= Seq::new(32, |i: int| 0u32));
        r
    }
}


/// Battery pack state as decoded from JK BMS frames. Measurement fields hold the raw
/// words of the frames; their units are given per field.
///
/// A JK04 cell info frame (marked by `cell_encoding == Ieee754`) sets the cell words, the
/// cell count, the balancing fields and the runtime only: its total voltage and its cell
/// extremes and average are single-precision sums and comparisons of the cell values,
/// which the holder of the pack computes from `cellvolt`. `voltage`, `current`,
/// `cell_min`, `cell_max`, `cell_diff`, `cell_avg_sum` and `cell_avg_cells` are not set
/// by such a frame and keep what an earlier 24S/32S frame left.
#[derive(Debug, Clone)]
pub struct MybmmPack {
    pub name: String,
    pub uuid: String,
    pub pack_type: String,
    pub transport: String,
    pub target: String,
    pub opts: String,
    pub state: u16,
    pub failed: i32,
    pub error: i32,
    pub errmsg: String,
    /// Total voltage word of the last 24S/32S cell info frame, in mV.
    pub voltage: u32,
    /// Signed current word of the last 24S/32S cell info frame, in mA.
    pub current: i32,
    pub status: i32,
    pub ntemps: i32,
    /// Temperature probes, in 0.1 °C.
    pub temps: [i16; 8],
    /// MOSFET temperature, in 0.1 °C.
    pub power_tube_temp: i16,
    pub cells: i32,
    /// How `cellvolt`, `cellres` and the balancing current of the last cell info frame read.
    pub cell_encoding: RawEncoding,
    /// Cell voltage words: mV (`Scaled`) or single-precision bit patterns in V (`Ieee754`).
    pub cellvolt: [u32; 32],
    /// Cell resistance words: mΩ (`Scaled`) or single-precision bit patterns in Ω (`Ieee754`).
    pub cellres: [u32; 32],
    /// Lowest nonzero cell voltage of the last 24S/32S frame in mV (100000 where no cell is nonzero).
    pub cell_min: u32,
    /// Highest cell voltage of the last 24S/32S frame in mV.
    pub cell_max: u32,
    /// `cell_max - cell_min`, in mV.
    pub cell_diff: i32,
    /// Sum (mV) and count of the nonzero cells of the last 24S/32S frame that had any; their quotient is the average cell voltage.
    pub cell_avg_sum: u32,
    pub cell_avg_cells: u32,
    pub balancebits: u32,
    pub capabilities: u16,
    pub protocol_version: ProtocolVersion,
    pub model: String,
    pub hwvers: String,
    pub swvers: String,
    pub error_bitmask: u16,
    /// Balancing current of the last 24S/32S frame, in mA.
    pub balancing_current: i16,
    /// Balancing current of the last JK04 frame, single-precision bit pattern in A.
    pub balancing_current_bits: u32,
    pub balancing: bool,
    /// State of charge, %.
    pub soc: u8,
    /// Remaining capacity, mAh.
    pub capacity_remaining: u32,
    /// Nominal capacity, mAh.
    pub total_battery_capacity: u32,
    pub charging_cycles: u32,
    /// Total charged capacity, mAh.
    pub total_charging_cycle_capacity: u32,
    /// State of health, %.
    pub soh: u8,
    /// Runtime, s.
    pub total_runtime: u32,
    pub charging: bool,
    pub discharging: bool,
    pub precharging: bool,
    pub heating: bool,
    pub enabled_cells_bitmask: u32,
    /// Settings of the last settings frame (frame type 0x01).
    pub settings: Option<JkSettings>,
}

/// Mathematical model of [`MybmmPack`].
pub struct PackModel {
    pub name: Seq<char>,
    pub uuid: Seq<char>,
    pub pack_type: Seq<char>,
    pub transport: Seq<char>,
    pub target: Seq<char>,
    pub opts: Seq<char>,
    pub state: u16,
    pub failed: i32,
    pub error: i32,
    pub errmsg: Seq<char>,
    pub voltage: u32,
    pub current: i32,
    pub status: i32,
    pub ntemps: i32,
    pub temps: Seq<i16>,
    pub power_tube_temp: i16,
    pub cells: i32,
    pub cell_encoding: RawEncoding,
    pub cellvolt: Seq<u32>,
    pub cellres: Seq<u32>,
    pub cell_min: u32,
    pub cell_max: u32,
    pub cell_diff: i32,
    pub cell_avg_sum: u32,
    pub cell_avg_cells: u32,
    pub balancebits: u32,
    pub capabilities: u16,
    pub protocol_version: ProtocolVersion,
    pub model: Seq<char>,
    pub hwvers: Seq<char>,
    pub swvers: Seq<char>,
    pub error_bitmask: u16,
    pub balancing_current: i16,
    pub balancing_current_bits: u32,
    pub balancing: bool,
    pub soc: u8,
    pub capacity_remaining: u32,
    pub total_battery_capacity: u32,
    pub charging_cycles: u32,
    pub total_charging_cycle_capacity: u32,
    pub soh: u8,
    pub total_runtime: u32,
    pub charging: bool,
    pub discharging: bool,
    pub precharging: bool,
    pub heating: bool,
    pub enabled_cells_bitmask: u32,
    pub settings: Option<SettingsModel>,
}

impl View for MybmmPack {
    type V = PackModel;

    open spec fn view(&self) -> PackModel {
        PackModel {
            name: self.name@,
            uuid: self.uuid@,
            pack_type: self.pack_type@,
            transport: self.transport@,
            target: self.target@,
            opts: self.opts@,
            state: self.state,
            failed: self.failed,
            error: self.error,
            errmsg: self.errmsg@,
            voltage: self.voltage,
            current: self.current,
            status: self.status,
            ntemps: self.ntemps,
            temps: self.temps@,
            power_tube_temp: self.power_tube_temp,
            cells: self.cells,
            cell_encoding: self.cell_encoding,
            cellvolt: self.cellvolt@,
            cellres: self.cellres@,
            cell_min: self.cell_min,
            cell_max: self.cell_max,
            cell_diff: self.cell_diff,
            cell_avg_sum: self.cell_avg_sum,
            cell_avg_cells: self.cell_avg_cells,
            balancebits: self.balancebits,
            capabilities: self.capabilities,
            protocol_version: self.protocol_version,
            model: self.model@,
            hwvers: self.hwvers@,
            swvers: self.swvers@,
            error_bitmask: self.error_bitmask,
            balancing_current: self.balancing_current,
            balancing_current_bits: self.balancing_current_bits,
            balancing: self.balancing,
            soc: self.soc,
            capacity_remaining: self.capacity_remaining,
            total_battery_capacity: self.total_battery_capacity,
            charging_cycles: self.charging_cycles,
            total_charging_cycle_capacity: self.total_charging_cycle_capacity,
            soh: self.soh,
            total_runtime: self.total_runtime,
            charging: self.charging,
            discharging: self.discharging,
            precharging: self.precharging,
            heating: self.heating,
            enabled_cells_bitmask: self.enabled_cells_bitmask,
            settings: match self.settings { Some(s) => Some(s@), None => None },
        }
    }
}

/// A fresh pack: the given name, every other text empty, every word zero, every flag off,
/// the default protocol version, no settings.
pub open spec fn fresh_pack_model(name: Seq<char>) -> PackModel {
    PackModel {
                name: name,
                uuid: Seq::empty(),
                pack_type: Seq::empty(),
                transport: Seq::empty(),
                target: Seq::empty(),
                opts: Seq::empty(),
                state: 0,
                failed: 0,
                error: 0,
                errmsg: Seq::empty(),
                voltage: 0,
                current: 0,
                status: 0,
                ntemps: 0,
                temps: Seq::new(8, |i: int| 0i16),
                power_tube_temp: 0,
                cells: 0,
                cell_encoding: RawEncoding::Scaled,
                cellvolt: Seq::new(32, |i: int| 0u32),
                cellres: Seq::new(32, |i: int| 0u32),
                cell_min: 0,
                cell_max: 0,
                cell_diff: 0,
                cell_avg_sum: 0,
                cell_avg_cells: 0,
                balancebits: 0,
                capabilities: 0,
                protocol_version: ProtocolVersion::Jk02_24S,
                model: Seq::empty(),
                hwvers: Seq::empty(),
                swvers: Seq::empty(),
                error_bitmask: 0,
                balancing_current: 0,
                balancing_current_bits: 0,
                balancing: false,
                soc: 0,
                capacity_remaining: 0,
                total_battery_capacity: 0,
                charging_cycles: 0,
                total_charging_cycle_capacity: 0,
                soh: 0,
                total_runtime: 0,
                charging: false,
                discharging: false,
                precharging: false,
                heating: false,
                enabled_cells_bitmask: 0,
                settings: None,
    }
}

impl MybmmPack {
    pub fn new(name: &str) -> (r: Self)
        ensures
            r@ == fresh_pack_model(name@),
    {
        let r = MybmmPack {
            name: String::from_str(name),
            uuid: String::new(),
            pack_type: String::new(),
            transport: String::new(),
            target: String::new(),
            opts: String::new(),
            state: 0,
            failed: 0,
            error: 0,
            errmsg: String::new(),
            voltage: 0,
            current: 0,
            status: 0,
            ntemps: 0,
            temps: [0i16; 8],
            power_tube_temp: 0,
            cells: 0,
            cell_encoding: RawEncoding::Scaled,
            cellvolt: [0u32; 32],
            cellres: [0u32; 32],
            cell_min: 0,
            cell_max: 0,
            cell_diff: 0,
            cell_avg_sum: 0,
            cell_avg_cells: 0,
            balancebits: 0,
            capabilities: 0,
            protocol_version: ProtocolVersion::Jk02_24S,
            model: String::new(),
            hwvers: String::new(),
            swvers: String::new(),
            error_bitmask: 0,
            balancing_current: 0,
            balancing_current_bits: 0,
            balancing: false,
            soc: 0,
            capacity_remaining: 0,
            total_battery_capacity: 0,
            charging_cycles: 0,
            total_charging_cycle_capacity: 0,
            soh: 0,
            total_runtime: 0,
            charging: false,
            discharging: false,
            precharging: false,
            heating: false,
            enabled_cells_bitmask: 0,
            settings: None,
        };
        assert(r.temps@ =~= Seq::new(8, |i: int| 0i16));
        assert(r.cellvolt@ =~= Seq::new(32, |i: int| 0u32));
        assert(r.cellres@ =~= Seq::new(32, |i: int| 0u32));
        r
    }

    /// Whether this is a PB2-series (JK02_32S) BMS.
    pub fn is_pb2(&self) -> (r: bool)
        ensures
            r == (self.protocol_version == ProtocolVersion::Jk02_32S),
    {
        self.protocol_version == ProtocolVersion::Jk02_32S
    }
}

} // verus!
