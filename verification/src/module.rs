use vstd::prelude::*;
use vstd::string::StringExecFns;

use crate::error::{JkError, Result};
use crate::protocol::ParseFlags;
use crate::session::JkSession;
use crate::pack::MybmmPack;

verus! {

/// A byte transport to a BMS (serial line, CAN bus, Bluetooth, ...), implemented by users
/// of the library.
pub trait Transport: Send {
    fn open(&mut self) -> Result<()>;

    fn close(&mut self) -> Result<()>;

    fn write(&mut self, data: &[u8]) -> Result<usize>;

    fn read(&mut self, buf: &mut [u8]) -> Result<usize>;
}

pub const MYBMM_MODTYPE_CELLMON: i32 = 1;

pub const MYBMM_CHARGE_CONTROL: u16 = 0x01;

pub const MYBMM_DISCHARGE_CONTROL: u16 = 0x02;

pub const MYBMM_BALANCE_CONTROL: u16 = 0x04;

/// A BMS module: its type, name and control capabilities.
#[derive(Clone, Debug)]
pub struct MybmmModule {
    pub module_type: i32,
    pub name: &'static str,
    pub capabilities: u16,
}

impl MybmmModule {
    /// A cell monitor module.
    pub fn new(name: &'static str, capabilities: u16) -> (r: Self)
        ensures
            r.module_type == MYBMM_MODTYPE_CELLMON,
            r.name == name,
            r.capabilities == capabilities,
    {
        MybmmModule { module_type: MYBMM_MODTYPE_CELLMON, name, capabilities }
    }

    pub fn with_type(module_type: i32, name: &'static str, capabilities: u16) -> (r: Self)
        ensures
            r.module_type == module_type,
            r.name == name,
            r.capabilities == capabilities,
    {
        MybmmModule { module_type, name, capabilities }
    }

    /// A module of the library provides no transport of its own: this always fails with a
    /// transport error.
    pub fn new_transport(&self, _target: &str, _opts: &str) -> (r: Result<Box<dyn Transport>>)
        ensures
            r matches Err(JkError::TransportError(m)) && m@ == "No transport implementation provided"@,
    {
        Err(JkError::TransportError(String::from_str("No transport implementation provided")))
    }
}

/// Module initialisation: nothing to do, always succeeds.
pub fn jk_init<C>(conf: &mut C) -> (r: Result<()>)
    ensures
        r is Ok,
        *final(conf) == *old(conf),
{
    Ok(())
}


pub fn jk_new(pp: MybmmPack, tp: MybmmModule) -> (r: Result<JkSession>)
    ensures
        r matches Err(JkError::TransportError(m)) && m@ == "No transport implementation provided"@,
{
    JkSession::new(pp, tp)
}

pub fn jk_open(session: &mut JkSession) -> (r: Result<()>)
    ensures
        old(session).tp_handle is None ==> r matches Err(JkError::TransportNotInitialized),
        old(session).tp_handle is None ==> final(session).tp_handle is None,
        old(session).tp_handle is Some ==> final(session).tp_handle is Some,
        final(session).pp == old(session).pp,
        final(session).tp == old(session).tp,
{
    session.open()
}

pub fn jk_close(session: &mut JkSession) -> (r: Result<()>)
    ensures
        old(session).tp_handle is None ==> r matches Err(JkError::TransportNotInitialized),
        old(session).tp_handle is None ==> final(session).tp_handle is None,
        old(session).tp_handle is Some ==> final(session).tp_handle is Some,
        final(session).pp == old(session).pp,
        final(session).tp == old(session).tp,
{
    session.close()
}

pub fn jk_control(session: &mut JkSession, op: u32, action: u32) -> (r: Result<()>)
    ensures
        r is Ok,
        *final(session) == *old(session),
{
    session.control(op, action)
}

// ---------------------------------------------------------------------------
// Read procedure
// ---------------------------------------------------------------------------

/// Attempts of each phase of a read.
pub const JK_READ_RETRIES: u32 = 5;

/// Where a read of a pack stands: querying the device info (attempts left), about to
/// request cell info, reading cell info (attempts left), or finished (with or without
/// cell voltages).
#[derive(Debug, Clone, Copy, PartialEq, Eq, Structural)]
pub enum JkReadState {
    Info(u32),
    CellCommand,
    Cells(u32),
    Done(bool),
}

/// What the caller does next in a read: send the info request and decode one read,
/// send the cell info request, decode one read of cell info, or stop.
#[derive(Debug, Clone, Copy, PartialEq, Eq, Structural)]
pub enum JkReadAction {
    QueryInfo,
    SendCellCommand,
    ReadCells,
    Finish,
}

/// A read starts with the device info query.
pub fn jk_read_start() -> (r: JkReadState)
    ensures
        r == JkReadState::Info(JK_READ_RETRIES),
{
    JkReadState::Info(JK_READ_RETRIES)
}

/// The action a read takes in `state`.
pub fn jk_read_action(state: JkReadState) -> (r: JkReadAction)
    ensures
        r == match state {
            JkReadState::Info(_) => JkReadAction::QueryInfo,
            JkReadState::CellCommand => JkReadAction::SendCellCommand,
            JkReadState::Cells(_) => JkReadAction::ReadCells,
            JkReadState::Done(_) => JkReadAction::Finish,
        },
{
    match state {
        JkReadState::Info(_) => JkReadAction::QueryInfo,
        JkReadState::CellCommand => JkReadAction::SendCellCommand,
        JkReadState::Cells(_) => JkReadAction::ReadCells,
        JkReadState::Done(_) => JkReadAction::Finish,
    }
}

/// The state after the action of `state` was taken, `flags` being what its read decoded
/// (nothing where no transport is attached), and whether to pause a second before going
/// on. An info query that yields no info frame uses up an attempt and pauses; after the
/// last attempt the read goes on to the cell phase regardless. A cell read with voltages
/// ends the read successfully; one without uses up an attempt, and after the last the read
/// ends without voltages.
pub open spec fn spec_jk_read_next(state: JkReadState, flags: ParseFlags) -> (JkReadState, bool) {
    match state {
        JkReadState::Info(n) => if flags.got_info {
            (JkReadState::CellCommand, false)
        } else if n > 1 {
            (JkReadState::Info((n - 1) as u32), true)
        } else {
            (JkReadState::CellCommand, true)
        },
        JkReadState::CellCommand => (JkReadState::Cells(JK_READ_RETRIES), false),
        JkReadState::Cells(n) => if flags.got_volts {
            (JkReadState::Done(true), false)
        } else if n > 1 {
            (JkReadState::Cells((n - 1) as u32), false)
        } else {
            (JkReadState::Done(false), false)
        },
        JkReadState::Done(ok) => (JkReadState::Done(ok), false),
    }
}

/// The next state of a read and whether to pause (see [`spec_jk_read_next`]).
pub fn jk_read_next(state: JkReadState, flags: ParseFlags) -> (r: (JkReadState, bool))
    ensures
        r == spec_jk_read_next(state, flags),
{
    match state {
        JkReadState::Info(n) => {
            if flags.got_info {
                (JkReadState::CellCommand, false)
            } else if n > 1 {
                (JkReadState::Info(n - 1), true)
            } else {
                (JkReadState::CellCommand, true)
            }
        },
        JkReadState::CellCommand => (JkReadState::Cells(JK_READ_RETRIES), false),
        JkReadState::Cells(n) => {
            if flags.got_volts {
                (JkReadState::Done(true), false)
            } else if n > 1 {
                (JkReadState::Cells(n - 1), false)
            } else {
                (JkReadState::Done(false), false)
            }
        },
        JkReadState::Done(ok) => (JkReadState::Done(ok), false),
    }
}

/// The outcome of a finished read: success with voltages, else "no voltage data".
pub fn jk_read_result(ok: bool) -> (r: Result<()>)
    ensures
        ok ==> r is Ok,
        !ok ==> r matches Err(JkError::NoVoltageData),
{
    if ok {
        Ok(())
    } else {
        Err(JkError::NoVoltageData)
    }
}

/// What a reading of live data and, on request, settings has gathered.
#[derive(Debug, Clone, Copy, PartialEq, Eq, Structural)]
pub struct ReadProgress {
    pub need_settings: bool,
    pub got_info: bool,
    pub got_volts: bool,
    pub got_settings: bool,
}

impl ReadProgress {
    pub fn new(need_settings: bool, have_settings: bool) -> (r: Self)
        ensures
            r == (ReadProgress {
                need_settings,
                got_info: false,
                got_volts: false,
                got_settings: have_settings,
            }),
    {
        ReadProgress { need_settings, got_info: false, got_volts: false, got_settings: have_settings }
    }

    /// Take in what one decode found.
    pub fn record(&mut self, flags: ParseFlags)
        ensures
            *final(self) == (ReadProgress {
                need_settings: old(self).need_settings,
                got_info: old(self).got_info || flags.got_info,
                got_volts: old(self).got_volts || flags.got_volts,
                got_settings: old(self).got_settings || flags.got_res,
            }),
    {
        if flags.got_info {
            self.got_info = true;
        }
        if flags.got_volts {
            self.got_volts = true;
        }
        if flags.got_res {
            self.got_settings = true;
        }
    }

    /// A reading is complete once it has cell voltages and, where settings are needed,
    /// settings.
    pub fn complete(&self) -> (r: bool)
        ensures
            r == (self.got_volts && (!self.need_settings || self.got_settings)),
    {
        self.got_volts && (!self.need_settings || self.got_settings)
    }
}

} // verus!
