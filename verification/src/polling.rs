use vstd::prelude::*;

use crate::module::ReadProgress;
use crate::protocol::ParseFlags;

verus! {

/// Attempts of each phase of a polling read.
pub const POLL_ATTEMPTS: u32 = 5;

/// Pause between two reads within a read window, in milliseconds.
pub const POLL_INTERVAL_MS: u32 = 50;

/// Pause after an attempt that did not finish its phase, and after the cell request, in
/// milliseconds.
pub const RETRY_PAUSE_MS: u32 = 1000;

/// Length of the read window of one attempt, in seconds.
pub const READ_WINDOW_SECS: u32 = 3;

/// Where a polling read (through a frame assembler, as the command-line tool reads)
/// stands: about to send the info request (attempts left), reading its answers, about to
/// send the cell info request, reading cell and settings answers (attempts left), or
/// finished.
#[derive(Debug, Clone, Copy, PartialEq, Eq, Structural)]
pub enum PollPhase {
    SendInfo(u32),
    ReadInfo(u32),
    SendCells,
    ReadCells(u32),
    Finished,
}

/// What the caller does for a phase: write the info request, read once and feed the
/// assembler, empty the assembler and write the cell info request, or stop.
#[derive(Debug, Clone, Copy, PartialEq, Eq, Structural)]
pub enum PollAction {
    WriteInfoRequest,
    ReadInfoAnswer,
    WriteCellRequest,
    ReadCellAnswer,
    Stop,
}

/// What came of an action: no transport to do it on; a write that went through or
/// failed; a read that completed a frame (with what it decoded), one that completed none
/// (no bytes, or no whole frame yet), one that failed; or the end of the read window.
#[derive(Debug, Clone, Copy, PartialEq, Eq, Structural)]
pub enum PollEvent {
    NoTransport,
    Written(bool),
    Decoded(ParseFlags),
    NothingDecoded,
    ReadFailed,
    WindowOver,
}

/// A polling read: its phase and what it has gathered.
#[derive(Debug, Clone, Copy, PartialEq, Eq, Structural)]
pub struct PollRead {
    pub phase: PollPhase,
    pub progress: ReadProgress,
}

/// The action of a phase.
pub open spec fn spec_poll_action(phase: PollPhase) -> PollAction {
    match phase {
        PollPhase::SendInfo(_) => PollAction::WriteInfoRequest,
        PollPhase::ReadInfo(_) => PollAction::ReadInfoAnswer,
        PollPhase::SendCells => PollAction::WriteCellRequest,
        PollPhase::ReadCells(_) => PollAction::ReadCellAnswer,
        PollPhase::Finished => PollAction::Stop,
    }
}

/// `progress` with what `flags` found.
pub open spec fn recorded(progress: ReadProgress, flags: ParseFlags) -> ReadProgress {
    ReadProgress {
        need_settings: progress.need_settings,
        got_info: progress.got_info || flags.got_info,
        got_volts: progress.got_volts || flags.got_volts,
        got_settings: progress.got_settings || flags.got_res,
    }
}

/// The info phase after an attempt that brought no info: the next attempt after a pause,
/// or, after the last, the cell phase.
pub open spec fn info_retry(n: u32, progress: ReadProgress) -> (PollRead, u32) {
    if n > 1 {
        (PollRead { phase: PollPhase::SendInfo((n - 1) as u32), progress }, RETRY_PAUSE_MS)
    } else {
        (PollRead { phase: PollPhase::SendCells, progress }, RETRY_PAUSE_MS)
    }
}

/// The cell phase after an attempt that did not complete the reading: the next attempt
/// after a pause, or, after the last, the end.
pub open spec fn cells_retry(n: u32, progress: ReadProgress) -> (PollRead, u32) {
    if n > 1 {
        (PollRead { phase: PollPhase::ReadCells((n - 1) as u32), progress }, RETRY_PAUSE_MS)
    } else {
        (PollRead { phase: PollPhase::Finished, progress }, RETRY_PAUSE_MS)
    }
}

/// The read after `event`, and the pause in milliseconds before the next action.
///
/// Info phase: a failed write ends the phase at once; a decoded info frame ends it; a
/// read that brings no info waits for the next read; a failed read or the end of the
/// window uses up the attempt. Going to the cell phase, what the info phase decoded of
/// cell voltages is dropped (settings already held stay counted). Cell phase: after the
/// request the read waits a second; a decode that completes the reading (voltages, and
/// settings where needed) ends it; a failed read or the end of the window uses up the
/// attempt. Without a transport every attempt is used up in turn, with its pause.
pub open spec fn spec_poll_step(r: PollRead, event: PollEvent) -> (PollRead, u32) {
    let p = r.progress;
    match r.phase {
        PollPhase::SendInfo(n) => match event {
            PollEvent::NoTransport => info_retry(n, p),
            PollEvent::Written(true) => (PollRead { phase: PollPhase::ReadInfo(n), progress: p }, 0),
            PollEvent::Written(false) => (PollRead { phase: PollPhase::SendCells, progress: p }, 0),
            _ => (r, 0),
        },
        PollPhase::ReadInfo(n) => match event {
            PollEvent::Decoded(f) => if f.got_info {
                (PollRead { phase: PollPhase::SendCells, progress: recorded(p, f) }, 0)
            } else {
                (PollRead { phase: PollPhase::ReadInfo(n), progress: recorded(p, f) }, POLL_INTERVAL_MS)
            },
            PollEvent::NothingDecoded => (r, POLL_INTERVAL_MS),
            PollEvent::ReadFailed | PollEvent::WindowOver | PollEvent::NoTransport => info_retry(n, p),
            _ => (r, 0),
        },
        PollPhase::SendCells => {
            let cells = ReadProgress {
                need_settings: p.need_settings,
                got_info: p.got_info,
                got_volts: false,
                got_settings: p.got_settings,
            };
            match event {
                PollEvent::NoTransport => (
                    PollRead { phase: PollPhase::ReadCells(POLL_ATTEMPTS), progress: cells },
                    0,
                ),
                PollEvent::Written(_) => (
                    PollRead { phase: PollPhase::ReadCells(POLL_ATTEMPTS), progress: cells },
                    RETRY_PAUSE_MS,
                ),
                _ => (r, 0),
            }
        },
        PollPhase::ReadCells(n) => match event {
            PollEvent::Decoded(f) => {
                let q = recorded(p, f);
                if q.got_volts && (!q.need_settings || q.got_settings) {
                    (PollRead { phase: PollPhase::Finished, progress: q }, 0)
                } else {
                    (PollRead { phase: PollPhase::ReadCells(n), progress: q }, POLL_INTERVAL_MS)
                }
            },
            PollEvent::NothingDecoded => (r, POLL_INTERVAL_MS),
            PollEvent::ReadFailed | PollEvent::WindowOver | PollEvent::NoTransport => cells_retry(n, p),
            _ => (r, 0),
        },
        PollPhase::Finished => (r, 0),
    }
}

impl PollRead {
    /// A polling read that needs settings or not, holding settings already or not.
    pub fn new(need_settings: bool, have_settings: bool) -> (r: Self)
        ensures
            r.phase == PollPhase::SendInfo(POLL_ATTEMPTS),
            r.progress == (ReadProgress {
                need_settings,
                got_info: false,
                got_volts: false,
                got_settings: have_settings,
            }),
    {
        PollRead {
            phase: PollPhase::SendInfo(POLL_ATTEMPTS),
            progress: ReadProgress::new(need_settings, have_settings),
        }
    }

    /// The action to take next.
    pub fn action(&self) -> (a: PollAction)
        ensures
            a == spec_poll_action(self.phase),
    {
        match self.phase {
            PollPhase::SendInfo(_) => PollAction::WriteInfoRequest,
            PollPhase::ReadInfo(_) => PollAction::ReadInfoAnswer,
            PollPhase::SendCells => PollAction::WriteCellRequest,
            PollPhase::ReadCells(_) => PollAction::ReadCellAnswer,
            PollPhase::Finished => PollAction::Stop,
        }
    }

    /// Take in what came of the last action; returns the pause, in milliseconds, before
    /// the next one.
    pub fn step(&mut self, event: PollEvent) -> (pause: u32)
        ensures
            (*final(self), pause) == spec_poll_step(*old(self), event),
    {
        match self.phase {
            PollPhase::SendInfo(n) => match event {
                PollEvent::NoTransport => self.retry_info(n),
                PollEvent::Written(true) => {
                    self.phase = PollPhase::ReadInfo(n);
                    0
                },
                PollEvent::Written(false) => {
                    self.phase = PollPhase::SendCells;
                    0
                },
                _ => 0,
            },
            PollPhase::ReadInfo(n) => match event {
                PollEvent::Decoded(f) => {
                    self.progress.record(f);
                    if f.got_info {
                        self.phase = PollPhase::SendCells;
                        0
                    } else {
                        POLL_INTERVAL_MS
                    }
                },
                PollEvent::NothingDecoded => POLL_INTERVAL_MS,
                PollEvent::ReadFailed | PollEvent::WindowOver | PollEvent::NoTransport => {
                    self.retry_info(n)
                },
                _ => 0,
            },
            PollPhase::SendCells => match event {
                PollEvent::NoTransport => {
                    self.start_cells();
                    0
                },
                PollEvent::Written(_) => {
                    self.start_cells();
                    RETRY_PAUSE_MS
                },
                _ => 0,
            },
            PollPhase::ReadCells(n) => match event {
                PollEvent::Decoded(f) => {
                    self.progress.record(f);
                    if self.progress.complete() {
                        self.phase = PollPhase::Finished;
                        0
                    } else {
                        POLL_INTERVAL_MS
                    }
                },
                PollEvent::NothingDecoded => POLL_INTERVAL_MS,
                PollEvent::ReadFailed | PollEvent::WindowOver | PollEvent::NoTransport => {
                    if n > 1 {
                        self.phase = PollPhase::ReadCells(n - 1);
                    } else {
                        self.phase = PollPhase::Finished;
                    }
                    RETRY_PAUSE_MS
                },
                _ => 0,
            },
            PollPhase::Finished => 0,
        }
    }

    fn retry_info(&mut self, n: u32) -> (pause: u32)
        ensures
            (*final(self), pause) == info_retry(n, old(self).progress),
    {
        if n > 1 {
            self.phase = PollPhase::SendInfo(n - 1);
        } else {
            self.phase = PollPhase::SendCells;
        }
        RETRY_PAUSE_MS
    }

    fn start_cells(&mut self)
        ensures
            final(self).phase == PollPhase::ReadCells(POLL_ATTEMPTS),
            final(self).progress == (ReadProgress {
                need_settings: old(self).progress.need_settings,
                got_info: old(self).progress.got_info,
                got_volts: false,
                got_settings: old(self).progress.got_settings,
            }),
    {
        self.phase = PollPhase::ReadCells(POLL_ATTEMPTS);
        self.progress.got_volts = false;
    }

    /// Whether the read has ended.
    pub fn finished(&self) -> (r: bool)
        ensures
            r == (self.phase == PollPhase::Finished),
    {
        match self.phase {
            PollPhase::Finished => true,
            _ => false,
        }
    }
}

} // verus!
