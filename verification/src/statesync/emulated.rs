//! The terminal state of a program under an emulator, as it is told to a client.

use crate::terminal::display;
use crate::terminal::display::DisplayDiff;
use crate::terminal::snapshot;
use crate::terminal::snapshot::ScreenSnapshot;
use crate::terminal::snapshot::ScreenView;
use crate::terminal::terminal;
use crate::terminal::terminal::MoshTerminal;
use crate::terminal::terminal::Reading;
use crate::terminal::terminal::TerminalView;
use vstd::prelude::*;
use vstd::string::StrSliceExecFns;

verus! {

/// Represents the complete terminal state.
///
/// The emulator that interprets the output of a program is elsewhere; what it shows is handed over as
/// a reading, or as nothing if it could not be read.
#[derive(Debug)]
pub struct Complete {
    terminal: MoshTerminal,
    echo_ack: u64,
}

/// What a terminal state holds.
pub struct EmulatedView {
    pub terminal: TerminalView,
    pub echo_ack: u64,
}

impl View for Complete {
    type V = EmulatedView;

    closed spec fn view(&self) -> EmulatedView {
        EmulatedView { terminal: self.terminal@, echo_ack: self.echo_ack }
    }
}

impl EmulatedView {
    /// The screen: what was read, or a blank one.
    pub open spec fn screen(self, reading: Option<Reading>) -> ScreenView {
        match reading {
            Some(reading) => terminal::pictured(self.terminal.cols, self.terminal.rows, reading),
            None => snapshot::blank_screen(self.terminal.cols, self.terminal.rows),
        }
    }
}

impl Complete {
    /// A terminal state with the given dimensions, with nothing echoed yet.
    pub fn new(cols: u16, rows: u16) -> (res: Self)
        ensures
            res@ == (EmulatedView {
                terminal: TerminalView { cols, rows, frame: 0 },
                echo_ack: 0,
            }),
    {
        Complete { terminal: MoshTerminal::new(cols, rows), echo_ack: 0 }
    }

    /// The current screen.
    pub fn snapshot(&self, reading: &Option<Reading>) -> (res: ScreenSnapshot)
        ensures
            res@ == self@.screen(*reading),
            res@.covers(),
    {
        match reading {
            Some(reading) => self.terminal.snapshot(reading),
            None => {
                let (cols, rows) = self.terminal.dimensions();
                ScreenSnapshot::new(cols, rows)
            },
        }
    }

    /// The bytes that turn the display of `shown` into the current screen.
    pub fn diff_from(&self, shown: &ScreenSnapshot, reading: &Option<Reading>) -> (res: Vec<u8>)
        requires
            display::same_size(shown@, self@.screen(*reading)) ==> shown@.has_rows(),
        ensures
            res@ == vstd::utf8::encode_utf8(
                display::screen_update(shown@, self@.screen(*reading)),
            ),
    {
        let current = self.snapshot(reading);
        let text = DisplayDiff::diff(shown, &current);
        text.as_str().as_bytes_vec()
    }

    /// The number of the last user input that has been echoed.
    pub fn echo_ack(&self) -> (res: u64)
        ensures
            res == self@.echo_ack,
    {
        self.echo_ack
    }

    /// Sets the number of the last user input that has been echoed.
    pub fn set_echo_ack(&mut self, ack: u64)
        ensures
            final(self)@ == (EmulatedView { echo_ack: ack, ..old(self)@ }),
    {
        self.echo_ack = ack;
    }

    /// The dimensions: columns, rows.
    pub fn dimensions(&self) -> (res: (u16, u16))
        ensures
            res == (self@.terminal.cols, self@.terminal.rows),
    {
        self.terminal.dimensions()
    }

    /// The terminal.
    pub fn terminal(&self) -> (res: &MoshTerminal)
        ensures
            res@ == self@.terminal,
    {
        &self.terminal
    }

    /// The terminal, to be changed.
    pub fn terminal_mut(&mut self) -> (res: &mut MoshTerminal)
        ensures
            res@ == old(self)@.terminal,
            final(self)@ == (EmulatedView { terminal: final(res)@, ..old(self)@ }),
    {
        &mut self.terminal
    }
}

} // verus!
