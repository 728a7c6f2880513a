//! The complete terminal state that the server shows to the client.

use crate::statesync::vt;
use crate::statesync::vt::apply_vt_to_snapshot;
use crate::terminal::display;
use crate::terminal::runs;
use crate::terminal::runs::DisplayDiff;
use crate::terminal::snapshot;
use crate::terminal::snapshot::ScreenSnapshot;
use crate::terminal::snapshot::ScreenView;
use vstd::prelude::*;
use vstd::string::StrSliceExecFns;

verus! {

/// The complete terminal state: what the screen shows, and how far user input has been echoed.
pub struct Complete {
    snapshot: ScreenSnapshot,
    echo_ack: u64,
}

/// What a terminal state holds.
pub struct CompleteView {
    pub screen: ScreenView,
    pub echo_ack: u64,
}

impl View for Complete {
    type V = CompleteView;

    closed spec fn view(&self) -> CompleteView {
        CompleteView { screen: self.snapshot@, echo_ack: self.echo_ack }
    }
}

impl Clone for Complete {
    fn clone(&self) -> (res: Self)
        ensures
            res@ == self@,
    {
        Complete { snapshot: self.snapshot.clone(), echo_ack: self.echo_ack }
    }
}

impl Complete {
    /// A blank screen of the given dimensions, with nothing echoed yet.
    pub fn new(cols: u16, rows: u16) -> (res: Result<Self, String>)
        ensures
            res matches Ok(c) && c@ == (CompleteView {
                screen: snapshot::blank_screen(cols, rows),
                echo_ack: 0,
            }) && c@.screen.wf(),
    {
        Ok(Complete { snapshot: ScreenSnapshot::new(cols, rows), echo_ack: 0 })
    }

    /// The bytes that turn the display of `existing` into that of `self`.
    pub fn diff_from(&self, existing: &Complete) -> (res: Vec<u8>)
        requires
            display::same_size(existing@.screen, self@.screen) ==> existing@.screen.covers()
                && self@.screen.covers(),
        ensures
            res@ == vstd::utf8::encode_utf8(runs::run_update(existing@.screen, self@.screen)),
    {
        let text = DisplayDiff::diff(&existing.snapshot, &self.snapshot);
        text.as_str().as_bytes_vec()
    }

    /// Writes a byte stream to the screen.
    pub fn apply_string(&mut self, diff: &[u8])
        ensures
            final(self)@ == (CompleteView {
                screen: vt::written_to(old(self)@.screen, diff@),
                ..old(self)@
            }),
    {
        apply_vt_to_snapshot(&mut self.snapshot, diff);
    }

    /// The number of the last user input that has been echoed.
    pub fn echo_ack(&self) -> (res: u64)
        ensures
            res == self@.echo_ack,
    {
        self.echo_ack
    }

    /// Sets the number of the last user input that has been echoed.
    pub fn set_echo_ack(&mut self, ack: u64)
        ensures
            final(self)@ == (CompleteView { echo_ack: ack, ..old(self)@ }),
    {
        self.echo_ack = ack;
    }

    /// The current screen.
    pub fn snapshot(&self) -> (res: &ScreenSnapshot)
        ensures
            res@ == self@.screen,
    {
        &self.snapshot
    }

    /// The current screen, for writing.
    pub fn snapshot_mut(&mut self) -> (res: &mut ScreenSnapshot)
        ensures
            res@ == old(self)@.screen,
            final(self)@ == (CompleteView { screen: final(res)@, ..old(self)@ }),
    {
        &mut self.snapshot
    }

    /// The dimensions of the screen: columns, rows.
    pub fn dimensions(&self) -> (res: (u16, u16))
        ensures
            res == (self@.screen.cols, self@.screen.rows_count),
    {
        (self.snapshot.cols, self.snapshot.rows_count)
    }
}

} // verus!
