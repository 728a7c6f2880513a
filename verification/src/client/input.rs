//! The escape key of the client: what is typed after it is for the client itself.

use vstd::prelude::*;

verus! {

/// Ctrl-^ (Ctrl-Shift-6), the escape key.
pub const ESCAPE_KEY: u8 = 0x1E;

/// The key that quits after the escape key.
pub const QUIT_KEY: u8 = 0x2E;

/// The key that would suspend after the escape key, and does nothing.
pub const SUSPEND_KEY: u8 = 0x1A;

/// What to do with the bytes of a key.
#[derive(Debug)]
pub enum InputAction {
    /// Nothing yet, or nothing at all.
    Nothing,
    /// Send bytes to the server.
    Send(Vec<u8>),
    /// Quit.
    Quit,
}

/// What an action holds.
#[verifier::ext_equal]
pub enum ActionView {
    Nothing,
    Send(Seq<u8>),
    Quit,
}

impl View for InputAction {
    type V = ActionView;

    open spec fn view(&self) -> ActionView {
        match self {
            InputAction::Nothing => ActionView::Nothing,
            InputAction::Send(bytes) => ActionView::Send(bytes@),
            InputAction::Quit => ActionView::Quit,
        }
    }
}

/// What to do with the bytes of a key, where `started` says that the key before was the escape key.
pub open spec fn action_for(started: bool, bytes: Seq<u8>) -> ActionView {
    if started {
        if bytes =~= seq![QUIT_KEY] {
            ActionView::Quit
        } else if bytes =~= seq![SUSPEND_KEY] {
            ActionView::Nothing
        } else if bytes =~= seq![ESCAPE_KEY] {
            ActionView::Send(seq![ESCAPE_KEY])
        } else {
            ActionView::Send(seq![ESCAPE_KEY] + bytes)
        }
    } else if bytes =~= seq![ESCAPE_KEY] {
        ActionView::Nothing
    } else {
        ActionView::Send(bytes)
    }
}

/// Whether the key that was handled leaves an escape open.
pub open spec fn starts_escape(started: bool, bytes: Seq<u8>) -> bool {
    if started {
        bytes =~= seq![QUIT_KEY]
    } else {
        bytes =~= seq![ESCAPE_KEY]
    }
}

/// Watches the keys for the escape key.
#[derive(Debug)]
pub struct EscapeFilter {
    started: bool,
}

impl View for EscapeFilter {
    type V = bool;

    closed spec fn view(&self) -> bool {
        self.started
    }
}

impl EscapeFilter {
    /// No escape key was pressed.
    pub fn new() -> (res: Self)
        ensures
            !res@,
    {
        EscapeFilter { started: false }
    }

    /// Handles the bytes of a key.
    pub fn handle(&mut self, bytes: Vec<u8>) -> (res: InputAction)
        ensures
            res@ == action_for(old(self)@, bytes@),
            final(self)@ == starts_escape(old(self)@, bytes@),
    {
        let single = bytes.len() == 1;
        proof {
            if bytes@.len() == 1 {
                assert(bytes@ =~= seq![bytes@[0]]);
                assert(seq![QUIT_KEY][0] == QUIT_KEY);
                assert(seq![SUSPEND_KEY][0] == SUSPEND_KEY);
                assert(seq![ESCAPE_KEY][0] == ESCAPE_KEY);
            }
        }
        if self.started {
            if single && bytes[0] == QUIT_KEY {
                return InputAction::Quit;
            }
            self.started = false;
            if single && bytes[0] == SUSPEND_KEY {
                InputAction::Nothing
            } else if single && bytes[0] == ESCAPE_KEY {
                InputAction::Send(bytes)
            } else {
                let mut both: Vec<u8> = vec![ESCAPE_KEY];
                both.extend_from_slice(bytes.as_slice());
                assert(both@ =~= seq![ESCAPE_KEY] + bytes@);
                InputAction::Send(both)
            }
        } else if single && bytes[0] == ESCAPE_KEY {
            self.started = true;
            InputAction::Nothing
        } else {
            InputAction::Send(bytes)
        }
    }
}

/// What is typed without the escape key reaches the server as it is.
pub proof fn plain_keys_pass(bytes: Seq<u8>)
    requires
        bytes != seq![ESCAPE_KEY],
    ensures
        action_for(false, bytes) == ActionView::Send(bytes),
        !starts_escape(false, bytes),
{
}

/// The escape key pressed twice sends it once; followed by another key, both are sent; followed by
/// the quit key, the client quits.
pub proof fn escape_sequences(bytes: Seq<u8>)
    ensures
        starts_escape(false, seq![ESCAPE_KEY]),
        action_for(false, seq![ESCAPE_KEY]) == ActionView::Nothing,
        action_for(true, seq![ESCAPE_KEY]) == ActionView::Send(seq![ESCAPE_KEY]),
        action_for(true, seq![QUIT_KEY]) == ActionView::Quit,
        bytes != seq![ESCAPE_KEY] && bytes != seq![QUIT_KEY] && bytes != seq![SUSPEND_KEY]
            ==> action_for(true, bytes) == ActionView::Send(seq![ESCAPE_KEY] + bytes),
        action_for(true, bytes) == ActionView::Quit <==> bytes == seq![QUIT_KEY],
        action_for(false, bytes) != ActionView::Quit,
{
    assert(seq![QUIT_KEY][0] == QUIT_KEY);
    assert(seq![SUSPEND_KEY][0] == SUSPEND_KEY);
    assert(seq![ESCAPE_KEY][0] == ESCAPE_KEY);
}

/// Control and the caret open an escape. A dot after it quits; control and Z after it does nothing;
/// the same key again is sent once; all else is sent with the escape key before it. Without an open
/// escape all keys but this one are sent as they are. Only quitting leaves an escape open.
pub proof fn escape_key_protocol(started: bool, bytes: Seq<u8>)
    ensures
        ({
            let action = action_for(started, bytes);
            let key = |b: u8| bytes.len() == 1 && bytes[0] == b;
            &&& !started && key(0x1e) ==> action == ActionView::Nothing
            &&& !started && !key(0x1e) ==> action == ActionView::Send(bytes)
            &&& started && key(0x2e) ==> action == ActionView::Quit
            &&& started && key(0x1a) ==> action == ActionView::Nothing
            &&& started && key(0x1e) ==> action == ActionView::Send(bytes)
            &&& started && !key(0x2e) && !key(0x1a) && !key(0x1e) ==> action == ActionView::Send(
                seq![0x1eu8] + bytes,
            )
            &&& starts_escape(started, bytes) <==> !started && key(0x1e) || started && key(0x2e)
        }),
{
    if bytes.len() == 1 {
        assert(bytes =~= seq![bytes[0]]);
    }
    assert(seq![QUIT_KEY][0] == QUIT_KEY);
    assert(seq![SUSPEND_KEY][0] == SUSPEND_KEY);
    assert(seq![ESCAPE_KEY][0] == ESCAPE_KEY);
}

} // verus!
