//! The status bar: connection status and errors.

use crate::terminal::laws;
use crate::text;
use crate::text::push_decimal;
use crate::time;
use crate::time::Instant;
use vstd::prelude::*;
use vstd::string::StrSliceExecFns;

verus! {

/// Without a word from the server for longer than this, the server is late.
pub const SERVER_LATE_MS: u64 = 6500;

/// Without an acknowledgment for longer than this, the reply is late.
pub const REPLY_LATE_MS: u64 = 10000;

/// The width of the status bar.
pub const BAR_WIDTH: usize = 80;

/// Status bar notification engine (shows connection status, errors).
#[derive(Debug)]
pub struct NotificationEngine {
    /// Last time we heard from the server.
    last_word_from_server: Instant,
    /// Last time our state was acknowledged.
    last_acked_state: Instant,
    /// Current notification message.
    message: String,
    /// Whether the message is a network error.
    message_is_network_error: bool,
    /// When the message expires.
    message_expiration: Option<Instant>,
    /// Whether to show the quit keystroke in the message.
    show_quit_keystroke: bool,
    /// The escape key description (e.g. "Ctrl-c .").
    escape_key_string: String,
}

/// What the notification engine holds.
pub struct NotificationView {
    pub last_word_from_server: Instant,
    pub last_acked_state: Instant,
    pub message: Seq<char>,
    pub message_is_network_error: bool,
    pub message_expiration: Option<Instant>,
    pub show_quit_keystroke: bool,
    pub escape_key_string: Seq<char>,
}

impl View for NotificationEngine {
    type V = NotificationView;

    closed spec fn view(&self) -> NotificationView {
        NotificationView {
            last_word_from_server: self.last_word_from_server,
            last_acked_state: self.last_acked_state,
            message: self.message@,
            message_is_network_error: self.message_is_network_error,
            message_expiration: self.message_expiration,
            show_quit_keystroke: self.show_quit_keystroke,
            escape_key_string: self.escape_key_string@,
        }
    }
}

/// The earlier of two points in time.
pub open spec fn earlier(a: Instant, b: Instant) -> Instant {
    if b.nanos < a.nanos {
        b
    } else {
        a
    }
}

/// `n` spaces.
pub open spec fn spaces(n: nat) -> Seq<char> {
    Seq::new(n, |i: int| ' ')
}

impl NotificationView {
    /// An engine that has just heard from the server and has nothing to say.
    pub open spec fn fresh(now: Instant) -> NotificationView {
        NotificationView {
            last_word_from_server: now,
            last_acked_state: now,
            message: Seq::empty(),
            message_is_network_error: false,
            message_expiration: None,
            show_quit_keystroke: true,
            escape_key_string: Seq::empty(),
        }
    }

    /// Whether the server is late.
    pub open spec fn server_late(self, now: Instant) -> bool {
        time::millis_between(self.last_word_from_server, now) > SERVER_LATE_MS
    }

    /// Whether the acknowledgment is late.
    pub open spec fn reply_late(self, now: Instant) -> bool {
        time::millis_between(self.last_acked_state, now) > REPLY_LATE_MS
    }

    /// Whether the time since the last sign of life is worth showing.
    pub open spec fn counts_up(self, now: Instant) -> bool {
        self.server_late(now) || self.reply_late(now)
    }

    /// Whether the message has expired.
    pub open spec fn expired(self, now: Instant) -> bool {
        self.message_expiration matches Some(end) && now.nanos >= end.nanos
    }

    /// The message that is shown: one that has expired is not.
    pub open spec fn current_message(self, now: Instant) -> Seq<char> {
        if self.expired(now) {
            seq![]
        } else {
            self.message
        }
    }

    /// Whether there is something to display: an explicit message, or a server silent for more than
    /// ten seconds.
    pub open spec fn speaks(self, now: Instant) -> bool {
        self.current_message(now).len() > 0 || self.server_late(now) && time::secs_between(
            self.last_word_from_server,
            now,
        ) > 10
    }

    /// What is missing: only the reply, or contact altogether.
    pub open spec fn missing(self, now: Instant) -> Seq<char> {
        if self.reply_late(now) && !self.server_late(now) {
            "reply"@
        } else {
            "contact"@
        }
    }

    /// For how many seconds it has been missing.
    pub open spec fn missing_secs(self, now: Instant) -> nat {
        if self.reply_late(now) && !self.server_late(now) {
            time::secs_between(self.last_acked_state, now)
        } else {
            time::secs_between(self.last_word_from_server, now)
        }
    }

    /// How to quit, where that is known.
    pub open spec fn quit_hint(self) -> Seq<char> {
        if self.show_quit_keystroke && self.escape_key_string.len() > 0 {
            " [To quit: "@ + self.escape_key_string + "]"@
        } else {
            seq![]
        }
    }

    /// The notification text.
    pub open spec fn text(self, now: Instant) -> Seq<char> {
        let message = self.current_message(now);
        if message.len() == 0 && !self.counts_up(now) {
            seq![]
        } else if message.len() == 0 {
            "mosh: Last "@ + self.missing(now) + " "@ + text::decimal(self.missing_secs(now))
                + " ago."@ + self.quit_hint()
        } else if !self.counts_up(now) {
            "mosh: "@ + message + self.quit_hint()
        } else {
            "mosh: "@ + message + " ("@ + text::decimal(self.missing_secs(now)) + "s without "@
                + self.missing(now) + ".)"@ + self.quit_hint()
        }
    }

    /// The bar across the top row: drawn in reverse video, the text cut to fit, the cursor back
    /// where it was.
    pub open spec fn bar(self, now: Instant) -> Seq<char> {
        let text = self.text(now);
        let shown = if text.len() < BAR_WIDTH {
            text
        } else {
            text.take(BAR_WIDTH - 1)
        };
        "\x1b[s"@ + "\x1b[1;1H"@ + "\x1b[7m"@ + spaces(BAR_WIDTH as nat) + "\x1b[1;1H"@ + shown
            + "\x1b[0m"@ + "\x1b[u"@
    }

    /// A message was set at a time.
    pub open spec fn notified(
        self,
        msg: Seq<char>,
        permanent: bool,
        now: Instant,
    ) -> NotificationView {
        NotificationView {
            message: msg,
            message_is_network_error: false,
            message_expiration: if permanent {
                None
            } else {
                Some(time::later_by(now, 1000))
            },
            ..self
        }
    }

    /// A network error was reported at a time.
    pub open spec fn failed(self, msg: Seq<char>, now: Instant) -> NotificationView {
        NotificationView {
            message: msg,
            message_is_network_error: true,
            message_expiration: Some(time::later_by(now, 3100)),
            ..self
        }
    }

    /// A network error was overcome at a time: its message expires soon.
    pub open spec fn recovered(self, now: Instant) -> NotificationView {
        if self.message_is_network_error {
            NotificationView {
                message_expiration: Some(
                    earlier(
                        match self.message_expiration {
                            Some(t) => t,
                            None => now,
                        },
                        time::later_by(now, 1000),
                    ),
                ),
                ..self
            }
        } else {
            self
        }
    }
}

impl NotificationEngine {
    /// An engine that hears from the server at the given time and has nothing to say.
    pub fn new_at(now: Instant) -> (res: Self)
        ensures
            res@ == NotificationView::fresh(now),
    {
        let res = NotificationEngine {
            last_word_from_server: now,
            last_acked_state: now,
            message: String::new(),
            message_is_network_error: false,
            message_expiration: None,
            show_quit_keystroke: true,
            escape_key_string: String::new(),
        };
        assert(res@.message =~= Seq::<char>::empty());
        assert(res@.escape_key_string =~= Seq::<char>::empty());
        res
    }

    /// An engine that hears from the server now and has nothing to say.
    pub fn new() -> (res: Self)
        ensures
            res@ == NotificationView::fresh(res@.last_word_from_server),
    {
        Self::new_at(Instant::now())
    }

    /// Records that we heard from the server.
    pub fn server_heard(&mut self, time: Instant)
        ensures
            final(self)@ == (NotificationView { last_word_from_server: time, ..old(self)@ }),
    {
        self.last_word_from_server = time;
    }

    /// Records that our state was acknowledged.
    pub fn server_acked(&mut self, time: Instant)
        ensures
            final(self)@ == (NotificationView { last_acked_state: time, ..old(self)@ }),
    {
        self.last_acked_state = time;
    }

    /// Sets the escape key description.
    pub fn set_escape_key_string(&mut self, s: String)
        ensures
            final(self)@ == (NotificationView { escape_key_string: s@, ..old(self)@ }),
    {
        self.escape_key_string = s;
    }

    /// When the message expires, if it does.
    pub fn message_expiration(&self) -> (res: Option<Instant>)
        ensures
            res == self@.message_expiration,
    {
        self.message_expiration
    }

    /// Shows a notification message as of the given time.
    pub fn set_notification_at(&mut self, msg: String, permanent: bool, now: Instant)
        ensures
            final(self)@ == old(self)@.notified(msg@, permanent, now),
    {
        self.message = msg;
        self.message_is_network_error = false;
        self.message_expiration = if permanent {
            None
        } else {
            Some(now.plus_millis(1000))
        };
    }

    /// Shows a notification message.
    pub fn set_notification(&mut self, msg: String, permanent: bool)
        ensures
            exists|now: Instant|
                final(self)@ == #[trigger] old(self)@.notified(msg@, permanent, now),
    {
        self.set_notification_at(msg, permanent, Instant::now());
    }

    /// Shows a network error message as of the given time.
    pub fn set_network_error_at(&mut self, msg: String, now: Instant)
        ensures
            final(self)@ == old(self)@.failed(msg@, now),
    {
        self.message = msg;
        self.message_is_network_error = true;
        self.message_expiration = Some(now.plus_millis(3100));
    }

    /// Shows a network error message.
    pub fn set_network_error(&mut self, msg: String)
        ensures
            exists|now: Instant| final(self)@ == #[trigger] old(self)@.failed(msg@, now),
    {
        self.set_network_error_at(msg, Instant::now());
    }

    /// Lets a network error that is displayed expire, as of the given time.
    pub fn clear_network_error_at(&mut self, now: Instant)
        ensures
            final(self)@ == old(self)@.recovered(now),
    {
        if self.message_is_network_error {
            let soon = now.plus_millis(1000);
            let due = match self.message_expiration {
                Some(t) => t,
                None => now,
            };
            self.message_expiration = Some(
                if soon.nanos < due.nanos {
                    soon
                } else {
                    due
                },
            );
        }
    }

    /// Lets a network error that is displayed expire.
    pub fn clear_network_error(&mut self)
        ensures
            exists|now: Instant| final(self)@ == #[trigger] old(self)@.recovered(now),
    {
        self.clear_network_error_at(Instant::now());
    }

    /// Whether the server is late at the given time.
    pub fn server_late_at(&self, now: Instant) -> (res: bool)
        ensures
            res == self@.server_late(now),
    {
        now.millis_since(self.last_word_from_server) > SERVER_LATE_MS
    }

    /// Whether the server is late (no contact for more than 6.5 s).
    pub fn server_late(&self) -> (res: bool)
        ensures
            exists|now: Instant| res == #[trigger] self@.server_late(now),
    {
        self.server_late_at(Instant::now())
    }

    /// Whether the acknowledgment is late at the given time.
    pub fn reply_late_at(&self, now: Instant) -> (res: bool)
        ensures
            res == self@.reply_late(now),
    {
        now.millis_since(self.last_acked_state) > REPLY_LATE_MS
    }

    /// Whether the acknowledgment is late (none for more than 10 s).
    pub fn reply_late(&self) -> (res: bool)
        ensures
            exists|now: Instant| res == #[trigger] self@.reply_late(now),
    {
        self.reply_late_at(Instant::now())
    }

    /// Whether we need to show a "waiting" count at the given time.
    pub fn need_countup_at(&self, now: Instant) -> (res: bool)
        ensures
            res == self@.counts_up(now),
    {
        self.server_late_at(now) || self.reply_late_at(now)
    }

    /// Whether we need to show a "waiting" count.
    pub fn need_countup(&self) -> (res: bool)
        ensures
            exists|now: Instant| res == #[trigger] self@.counts_up(now),
    {
        self.need_countup_at(Instant::now())
    }

    /// The seconds since the last server contact.
    pub fn seconds_since_heard(&self) -> (res: u64)
        ensures
            exists|now: Instant|
                res == #[trigger] time::secs_between(self@.last_word_from_server, now),
    {
        let now = Instant::now();
        let res: u64 = now.secs_since(self.last_word_from_server);
        assert(res == time::secs_between(self@.last_word_from_server, now));
        res
    }

    /// The seconds since the last acknowledgment.
    pub fn seconds_since_acked(&self) -> (res: u64)
        ensures
            exists|now: Instant| res == #[trigger] time::secs_between(self@.last_acked_state, now),
    {
        let now = Instant::now();
        let res: u64 = now.secs_since(self.last_acked_state);
        assert(res == time::secs_between(self@.last_acked_state, now));
        res
    }

    /// Whether there is no message to show at the given time: none was set, or it has expired.
    fn is_silent_at(&self, now: Instant) -> (res: bool)
        ensures
            res == (self@.current_message(now).len() == 0),
            !res ==> self@.current_message(now) == self.message@,
    {
        if self.message.as_str().is_empty() {
            return true;
        }
        match self.message_expiration {
            Some(end) => now.nanos >= end.nanos,
            None => false,
        }
    }

    /// Whether there is a message to display at the given time.
    pub fn has_message_at(&self, now: Instant) -> (res: bool)
        ensures
            res == self@.speaks(now),
    {
        if !self.is_silent_at(now) {
            return true;
        }
        self.server_late_at(now) && now.secs_since(self.last_word_from_server) > 10
    }

    /// Whether there is a message to display.
    ///
    /// There is one for explicit messages or sustained connection problems only.
    pub fn has_message(&self) -> (res: bool)
        ensures
            exists|now: Instant| res == #[trigger] self@.speaks(now),
    {
        self.has_message_at(Instant::now())
    }

    /// Appends how to quit, where that is known.
    fn push_quit_hint(&self, out: &mut String)
        ensures
            final(out)@ == old(out)@ + self@.quit_hint(),
    {
        if self.show_quit_keystroke && !self.escape_key_string.as_str().is_empty() {
            out.push_str(" [To quit: ");
            out.push_str(self.escape_key_string.as_str());
            out.push_str("]");
        }
        assert(out@ =~= old(out)@ + self@.quit_hint());
    }

    /// The notification text at the given time.
    pub fn get_text_at(&self, now: Instant) -> (res: String)
        ensures
            res@ == self@.text(now),
    {
        let time_expired = self.need_countup_at(now);
        let silent = self.is_silent_at(now);
        let mut out = String::new();
        if silent && !time_expired {
            assert(out@ =~= self@.text(now));
            return out;
        }
        let only_reply = self.reply_late_at(now) && !self.server_late_at(now);
        let elapsed: u64 = if only_reply {
            now.secs_since(self.last_acked_state)
        } else {
            now.secs_since(self.last_word_from_server)
        };
        let explanation = if only_reply {
            "reply"
        } else {
            "contact"
        };
        if silent {
            out.push_str("mosh: Last ");
            out.push_str(explanation);
            out.push_str(" ");
            push_decimal(&mut out, elapsed);
            out.push_str(" ago.");
        } else if !time_expired {
            out.push_str("mosh: ");
            out.push_str(self.message.as_str());
        } else {
            out.push_str("mosh: ");
            out.push_str(self.message.as_str());
            out.push_str(" (");
            push_decimal(&mut out, elapsed);
            out.push_str("s without ");
            out.push_str(explanation);
            out.push_str(".)");
        }
        self.push_quit_hint(&mut out);
        assert(out@ =~= self@.text(now));
        out
    }

    /// The notification text.
    pub fn get_text(&self) -> (res: String)
        ensures
            exists|now: Instant| res@ == #[trigger] self@.text(now),
    {
        self.get_text_at(Instant::now())
    }

    /// Renders the notification bar as escape sequences, as of the given time.
    pub fn render_at(&self, now: Instant) -> (res: Option<String>)
        ensures
            match res {
                Some(vt) => self@.speaks(now) && vt@ == self@.bar(now),
                None => !self@.speaks(now),
            },
    {
        if !self.has_message_at(now) {
            return None;
        }
        let text = self.get_text_at(now);
        let mut vt = String::new();
        vt.push_str("\x1b[s");
        vt.push_str("\x1b[1;1H");
        vt.push_str("\x1b[7m");
        let ghost start = vt@;
        let mut n: usize = 0;
        assert(vt@ =~= start + spaces(0));
        while n < BAR_WIDTH
            invariant
                n <= BAR_WIDTH,
                vt@ == start + spaces(n as nat),
            decreases BAR_WIDTH - n,
        {
            vt.push(' ');
            n = n + 1;
            assert(vt@ =~= start + spaces(n as nat));
        }
        vt.push_str("\x1b[1;1H");
        if text.as_str().unicode_len() < BAR_WIDTH {
            vt.push_str(text.as_str());
        } else {
            vt.push_str(text.as_str().substring_char(0, BAR_WIDTH - 1));
        }
        vt.push_str("\x1b[0m");
        vt.push_str("\x1b[u");
        assert(vt@ =~= self@.bar(now));
        Some(vt)
    }

    /// Renders the notification bar as escape sequences, if there is something to display.
    ///
    /// The bar is drawn across the top row of the terminal.
    pub fn render(&self) -> (res: Option<String>)
        ensures
            exists|now: Instant|
                match res {
                    Some(vt) => #[trigger] self@.speaks(now) && vt@ == self@.bar(now),
                    None => !self@.speaks(now),
                },
    {
        self.render_at(Instant::now())
    }
}

impl Default for NotificationEngine {
    fn default() -> (res: Self)
        ensures
            res@ == NotificationView::fresh(res@.last_word_from_server),
    {
        Self::new()
    }
}

/// Where there is something to display, there is a text for it.
pub proof fn speaking_has_text(n: NotificationView, now: Instant)
    requires
        n.speaks(now),
    ensures
        n.text(now).len() > 0,
{
    reveal_strlit("mosh: ");
    reveal_strlit("mosh: Last ");
}

/// Without a message nothing is displayed until the server was silent for more than ten seconds,
/// however late it is.
pub proof fn late_is_silent_at_first(n: NotificationView, now: Instant)
    requires
        n.current_message(now).len() == 0,
    ensures
        n.speaks(now) <==> time::secs_between(n.last_word_from_server, now) > 10,
{
}

/// Once the server was heard and has acknowledged, nothing is late for a while.
pub proof fn contact_ends_lateness(n: NotificationView, heard: Instant, now: Instant)
    requires
        time::millis_between(heard, now) <= SERVER_LATE_MS,
    ensures
        !(NotificationView { last_word_from_server: heard, last_acked_state: heard, ..n }).counts_up(
            now,
        ),
{
}

/// Once an error is overcome, its message expires within a second, and no later than before.
pub proof fn overcome_errors_expire(n: NotificationView, now: Instant)
    requires
        n.message_is_network_error,
    ensures
        n.recovered(now).message_expiration matches Some(end) && end.nanos <= time::later_by(
            now,
            1000,
        ).nanos && (n.message_expiration matches Some(before) ==> end.nanos <= before.nanos),
{
}

/// A second after a network error was overcome its message is gone: while the server is in contact
/// nothing is displayed.
pub proof fn overcome_errors_are_gone(n: NotificationView, cleared: Instant, now: Instant)
    requires
        n.message_is_network_error,
        now.nanos >= time::later_by(cleared, 1000).nanos,
        !n.counts_up(now),
    ensures
        !n.recovered(cleared).speaks(now),
        n.recovered(cleared).text(now) == Seq::<char>::empty(),
{
}

/// A network error that nobody clears is shown for 3.1 seconds and no longer.
pub proof fn errors_expire(n: NotificationView, msg: Seq<char>, set: Instant, now: Instant)
    ensures
        n.failed(msg, set).current_message(now) == if now.nanos < time::later_by(set, 3100).nanos {
            msg
        } else {
            Seq::empty()
        },
{
}

/// A message that is not permanent is shown for a second and no longer; a permanent one stays.
pub proof fn notifications_expire(
    n: NotificationView,
    msg: Seq<char>,
    permanent: bool,
    set: Instant,
    now: Instant,
)
    ensures
        n.notified(msg, permanent, set).current_message(now) == if permanent || now.nanos
            < time::later_by(set, 1000).nanos {
            msg
        } else {
            Seq::empty()
        },
{
}

/// Overcoming a network error leaves any other message alone.
pub proof fn notifications_outlast_errors(
    n: NotificationView,
    msg: Seq<char>,
    permanent: bool,
    set: Instant,
    cleared: Instant,
)
    ensures
        n.notified(msg, permanent, set).recovered(cleared) == n.notified(msg, permanent, set),
{
}

/// The server is late once it was silent for more than six and a half seconds, the reply once nothing
/// was acknowledged for more than ten, both counted in whole milliseconds.
pub proof fn lateness_is_measured(n: NotificationView, now: Instant)
    ensures
        n.server_late(now) <==> now.nanos >= n.last_word_from_server.nanos + 6_501_000_000,
        n.reply_late(now) <==> now.nanos >= n.last_acked_state.nanos + 10_001_000_000,
{
}

/// A message is shown until it expires. Where none is shown, something is displayed once the server
/// was silent for eleven whole seconds.
pub proof fn display_follows_silence(n: NotificationView, now: Instant)
    ensures
        ({
            let over = n.message_expiration is Some && n.message_expiration.unwrap().nanos
                <= now.nanos;
            &&& n.current_message(now) == if over {
                Seq::empty()
            } else {
                n.message
            }
            &&& n.speaks(now) <==> (!over && n.message.len() > 0) || now.nanos
                >= n.last_word_from_server.nanos + 11_000_000_000
        }),
{
}

/// A message lasts one second, unless it is permanent, and a network error 3.1 seconds. One that is
/// overcome ends a second later, or when it would have ended if that is sooner.
pub proof fn messages_last(
    n: NotificationView,
    msg: Seq<char>,
    permanent: bool,
    now: Instant,
)
    requires
        now.nanos + 4_000_000_000 <= u64::MAX,
    ensures
        n.notified(msg, permanent, now).message == msg,
        !n.notified(msg, permanent, now).message_is_network_error,
        n.notified(msg, true, now).message_expiration is None,
        n.notified(msg, false, now).message_expiration == Some(
            Instant { nanos: (now.nanos + 1_000_000_000) as u64 },
        ),
        n.failed(msg, now).message == msg,
        n.failed(msg, now).message_is_network_error,
        n.failed(msg, now).message_expiration == Some(
            Instant { nanos: (now.nanos + 3_100_000_000) as u64 },
        ),
        n.message_is_network_error && n.message_expiration is Some ==> n.recovered(
            now,
        ).message_expiration == Some(
            if n.message_expiration.unwrap().nanos <= now.nanos + 1_000_000_000 {
                n.message_expiration.unwrap()
            } else {
                Instant { nanos: (now.nanos + 1_000_000_000) as u64 }
            },
        ),
        !n.message_is_network_error ==> n.recovered(now) == n,
        n.recovered(now).message == n.message,
{
}

/// What the bar says: nothing while nothing is late and no message is shown; else the message, for
/// how many whole seconds the server was silent, or for how many it has not replied if it was heard
/// in the meantime, and at the end how to quit, where that is known.
pub proof fn text_tells_what_is_missing(n: NotificationView, now: Instant)
    ensures
        ({
            let silent = now.nanos >= n.last_word_from_server.nanos + 6_501_000_000;
            let unanswered = now.nanos >= n.last_acked_state.nanos + 10_001_000_000;
            let message = n.current_message(now);
            let what = if silent {
                "contact"@
            } else {
                "reply"@
            };
            let secs = if silent {
                (now.nanos - n.last_word_from_server.nanos) / 1_000_000_000
            } else {
                (now.nanos - n.last_acked_state.nanos) / 1_000_000_000
            };
            let quit = if n.show_quit_keystroke && n.escape_key_string.len() > 0 {
                " [To quit: "@ + n.escape_key_string + "]"@
            } else {
                seq![]
            };
            &&& !silent && !unanswered && message.len() == 0 ==> n.text(now).len() == 0
            &&& !silent && !unanswered && message.len() > 0 ==> n.text(now) == "mosh: "@ + message
                + quit
            &&& (silent || unanswered) && message.len() == 0 ==> n.text(now) == "mosh: Last "@ + what
                + " "@ + text::decimal(secs as nat) + " ago."@ + quit
            &&& (silent || unanswered) && message.len() > 0 ==> n.text(now) == "mosh: "@ + message
                + " ("@ + text::decimal(secs as nat) + "s without "@ + what + ".)"@ + quit
        }),
{
}

/// The bar shows a blank line of eighty columns and, over it, the text, cut to seventy-nine
/// characters; nothing else in it is text.
pub proof fn bar_shows_text(n: NotificationView, now: Instant)
    requires
        laws::no_escape(n.text(now)),
    ensures
        laws::text_in(laws::Place::Text, n.bar(now)).1 == laws::Place::Text,
        ({
            let shown = laws::text_in(laws::Place::Text, n.bar(now)).0;
            let text = n.text(now);
            let cut = if text.len() <= 79 {
                text
            } else {
                text.take(79)
            };
            &&& shown.len() == 80 + cut.len()
            &&& forall|i: int| 0 <= i < 80 ==> #[trigger] shown[i] == ' '
            &&& shown.skip(80) == cut
        }),
{
    reveal_strlit("\x1b[s");
    reveal_strlit("\x1b[1;1H");
    reveal_strlit("\x1b[7m");
    reveal_strlit("\x1b[0m");
    reveal_strlit("\x1b[u");
    reveal_strlit("\x1b[");
    let none = Seq::<char>::empty();
    let text = n.text(now);
    let shown = if text.len() < BAR_WIDTH {
        text
    } else {
        text.take(BAR_WIDTH - 1)
    };
    let blank = spaces(BAR_WIDTH as nat);
    let at = laws::Place::Text;
    laws::control_has_no_text(seq![], 's');
    laws::control_has_no_text(seq!['1', ';', '1'], 'H');
    laws::control_has_no_text(seq!['7'], 'm');
    laws::control_has_no_text(seq!['0'], 'm');
    laws::control_has_no_text(seq![], 'u');
    assert("\x1b["@ + seq![] + seq!['s'] =~= "\x1b[s"@);
    assert("\x1b["@ + seq!['1', ';', '1'] + seq!['H'] =~= "\x1b[1;1H"@);
    assert("\x1b["@ + seq!['7'] + seq!['m'] =~= "\x1b[7m"@);
    assert("\x1b["@ + seq!['0'] + seq!['m'] =~= "\x1b[0m"@);
    assert("\x1b["@ + seq![] + seq!['u'] =~= "\x1b[u"@);
    assert(laws::no_escape(shown)) by {
        assert forall|i: int| 0 <= i < shown.len() implies #[trigger] shown[i] as int != 0x1b by {
            assert(shown[i] == text[i]);
        }
    }
    laws::plain_has_text(shown);
    laws::plain_has_text(blank);
    let a = "\x1b[s"@;
    let b = a + "\x1b[1;1H"@;
    let c = b + "\x1b[7m"@;
    let d = c + blank;
    let e = d + "\x1b[1;1H"@;
    let f = e + shown;
    let g = f + "\x1b[0m"@;
    laws::text_in_concat(at, a, "\x1b[1;1H"@);
    laws::text_in_concat(at, b, "\x1b[7m"@);
    laws::text_in_concat(at, c, blank);
    laws::text_in_concat(at, d, "\x1b[1;1H"@);
    laws::text_in_concat(at, e, shown);
    laws::text_in_concat(at, f, "\x1b[0m"@);
    laws::text_in_concat(at, g, "\x1b[u"@);
    assert(none + none =~= none);
    assert(none + blank =~= blank);
    assert(blank + none =~= blank);
    assert((blank + shown) + none =~= blank + shown);
    assert((blank + shown).skip(80) =~= shown);
    if text.len() == 79 {
        assert(text.take(79) =~= text);
    }
}

/// An engine starts as if it had just heard from the server, with nothing to say.
pub proof fn notifications_start_silent(now: Instant)
    ensures
        ({
            let n = NotificationView::fresh(now);
            &&& n.last_word_from_server == now && n.last_acked_state == now
            &&& n.message.len() == 0 && n.message_expiration is None
            &&& !n.message_is_network_error
            &&& n.show_quit_keystroke && n.escape_key_string.len() == 0
            &&& !n.speaks(now) && n.text(now).len() == 0
        }),
{
}

/// The bar is drawn in the first row in reverse video, blank first and the text over it; the cursor is
/// kept before and brought back after it.
pub proof fn bar_is_drawn_in_reverse(n: NotificationView, now: Instant)
    ensures
        ({
            let text = n.text(now);
            let cut = if text.len() <= 79 {
                text
            } else {
                text.take(79)
            };
            n.bar(now) == "\x1b[s"@ + "\x1b[1;1H"@ + "\x1b[7m"@ + Seq::new(80, |i: int| ' ')
                + "\x1b[1;1H"@ + cut + "\x1b[0m"@ + "\x1b[u"@
        }),
{
    let text = n.text(now);
    if text.len() >= 80 {
    } else if text.len() == 79 {
        assert(text.take(79) =~= text);
    }
    assert(spaces(BAR_WIDTH as nat) =~= Seq::new(80, |i: int| ' '));
}

} // verus!
