//! The lock session: the keys that are typed, the state they lead to, and
//! what the surfaces are told of it.
//!
//! A session is in one of three states. It starts in `Init`; typing leads
//! to `Input`; a password that was not accepted leads to `Fail`, which
//! lasts until something is typed again. The state belongs to the session
//! as a whole: every surface shows the same colour.

use vstd::prelude::*;
use vstd::string::{StrSliceExecFns, StringExecFns};
use crate::config::{Colors, Config};
use crate::lock::input::LockInput;
use crate::lock::output::{with_state, OutputRegistry};
use crate::lock::surface::SurfaceState;
use crate::lock::text::{mask_len, password_text, MASK_LIMIT};

pub mod canvas;
pub mod input;
pub mod output;
pub mod surface;
pub mod text;

verus! {

/// `String::pop` of the standard library removes the last character of
/// the string and returns it, or returns `None` where the string is empty.
pub assume_specification[ String::pop ](s: &mut String) -> (last: Option<char>)
    ensures
        old(s)@.len() == 0 ==> last is None && final(s)@ == old(s)@,
        old(s)@.len() > 0 ==> last == Some(old(s)@.last()) && final(s)@ == old(s)@.drop_last(),
;

/// `String::clear` of the standard library removes all characters of the
/// string.
pub assume_specification[ String::clear ](s: &mut String)
    ensures
        final(s)@ == Seq::<char>::empty(),
;

/// The state of a lock session.
#[derive(Copy, Clone, PartialEq, Eq, Structural, Debug)]
pub enum LockState {
    /// Nothing has been typed.
    Init,
    /// A password is being typed.
    Input,
    /// The password that was entered last was not accepted.
    Fail,
}

impl LockState {
    /// The colour in which the surfaces show this state.
    pub open spec fn color(self, colors: Colors) -> u32 {
        match self {
            LockState::Init => colors.init_color,
            LockState::Input => colors.input_color,
            LockState::Fail => colors.fail_color,
        }
    }

    /// The colour in which the surfaces show this state.
    pub fn map_to_color(&self, config: &Config) -> (out: u32)
        ensures
            out == self.color(config.colors),
    {
        match self {
            LockState::Init => config.colors.init_color,
            LockState::Input => config.colors.input_color,
            LockState::Fail => config.colors.fail_color,
        }
    }
}

/// The key symbol of the return key.
pub const KEY_RETURN: u32 = 0xff0d;

/// The key symbol of the enter key of the keypad.
pub const KEY_KP_ENTER: u32 = 0xff8d;

/// The key symbol of the backspace key.
pub const KEY_BACKSPACE: u32 = 0xff08;

/// The key symbol of the delete key.
pub const KEY_DELETE: u32 = 0xffff;

/// The key symbol of the escape key.
pub const KEY_ESCAPE: u32 = 0xff1b;

/// What a key means to the session.
#[derive(Copy, Clone, PartialEq, Eq, Structural, Debug)]
pub enum Key {
    /// Return or keypad enter: the password is to be checked.
    Enter,
    /// Backspace or delete: the last character goes.
    Erase,
    /// Escape: the whole password goes.
    Escape,
    /// Any other key: its text, if it has one, is appended.
    Other,
}

impl Key {
    /// What the key with the symbol `keysym` means.
    pub open spec fn of(keysym: u32) -> Key {
        if keysym == KEY_KP_ENTER || keysym == KEY_RETURN {
            Key::Enter
        } else if keysym == KEY_DELETE || keysym == KEY_BACKSPACE {
            Key::Erase
        } else if keysym == KEY_ESCAPE {
            Key::Escape
        } else {
            Key::Other
        }
    }

    /// What the key with the symbol `keysym` means.
    pub fn classify(keysym: u32) -> (key: Key)
        ensures
            key == Key::of(keysym),
    {
        if keysym == KEY_KP_ENTER || keysym == KEY_RETURN {
            Key::Enter
        } else if keysym == KEY_DELETE || keysym == KEY_BACKSPACE {
            Key::Erase
        } else if keysym == KEY_ESCAPE {
            Key::Escape
        } else {
            Key::Other
        }
    }
}

/// Why a password was not accepted.
#[derive(Copy, Clone, PartialEq, Eq, Structural, Debug)]
pub enum AuthError {
    /// The password is not the user's.
    Rejected,
    /// The password could not be checked.
    Unavailable,
}

/// What follows from the check of a password.
#[derive(Debug)]
pub enum Verdict {
    /// The password was accepted: the session ends and the screen is
    /// unlocked.
    Unlock,
    /// The password was not accepted: the screen stays locked, and the
    /// command, if there is one, is to be run.
    Denied(Option<String>),
}

/// The number of characters of a password as the surfaces are told it.
pub open spec fn count(len: nat) -> u32 {
    if len <= u32::MAX {
        len as u32
    } else {
        u32::MAX
    }
}

/// What a session holds, as plain values.
pub struct SessionState {
    /// The state.
    pub state: LockState,
    /// The password typed so far.
    pub password: Seq<char>,
}

impl SessionState {
    /// The session at its start.
    pub open spec fn initial() -> SessionState {
        SessionState { state: LockState::Init, password: Seq::empty() }
    }

    /// The password after a key with the given text. Enter leaves it as it
    /// is.
    pub open spec fn edited(self, key: Key, text: Option<Seq<char>>) -> Seq<char> {
        match key {
            Key::Enter => self.password,
            Key::Erase => if self.password.len() > 0 {
                self.password.drop_last()
            } else {
                self.password
            },
            Key::Escape => Seq::empty(),
            Key::Other => match text {
                Some(t) => self.password + t,
                None => self.password,
            },
        }
    }

    /// The session after a key other than enter: with a password the state
    /// is `Input`; without one it is `Init`, unless it was `Fail`, which
    /// stays.
    pub open spec fn typed(self, key: Key, text: Option<Seq<char>>) -> SessionState {
        let password = self.edited(key, text);
        SessionState {
            state: if password.len() > 0 {
                LockState::Input
            } else if self.state == LockState::Fail {
                LockState::Fail
            } else {
                LockState::Init
            },
            password,
        }
    }

    /// Whether the surfaces are told of the session's state after a key
    /// other than enter: always, but where the state stays `Fail`.
    pub open spec fn announces(self, key: Key, text: Option<Seq<char>>) -> bool {
        self.typed(key, text).state != LockState::Fail
    }

    /// The session after a password was not accepted.
    pub open spec fn denied(self) -> SessionState {
        SessionState { state: LockState::Fail, password: Seq::empty() }
    }

    /// The session after the characters were typed one by one, each with a
    /// key other than enter, backspace, delete and escape.
    pub open spec fn typed_all(self, chars: Seq<char>) -> SessionState
        decreases chars.len(),
    {
        if chars.len() == 0 {
            self
        } else {
            self.typed_all(chars.drop_last()).typed(Key::Other, Some(seq![chars.last()]))
        }
    }
}

/// The text of a key event as a sequence of characters.
pub open spec fn text_of(utf8: Option<&str>) -> Option<Seq<char>> {
    match utf8 {
        Some(t) => Some(t@),
        None => None,
    }
}

/// The text of a queued key event as a sequence of characters.
pub open spec fn queued_text(utf8: Option<String>) -> Option<Seq<char>> {
    match utf8 {
        Some(t) => Some(t@),
        None => None,
    }
}

/// The surfaces after the session `s` took a key other than enter: told
/// the new state's colour and the password's length, but where the state
/// stays `Fail`.
pub open spec fn shown(
    s: SessionState,
    key: Key,
    text: Option<Seq<char>>,
    surfaces: Seq<(u32, SurfaceState)>,
    colors: Colors,
) -> Seq<(u32, SurfaceState)> {
    if s.announces(key, text) {
        with_state(
            surfaces,
            s.typed(key, text).state.color(colors),
            count(s.typed(key, text).password.len()),
        )
    } else {
        surfaces
    }
}

/// What taking key events out of the queue leads to.
pub struct Drained {
    /// The session afterwards.
    pub session: SessionState,
    /// The surfaces afterwards.
    pub surfaces: Seq<(u32, SurfaceState)>,
    /// The events that are left in the queue.
    pub left: Seq<(u32, Option<String>)>,
    /// The password is to be checked now.
    pub check: bool,
}

/// What taking the events out of the queue leads to, oldest first, up to
/// and with the first enter, or to the end where there is none.
pub open spec fn drained(
    s: SessionState,
    surfaces: Seq<(u32, SurfaceState)>,
    events: Seq<(u32, Option<String>)>,
    colors: Colors,
) -> Drained
    decreases events.len(),
{
    if events.len() == 0 {
        Drained { session: s, surfaces, left: events, check: false }
    } else {
        let key = Key::of(events[0].0);
        let text = queued_text(events[0].1);
        if key == Key::Enter {
            Drained { session: s, surfaces, left: events.skip(1), check: true }
        } else {
            drained(s.typed(key, text), shown(s, key, text, surfaces, colors), events.skip(1), colors)
        }
    }
}

/// A lock session.
pub struct Session {
    state: LockState,
    password: String,
}

impl View for Session {
    type V = SessionState;

    closed spec fn view(&self) -> SessionState {
        SessionState { state: self.state, password: self.password@ }
    }
}

impl Session {
    /// A session at its start: nothing typed, state `Init`.
    pub fn new() -> (out: Session)
        ensures
            out@ == SessionState::initial(),
    {
        Session { state: LockState::Init, password: String::new() }
    }

    /// The state of the session.
    pub fn state(&self) -> (out: LockState)
        ensures
            out == self@.state,
    {
        self.state
    }

    /// The password typed so far.
    pub fn password(&self) -> (out: &str)
        ensures
            out@ == self@.password,
    {
        self.password.as_str()
    }

    /// The number of characters typed so far, as the surfaces are told it.
    pub fn chars(&self) -> (out: u32)
        ensures
            out == count(self@.password.len()),
    {
        let len = self.password.as_str().unicode_len();
        if len <= u32::MAX as usize {
            len as u32
        } else {
            u32::MAX
        }
    }

    /// Takes a key event: the key's symbol and the text that the key
    /// produced, if any.
    ///
    /// Return and keypad enter change nothing, and the result is `true`:
    /// the password is to be checked now, and `conclude` is to be told
    /// what came of it. Every other key edits the password: backspace and
    /// delete take the last character away, escape takes all away, and any
    /// other key appends its text. The state follows the password, and
    /// every surface is told the state's colour and the password's length,
    /// but where the state stays `Fail`.
    pub fn handle_key(
        &mut self,
        keysym: u32,
        utf8: Option<&str>,
        config: &Config,
        surfaces: &mut OutputRegistry,
    ) -> (check: bool)
        requires
            old(surfaces).wf(),
        ensures
            final(surfaces).wf(),
            check == (Key::of(keysym) == Key::Enter),
            check ==> final(self)@ == old(self)@ && final(surfaces)@ == old(surfaces)@,
            !check ==> final(self)@ == old(self)@.typed(Key::of(keysym), text_of(utf8)),
            !check ==> final(surfaces)@ == shown(
                old(self)@,
                Key::of(keysym),
                text_of(utf8),
                old(surfaces)@,
                config.colors,
            ),
    {
        match Key::classify(keysym) {
            Key::Enter => {
                return true;
            },
            Key::Erase => {
                self.password.pop();
            },
            Key::Escape => {
                self.password.clear();
            },
            Key::Other => {
                if let Some(text) = utf8 {
                    self.password.append(text);
                }
            },
        }
        if self.password.as_str().is_empty() {
            if self.state != LockState::Fail {
                self.state = LockState::Init;
                surfaces.set_state(self.state.map_to_color(config), 0);
            }
        } else {
            self.state = LockState::Input;
            let num = self.chars();
            surfaces.set_state(self.state.map_to_color(config), num);
        }
        false
    }

    /// Takes the key events out of the queue, oldest first, and handles
    /// each as `handle_key` does. It stops after the first return or
    /// keypad enter, with the result `true`: the password is to be checked
    /// now, and the events behind that key stay in the queue. Else it
    /// stops when the queue is empty, with the result `false`.
    pub fn drain(
        &mut self,
        input: &mut LockInput,
        config: &Config,
        surfaces: &mut OutputRegistry,
    ) -> (check: bool)
        requires
            old(surfaces).wf(),
        ensures
            final(surfaces).wf(),
            final(self)@ == drained(old(self)@, old(surfaces)@, old(input)@, config.colors).session,
            final(surfaces)@ == drained(
                old(self)@,
                old(surfaces)@,
                old(input)@,
                config.colors,
            ).surfaces,
            final(input)@ == drained(old(self)@, old(surfaces)@, old(input)@, config.colors).left,
            check == drained(old(self)@, old(surfaces)@, old(input)@, config.colors).check,
    {
        loop
            invariant
                surfaces.wf(),
                drained(self@, surfaces@, input@, config.colors) == drained(
                    old(self)@,
                    old(surfaces)@,
                    old(input)@,
                    config.colors,
                ),
            decreases input@.len(),
        {
            match input.pop() {
                None => {
                    return false;
                },
                Some((keysym, utf8)) => {
                    let text = match &utf8 {
                        Some(t) => Some(t.as_str()),
                        None => None,
                    };
                    assert(text_of(text) == queued_text(utf8));
                    if self.handle_key(keysym, text, config, surfaces) {
                        return true;
                    }
                },
            }
        }
    }

    /// Takes what came of the check of the password.
    ///
    /// An accepted password unlocks, and nothing changes. Any error, of
    /// whatever kind, leaves the screen locked: the state is `Fail`, the
    /// password is empty, every surface is told so, and the result holds
    /// the command that is to be run after a failure, if the configuration
    /// has one.
    pub fn conclude(
        &mut self,
        checked: Result<(), AuthError>,
        config: &Config,
        surfaces: &mut OutputRegistry,
    ) -> (out: Verdict)
        requires
            old(surfaces).wf(),
        ensures
            final(surfaces).wf(),
            checked is Ok ==> out is Unlock && final(self)@ == old(self)@ && final(surfaces)@ == old(
                surfaces,
            )@,
            checked is Err ==> out == Verdict::Denied(config.fail_command) && final(self)@ == old(
                self,
            )@.denied() && final(surfaces)@ == with_state(
                old(surfaces)@,
                config.colors.fail_color,
                0,
            ),
    {
        match checked {
            Ok(()) => Verdict::Unlock,
            Err(_) => {
                self.state = LockState::Fail;
                surfaces.set_state(self.state.map_to_color(config), 0);
                self.password.clear();
                Verdict::Denied(config.fail_command.clone())
            },
        }
    }
}

/// Characters typed one by one are all in the password, in the order in
/// which they were typed: after `chars.len()` keys without a deletion the
/// password is longer by that many characters, whatever the characters
/// are, and the state is `Input` once one was typed.
pub proof fn typing_appends_each_character(s: SessionState, chars: Seq<char>)
    ensures
        s.typed_all(chars).password == s.password + chars,
        s.typed_all(chars).password.len() == s.password.len() + chars.len(),
        chars.len() > 0 ==> s.typed_all(chars).state == LockState::Input,
    decreases chars.len(),
{
    if chars.len() > 0 {
        typing_appends_each_character(s, chars.drop_last());
        assert(s.password + chars =~= (s.password + chars.drop_last()) + seq![chars.last()]);
    } else {
        assert(s.password + chars =~= s.password);
    }
}

/// Backspace takes exactly one character away, the last one, and delete
/// does the same; on an empty password they change nothing.
pub proof fn erase_removes_one_character(s: SessionState, text: Option<Seq<char>>)
    ensures
        s.password.len() > 0 ==> s.typed(Key::Erase, text).password == s.password.drop_last()
            && s.typed(Key::Erase, text).password.len() == s.password.len() - 1,
        s.password.len() == 0 ==> s.typed(Key::Erase, text).password == s.password,
{
}

/// Escape empties the password. The state is `Init` afterwards, unless it
/// was `Fail`: then it stays `Fail`.
pub proof fn escape_clears_the_password(s: SessionState, text: Option<Seq<char>>)
    ensures
        s.typed(Key::Escape, text).password.len() == 0,
        s.state != LockState::Fail ==> s.typed(Key::Escape, text).state == LockState::Init,
        s.state == LockState::Fail ==> s.typed(Key::Escape, text).state == LockState::Fail,
{
}

/// `Fail` lasts only while the password is empty: one character typed
/// leads to `Input`.
pub proof fn typing_leaves_fail(s: SessionState, c: char)
    requires
        s.state == LockState::Fail,
        s.password.len() == 0,
    ensures
        s.typed(Key::Other, Some(seq![c])).state == LockState::Input,
        s.typed(Key::Other, Some(seq![c])).password == seq![c],
{
    assert(s.password + seq![c] =~= seq![c]);
}

/// A password that was not accepted leaves an empty password and the state
/// `Fail`, whatever the session held before.
pub proof fn denial_clears_and_fails(s: SessionState)
    ensures
        s.denied().password.len() == 0,
        s.denied().state == LockState::Fail,
{
}

/// The mask that is shown for a password of `len` characters is as long as
/// the password, up to the limit, and no longer than the limit.
pub proof fn mask_is_password_length_up_to_limit(len: nat)
    ensures
        mask_len(count(len) as int) == if len < MASK_LIMIT {
            len as int
        } else {
            MASK_LIMIT as int
        },
        password_text(count(len) as int).len() == "pwd: "@.len() + mask_len(count(len) as int),
{
}

/// What came of an attempt to flush the display connection or to wait on
/// it.
#[derive(Copy, Clone, PartialEq, Eq, Structural, Debug)]
pub enum Attempt {
    /// The attempt succeeded.
    Done,
    /// A signal interrupted the attempt.
    Interrupted,
    /// The attempt failed for any other reason.
    Failed,
}

/// What the session's loop does after an attempt.
#[derive(Copy, Clone, PartialEq, Eq, Structural, Debug)]
pub enum Step {
    /// Go on with the loop.
    Proceed,
    /// Make the same attempt again.
    Retry,
    /// End the session with an error.
    Abort,
}

/// Decides what follows an attempt on the display connection: an
/// interrupted one is made again, as often as it takes; any other failure
/// ends the session.
pub fn retry_on_interrupt(attempt: Attempt) -> (step: Step)
    ensures
        step == match attempt {
            Attempt::Done => Step::Proceed,
            Attempt::Interrupted => Step::Retry,
            Attempt::Failed => Step::Abort,
        },
{
    match attempt {
        Attempt::Done => Step::Proceed,
        Attempt::Interrupted => Step::Retry,
        Attempt::Failed => Step::Abort,
    }
}

/// Seconds from `now`, counted in seconds since the epoch, to the start of
/// the next minute: the delay after which the clock's timer fires first.
/// It fires every sixty seconds after that.
pub fn seconds_to_next_minute(now: u64) -> (delay: u64)
    ensures
        delay == 60 - now % 60,
        1 <= delay <= 60,
        (now + delay) % 60 == 0,
{
    60 - now % 60
}

} // verus!
