use vstd::prelude::*;

use crate::content::TypingFileDisplay;
use crate::text::{decimal_of, push_decimal};

verus! {

/// How many elapsed seconds end a session.
pub const SESSION_SECS_LIMIT: u64 = 60;

/// How many seconds one timer tick adds.
pub const TICK_SECS: u64 = 1;

/// The session state machine: no session yet (`Init`), a running session with
/// its data (`Initialized`), or the menu phase, reachable but unused.
/// Every mutator is phase-gated: outside the phase where it applies it
/// leaves the state unchanged rather than failing.
#[derive(Clone)]
pub enum AppState {
    Init,
    Initialized {
        duration: u64,
        counter_tick: u64,
        typed_text: String,
        to_type: String,
        words_count: u32,
        typing_information: TypingFileDisplay,
    },
    Menu,
}

/// One timer tick: a session's elapsed seconds grow by the tick unit; any
/// other phase is left unchanged.
pub open spec fn spec_tick(s: AppState) -> AppState {
    match s {
        AppState::Initialized {
            duration,
            counter_tick,
            typed_text,
            to_type,
            words_count,
            typing_information,
        } => AppState::Initialized {
            duration: (duration + TICK_SECS) as u64,
            counter_tick,
            typed_text,
            to_type,
            words_count,
            typing_information,
        },
        _ => s,
    }
}

/// `n` timer ticks in a row.
pub open spec fn spec_tick_n(s: AppState, n: nat) -> AppState
    decreases n,
{
    if n == 0 {
        s
    } else {
        spec_tick(spec_tick_n(s, (n - 1) as nat))
    }
}

/// Advancing the timer `n` times adds exactly `n` tick units to the elapsed
/// seconds and touches nothing else of the session.
pub proof fn lemma_tick_n_duration(s: AppState, n: nat)
    requires
        s is Initialized,
        s->duration + n * TICK_SECS <= u64::MAX,
    ensures
        spec_tick_n(s, n) is Initialized,
        spec_tick_n(s, n)->duration == s->duration + n * TICK_SECS,
        spec_tick_n(s, n)->counter_tick == s->counter_tick,
        spec_tick_n(s, n)->typed_text == s->typed_text,
        spec_tick_n(s, n)->to_type == s->to_type,
        spec_tick_n(s, n)->words_count == s->words_count,
        spec_tick_n(s, n)->typing_information == s->typing_information,
    decreases n,
{
    if n > 0 {
        assert((n - 1) * TICK_SECS == n * TICK_SECS - TICK_SECS) by (nonlinear_arith);
        lemma_tick_n_duration(s, (n - 1) as nat);
    }
}

/// From a fresh session, the time expires exactly at and after the
/// configured ceiling of timer ticks, never before.
pub proof fn lemma_time_expires_at_ceiling(s: AppState, n: nat)
    requires
        s is Initialized,
        s->duration == 0,
        n <= u64::MAX,
    ensures
        (spec_tick_n(s, n)->duration >= SESSION_SECS_LIMIT) <==> n >= SESSION_SECS_LIMIT,
{
    lemma_tick_n_duration(s, n);
}

/// Deleting the last character: identity on an empty text.
pub open spec fn spec_delete_last(t: Seq<char>) -> Seq<char> {
    if t.len() == 0 {
        t
    } else {
        t.drop_last()
    }
}

/// Appending a character and then deleting the last character restores the
/// typed text, whatever was typed before and whatever the character is.
pub proof fn lemma_append_then_delete_roundtrip(t: Seq<char>, c: char)
    ensures
        spec_delete_last(t.push(c)) == t,
{
    assert(t.push(c).drop_last() =~= t);
}

/// Texts of different lengths never match: a proper prefix or a proper
/// extension of the target never completes it.
pub proof fn lemma_length_differs_incomplete(t: Seq<char>, g: Seq<char>)
    requires
        t.len() != g.len(),
    ensures
        t != g,
{
}

/// The session report: guarded when no time has elapsed, otherwise the
/// words-per-minute rate, sixty times the word count divided by the elapsed
/// seconds, rounded down.
pub open spec fn completion_message(words_count: u32, secs: u64) -> Seq<char> {
    if secs == 0 {
        "Finished! Result not available"@
    } else {
        "Finished! Your speed is "@ + decimal_of((60 * words_count as int / secs as int) as nat)
            + " WPM"@
    }
}


/// The append-one-character transition: phase-gated on a running session.
pub open spec fn adds_char(pre: AppState, post: AppState, c: char) -> bool {
    &&& pre is Initialized ==> {
        &&& post is Initialized
        &&& post->typed_text@ == pre->typed_text@.push(c)
        &&& post->duration == pre->duration
        &&& post->counter_tick == pre->counter_tick
        &&& post->to_type == pre->to_type
        &&& post->words_count == pre->words_count
        &&& post->typing_information == pre->typing_information
    }
    &&& !(pre is Initialized) ==> post == pre
}

/// The delete-last-character transition: phase-gated on a running session.
pub open spec fn removes_char(pre: AppState, post: AppState) -> bool {
    &&& pre is Initialized ==> {
        &&& post is Initialized
        &&& post->typed_text@ == spec_delete_last(pre->typed_text@)
        &&& post->duration == pre->duration
        &&& post->counter_tick == pre->counter_tick
        &&& post->to_type == pre->to_type
        &&& post->words_count == pre->words_count
        &&& post->typing_information == pre->typing_information
    }
    &&& !(pre is Initialized) ==> post == pre
}

/// The replace-target-text transition: phase-gated on a running session.
pub open spec fn sets_to_type(pre: AppState, post: AppState, t: Seq<char>) -> bool {
    &&& pre is Initialized ==> {
        &&& post is Initialized
        &&& post->to_type@ == t
        &&& post->duration == pre->duration
        &&& post->counter_tick == pre->counter_tick
        &&& post->typed_text == pre->typed_text
        &&& post->words_count == pre->words_count
        &&& post->typing_information == pre->typing_information
    }
    &&& !(pre is Initialized) ==> post == pre
}

/// The replace-exercise-information transition: phase-gated on a running
/// session.
pub open spec fn sets_typing_information(
    pre: AppState,
    post: AppState,
    info: TypingFileDisplay,
) -> bool {
    &&& pre is Initialized ==> {
        &&& post is Initialized
        &&& post->typing_information == info
        &&& post->duration == pre->duration
        &&& post->counter_tick == pre->counter_tick
        &&& post->typed_text == pre->typed_text
        &&& post->to_type == pre->to_type
        &&& post->words_count == pre->words_count
    }
    &&& !(pre is Initialized) ==> post == pre
}

/// The replace-word-count transition: phase-gated on a running session.
pub open spec fn sets_words_count(pre: AppState, post: AppState, wc: u32) -> bool {
    &&& pre is Initialized ==> {
        &&& post is Initialized
        &&& post->words_count == wc
        &&& post->duration == pre->duration
        &&& post->counter_tick == pre->counter_tick
        &&& post->typed_text == pre->typed_text
        &&& post->to_type == pre->to_type
        &&& post->typing_information == pre->typing_information
    }
    &&& !(pre is Initialized) ==> post == pre
}

/// The time-up notice transition: phase-gated on a running session.
pub open spec fn sets_message_timeup(pre: AppState, post: AppState) -> bool {
    &&& pre is Initialized ==> {
        &&& post is Initialized
        &&& post->to_type@ == "Time is up!"@
        &&& post->duration == pre->duration
        &&& post->counter_tick == pre->counter_tick
        &&& post->typed_text == pre->typed_text
        &&& post->words_count == pre->words_count
        &&& post->typing_information == pre->typing_information
    }
    &&& !(pre is Initialized) ==> post == pre
}

/// The session-report transition: phase-gated on a running session.
pub open spec fn sets_message_finished(pre: AppState, post: AppState) -> bool {
    &&& pre is Initialized ==> {
        &&& post is Initialized
        &&& post->to_type@ == completion_message(pre->words_count, pre->duration)
        &&& post->duration == pre->duration
        &&& post->counter_tick == pre->counter_tick
        &&& post->typed_text == pre->typed_text
        &&& post->words_count == pre->words_count
        &&& post->typing_information == pre->typing_information
    }
    &&& !(pre is Initialized) ==> post == pre
}

impl AppState {
    /// A fresh session: nothing typed, nothing to type, no time elapsed.
    pub fn initialized() -> (r: AppState)
        ensures
            r is Initialized,
            r->duration == 0,
            r->counter_tick == 0,
            r->typed_text@ == Seq::<char>::empty(),
            r->to_type@ == Seq::<char>::empty(),
            r->words_count == 0,
            r->typing_information.from@ == Seq::<char>::empty(),
            r->typing_information.content@ == Seq::<char>::empty(),
            r->typing_information.url@ == Seq::<char>::empty(),
            r->typing_information.words_count == 0,
    {
        let typing_information = TypingFileDisplay {
            from: String::new(),
            content: String::new(),
            url: String::new(),
            words_count: 0,
        };
        AppState::Initialized {
            duration: 0,
            counter_tick: 0,
            typed_text: String::new(),
            to_type: String::new(),
            words_count: 0,
            typing_information,
        }
    }

    /// Whether a session is running.
    pub fn is_initialized(&self) -> (r: bool)
        ensures
            r == (self is Initialized),
    {
        matches!(self, AppState::Initialized { .. })
    }

    /// The tick counter of the session, or nothing outside a session.
    pub fn count_tick(&self) -> (r: Option<u64>)
        ensures
            r == if self is Initialized {
                Some(self->counter_tick)
            } else {
                None::<u64>
            },
    {
        match self {
            AppState::Initialized { counter_tick, .. } => Some(*counter_tick),
            _ => None,
        }
    }

    /// One timer tick: adds the tick unit to the elapsed seconds of a
    /// session; a no-op outside a session.
    pub fn increase_duaration_tick(&mut self)
        requires
            (*old(self)) is Initialized ==> old(self)->duration + TICK_SECS <= u64::MAX,
        ensures
            *final(self) == spec_tick(*old(self)),
    {
        match self {
            AppState::Initialized { duration, .. } => {
                *duration = *duration + TICK_SECS;
            },
            _ => {},
        }
    }

    /// The elapsed seconds of the session, or nothing outside a session.
    pub fn duration(&self) -> (r: Option<u64>)
        ensures
            r == if self is Initialized {
                Some(self->duration)
            } else {
                None::<u64>
            },
    {
        match self {
            AppState::Initialized { duration, .. } => Some(*duration),
            _ => None,
        }
    }

    /// Whether the typed text equals the target text exactly, character for
    /// character; false outside a session.
    pub fn is_finished(&self) -> (r: bool)
        ensures
            r == (self is Initialized && self->typed_text@ == self->to_type@),
    {
        match self {
            AppState::Initialized { typed_text, to_type, .. } => *typed_text == *to_type,
            _ => false,
        }
    }

    /// Whether the elapsed seconds have reached the session limit; false
    /// outside a session.
    pub fn is_time_over(&self) -> (r: bool)
        ensures
            r == (self is Initialized && self->duration >= SESSION_SECS_LIMIT),
    {
        match self {
            AppState::Initialized { duration, .. } => *duration >= SESSION_SECS_LIMIT,
            _ => false,
        }
    }

    /// A copy of the typed text, or nothing outside a session.
    pub fn typed_text(&self) -> (r: Option<String>)
        ensures
            match r {
                Some(t) => self is Initialized && t@ == self->typed_text@,
                None => !(self is Initialized),
            },
    {
        match self {
            AppState::Initialized { typed_text, .. } => Some(typed_text.clone()),
            _ => None,
        }
    }

    /// The target text cut at every slash, for line-wise display, or nothing
    /// outside a session.
    pub fn to_type(&self) -> (r: Option<Vec<String>>)
        ensures
            match r {
                Some(v) => self is Initialized && v@.map_values(|p: String| p@)
                    == crate::text::split_on(self->to_type@, '/'),
                None => !(self is Initialized),
            },
    {
        match self {
            AppState::Initialized { to_type, .. } => Some(
                crate::text::split_char(to_type.as_str(), '/'),
            ),
            _ => None,
        }
    }

    /// Replaces the target text of a session; a no-op outside a session.
    pub fn set_to_type(&mut self, to_type: String)
        ensures
            sets_to_type(*old(self), *final(self), to_type@),
    {
        match self {
            AppState::Initialized { to_type: slot, .. } => {
                *slot = to_type;
            },
            _ => {},
        }
    }

    /// A copy of the exercise information of the session, or nothing outside
    /// a session.
    pub fn typing_information(&self) -> (r: Option<TypingFileDisplay>)
        ensures
            match r {
                Some(t) => {
                    &&& self is Initialized
                    &&& t.from@ == self->typing_information.from@
                    &&& t.content@ == self->typing_information.content@
                    &&& t.url@ == self->typing_information.url@
                    &&& t.words_count == self->typing_information.words_count
                },
                None => !(self is Initialized),
            },
    {
        match self {
            AppState::Initialized { typing_information, .. } => Some(
                typing_information.duplicate(),
            ),
            _ => None,
        }
    }

    /// Replaces the exercise information of a session; a no-op outside a
    /// session.
    pub fn set_typing_information(&mut self, typing_information: TypingFileDisplay)
        ensures
            sets_typing_information(*old(self), *final(self), typing_information),
    {
        match self {
            AppState::Initialized { typing_information: slot, .. } => {
                *slot = typing_information;
            },
            _ => {},
        }
    }

    /// Appends one character to the typed text of a session; a no-op outside
    /// a session.
    pub fn add_char(&mut self, c: &char)
        ensures
            adds_char(*old(self), *final(self), *c),
    {
        match self {
            AppState::Initialized { typed_text, .. } => {
                crate::text::push_char(typed_text, *c);
            },
            _ => {},
        }
    }

    /// Deletes the last character of the typed text of a session; a no-op on
    /// an empty text and outside a session.
    pub fn remove_char(&mut self)
        ensures
            removes_char(*old(self), *final(self)),
    {
        match self {
            AppState::Initialized { typed_text, .. } => {
                crate::text::pop_char(typed_text);
            },
            _ => {},
        }
    }

    /// Replaces the target text with the time-up notice; a no-op outside a
    /// session.
    pub fn set_message_timeup(&mut self)
        ensures
            sets_message_timeup(*old(self), *final(self)),
    {
        match self {
            AppState::Initialized { to_type, .. } => {
                *to_type = "Time is up!".to_owned();
            },
            _ => {},
        }
    }

    /// Replaces the target text with the session report: the words-per-minute
    /// rate, or the guarded notice when no time has elapsed. A no-op outside
    /// a session.
    pub fn set_message_finished(&mut self)
        ensures
            sets_message_finished(*old(self), *final(self)),
    {
        match self {
            AppState::Initialized { to_type, duration, words_count, .. } => {
                if *duration == 0 {
                    *to_type = "Finished! Result not available".to_owned();
                } else {
                    let wpm: u64 = 60 * (*words_count as u64) / *duration;
                    let mut message = "Finished! Your speed is ".to_owned();
                    push_decimal(&mut message, wpm);
                    message.append(" WPM");
                    proof {
                        assert(message@ =~= completion_message(*words_count, *duration));
                    }
                    *to_type = message;
                }
            },
            _ => {},
        }
    }

    /// Resets the elapsed seconds of a session; a no-op outside a session.
    pub fn stop_timer(&mut self)
        ensures
            (*old(self)) is Initialized ==> {
                &&& *final(self) is Initialized
                &&& final(self)->duration == 0
                &&& final(self)->counter_tick == old(self)->counter_tick
                &&& final(self)->typed_text == old(self)->typed_text
                &&& final(self)->to_type == old(self)->to_type
                &&& final(self)->words_count == old(self)->words_count
                &&& final(self)->typing_information == old(self)->typing_information
            },
            !((*old(self)) is Initialized) ==> *final(self) == *old(self),
    {
        match self {
            AppState::Initialized { duration, .. } => {
                *duration = 0;
            },
            _ => {},
        }
    }

    /// Replaces the word count of a session; a no-op outside a session.
    pub fn set_words_count(&mut self, wc: u32)
        ensures
            sets_words_count(*old(self), *final(self), wc),
    {
        match self {
            AppState::Initialized { words_count, .. } => {
                *words_count = wc;
            },
            _ => {},
        }
    }
}

impl Default for AppState {
    /// The state at process start: no session yet.
    fn default() -> (r: Self)
        ensures
            r is Init,
    {
        AppState::Init
    }
}

} // verus!
