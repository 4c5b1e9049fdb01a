use vstd::prelude::*;

use crate::actions::{
    action_supported, all_actions, conflict_free, key_of, lemma_all_actions_distinct_keys,
    lemma_key_of_injective, Action, Actions,
};
use crate::content::TypingFileDisplay;
use crate::keys::Key;
use crate::state::{
    adds_char, removes_char, sets_message_finished, sets_message_timeup, sets_to_type,
    sets_typing_information, sets_words_count, spec_tick, AppState, TICK_SECS,
};
use vstd::pervasive::unreached;

verus! {

/// Whether the orchestrator keeps running or exits after an event.
#[derive(Debug, PartialEq, Eq, Structural)]
pub enum AppReturn {
    Exit,
    Continue,
}

/// An asynchronous work request sent to the intent handler: load the session
/// content, advance the session timer, or raise one of the session-end
/// notices.
#[derive(Debug, Clone, Copy, PartialEq, Eq, Structural)]
pub enum IoEvent {
    Initialize,
    Timer,
    TimeUp,
    FinishText,
}

/// A merged input event: one key press, or one tick of the input cadence.
#[derive(Debug, Clone, Copy, PartialEq, Eq, Structural)]
pub enum InputEvent {
    Input(Key),
    Tick,
}

/// The action set bound before a session starts: quit only.
pub open spec fn initial_actions() -> Seq<Action> {
    seq![Action::Quit]
}

/// The action set bound during a session: quit, one typing action for every
/// character of the supported alphabet, and delete-last-char — the whole
/// closed action universe.
pub open spec fn session_actions() -> Seq<Action> {
    all_actions()
}

/// The in-session action set has no two entries on one chord.
pub proof fn lemma_session_actions_conflict_free()
    ensures
        conflict_free(session_actions()),
{
    lemma_all_actions_distinct_keys();
}

/// The action of the set bound to a chord, when one is: the unique
/// well-formed action of the set whose chord it is.
pub open spec fn resolve_spec(acts: Seq<Action>, key: Key) -> Option<Action> {
    if exists|a: Action| #[trigger] acts.contains(a) && action_supported(a) && key_of(a) == key {
        Some(
            choose|a: Action| #[trigger] acts.contains(a) && action_supported(a) && key_of(a)
                == key,
        )
    } else {
        None
    }
}

/// Resolution is exact: the chord of a well-formed action of the set resolves
/// to that action and to no other, whatever else the set holds.
pub proof fn lemma_resolve_bound_action(acts: Seq<Action>, a: Action)
    requires
        acts.contains(a),
        action_supported(a),
    ensures
        resolve_spec(acts, key_of(a)) == Some(a),
{
    let picked = choose|p: Action| #[trigger] acts.contains(p) && action_supported(p) && key_of(p)
        == key_of(a);
    lemma_key_of_injective(picked, a);
}

/// The orchestrator: owns the session state and the key-binding registry,
/// translates key presses and ticks into phase-gated state transitions, and
/// marks intents handed off for asynchronous handling with a loading flag.
pub struct App {
    actions: Actions,
    is_loading: bool,
    state: AppState,
}

impl App {
    /// The current action set.
    pub closed spec fn spec_actions(&self) -> Seq<Action> {
        self.actions@
    }

    /// Whether an intent is in flight.
    pub closed spec fn spec_is_loading(&self) -> bool {
        self.is_loading
    }

    /// The current session state.
    pub closed spec fn spec_state(&self) -> AppState {
        self.state
    }

    /// A fresh orchestrator: quit is the only bound action, nothing is
    /// loading, no session exists yet.
    pub fn new() -> (r: App)
        ensures
            r.spec_actions() == initial_actions(),
            !r.spec_is_loading(),
            r.spec_state() is Init,
    {
        let initial = vec![Action::Quit];
        let actions = match Actions::build(initial) {
            Ok(a) => a,
            Err(_) => unreached(),
        };
        App { actions, is_loading: false, state: AppState::default() }
    }

    /// Resolves one key press against the current action set: quit exits;
    /// a typing action appends its character; delete-last-char deletes one;
    /// an unbound chord changes nothing. Only quit ends the loop.
    pub fn do_action(&mut self, key: Key) -> (r: AppReturn)
        ensures
            final(self).spec_actions() == old(self).spec_actions(),
            final(self).spec_is_loading() == old(self).spec_is_loading(),
            match resolve_spec(old(self).spec_actions(), key) {
                Some(a) => match a {
                    Action::Quit => r == AppReturn::Exit && final(self).spec_state() == old(
                        self,
                    ).spec_state(),
                    Action::Typing(c) => r == AppReturn::Continue && adds_char(
                        old(self).spec_state(),
                        final(self).spec_state(),
                        c,
                    ),
                    Action::BackwardDeleteChar => r == AppReturn::Continue && removes_char(
                        old(self).spec_state(),
                        final(self).spec_state(),
                    ),
                },
                None => r == AppReturn::Continue && final(self).spec_state() == old(
                    self,
                ).spec_state(),
            },
    {
        match self.actions.find(key) {
            Some(action) => {
                let ghost resolved = resolve_spec(self.actions@, key);
                proof {
                    assert(resolved is Some);
                    lemma_key_of_injective(resolved->0, *action);
                }
                match action {
                    Action::Quit => AppReturn::Exit,
                    Action::Typing(c) => {
                        let c = *c;
                        self.state.add_char(&c);
                        AppReturn::Continue
                    },
                    Action::BackwardDeleteChar => {
                        self.state.remove_char();
                        AppReturn::Continue
                    },
                }
            },
            None => AppReturn::Continue,
        }
    }

    /// One timer tick: the session's elapsed seconds grow by the tick unit.
    pub fn update_on_tick(&mut self) -> (r: AppReturn)
        requires
            old(self).spec_state() is Initialized ==> old(self).spec_state()->duration + TICK_SECS
                <= u64::MAX,
        ensures
            r == AppReturn::Continue,
            final(self).spec_state() == spec_tick(old(self).spec_state()),
            final(self).spec_actions() == old(self).spec_actions(),
            final(self).spec_is_loading() == old(self).spec_is_loading(),
    {
        self.state.increase_duaration_tick();
        AppReturn::Continue
    }

    /// One input-cadence tick: nothing to do.
    pub fn tick(&mut self) -> (r: AppReturn)
        ensures
            r == AppReturn::Continue,
            *final(self) == *old(self),
    {
        AppReturn::Continue
    }

    /// Accepts an intent for asynchronous handling: marks an intent in
    /// flight and hands the intent back for the transport to send. Callers
    /// that fail to send it report back through `dispatch_failed`.
    pub fn dispatch(&mut self, intent: IoEvent) -> (r: IoEvent)
        ensures
            r == intent,
            final(self).spec_is_loading(),
            final(self).spec_state() == old(self).spec_state(),
            final(self).spec_actions() == old(self).spec_actions(),
    {
        self.is_loading = true;
        intent
    }

    /// The transport could not take a dispatched intent: clears the loading
    /// flag; the state is untouched.
    pub fn dispatch_failed(&mut self)
        ensures
            !final(self).spec_is_loading(),
            final(self).spec_state() == old(self).spec_state(),
            final(self).spec_actions() == old(self).spec_actions(),
    {
        self.is_loading = false;
    }

    /// The current session state, read-only.
    pub fn state(&self) -> (r: &AppState)
        ensures
            *r == self.spec_state(),
    {
        &self.state
    }

    /// Whether an intent is in flight, read-only.
    pub fn is_loading(&self) -> (r: bool)
        ensures
            r == self.spec_is_loading(),
    {
        self.is_loading
    }

    /// Marks the content-load work as begun.
    pub fn loading(&mut self)
        ensures
            final(self).spec_is_loading(),
            final(self).spec_state() == old(self).spec_state(),
            final(self).spec_actions() == old(self).spec_actions(),
    {
        self.is_loading = true;
    }

    /// Starts the session: rebuilds the registry to the full in-session
    /// action set and replaces the state with a fresh session.
    pub fn initialized(&mut self)
        ensures
            final(self).spec_actions() == session_actions(),
            final(self).spec_is_loading() == old(self).spec_is_loading(),
            final(self).spec_state() is Initialized,
            final(self).spec_state()->duration == 0,
            final(self).spec_state()->counter_tick == 0,
            final(self).spec_state()->typed_text@ == Seq::<char>::empty(),
            final(self).spec_state()->to_type@ == Seq::<char>::empty(),
            final(self).spec_state()->words_count == 0,
            final(self).spec_state()->typing_information.from@ == Seq::<char>::empty(),
            final(self).spec_state()->typing_information.content@ == Seq::<char>::empty(),
            final(self).spec_state()->typing_information.url@ == Seq::<char>::empty(),
            final(self).spec_state()->typing_information.words_count == 0,
    {
        let full = Action::iterator();
        proof {
            lemma_session_actions_conflict_free();
        }
        self.actions = match Actions::build(full) {
            Ok(a) => a,
            Err(_) => unreached(),
        };
        self.state = AppState::initialized();
    }

    /// The content-load intent finished: clears the loading flag.
    pub fn loaded(&mut self)
        ensures
            !final(self).spec_is_loading(),
            final(self).spec_state() == old(self).spec_state(),
            final(self).spec_actions() == old(self).spec_actions(),
    {
        self.is_loading = false;
    }

    /// The content-load intent failed: clears the loading flag and leaves
    /// the state as it was, so a failed load never fabricates a session.
    pub fn load_failed(&mut self)
        ensures
            !final(self).spec_is_loading(),
            final(self).spec_state() == old(self).spec_state(),
            final(self).spec_actions() == old(self).spec_actions(),
    {
        self.is_loading = false;
    }

    /// Replaces the session's target text.
    pub fn load_text(&mut self, text: String)
        ensures
            sets_to_type(old(self).spec_state(), final(self).spec_state(), text@),
            final(self).spec_actions() == old(self).spec_actions(),
            final(self).spec_is_loading() == old(self).spec_is_loading(),
    {
        self.state.set_to_type(text)
    }

    /// Replaces the session's exercise information.
    pub fn set_typing_information(&mut self, info: TypingFileDisplay)
        ensures
            sets_typing_information(old(self).spec_state(), final(self).spec_state(), info),
            final(self).spec_actions() == old(self).spec_actions(),
            final(self).spec_is_loading() == old(self).spec_is_loading(),
    {
        self.state.set_typing_information(info)
    }

    /// Replaces the session's word count.
    pub fn set_words_count(&mut self, wc: u32)
        ensures
            sets_words_count(old(self).spec_state(), final(self).spec_state(), wc),
            final(self).spec_actions() == old(self).spec_actions(),
            final(self).spec_is_loading() == old(self).spec_is_loading(),
    {
        self.state.set_words_count(wc)
    }

    /// Shows the time-up notice in the session.
    pub fn send_message_timeup(&mut self)
        ensures
            sets_message_timeup(old(self).spec_state(), final(self).spec_state()),
            final(self).spec_actions() == old(self).spec_actions(),
            final(self).spec_is_loading() == old(self).spec_is_loading(),
    {
        self.state.set_message_timeup()
    }

    /// Shows the session report in the session.
    pub fn finished_text(&mut self)
        ensures
            sets_message_finished(old(self).spec_state(), final(self).spec_state()),
            final(self).spec_actions() == old(self).spec_actions(),
            final(self).spec_is_loading() == old(self).spec_is_loading(),
    {
        self.state.set_message_finished()
    }

    /// The whole success path of the content-load intent in one step: the
    /// session starts with the full action set, carries the loaded exercise,
    /// its text and its word count, and nothing is loading any more.
    pub fn content_loaded(&mut self, info: TypingFileDisplay)
        ensures
            final(self).spec_actions() == session_actions(),
            !final(self).spec_is_loading(),
            final(self).spec_state() is Initialized,
            final(self).spec_state()->duration == 0,
            final(self).spec_state()->counter_tick == 0,
            final(self).spec_state()->typed_text@ == Seq::<char>::empty(),
            final(self).spec_state()->to_type@ == info.content@,
            final(self).spec_state()->words_count == info.words_count,
            final(self).spec_state()->typing_information == info,
    {
        self.initialized();
        let content = info.content.clone();
        let words_count = info.words_count;
        self.state.set_typing_information(info);
        self.state.set_to_type(content);
        self.state.set_words_count(words_count);
        self.is_loading = false;
    }
}

} // verus!
