//! Cache-friendly prompt state for agent conversations.
//!
//! [`PromptContext`] owns durable context state:
//! - **FROZEN ZONE**: stable system prompt and append-only history.
//! - **WORKING SET**: mutable, not-yet-frozen context items.
//!
//! The concrete transcript item type `I` is defined by the application or
//! provider.

use vstd::prelude::*;

verus! {

/// Conversation participant role for the default [`Turn`] transcript item.
#[derive(Debug, Clone, Copy, PartialEq, Eq, Structural)]
pub enum Role {
    User,
    Assistant,
}

/// Default text-only transcript item.
#[derive(Debug)]
pub struct Turn {
    pub role: Role,
    pub text: String,
}

/// Model of a text turn.
pub struct TurnModel {
    pub role: Role,
    pub text: Seq<char>,
}

impl View for Turn {
    type V = TurnModel;

    open spec fn view(&self) -> TurnModel {
        TurnModel { role: self.role, text: self.text@ }
    }
}

impl Turn {
    pub fn user(text: &str) -> (turn: Self)
        ensures
            turn@ == (TurnModel { role: Role::User, text: text@ }),
    {
        Self { role: Role::User, text: text.to_owned() }
    }

    pub fn assistant(text: &str) -> (turn: Self)
        ensures
            turn@ == (TurnModel { role: Role::Assistant, text: text@ }),
    {
        Self { role: Role::Assistant, text: text.to_owned() }
    }
}

impl Clone for Turn {
    fn clone(&self) -> (copy: Self)
        ensures
            copy@ == self@,
    {
        Self { role: self.role, text: self.text.clone() }
    }
}

/// Controls how text user and assistant messages are committed.
pub trait TurnTransform {
    /// Transforms the rendered user message before storing. `None` leaves the
    /// user text out of history.
    fn transform_user(&self, user_text: &str) -> (stored: Option<String>)
        default_ensures
            stored is Some && stored->0@ == user_text@,
    {
        Some(user_text.to_owned())
    }

    /// Transforms the raw assistant text before storing. `None` leaves the
    /// assistant text out of history.
    fn transform_assistant(&self, raw_response: &str) -> (stored: Option<String>)
        default_ensures
            stored is Some && stored->0@ == raw_response@,
    {
        Some(raw_response.to_owned())
    }
}

/// Stores both user and assistant text turns unchanged.
#[derive(Debug, Clone, Copy, Default)]
pub struct IdentityTransform;

impl TurnTransform for IdentityTransform {

}

/// Durable prompt and transcript state.
///
/// `I` is the transcript item type of the application or provider. The default
/// `I = Turn` keeps text only.
#[derive(Debug)]
pub struct PromptContext<I = Turn, CS = ()> {
    pub(crate) system: Option<String>,
    pub(crate) history: Vec<I>,
    pub(crate) working_set: Vec<I>,
    pub(crate) context_state: CS,
}

/// Model of a prompt context.
pub struct ContextModel<I, CS> {
    pub system: Option<Seq<char>>,
    pub history: Seq<I>,
    pub working_set: Seq<I>,
    pub context_state: CS,
}

/// The text of an optional string.
pub open spec fn text_option(value: Option<String>) -> Option<Seq<char>> {
    match value {
        Some(value) => Some(value@),
        None => None,
    }
}

impl<I, CS> View for PromptContext<I, CS> {
    type V = ContextModel<I, CS>;

    open(crate) spec fn view(&self) -> ContextModel<I, CS> {
        ContextModel {
            system: text_option(self.system),
            history: self.history@,
            working_set: self.working_set@,
            context_state: self.context_state,
        }
    }
}

impl<I, CS: Default> PromptContext<I, CS> {
    /// Creates a new context with the given stable system prompt.
    pub fn new(system: &str) -> (context: Self)
        ensures
            context@.system == Some(system@),
            context@.history == Seq::<I>::empty(),
            context@.working_set == Seq::<I>::empty(),
            call_ensures(CS::default, (), context@.context_state),
    {
        Self {
            system: Some(system.to_owned()),
            history: Vec::new(),
            working_set: Vec::new(),
            context_state: CS::default(),
        }
    }

    /// Creates a context whose stable system prompt is rendered later.
    pub fn without_system() -> (context: Self)
        ensures
            context@.system is None,
            context@.history == Seq::<I>::empty(),
            context@.working_set == Seq::<I>::empty(),
            call_ensures(CS::default, (), context@.context_state),
    {
        Self {
            system: None,
            history: Vec::new(),
            working_set: Vec::new(),
            context_state: CS::default(),
        }
    }
}

/// A context whose system prompt is set if there was none.
pub open spec fn with_system_once<I, CS>(
    context: ContextModel<I, CS>,
    system: Seq<char>,
) -> ContextModel<I, CS> {
    if context.system is Some {
        context
    } else {
        ContextModel { system: Some(system), ..context }
    }
}

/// The first system prompt stays: setting another one changes nothing.
pub proof fn law_first_system_prompt_stays<I, CS>(
    context: ContextModel<I, CS>,
    first: Seq<char>,
    second: Seq<char>,
)
    ensures
        with_system_once(with_system_once(context, first), second) == with_system_once(
            context,
            first,
        ),
        with_system_once(context, first).history == context.history,
{
}

impl<I, CS> PromptContext<I, CS> {
    /// Sets the stable system prompt if there is none yet.
    pub fn set_system_once(&mut self, system: &str)
        ensures
            final(self)@ == with_system_once(old(self)@, system@),
    {
        if self.system.is_none() {
            self.system = Some(system.to_owned());
        }
    }

    pub fn has_system(&self) -> (has: bool)
        ensures
            has == (self@.system is Some),
    {
        self.system.is_some()
    }

    /// The stable system prompt.
    pub fn system(&self) -> (system: Option<&str>)
        ensures
            match system {
                Some(system) => self@.system == Some(system@),
                None => self@.system is None,
            },
    {
        match &self.system {
            Some(system) => Some(system.as_str()),
            None => None,
        }
    }

    /// The committed, append-only history.
    pub fn history(&self) -> (history: &[I])
        ensures
            history@ == self@.history,
    {
        self.history.as_slice()
    }

    /// Context items not yet frozen into history.
    pub fn working_set(&self) -> (working_set: &[I])
        ensures
            working_set@ == self@.working_set,
    {
        self.working_set.as_slice()
    }

    /// Prompt and session state of the view model.
    pub fn context_state(&self) -> (state: &CS)
        ensures
            *state == self@.context_state,
    {
        &self.context_state
    }

    /// Mutable prompt and session state of the view model.
    pub fn context_state_mut(&mut self) -> (state: &mut CS)
        ensures
            *state == old(self)@.context_state,
            final(self)@ == (ContextModel { context_state: *final(state), ..old(self)@ }),
    {
        &mut self.context_state
    }

    pub fn push_history(&mut self, item: I)
        ensures
            final(self)@ == (ContextModel {
                history: old(self)@.history.push(item),
                ..old(self)@
            }),
    {
        self.history.push(item);
    }

    /// Appends items to history, in their order.
    pub fn extend_history(&mut self, items: Vec<I>)
        ensures
            final(self)@ == (ContextModel {
                history: old(self)@.history + items@,
                ..old(self)@
            }),
    {
        let mut items = items;
        self.history.append(&mut items);
    }

    pub fn push_working_set(&mut self, item: I)
        ensures
            final(self)@ == (ContextModel {
                working_set: old(self)@.working_set.push(item),
                ..old(self)@
            }),
    {
        self.working_set.push(item);
    }

    pub fn replace_working_set(&mut self, items: Vec<I>)
        ensures
            final(self)@ == (ContextModel { working_set: items@, ..old(self)@ }),
    {
        self.working_set = items;
    }

    pub fn clear_working_set(&mut self)
        ensures
            final(self)@ == (ContextModel { working_set: Seq::<I>::empty(), ..old(self)@ }),
    {
        self.working_set.clear();
    }
}

/// The models of text turns.
pub open spec fn turn_models(turns: Seq<Turn>) -> Seq<TurnModel> {
    turns.map_values(|turn: Turn| turn@)
}

impl<CS: Default> PromptContext<Turn, CS> {
    /// Minimal text context: a system prompt and one working-set user item.
    pub fn simple(system: &str, user: &str) -> (context: Self)
        ensures
            context@.system == Some(system@),
            context@.history == Seq::<Turn>::empty(),
            turn_models(context@.working_set) == seq![
                TurnModel { role: Role::User, text: user@ },
            ],
            call_ensures(CS::default, (), context@.context_state),
    {
        let mut context = Self::new(system);
        context.push_user(user);
        assert(turn_models(context@.working_set) =~= seq![
            TurnModel { role: Role::User, text: user@ },
        ]);
        context
    }

    /// Adds a user turn to the working set.
    pub fn push_user(&mut self, text: &str)
        ensures
            turn_models(final(self)@.working_set) == turn_models(old(self)@.working_set).push(
                TurnModel { role: Role::User, text: text@ },
            ),
            final(self)@ == (ContextModel {
                working_set: final(self)@.working_set,
                ..old(self)@
            }),
    {
        let ghost before = self.working_set@;
        self.working_set.push(Turn::user(text));
        assert(turn_models(self.working_set@) =~= turn_models(before).push(
            TurnModel { role: Role::User, text: text@ },
        ));
    }

    /// Appends a turn of either role to history.
    pub fn inject_history_turn(&mut self, role: Role, text: &str)
        ensures
            turn_models(final(self)@.history) == turn_models(old(self)@.history).push(
                TurnModel { role, text: text@ },
            ),
            final(self)@ == (ContextModel { history: final(self)@.history, ..old(self)@ }),
    {
        let ghost before = self.history@;
        match role {
            Role::User => self.history.push(Turn::user(text)),
            Role::Assistant => self.history.push(Turn::assistant(text)),
        }
        assert(turn_models(self.history@) =~= turn_models(before).push(
            TurnModel { role, text: text@ },
        ));
    }
}

} // verus!
