//! One model-backed agent turn.
//!
//! An agent turn is the transaction around a single request: the caller hands in
//! an already-rendered [`AgentTurnRequest`], an executor runs it, output goes to
//! sinks, and an [`AgentTurnOutcome`] comes back. The turn never touches prompt
//! history. What it tells observers, and when, is decided by
//! [`AgentTurnProgress`].

use vstd::prelude::*;
use crate::prompt_context::{turn_models, Role, Turn, TurnModel};

verus! {

/// An already-rendered model request.
#[derive(Debug)]
pub struct AgentTurnRequest<I = Turn> {
    pub call_id: String,
    pub system: String,
    pub history: Vec<I>,
    pub user: String,
    pub model: String,
    pub max_tokens: u64,
}

/// Transcript items that an executor wants appended.
#[derive(Debug)]
pub struct ExecutorCommit<I = Turn> {
    pub append: Vec<I>,
}

impl<I> ExecutorCommit<I> {
    pub fn new(append: Vec<I>) -> (commit: Self)
        ensures
            commit.append@ == append@,
    {
        Self { append }
    }

    pub fn empty() -> (commit: Self)
        ensures
            commit.append@ == Seq::<I>::empty(),
    {
        Self { append: Vec::new() }
    }
}

impl ExecutorCommit<Turn> {
    /// One assistant turn.
    pub fn text(text: &str) -> (commit: Self)
        ensures
            turn_models(commit.append@) == seq![
                TurnModel { role: Role::Assistant, text: text@ },
            ],
    {
        let mut append: Vec<Turn> = Vec::new();
        append.push(Turn::assistant(text));
        assert(turn_models(append@) =~= seq![TurnModel { role: Role::Assistant, text: text@ }]);
        Self { append }
    }
}

/// What a finished turn hands back.
pub struct AgentTurnOutcome<I, O> {
    pub executor_commit: ExecutorCommit<I>,
    pub sink_output: O,
}

/// Plain text streaming.
#[derive(Debug, Clone)]
pub enum TextTurnEvent {
    TextDelta(String),
    TextComplete(String),
}

/// What observers of a turn are told.
#[derive(Debug, Clone)]
#[allow(inconsistent_fields)]
pub enum AgentTurnEvent {
    SystemPromptRendered { call_id: String, text: String },
    UserPromptRendered { call_id: String, text: String },
    AssistantCompleted { call_id: String, text: String },
    Failed { call_id: String, error: String },
    Aborted { call_id: String },
    IgnoredStreamItem { call_id: String, item: String },
}

/// How far a turn has come.
#[derive(Debug, Clone, Copy, PartialEq, Eq, Structural)]
pub enum AgentTurnPhase {
    /// Nothing happened yet.
    Pending,
    /// The executor runs.
    Executing,
    /// The executor failed.
    Failed,
    /// The executor succeeded and the sinks are being finished.
    Finishing,
    /// Everything is done.
    Completed,
}

/// The course of one turn, and what its observers are told.
#[derive(Debug)]
pub struct AgentTurnProgress {
    pub(crate) call_id: String,
    pub(crate) phase: AgentTurnPhase,
}

impl AgentTurnProgress {
    /// The phase that the turn is in.
    pub closed spec fn current(&self) -> AgentTurnPhase {
        self.phase
    }

    /// The call that the turn belongs to.
    pub closed spec fn call(&self) -> Seq<char> {
        self.call_id@
    }

    pub fn new(call_id: &str) -> (progress: Self)
        ensures
            progress.current() == AgentTurnPhase::Pending,
            progress.call() == call_id@,
    {
        Self { call_id: call_id.to_owned(), phase: AgentTurnPhase::Pending }
    }

    pub fn phase(&self) -> (phase: AgentTurnPhase)
        ensures
            phase == self.current(),
    {
        self.phase
    }

    /// Starts the turn. Observers are told the rendered user prompt before the
    /// executor runs.
    pub fn start(&mut self, user: &str) -> (event: AgentTurnEvent)
        requires
            old(self).current() == AgentTurnPhase::Pending,
        ensures
            final(self).current() == AgentTurnPhase::Executing,
            final(self).call() == old(self).call(),
            event is UserPromptRendered,
            event->UserPromptRendered_call_id@ == old(self).call(),
            event->UserPromptRendered_text@ == user@,
    {
        self.phase = AgentTurnPhase::Executing;
        AgentTurnEvent::UserPromptRendered {
            call_id: self.call_id.clone(),
            text: user.to_owned(),
        }
    }

    /// Takes the executor's outcome. A failure is told to observers, and no sink
    /// is finished after it; success is not told.
    pub fn executed(&mut self, failure: Option<&str>) -> (event: Option<AgentTurnEvent>)
        requires
            old(self).current() == AgentTurnPhase::Executing,
        ensures
            final(self).call() == old(self).call(),
            match failure {
                Some(error) => final(self).current() == AgentTurnPhase::Failed && event is Some
                    && event->0 is Failed && event->0->Failed_call_id@ == old(self).call()
                    && event->0->error@ == error@,
                None => final(self).current() == AgentTurnPhase::Finishing && event is None,
            },
    {
        match failure {
            Some(error) => {
                self.phase = AgentTurnPhase::Failed;
                Some(
                    AgentTurnEvent::Failed {
                        call_id: self.call_id.clone(),
                        error: error.to_owned(),
                    },
                )
            },
            None => {
                self.phase = AgentTurnPhase::Finishing;
                None
            },
        }
    }

    /// Marks the turn as done, once every sink is finished.
    pub fn complete(&mut self)
        requires
            old(self).current() == AgentTurnPhase::Finishing,
        ensures
            final(self).current() == AgentTurnPhase::Completed,
            final(self).call() == old(self).call(),
    {
        self.phase = AgentTurnPhase::Completed;
    }

    /// What observers are told when a turn that was started goes away: that it was
    /// aborted, unless it was completed.
    pub fn dropped(&self) -> (event: Option<AgentTurnEvent>)
        ensures
            self.current() == AgentTurnPhase::Pending || self.current()
                == AgentTurnPhase::Completed ==> event is None,
            self.current() != AgentTurnPhase::Pending && self.current()
                != AgentTurnPhase::Completed ==> event is Some && event->0 is Aborted
                && event->0->Aborted_call_id@ == self.call(),
    {
        match self.phase {
            AgentTurnPhase::Pending | AgentTurnPhase::Completed => None,
            _ => Some(AgentTurnEvent::Aborted { call_id: self.call_id.clone() }),
        }
    }
}

/// A sink that keeps nothing.
#[derive(Debug, Clone, Copy, Default)]
pub struct NoopTurnSink;

} // verus!
