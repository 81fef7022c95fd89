//! Game stages: the stack of running stages, the splash screen's decision
//! and the warm-up stage.
use vstd::prelude::*;

verus! {

/// What a stage asks of the stack after an update.
pub enum StageTransition<S> {
    /// Run a new stage on top of this one.
    PushStage(S),
    /// This stage is done.
    PopSelf,
    /// Keep running.
    DoNothing,
}

/// The stack of game stages; the top one is the running stage.
pub struct StageStack<S> {
    stack: Vec<S>,
}

impl<S> View for StageStack<S> {
    type V = Seq<S>;

    /// The stages from the bottom to the top.
    closed spec fn view(&self) -> Seq<S> {
        self.stack@
    }
}

impl<S> StageStack<S> {
    /// An empty stack.
    pub fn new() -> (stack: Self)
        ensures
            stack@ == Seq::<S>::empty(),
    {
        StageStack { stack: Vec::new() }
    }

    /// Puts `stage` on top.
    pub fn push(&mut self, stage: S)
        ensures
            final(self)@ == old(self)@.push(stage),
    {
        self.stack.push(stage);
    }

    /// Takes the top stage off, if there is one.
    pub fn pop(&mut self) -> (top: Option<S>)
        ensures
            old(self)@.len() == 0 ==> top is None && final(self)@ == old(self)@,
            old(self)@.len() > 0 ==> top == Some(old(self)@.last()) && final(self)@ == old(
                self,
            )@.drop_last(),
    {
        self.stack.pop()
    }

    /// The top stage, if there is one.
    pub fn head(&self) -> (top: Option<&S>)
        ensures
            self@.len() == 0 ==> top is None,
            self@.len() > 0 ==> top == Some(&self@.last()),
    {
        let n = self.stack.len();
        if n == 0 {
            None
        } else {
            Some(&self.stack[n - 1])
        }
    }
}

/// Law: popping right after pushing gives back the pushed stage and leaves
/// the stack as it was; the pushed stage is the head in between.
pub proof fn lemma_push_then_pop<S>(stack: Seq<S>, stage: S)
    ensures
        stack.push(stage).len() > 0,
        stack.push(stage).last() == stage,
        stack.push(stage).drop_last() == stack,
{
    assert(stack.push(stage).drop_last() =~= stack);
}

/// A control event of a frame, as far as the stages tell events apart.
#[derive(PartialEq, Eq, Structural, Clone, Copy, Debug)]
pub enum StageControlEvent {
    /// The pause control was activated.
    PauseActivated,
    /// Any other control event.
    Other,
}

/// What the splash screen asks of the stack after a frame with `events`: a
/// fresh splash screen on top when the pause control was activated, else
/// nothing.
pub fn splash_screen_transition<S>(events: &Vec<StageControlEvent>, fresh: S) -> (transition:
    StageTransition<S>)
    ensures
        (exists|i: int| 0 <= i < events@.len() && #[trigger] events@[i] == StageControlEvent::PauseActivated)
            ==> transition == StageTransition::PushStage(fresh),
        !(exists|i: int| 0 <= i < events@.len() && #[trigger] events@[i] == StageControlEvent::PauseActivated)
            ==> transition is DoNothing,
{
    let mut i: usize = 0;
    while i < events.len()
        invariant
            i <= events@.len(),
            forall|j: int| 0 <= j < i ==> events@[j] != StageControlEvent::PauseActivated,
        decreases events.len() - i,
    {
        if events[i] == StageControlEvent::PauseActivated {
            return StageTransition::PushStage(fresh);
        }
        i = i + 1;
    }
    StageTransition::DoNothing
}

/// The number of updates the warm-up stage runs.
pub const WARMUP_UPDATES: u8 = 10;

/// A stage that lets a fixed number of updates pass, then pops itself.
pub struct WarmupStage {
    countdown: u8,
}

impl WarmupStage {
    /// The updates left before the stage pops itself.
    pub closed spec fn spec_countdown(&self) -> u8 {
        self.countdown
    }

    /// A warm-up stage with all its updates to run.
    pub fn new() -> (stage: Self)
        ensures
            stage.spec_countdown() == WARMUP_UPDATES,
    {
        WarmupStage { countdown: WARMUP_UPDATES }
    }

    /// The updates left before the stage pops itself.
    pub fn countdown(&self) -> (left: u8)
        ensures
            left == self.spec_countdown(),
    {
        self.countdown
    }

    /// Counts one update down; pops the stage when none is left. The stage
    /// must not be updated again once it has asked to be popped.
    pub fn update<S>(&mut self) -> (transition: StageTransition<S>)
        requires
            old(self).spec_countdown() > 0,
        ensures
            final(self).spec_countdown() == old(self).spec_countdown() - 1,
            final(self).spec_countdown() == 0 ==> transition is PopSelf,
            final(self).spec_countdown() != 0 ==> transition is DoNothing,
    {
        self.countdown = self.countdown - 1;
        if self.countdown == 0 {
            StageTransition::PopSelf
        } else {
            StageTransition::DoNothing
        }
    }
}

} // verus!
