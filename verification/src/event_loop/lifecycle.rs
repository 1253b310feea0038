//! What is done when the event loop resumes, begins with new events or is about to wait.

use vstd::prelude::*;

use crate::event_loop::state::EventLoopState;
use crate::event_loop::types::WinitWindowEventResult;
use crate::event_loop::windows;
use crate::event_loop::windows::WindowStatus;
use crate::platform::PlatformError;

verus! {

/// A span of time.
#[derive(Clone, Copy, Debug, PartialEq, Eq, Structural)]
pub struct Duration {
    pub secs: u64,
    pub nanos: u32,
}

/// How the event loop goes on when all events have been handled.
#[derive(Clone, Copy, Debug, PartialEq, Eq, Structural)]
pub enum ControlFlow {
    /// At once.
    Poll,
    /// With the next event.
    Wait,
    /// With the next event, or when this time has passed.
    WaitDuration(Duration),
}

/// What is to be done next.
#[derive(Debug)]
pub enum LoopAction {
    /// Call the handler of the application. The reply is a verdict.
    CallHandler,
    /// Create the windows that have been asked for. The reply is an outcome.
    CreateInactiveWindows,
    /// Leave the event loop.
    Exit,
    /// Set how the loop goes on.
    SetControlFlow(ControlFlow),
    /// Run the timers that are due, and move the animations on.
    UpdateTimersAndAnimations,
    /// Find out whether the loop is being left. The reply is a flag.
    IsExiting,
    /// List the windows. The reply is the list.
    ListWindows,
    /// Have these windows drawn again.
    RequestRedraw(Vec<u64>),
    /// Find out whether the loop is set to wait for the next event alone. The reply is a flag.
    IsWaiting,
    /// Find out when the next timer is due. The reply is the time until then.
    NextTimerUpdate,
}

/// The answer to an action.
#[derive(Debug)]
pub enum LoopReply {
    /// The action is done.
    Finished,
    /// What the handler of the application says.
    Verdict(WinitWindowEventResult),
    /// What went wrong, if anything.
    Outcome(Option<PlatformError>),
    /// Whether it is so.
    Flag(bool),
    /// The windows.
    Windows(Vec<WindowStatus>),
    /// The time until the next timer is due, if there is one.
    Timer(Option<Duration>),
}

/// What is waited for.
#[derive(Clone, Copy, Debug, PartialEq, Eq, Structural)]
pub enum LoopStage {
    /// The handler, when the loop resumes.
    Resumed,
    /// The new windows, when the loop resumes.
    ResumedWindows,
    /// The handler, when new events begin.
    NewEvents,
    /// The control flow, when new events begin.
    NewEventsFlow,
    /// The handler, before the loop waits.
    AboutToWait,
    /// The new windows, before the loop waits.
    WaitWindows,
    /// Whether the loop is being left.
    WaitExiting,
    /// The list of the windows.
    WaitList,
    /// The windows that are drawn again.
    WaitRedraw,
    /// Whether the loop waits for the next event alone.
    WaitFlow,
    /// The next timer.
    WaitTimer,
    /// The control flow for the next timer.
    WaitFlowSet,
    /// The last action.
    Last,
}

/// Where things stand.
#[derive(Debug)]
pub enum LoopStep {
    /// Nothing is left to do.
    Done,
    /// The action is to be done, and the reply handed back with the stage.
    Perform(LoopAction, LoopStage),
}

/// What is to be done next, as a mathematical value.
pub enum LoopActionView {
    CallHandler,
    CreateInactiveWindows,
    Exit,
    SetControlFlow(ControlFlow),
    UpdateTimersAndAnimations,
    IsExiting,
    ListWindows,
    RequestRedraw(Seq<u64>),
    IsWaiting,
    NextTimerUpdate,
}

/// Where things stand, as a mathematical value.
pub enum LoopStepView {
    Done,
    Perform(LoopActionView, LoopStage),
}

impl View for LoopAction {
    type V = LoopActionView;

    open spec fn view(&self) -> LoopActionView {
        match self {
            LoopAction::CallHandler => LoopActionView::CallHandler,
            LoopAction::CreateInactiveWindows => LoopActionView::CreateInactiveWindows,
            LoopAction::Exit => LoopActionView::Exit,
            LoopAction::SetControlFlow(flow) => LoopActionView::SetControlFlow(*flow),
            LoopAction::UpdateTimersAndAnimations => LoopActionView::UpdateTimersAndAnimations,
            LoopAction::IsExiting => LoopActionView::IsExiting,
            LoopAction::ListWindows => LoopActionView::ListWindows,
            LoopAction::RequestRedraw(list) => LoopActionView::RequestRedraw(list@),
            LoopAction::IsWaiting => LoopActionView::IsWaiting,
            LoopAction::NextTimerUpdate => LoopActionView::NextTimerUpdate,
        }
    }
}

impl View for LoopStep {
    type V = LoopStepView;

    open spec fn view(&self) -> LoopStepView {
        match self {
            LoopStep::Done => LoopStepView::Done,
            LoopStep::Perform(action, stage) => LoopStepView::Perform(action@, *stage),
        }
    }
}

/// Whether a reply is one to what is waited for.
pub open spec fn answers(stage: LoopStage, reply: LoopReply) -> bool {
    match stage {
        LoopStage::Resumed | LoopStage::NewEvents | LoopStage::AboutToWait => reply is Verdict,
        LoopStage::ResumedWindows | LoopStage::WaitWindows => reply is Outcome,
        LoopStage::WaitExiting | LoopStage::WaitFlow => reply is Flag,
        LoopStage::WaitList => reply is Windows,
        LoopStage::WaitTimer => reply is Timer,
        LoopStage::NewEventsFlow | LoopStage::WaitRedraw | LoopStage::WaitFlowSet =>
            reply is Finished,
        LoopStage::Last => reply is Finished || reply is Verdict,
    }
}

/// The first step of something that the handler of the application can prevent.
pub open spec fn ask_handler(state: EventLoopState, stage: LoopStage, usual: LoopStepView) -> LoopStepView {
    if state.custom_application_handler {
        LoopStepView::Perform(LoopActionView::CallHandler, stage)
    } else {
        usual
    }
}

/// What is usual when the loop resumes.
pub open spec fn usual_resumed() -> LoopStepView {
    LoopStepView::Perform(LoopActionView::CreateInactiveWindows, LoopStage::ResumedWindows)
}

/// What is usual when new events begin.
pub open spec fn usual_new_events() -> LoopStepView {
    LoopStepView::Perform(
        LoopActionView::SetControlFlow(ControlFlow::Wait),
        LoopStage::NewEventsFlow,
    )
}

/// What is usual before the loop waits.
pub open spec fn usual_about_to_wait() -> LoopStepView {
    LoopStepView::Perform(LoopActionView::CreateInactiveWindows, LoopStage::WaitWindows)
}

/// The last decision before the loop waits: it does not, if events are pumped instantly.
pub open spec fn end_of_wait(state: EventLoopState) -> LoopStepView {
    if state.pumping_events_instantly {
        LoopStepView::Perform(LoopActionView::SetControlFlow(ControlFlow::Poll), LoopStage::Last)
    } else {
        LoopStepView::Done
    }
}

/// The next state and step, given the reply to what was waited for.
pub open spec fn next_loop_step(state: EventLoopState, stage: LoopStage, reply: LoopReply) -> (
    EventLoopState,
    LoopStepView,
) {
    match (stage, reply) {
        (_, LoopReply::Verdict(WinitWindowEventResult::PreventDefault)) => (state, LoopStepView::Done),
        (LoopStage::Resumed, _) => (state, usual_resumed()),
        (LoopStage::ResumedWindows, LoopReply::Outcome(Some(error))) => (
            EventLoopState { loop_error: Some(error), ..state },
            LoopStepView::Perform(LoopActionView::Exit, LoopStage::Last),
        ),
        (LoopStage::NewEvents, _) => (state, usual_new_events()),
        (LoopStage::NewEventsFlow, _) => (
            state,
            LoopStepView::Perform(LoopActionView::UpdateTimersAndAnimations, LoopStage::Last),
        ),
        (LoopStage::AboutToWait, _) => (state, usual_about_to_wait()),
        (LoopStage::WaitWindows, LoopReply::Outcome(error)) => (
            match error {
                Some(error) => EventLoopState { loop_error: Some(error), ..state },
                None => state,
            },
            LoopStepView::Perform(LoopActionView::IsExiting, LoopStage::WaitExiting),
        ),
        (LoopStage::WaitExiting, LoopReply::Flag(exiting)) => (
            state,
            if exiting {
                LoopStepView::Perform(LoopActionView::IsWaiting, LoopStage::WaitFlow)
            } else {
                LoopStepView::Perform(LoopActionView::ListWindows, LoopStage::WaitList)
            },
        ),
        (LoopStage::WaitList, LoopReply::Windows(list)) => (
            state,
            LoopStepView::Perform(
                LoopActionView::RequestRedraw(
                    windows::ids(list@, |w: WindowStatus| windows::is_animated(w)),
                ),
                LoopStage::WaitRedraw,
            ),
        ),
        (LoopStage::WaitRedraw, _) => (
            state,
            LoopStepView::Perform(LoopActionView::IsWaiting, LoopStage::WaitFlow),
        ),
        (LoopStage::WaitFlow, LoopReply::Flag(waiting)) => (
            state,
            if waiting {
                LoopStepView::Perform(LoopActionView::NextTimerUpdate, LoopStage::WaitTimer)
            } else {
                end_of_wait(state)
            },
        ),
        (LoopStage::WaitTimer, LoopReply::Timer(timer)) => (
            state,
            match timer {
                Some(next) => LoopStepView::Perform(
                    LoopActionView::SetControlFlow(ControlFlow::WaitDuration(next)),
                    LoopStage::WaitFlowSet,
                ),
                None => end_of_wait(state),
            },
        ),
        (LoopStage::WaitFlowSet, _) => (state, end_of_wait(state)),
        _ => (state, LoopStepView::Done),
    }
}

impl EventLoopState {
    fn handler_first(&self, stage: LoopStage, usual: LoopStep) -> (step: LoopStep)
        ensures
            step@ == ask_handler(*self, stage, usual@),
    {
        if self.custom_application_handler {
            LoopStep::Perform(LoopAction::CallHandler, stage)
        } else {
            usual
        }
    }

    /// The loop resumes, or begins.
    pub fn resumed(&self) -> (step: LoopStep)
        ensures
            step@ == ask_handler(*self, LoopStage::Resumed, usual_resumed()),
    {
        self.handler_first(
            LoopStage::Resumed,
            LoopStep::Perform(LoopAction::CreateInactiveWindows, LoopStage::ResumedWindows),
        )
    }

    /// New events are about to be handled.
    pub fn new_events(&self) -> (step: LoopStep)
        ensures
            step@ == ask_handler(*self, LoopStage::NewEvents, usual_new_events()),
    {
        self.handler_first(
            LoopStage::NewEvents,
            LoopStep::Perform(
                LoopAction::SetControlFlow(ControlFlow::Wait),
                LoopStage::NewEventsFlow,
            ),
        )
    }

    /// All events have been handled, and the loop is about to wait.
    pub fn about_to_wait(&self) -> (step: LoopStep)
        ensures
            step@ == ask_handler(*self, LoopStage::AboutToWait, usual_about_to_wait()),
    {
        self.handler_first(
            LoopStage::AboutToWait,
            LoopStep::Perform(LoopAction::CreateInactiveWindows, LoopStage::WaitWindows),
        )
    }

    /// An event of a device, which is for the handler of the application alone.
    pub fn device_event(&self) -> (step: LoopStep)
        ensures
            step@ == ask_handler(*self, LoopStage::Last, LoopStepView::Done),
    {
        self.handler_first(LoopStage::Last, LoopStep::Done)
    }

    /// The application is suspended, which is for its handler alone.
    pub fn suspended(&self) -> (step: LoopStep)
        ensures
            step@ == ask_handler(*self, LoopStage::Last, LoopStepView::Done),
    {
        self.handler_first(LoopStage::Last, LoopStep::Done)
    }

    /// The loop is left, which is for the handler of the application alone.
    pub fn exiting(&self) -> (step: LoopStep)
        ensures
            step@ == ask_handler(*self, LoopStage::Last, LoopStepView::Done),
    {
        self.handler_first(LoopStage::Last, LoopStep::Done)
    }

    /// Memory is short, which is for the handler of the application alone.
    pub fn memory_warning(&self) -> (step: LoopStep)
        ensures
            step@ == ask_handler(*self, LoopStage::Last, LoopStepView::Done),
    {
        self.handler_first(LoopStage::Last, LoopStep::Done)
    }

    fn wait_ends(&self) -> (step: LoopStep)
        ensures
            step@ == end_of_wait(*self),
    {
        if self.pumping_events_instantly {
            LoopStep::Perform(LoopAction::SetControlFlow(ControlFlow::Poll), LoopStage::Last)
        } else {
            LoopStep::Done
        }
    }

    /// Go on, given the reply to what was waited for.
    pub fn resume_loop(&mut self, stage: LoopStage, reply: LoopReply) -> (step: LoopStep)
        requires
            answers(stage, reply),
        ensures
            (*final(self), step@) == next_loop_step(*old(self), stage, reply),
    {
        match (stage, reply) {
            (_, LoopReply::Verdict(WinitWindowEventResult::PreventDefault)) => LoopStep::Done,
            (LoopStage::Resumed, _) => LoopStep::Perform(
                LoopAction::CreateInactiveWindows,
                LoopStage::ResumedWindows,
            ),
            (LoopStage::ResumedWindows, LoopReply::Outcome(Some(error))) => {
                self.loop_error = Some(error);
                LoopStep::Perform(LoopAction::Exit, LoopStage::Last)
            },
            (LoopStage::NewEvents, _) => LoopStep::Perform(
                LoopAction::SetControlFlow(ControlFlow::Wait),
                LoopStage::NewEventsFlow,
            ),
            (LoopStage::NewEventsFlow, _) => LoopStep::Perform(
                LoopAction::UpdateTimersAndAnimations,
                LoopStage::Last,
            ),
            (LoopStage::AboutToWait, _) => LoopStep::Perform(
                LoopAction::CreateInactiveWindows,
                LoopStage::WaitWindows,
            ),
            (LoopStage::WaitWindows, LoopReply::Outcome(error)) => {
                if let Some(error) = error {
                    self.loop_error = Some(error);
                }
                LoopStep::Perform(LoopAction::IsExiting, LoopStage::WaitExiting)
            },
            (LoopStage::WaitExiting, LoopReply::Flag(exiting)) => {
                if exiting {
                    LoopStep::Perform(LoopAction::IsWaiting, LoopStage::WaitFlow)
                } else {
                    LoopStep::Perform(LoopAction::ListWindows, LoopStage::WaitList)
                }
            },
            (LoopStage::WaitList, LoopReply::Windows(list)) => LoopStep::Perform(
                LoopAction::RequestRedraw(windows::windows_to_redraw(&list)),
                LoopStage::WaitRedraw,
            ),
            (LoopStage::WaitRedraw, _) => LoopStep::Perform(
                LoopAction::IsWaiting,
                LoopStage::WaitFlow,
            ),
            (LoopStage::WaitFlow, LoopReply::Flag(waiting)) => {
                if waiting {
                    LoopStep::Perform(LoopAction::NextTimerUpdate, LoopStage::WaitTimer)
                } else {
                    self.wait_ends()
                }
            },
            (LoopStage::WaitTimer, LoopReply::Timer(timer)) => match timer {
                Some(next) => LoopStep::Perform(
                    LoopAction::SetControlFlow(ControlFlow::WaitDuration(next)),
                    LoopStage::WaitFlowSet,
                ),
                None => self.wait_ends(),
            },
            (LoopStage::WaitFlowSet, _) => self.wait_ends(),
            _ => LoopStep::Done,
        }
    }
}

/// How far a stage is from the end at most.
pub open spec fn rank(stage: LoopStage) -> int {
    match stage {
        LoopStage::Last => 1,
        LoopStage::ResumedWindows | LoopStage::NewEventsFlow | LoopStage::WaitFlowSet => 2,
        LoopStage::Resumed | LoopStage::NewEvents | LoopStage::WaitTimer => 3,
        LoopStage::WaitFlow => 4,
        LoopStage::WaitRedraw => 5,
        LoopStage::WaitList => 6,
        LoopStage::WaitExiting => 7,
        LoopStage::WaitWindows => 8,
        LoopStage::AboutToWait => 9,
    }
}

/// How many actions a step is from the end at most.
pub open spec fn actions_left(step: LoopStepView) -> int {
    match step {
        LoopStepView::Done => 0,
        LoopStepView::Perform(_, stage) => rank(stage),
    }
}

/// Each reply brings the loop nearer to the end of what it does.
pub proof fn law_loop_ends(state: EventLoopState, stage: LoopStage, reply: LoopReply)
    ensures
        actions_left(next_loop_step(state, stage, reply).1) < rank(stage),
{
}

/// Whether a reply is of the sort that an action asks for.
pub open spec fn is_reply(action: LoopActionView, reply: LoopReply) -> bool {
    match action {
        LoopActionView::CallHandler => reply is Verdict,
        LoopActionView::CreateInactiveWindows => reply is Outcome,
        LoopActionView::IsExiting | LoopActionView::IsWaiting => reply is Flag,
        LoopActionView::ListWindows => reply is Windows,
        LoopActionView::NextTimerUpdate => reply is Timer,
        _ => reply is Finished,
    }
}

/// Whether a step waits for the reply, if that is of the sort that its action asks for.
pub open spec fn is_answered_by(step: LoopStepView, reply: LoopReply) -> bool {
    step matches LoopStepView::Perform(action, stage) ==> is_reply(action, reply) ==> answers(
        stage,
        reply,
    )
}

/// Whoever answers each action with a reply of its sort can go on to the end.
pub proof fn law_replies_answer(
    state: EventLoopState,
    stage: LoopStage,
    earlier: LoopReply,
    reply: LoopReply,
)
    ensures
        is_answered_by(ask_handler(state, LoopStage::Resumed, usual_resumed()), reply),
        is_answered_by(ask_handler(state, LoopStage::NewEvents, usual_new_events()), reply),
        is_answered_by(ask_handler(state, LoopStage::AboutToWait, usual_about_to_wait()), reply),
        is_answered_by(ask_handler(state, LoopStage::Last, LoopStepView::Done), reply),
        is_answered_by(next_loop_step(state, stage, earlier).1, reply),
{
}

/// If the handler of the application prevents it, nothing is done and the state stays as it is.
pub proof fn law_handler_prevents(state: EventLoopState, stage: LoopStage)
    ensures
        next_loop_step(
            state,
            stage,
            LoopReply::Verdict(WinitWindowEventResult::PreventDefault),
        ) == (state, LoopStepView::Done),
{
}

/// A window that cannot be created is an error of the loop. It ends the loop when the loop resumes,
/// but not before the loop waits.
pub proof fn law_window_creation_fails(state: EventLoopState, error: PlatformError)
    ensures
        ({
            let failed = EventLoopState { loop_error: Some(error), ..state };
            let reply = LoopReply::Outcome(Some(error));
            &&& next_loop_step(state, LoopStage::ResumedWindows, reply) == (
                failed,
                LoopStepView::Perform(LoopActionView::Exit, LoopStage::Last),
            )
            &&& next_loop_step(state, LoopStage::WaitWindows, reply) == (
                failed,
                LoopStepView::Perform(LoopActionView::IsExiting, LoopStage::WaitExiting),
            )
        }),
{
}

/// Creating the windows leaves an earlier error of the loop as it is.
pub proof fn law_window_creation_succeeds(state: EventLoopState)
    ensures
        next_loop_step(state, LoopStage::ResumedWindows, LoopReply::Outcome(None)).0 == state,
        next_loop_step(state, LoopStage::WaitWindows, LoopReply::Outcome(None)).0 == state,
{
}

} // verus!
