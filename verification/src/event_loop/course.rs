//! The whole course of what the event loop does when it resumes, begins with new events or is about
//! to wait.

use vstd::prelude::*;

use crate::event_loop::lifecycle;
use crate::event_loop::lifecycle::{
    ControlFlow, Duration, LoopAction, LoopActionView, LoopReply, LoopStage, LoopStep, LoopStepView,
};
use crate::event_loop::state::EventLoopState;
use crate::event_loop::types::WinitWindowEventResult;
use crate::event_loop::windows;
use crate::event_loop::windows::WindowStatus;
use crate::platform::PlatformError;

verus! {

/// All that the surroundings say in the course of it.
pub struct LoopAnswers {
    /// The verdict of the application's handler.
    pub handler: WinitWindowEventResult,
    /// What went wrong with creating the windows, if anything.
    pub outcome: Option<PlatformError>,
    /// Whether the loop is being left.
    pub exiting: bool,
    /// The windows.
    pub windows: Vec<WindowStatus>,
    /// Whether the loop is set to wait for the next event alone.
    pub waiting: bool,
    /// The time until the next timer is due, if there is one.
    pub timer: Option<Duration>,
}

impl LoopAnswers {
    /// The reply to an action.
    pub open spec fn reply(self, action: LoopActionView) -> LoopReply {
        match action {
            LoopActionView::CallHandler => LoopReply::Verdict(self.handler),
            LoopActionView::CreateInactiveWindows => LoopReply::Outcome(self.outcome),
            LoopActionView::IsExiting => LoopReply::Flag(self.exiting),
            LoopActionView::ListWindows => LoopReply::Windows(self.windows),
            LoopActionView::IsWaiting => LoopReply::Flag(self.waiting),
            LoopActionView::NextTimerUpdate => LoopReply::Timer(self.timer),
            _ => LoopReply::Finished,
        }
    }
}

/// The actions from a step to the end, and the state then.
pub open spec fn course(state: EventLoopState, step: LoopStepView, answers: LoopAnswers) -> (
    Seq<LoopActionView>,
    EventLoopState,
)
    decreases lifecycle::actions_left(step),
{
    match step {
        LoopStepView::Done => (Seq::empty(), state),
        LoopStepView::Perform(action, stage) => {
            let next = lifecycle::next_loop_step(state, stage, answers.reply(action));
            let rest = course(next.0, next.1, answers);
            (seq![action] + rest.0, rest.1)
        },
    }
}

/// The question to the handler of the application, if there is one.
pub open spec fn asked(state: EventLoopState) -> Seq<LoopActionView> {
    if state.custom_application_handler {
        seq![LoopActionView::CallHandler]
    } else {
        Seq::empty()
    }
}

/// Whether the handler of the application prevents the rest.
pub open spec fn prevented(state: EventLoopState, answers: LoopAnswers) -> bool {
    state.custom_application_handler && answers.handler == WinitWindowEventResult::PreventDefault
}

/// The state after the windows have been created, or not: a failure is kept as the error of the
/// loop, and a success leaves an earlier error.
pub open spec fn windows_created(state: EventLoopState, answers: LoopAnswers) -> EventLoopState {
    if answers.outcome is Some {
        EventLoopState { loop_error: answers.outcome, ..state }
    } else {
        state
    }
}

/// What is done when the loop resumes, and the state then.
pub open spec fn resumed_script(state: EventLoopState, answers: LoopAnswers) -> (
    Seq<LoopActionView>,
    EventLoopState,
) {
    if prevented(state, answers) {
        (asked(state), state)
    } else {
        (
            asked(state) + seq![LoopActionView::CreateInactiveWindows] + if answers.outcome is Some {
                seq![LoopActionView::Exit]
            } else {
                Seq::empty()
            },
            windows_created(state, answers),
        )
    }
}

/// What is done when new events begin, and the state then.
pub open spec fn new_events_script(state: EventLoopState, answers: LoopAnswers) -> (
    Seq<LoopActionView>,
    EventLoopState,
) {
    if prevented(state, answers) {
        (asked(state), state)
    } else {
        (
            asked(state) + seq![
                LoopActionView::SetControlFlow(ControlFlow::Wait),
                LoopActionView::UpdateTimersAndAnimations,
            ],
            state,
        )
    }
}

/// Having the animated windows drawn again, unless the loop is being left.
pub open spec fn redraws(answers: LoopAnswers) -> Seq<LoopActionView> {
    if answers.exiting {
        Seq::empty()
    } else {
        seq![
            LoopActionView::ListWindows,
            LoopActionView::RequestRedraw(
                windows::ids(answers.windows@, |w: WindowStatus| windows::is_animated(w)),
            ),
        ]
    }
}

/// Having a loop that waits for the next event alone woken for the next timer.
pub open spec fn wakes(answers: LoopAnswers) -> Seq<LoopActionView> {
    if answers.waiting {
        seq![LoopActionView::NextTimerUpdate] + match answers.timer {
            Some(next) => seq![LoopActionView::SetControlFlow(ControlFlow::WaitDuration(next))],
            None => Seq::empty(),
        }
    } else {
        Seq::empty()
    }
}

/// Keeping a loop whose events are pumped instantly from waiting.
pub open spec fn polls(state: EventLoopState) -> Seq<LoopActionView> {
    if state.pumping_events_instantly {
        seq![LoopActionView::SetControlFlow(ControlFlow::Poll)]
    } else {
        Seq::empty()
    }
}

/// What is done before the loop waits, and the state then.
pub open spec fn about_to_wait_script(state: EventLoopState, answers: LoopAnswers) -> (
    Seq<LoopActionView>,
    EventLoopState,
) {
    if prevented(state, answers) {
        (asked(state), state)
    } else {
        (
            asked(state) + seq![LoopActionView::CreateInactiveWindows, LoopActionView::IsExiting]
                + redraws(answers) + seq![LoopActionView::IsWaiting] + wakes(answers) + polls(state),
            windows_created(state, answers),
        )
    }
}

/// What is done when the loop resumes, step by step, is what the script gives.
pub proof fn law_resumed(state: EventLoopState, answers: LoopAnswers)
    ensures
        course(
            state,
            lifecycle::ask_handler(state, LoopStage::Resumed, lifecycle::usual_resumed()),
            answers,
        ) == resumed_script(state, answers),
{
    reveal_with_fuel(course, 4);
    let step = lifecycle::ask_handler(state, LoopStage::Resumed, lifecycle::usual_resumed());
    assert(course(state, step, answers).0 =~= resumed_script(state, answers).0);
}

/// What is done when new events begin, step by step, is what the script gives.
pub proof fn law_new_events(state: EventLoopState, answers: LoopAnswers)
    ensures
        course(
            state,
            lifecycle::ask_handler(state, LoopStage::NewEvents, lifecycle::usual_new_events()),
            answers,
        ) == new_events_script(state, answers),
{
    reveal_with_fuel(course, 4);
    let step = lifecycle::ask_handler(state, LoopStage::NewEvents, lifecycle::usual_new_events());
    assert(course(state, step, answers).0 =~= new_events_script(state, answers).0);
}

/// An event that is for the handler of the application alone reaches it, if there is one, and
/// nothing else is done.
pub proof fn law_handler_alone(state: EventLoopState, answers: LoopAnswers)
    ensures
        course(
            state,
            lifecycle::ask_handler(state, LoopStage::Last, LoopStepView::Done),
            answers,
        ) == (
            if state.custom_application_handler {
                seq![LoopActionView::CallHandler]
            } else {
                seq![]
            },
            state,
        ),
{
    reveal_with_fuel(course, 2);
    let step = lifecycle::ask_handler(state, LoopStage::Last, LoopStepView::Done);
    assert(course(state, step, answers).0 =~= asked(state));
}

proof fn lemma_end_of_wait(state: EventLoopState, answers: LoopAnswers)
    ensures
        course(state, lifecycle::end_of_wait(state), answers) == (polls(state), state),
{
    reveal_with_fuel(course, 2);
    assert(course(state, lifecycle::end_of_wait(state), answers).0 =~= polls(state));
}

proof fn lemma_waiting(state: EventLoopState, answers: LoopAnswers)
    ensures
        course(
            state,
            LoopStepView::Perform(LoopActionView::IsWaiting, LoopStage::WaitFlow),
            answers,
        ) == (seq![LoopActionView::IsWaiting] + wakes(answers) + polls(state), state),
{
    lemma_end_of_wait(state, answers);
    reveal_with_fuel(course, 4);
    let step = LoopStepView::Perform(LoopActionView::IsWaiting, LoopStage::WaitFlow);
    assert(course(state, step, answers).0 =~= seq![LoopActionView::IsWaiting] + wakes(answers)
        + polls(state));
}

proof fn lemma_exiting(state: EventLoopState, answers: LoopAnswers)
    ensures
        course(
            state,
            LoopStepView::Perform(LoopActionView::IsExiting, LoopStage::WaitExiting),
            answers,
        ) == (
            seq![LoopActionView::IsExiting] + redraws(answers) + seq![LoopActionView::IsWaiting]
                + wakes(answers) + polls(state),
            state,
        ),
{
    let waiting = LoopStepView::Perform(LoopActionView::IsWaiting, LoopStage::WaitFlow);
    let list = LoopStepView::Perform(LoopActionView::ListWindows, LoopStage::WaitList);
    let exiting = LoopStepView::Perform(LoopActionView::IsExiting, LoopStage::WaitExiting);
    let animated = windows::ids(answers.windows@, |w: WindowStatus| windows::is_animated(w));
    let redraw = LoopActionView::RequestRedraw(animated);
    let rest = course(state, waiting, answers).0;
    lemma_waiting(state, answers);
    assert(course(state, LoopStepView::Perform(redraw, LoopStage::WaitRedraw), answers) == (
        seq![redraw] + rest,
        state,
    ));
    assert(course(state, list, answers) == (
        seq![LoopActionView::ListWindows] + (seq![redraw] + rest),
        state,
    ));
    assert(course(state, exiting, answers).0 =~= seq![LoopActionView::IsExiting] + redraws(answers)
        + seq![LoopActionView::IsWaiting] + wakes(answers) + polls(state));
}

proof fn lemma_usual_wait(state: EventLoopState, answers: LoopAnswers)
    ensures
        course(state, lifecycle::usual_about_to_wait(), answers) == (
            seq![LoopActionView::CreateInactiveWindows, LoopActionView::IsExiting] + redraws(answers)
                + seq![LoopActionView::IsWaiting] + wakes(answers) + polls(state),
            windows_created(state, answers),
        ),
{
    let after = windows_created(state, answers);
    let create = LoopActionView::CreateInactiveWindows;
    let exiting = LoopStepView::Perform(LoopActionView::IsExiting, LoopStage::WaitExiting);
    lemma_exiting(after, answers);
    assert(polls(after) == polls(state));
    assert(lifecycle::next_loop_step(state, LoopStage::WaitWindows, answers.reply(create)) == (
        after,
        exiting,
    ));
    let rest = course(after, exiting, answers);
    assert(course(state, lifecycle::usual_about_to_wait(), answers) == (
        seq![create] + rest.0,
        rest.1,
    ));
    let (r, w, p) = (redraws(answers), wakes(answers), polls(state));
    assert(seq![create] + (seq![LoopActionView::IsExiting] + r + seq![LoopActionView::IsWaiting] + w
        + p) =~= seq![create, LoopActionView::IsExiting] + r + seq![LoopActionView::IsWaiting] + w
        + p);
}

/// What is done before the loop waits, step by step, is what the script gives.
pub proof fn law_about_to_wait(state: EventLoopState, answers: LoopAnswers)
    ensures
        course(
            state,
            lifecycle::ask_handler(state, LoopStage::AboutToWait, lifecycle::usual_about_to_wait()),
            answers,
        ) == about_to_wait_script(state, answers),
{
    lemma_usual_wait(state, answers);
    let step = lifecycle::ask_handler(
        state,
        LoopStage::AboutToWait,
        lifecycle::usual_about_to_wait(),
    );
    reveal_with_fuel(course, 2);
    assert(course(state, step, answers).0 =~= about_to_wait_script(state, answers).0);
}

/// The control flow after some actions, given the one before.
pub open spec fn flow_after(flow: ControlFlow, actions: Seq<LoopActionView>) -> ControlFlow
    decreases actions.len(),
{
    if actions.len() == 0 {
        flow
    } else {
        match actions.last() {
            LoopActionView::SetControlFlow(set) => set,
            _ => flow_after(flow, actions.drop_last()),
        }
    }
}

proof fn lemma_flow_append(flow: ControlFlow, a: Seq<LoopActionView>, b: Seq<LoopActionView>)
    ensures
        flow_after(flow, a + b) == flow_after(flow_after(flow, a), b),
    decreases b.len(),
{
    if b.len() == 0 {
        assert(a + b =~= a);
    } else {
        assert((a + b).drop_last() =~= a + b.drop_last());
        lemma_flow_append(flow, a, b.drop_last());
    }
}

/// How the loop goes on after it has been about to wait: at once, if its events are pumped
/// instantly, whatever was set before; otherwise, if it was set to wait for the next event alone
/// and a timer is there, no later than the timer is due; otherwise as it was set.
pub proof fn law_control_flow(state: EventLoopState, flow: ControlFlow, answers: LoopAnswers)
    requires
        !prevented(state, answers),
        answers.waiting == (flow == ControlFlow::Wait),
    ensures
        flow_after(flow, about_to_wait_script(state, answers).0)
            == if state.pumping_events_instantly {
            ControlFlow::Poll
        } else {
            match answers.timer {
                Some(next) if flow == ControlFlow::Wait => ControlFlow::WaitDuration(next),
                _ => flow,
            }
        },
{
    let begin = asked(state) + seq![
        LoopActionView::CreateInactiveWindows,
        LoopActionView::IsExiting,
    ] + redraws(answers) + seq![LoopActionView::IsWaiting];
    reveal_with_fuel(flow_after, 7);
    assert(flow_after(flow, begin) == flow);
    lemma_flow_append(flow, begin, wakes(answers));
    lemma_flow_append(flow, begin + wakes(answers), polls(state));
    assert(about_to_wait_script(state, answers).0 =~= begin + wakes(answers) + polls(state));
}

/// What the handler of the application prevents is not done, and the state stays. What it does not
/// prevent is done after it has been asked, and it is asked once, before all else.
pub proof fn law_handler_comes_first(state: EventLoopState, answers: LoopAnswers)
    ensures
        ({
            let resumed = course(
                state,
                lifecycle::ask_handler(state, LoopStage::Resumed, lifecycle::usual_resumed()),
                answers,
            );
            let new_events = course(
                state,
                lifecycle::ask_handler(state, LoopStage::NewEvents, lifecycle::usual_new_events()),
                answers,
            );
            let waits = course(
                state,
                lifecycle::ask_handler(
                    state,
                    LoopStage::AboutToWait,
                    lifecycle::usual_about_to_wait(),
                ),
                answers,
            );
            let asked = seq![LoopActionView::CallHandler];
            let prevented = state.custom_application_handler && answers.handler
                == WinitWindowEventResult::PreventDefault;
            &&& prevented ==> resumed == (asked, state) && new_events == (asked, state) && waits == (
                asked,
                state,
            )
            &&& state.custom_application_handler ==> resumed.0[0] == asked[0] && new_events.0[0]
                == asked[0] && waits.0[0] == asked[0]
            &&& !state.custom_application_handler ==> resumed.0[0]
                == LoopActionView::CreateInactiveWindows && new_events.0[0]
                == LoopActionView::SetControlFlow(ControlFlow::Wait) && waits.0[0]
                == LoopActionView::CreateInactiveWindows
        }),
{
    law_resumed(state, answers);
    law_new_events(state, answers);
    law_about_to_wait(state, answers);
}

/// When the loop resumes, windows are created, and the loop is left if and only if that fails. When
/// new events begin, the loop is set to wait again and timers and animations are brought up to date,
/// and nothing is remembered.
pub proof fn law_resume_and_begin(state: EventLoopState, answers: LoopAnswers)
    requires
        state.custom_application_handler ==> answers.handler == WinitWindowEventResult::Propagate,
    ensures
        ({
            let n = if state.custom_application_handler {
                1int
            } else {
                0int
            };
            let (resumed, after) = course(
                state,
                lifecycle::ask_handler(state, LoopStage::Resumed, lifecycle::usual_resumed()),
                answers,
            );
            let (begun, then) = course(
                state,
                lifecycle::ask_handler(state, LoopStage::NewEvents, lifecycle::usual_new_events()),
                answers,
            );
            &&& resumed.len() == n + if answers.outcome is Some {
                2int
            } else {
                1int
            }
            &&& resumed[n] == LoopActionView::CreateInactiveWindows
            &&& answers.outcome is Some ==> resumed[n + 1] == LoopActionView::Exit
            &&& answers.outcome is Some ==> after == (EventLoopState {
                loop_error: answers.outcome,
                ..state
            })
            &&& answers.outcome is None ==> after == state
            &&& begun.len() == n + 2
            &&& begun[n] == LoopActionView::SetControlFlow(ControlFlow::Wait)
            &&& begun[n + 1] == LoopActionView::UpdateTimersAndAnimations
            &&& then == state
        }),
{
    law_resumed(state, answers);
    law_new_events(state, answers);
}

/// Before the loop waits, windows are created; unless the loop is being left, exactly the windows that
/// are there and animated are drawn again, in order; a loop that is set to wait for the next event
/// alone is woken for the next timer; and a loop whose events are pumped instantly does not wait. A
/// window that could not be created is the error of the loop from then on, but does not end it here.
pub proof fn law_before_waiting(state: EventLoopState, answers: LoopAnswers)
    requires
        state.custom_application_handler ==> answers.handler == WinitWindowEventResult::Propagate,
    ensures
        ({
            let (actions, after) = course(
                state,
                lifecycle::ask_handler(
                    state,
                    LoopStage::AboutToWait,
                    lifecycle::usual_about_to_wait(),
                ),
                answers,
            );
            let asked = if state.custom_application_handler {
                seq![LoopActionView::CallHandler]
            } else {
                seq![]
            };
            let redrawn = if answers.exiting {
                seq![]
            } else {
                seq![
                    LoopActionView::ListWindows,
                    LoopActionView::RequestRedraw(
                        answers.windows@.filter(
                            |w: WindowStatus| w.visibility is Some && w.animated,
                        ).map_values(|w: WindowStatus| w.id),
                    ),
                ]
            };
            let woken = match answers.timer {
                _ if !answers.waiting => seq![],
                Some(next) => seq![
                    LoopActionView::NextTimerUpdate,
                    LoopActionView::SetControlFlow(ControlFlow::WaitDuration(next)),
                ],
                None => seq![LoopActionView::NextTimerUpdate],
            };
            let polled = if state.pumping_events_instantly {
                seq![LoopActionView::SetControlFlow(ControlFlow::Poll)]
            } else {
                seq![]
            };
            &&& actions == asked + seq![
                LoopActionView::CreateInactiveWindows,
                LoopActionView::IsExiting,
            ] + redrawn + seq![LoopActionView::IsWaiting] + woken + polled
            &&& answers.outcome is Some ==> after == (EventLoopState {
                loop_error: answers.outcome,
                ..state
            })
            &&& answers.outcome is None ==> after == state
        }),
{
    law_about_to_wait(state, answers);
    assert((|w: WindowStatus| windows::is_animated(w)) =~= (|w: WindowStatus|
        w.visibility is Some && w.animated));
    assert((|w: WindowStatus| w.id) =~= (|w: WindowStatus| w.id));
    if !answers.waiting {
        assert(wakes(answers) =~= seq![]);
    } else if let Some(next) = answers.timer {
        assert(wakes(answers) =~= seq![
            LoopActionView::NextTimerUpdate,
            LoopActionView::SetControlFlow(ControlFlow::WaitDuration(next)),
        ]);
    } else {
        assert(wakes(answers) =~= seq![LoopActionView::NextTimerUpdate]);
    }
}

/// An action stands for what it says: the windows that are to be drawn again are those of the list,
/// in order, and the control flow is the one that is set.
pub proof fn law_actions_say_what_they_are(list: Vec<u64>, flow: ControlFlow, stage: LoopStage)
    ensures
        LoopAction::CallHandler@ == LoopActionView::CallHandler,
        LoopAction::CreateInactiveWindows@ == LoopActionView::CreateInactiveWindows,
        LoopAction::Exit@ == LoopActionView::Exit,
        LoopAction::SetControlFlow(flow)@ == LoopActionView::SetControlFlow(flow),
        LoopAction::UpdateTimersAndAnimations@ == LoopActionView::UpdateTimersAndAnimations,
        LoopAction::IsExiting@ == LoopActionView::IsExiting,
        LoopAction::ListWindows@ == LoopActionView::ListWindows,
        LoopAction::RequestRedraw(list)@ == LoopActionView::RequestRedraw(list@),
        LoopAction::IsWaiting@ == LoopActionView::IsWaiting,
        LoopAction::NextTimerUpdate@ == LoopActionView::NextTimerUpdate,
        LoopStep::Done@ == LoopStepView::Done,
        forall|action: LoopAction|
            (#[trigger] LoopStep::Perform(action, stage)@) == LoopStepView::Perform(action@, stage),
{
}

} // verus!
