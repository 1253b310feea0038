//! The events that the program itself sends to the event loop.

use vstd::prelude::*;
use vstd::string::StringExecFns;

use crate::event_loop::menu;
use crate::event_loop::state::EventLoopState;
use crate::event_loop::windows;
use crate::event_loop::windows::{WindowStatus, WindowVisibility};

verus! {

/// An event that is sent to the event loop in addition to those of the windowing system.
#[derive(Debug)]
pub enum CustomEvent {
    /// Wakes the loop in a browser, where asking for a redraw does not.
    WakeEventLoopWorkaround,
    /// Runs a callback in the loop.
    UserEvent,
    /// Leaves the loop.
    Exit,
    /// An event of the assistive technology for a window, with its description.
    Accesskit { window_id: u64, description: String },
    /// An entry of a menu was chosen: the id of the entry, and the descriptions of the event and
    /// of the menu.
    Muda { id: String, description: String, menu: String },
}

/// What is to be done next about an event.
#[derive(Debug)]
pub enum UserAction {
    /// Run the callback of the event.
    RunCallback,
    /// List the windows. The reply is the list.
    ListWindows,
    /// Free the graphics resources of these windows.
    SuspendWindows(Vec<u64>),
    /// Leave the event loop.
    Exit,
    /// Look up a window. The reply is whether it is there.
    FindWindow(u64),
    /// Hand the event to the assistive technology. The reply is whether an action is left.
    ProcessAccessibilityEvent,
    /// Invoke the action that the assistive technology left.
    InvokeDeferredAction,
    /// Let the loop go on at once.
    Poll,
    /// Tell the window that this entry of the menu was chosen.
    MenuEvent(usize),
}

/// The answer to an action.
#[derive(Debug)]
pub enum UserReply {
    /// The action is done.
    Finished,
    /// The windows.
    Windows(Vec<WindowStatus>),
    /// Whether it is so.
    Flag(bool),
}

/// What is waited for.
#[derive(Clone, Copy, Debug, PartialEq, Eq, Structural)]
pub enum UserStage {
    /// The list of the windows, before the loop is left.
    ExitWindows,
    /// The windows to be suspended, before the loop is left.
    ExitSuspended,
    /// The window for the assistive technology.
    AccessibilityWindow,
    /// The assistive technology.
    Accessibility,
    /// The window of a menu.
    MenuWindow(usize),
    /// The last action.
    Last,
}

/// Where things stand.
#[derive(Debug)]
pub enum UserStep {
    /// Nothing is left to do.
    Done,
    /// The action is to be done, and the reply handed back with the stage.
    Perform(UserAction, UserStage),
}

/// What is to be done next about an event, as a mathematical value.
pub enum UserActionView {
    RunCallback,
    ListWindows,
    SuspendWindows(Seq<u64>),
    Exit,
    FindWindow(u64),
    ProcessAccessibilityEvent,
    InvokeDeferredAction,
    Poll,
    MenuEvent(usize),
}

/// Where things stand, as a mathematical value.
pub enum UserStepView {
    Done,
    Perform(UserActionView, UserStage),
}

impl View for UserAction {
    type V = UserActionView;

    open spec fn view(&self) -> UserActionView {
        match self {
            UserAction::RunCallback => UserActionView::RunCallback,
            UserAction::ListWindows => UserActionView::ListWindows,
            UserAction::SuspendWindows(list) => UserActionView::SuspendWindows(list@),
            UserAction::Exit => UserActionView::Exit,
            UserAction::FindWindow(id) => UserActionView::FindWindow(*id),
            UserAction::ProcessAccessibilityEvent => UserActionView::ProcessAccessibilityEvent,
            UserAction::InvokeDeferredAction => UserActionView::InvokeDeferredAction,
            UserAction::Poll => UserActionView::Poll,
            UserAction::MenuEvent(entry) => UserActionView::MenuEvent(*entry),
        }
    }
}

impl View for UserStep {
    type V = UserStepView;

    open spec fn view(&self) -> UserStepView {
        match self {
            UserStep::Done => UserStepView::Done,
            UserStep::Perform(action, stage) => UserStepView::Perform(action@, *stage),
        }
    }
}

/// Whether a reply is one to what is waited for.
pub open spec fn answers(stage: UserStage, reply: UserReply) -> bool {
    match stage {
        UserStage::ExitWindows => reply is Windows,
        UserStage::AccessibilityWindow | UserStage::Accessibility | UserStage::MenuWindow(_) =>
            reply is Flag,
        UserStage::ExitSuspended | UserStage::Last => reply is Finished,
    }
}

/// The first step for an event.
pub open spec fn first_step(event: CustomEvent) -> UserStepView {
    match event {
        CustomEvent::WakeEventLoopWorkaround => UserStepView::Perform(
            UserActionView::Poll,
            UserStage::Last,
        ),
        CustomEvent::UserEvent => UserStepView::Perform(UserActionView::RunCallback, UserStage::Last),
        CustomEvent::Exit => UserStepView::Perform(UserActionView::ListWindows, UserStage::ExitWindows),
        CustomEvent::Accesskit { window_id, .. } => UserStepView::Perform(
            UserActionView::FindWindow(window_id),
            UserStage::AccessibilityWindow,
        ),
        CustomEvent::Muda { id, .. } => match menu::menu_entry(id@) {
            Some((window, entry)) => UserStepView::Perform(
                UserActionView::FindWindow(window as u64),
                UserStage::MenuWindow(entry as usize),
            ),
            None => UserStepView::Done,
        },
    }
}

/// The next step, given the reply to what was waited for.
pub open spec fn next_step(stage: UserStage, reply: UserReply) -> UserStepView {
    match (stage, reply) {
        (UserStage::ExitWindows, UserReply::Windows(list)) => UserStepView::Perform(
            UserActionView::SuspendWindows(
                windows::ids(list@, |w: WindowStatus| windows::is_hidden(w)),
            ),
            UserStage::ExitSuspended,
        ),
        (UserStage::ExitSuspended, _) => UserStepView::Perform(UserActionView::Exit, UserStage::Last),
        (UserStage::AccessibilityWindow, UserReply::Flag(true)) => UserStepView::Perform(
            UserActionView::ProcessAccessibilityEvent,
            UserStage::Accessibility,
        ),
        (UserStage::Accessibility, UserReply::Flag(true)) => UserStepView::Perform(
            UserActionView::InvokeDeferredAction,
            UserStage::Last,
        ),
        (UserStage::MenuWindow(entry), UserReply::Flag(true)) => UserStepView::Perform(
            UserActionView::MenuEvent(entry),
            UserStage::Last,
        ),
        _ => UserStepView::Done,
    }
}

impl CustomEvent {
    /// The description of the event.
    pub open spec fn spec_description(&self) -> Seq<char> {
        match self {
            CustomEvent::WakeEventLoopWorkaround => "WakeEventLoopWorkaround"@,
            CustomEvent::UserEvent => "UserEvent"@,
            CustomEvent::Exit => "Exit"@,
            CustomEvent::Accesskit { description, .. } => "AccessKit("@ + description@ + ")"@,
            CustomEvent::Muda { description, menu, .. } => "Muda("@ + description@ + ","@ + menu@
                + ")"@,
        }
    }

    /// Describe the event for debugging.
    pub fn fmt(&self) -> (text: String)
        ensures
            text@ == self.spec_description(),
    {
        match self {
            CustomEvent::WakeEventLoopWorkaround => String::from_str("WakeEventLoopWorkaround"),
            CustomEvent::UserEvent => String::from_str("UserEvent"),
            CustomEvent::Exit => String::from_str("Exit"),
            CustomEvent::Accesskit { description, .. } => String::from_str("AccessKit(").concat(
                description.as_str(),
            ).concat(")"),
            CustomEvent::Muda { description, menu, .. } => String::from_str("Muda(").concat(
                description.as_str(),
            ).concat(",").concat(menu.as_str()).concat(")"),
        }
    }
}

impl EventLoopState {
    /// Begin with an event that the program itself sent.
    pub fn user_event(&self, event: &CustomEvent) -> (step: UserStep)
        ensures
            step@ == first_step(*event),
    {
        match event {
            CustomEvent::WakeEventLoopWorkaround => UserStep::Perform(
                UserAction::Poll,
                UserStage::Last,
            ),
            CustomEvent::UserEvent => UserStep::Perform(UserAction::RunCallback, UserStage::Last),
            CustomEvent::Exit => UserStep::Perform(
                UserAction::ListWindows,
                UserStage::ExitWindows,
            ),
            CustomEvent::Accesskit { window_id, .. } => UserStep::Perform(
                UserAction::FindWindow(*window_id),
                UserStage::AccessibilityWindow,
            ),
            CustomEvent::Muda { id, .. } => match menu::parse_menu_id(id.as_str()) {
                Some((window, entry)) => UserStep::Perform(
                    UserAction::FindWindow(window),
                    UserStage::MenuWindow(entry),
                ),
                None => UserStep::Done,
            },
        }
    }

    /// Go on with an event that the program itself sent, given the reply to what was waited for.
    pub fn resume_user_event(&self, stage: UserStage, reply: UserReply) -> (step: UserStep)
        requires
            answers(stage, reply),
        ensures
            step@ == next_step(stage, reply),
    {
        match (stage, reply) {
            (UserStage::ExitWindows, UserReply::Windows(list)) => UserStep::Perform(
                UserAction::SuspendWindows(windows::windows_to_suspend(&list)),
                UserStage::ExitSuspended,
            ),
            (UserStage::ExitSuspended, _) => UserStep::Perform(UserAction::Exit, UserStage::Last),
            (UserStage::AccessibilityWindow, UserReply::Flag(true)) => UserStep::Perform(
                UserAction::ProcessAccessibilityEvent,
                UserStage::Accessibility,
            ),
            (UserStage::Accessibility, UserReply::Flag(true)) => UserStep::Perform(
                UserAction::InvokeDeferredAction,
                UserStage::Last,
            ),
            (UserStage::MenuWindow(entry), UserReply::Flag(true)) => UserStep::Perform(
                UserAction::MenuEvent(entry),
                UserStage::Last,
            ),
            _ => UserStep::Done,
        }
    }
}

/// Whether a reply is of the sort that an action asks for.
pub open spec fn is_reply(action: UserActionView, reply: UserReply) -> bool {
    match action {
        UserActionView::ListWindows => reply is Windows,
        UserActionView::FindWindow(_) | UserActionView::ProcessAccessibilityEvent => reply is Flag,
        _ => reply is Finished,
    }
}

/// Whether a step waits for the reply, if that is of the sort that its action asks for.
pub open spec fn is_answered_by(step: UserStepView, reply: UserReply) -> bool {
    step matches UserStepView::Perform(action, stage) ==> is_reply(action, reply) ==> answers(
        stage,
        reply,
    )
}

/// Whoever answers each action with a reply of its sort can go on to the end of the event.
pub proof fn law_replies_answer(
    event: CustomEvent,
    stage: UserStage,
    earlier: UserReply,
    reply: UserReply,
)
    ensures
        is_answered_by(first_step(event), reply),
        is_answered_by(next_step(stage, earlier), reply),
{
}

/// How far a stage is from the end at most.
pub open spec fn rank(stage: UserStage) -> int {
    match stage {
        UserStage::Last => 1,
        UserStage::ExitSuspended | UserStage::Accessibility | UserStage::MenuWindow(_) => 2,
        UserStage::ExitWindows | UserStage::AccessibilityWindow => 3,
    }
}

/// How many actions a step is from the end at most.
pub open spec fn actions_left(step: UserStepView) -> int {
    match step {
        UserStepView::Done => 0,
        UserStepView::Perform(_, stage) => rank(stage),
    }
}

/// Each reply brings the handling of an event nearer to its end.
pub proof fn law_user_event_ends(stage: UserStage, reply: UserReply)
    ensures
        actions_left(next_step(stage, reply)) < rank(stage),
{
}

/// All that the surroundings say in the course of one event.
pub struct UserAnswers {
    /// The windows.
    pub windows: Vec<WindowStatus>,
    /// Whether the window that the event is for is there.
    pub window_found: bool,
    /// Whether the assistive technology leaves an action.
    pub action_left: bool,
}

impl UserAnswers {
    /// The reply to an action.
    pub open spec fn reply(self, action: UserActionView) -> UserReply {
        match action {
            UserActionView::ListWindows => UserReply::Windows(self.windows),
            UserActionView::FindWindow(_) => UserReply::Flag(self.window_found),
            UserActionView::ProcessAccessibilityEvent => UserReply::Flag(self.action_left),
            _ => UserReply::Finished,
        }
    }
}

/// The actions from a step to the end.
pub open spec fn course(step: UserStepView, answers: UserAnswers) -> Seq<UserActionView>
    decreases actions_left(step),
{
    match step {
        UserStepView::Done => Seq::empty(),
        UserStepView::Perform(action, stage) => seq![action] + course(
            next_step(stage, answers.reply(action)),
            answers,
        ),
    }
}

/// The handling of an event from its beginning to its end. The loop is left only after the hidden
/// windows have been suspended.
pub open spec fn script(event: CustomEvent, answers: UserAnswers) -> Seq<UserActionView> {
    match event {
        CustomEvent::WakeEventLoopWorkaround => seq![UserActionView::Poll],
        CustomEvent::UserEvent => seq![UserActionView::RunCallback],
        CustomEvent::Exit => seq![
            UserActionView::ListWindows,
            UserActionView::SuspendWindows(
                windows::ids(answers.windows@, |w: WindowStatus| windows::is_hidden(w)),
            ),
            UserActionView::Exit,
        ],
        CustomEvent::Accesskit { window_id, .. } => seq![UserActionView::FindWindow(window_id)] + if
            !answers.window_found {
            Seq::empty()
        } else if !answers.action_left {
            seq![UserActionView::ProcessAccessibilityEvent]
        } else {
            seq![
                UserActionView::ProcessAccessibilityEvent,
                UserActionView::InvokeDeferredAction,
            ]
        },
        CustomEvent::Muda { id, .. } => match menu::menu_entry(id@) {
            Some((window, entry)) => seq![UserActionView::FindWindow(window as u64)] + if
                answers.window_found {
                seq![UserActionView::MenuEvent(entry as usize)]
            } else {
                Seq::empty()
            },
            None => Seq::empty(),
        },
    }
}

/// The handling of an event, step by step, is the one that the script gives.
pub proof fn law_script(event: CustomEvent, answers: UserAnswers)
    ensures
        course(first_step(event), answers) == script(event, answers),
{
    reveal_with_fuel(course, 4);
    assert(course(first_step(event), answers) =~= script(event, answers));
}

/// The loop is left only by the event that asks for it, and then only after the hidden windows have
/// been suspended.
pub proof fn law_exit_suspends_first(event: CustomEvent, answers: UserAnswers, i: int)
    requires
        0 <= i < script(event, answers).len(),
        script(event, answers)[i] == UserActionView::Exit,
    ensures
        event == CustomEvent::Exit,
        i > 0,
        script(event, answers)[i - 1] == UserActionView::SuspendWindows(
            windows::ids(answers.windows@, |w: WindowStatus| windows::is_hidden(w)),
        ),
{
}

/// A callback is run, and waking lets the loop go on at once; nothing else is done for either.
pub proof fn law_callbacks_and_waking(answers: UserAnswers)
    ensures
        course(first_step(CustomEvent::UserEvent), answers) == seq![UserActionView::RunCallback],
        course(first_step(CustomEvent::WakeEventLoopWorkaround), answers) == seq![
            UserActionView::Poll,
        ],
{
    law_script(CustomEvent::UserEvent, answers);
    law_script(CustomEvent::WakeEventLoopWorkaround, answers);
}

/// Leaving the loop suspends exactly the windows that are there and hidden, in order, and then leaves.
pub proof fn law_exit(answers: UserAnswers)
    ensures
        course(first_step(CustomEvent::Exit), answers) == seq![
            UserActionView::ListWindows,
            UserActionView::SuspendWindows(
                answers.windows@.filter(
                    |w: WindowStatus| w.visibility == Some(WindowVisibility::Hidden),
                ).map_values(|w: WindowStatus| w.id),
            ),
            UserActionView::Exit,
        ],
{
    law_script(CustomEvent::Exit, answers);
    assert((|w: WindowStatus| windows::is_hidden(w)) =~= (|w: WindowStatus|
        w.visibility == Some(WindowVisibility::Hidden)));
}

/// An event of the assistive technology is handed to it where the window that it names is there, and
/// what it leaves to be done is done; without the window nothing is.
pub proof fn law_assistive_technology(window_id: u64, description: String, answers: UserAnswers)
    ensures
        ({
            let actions = course(
                first_step(CustomEvent::Accesskit { window_id, description }),
                answers,
            );
            let find = UserActionView::FindWindow(window_id);
            let process = UserActionView::ProcessAccessibilityEvent;
            &&& !answers.window_found ==> actions == seq![find]
            &&& answers.window_found && !answers.action_left ==> actions == seq![find, process]
            &&& answers.window_found && answers.action_left ==> actions == seq![
                find,
                process,
                UserActionView::InvokeDeferredAction,
            ]
        }),
{
    law_script(CustomEvent::Accesskit { window_id, description }, answers);
    let actions = course(first_step(CustomEvent::Accesskit { window_id, description }), answers);
    let find = UserActionView::FindWindow(window_id);
    let process = UserActionView::ProcessAccessibilityEvent;
    if !answers.window_found {
        assert(actions =~= seq![find]);
    } else if !answers.action_left {
        assert(actions =~= seq![find, process]);
    } else {
        assert(actions =~= seq![find, process, UserActionView::InvokeDeferredAction]);
    }
}

/// Choosing an entry of a menu reaches the window whose number stands before the bar in the id, if it
/// is there, with the number of the entry behind it. An id that is not of this form, or whose window
/// is not there, reaches nobody.
pub proof fn law_menu(
    id: String,
    description: String,
    menu: String,
    window: u64,
    entry: usize,
    answers: UserAnswers,
)
    ensures
        ({
            let actions = course(first_step(CustomEvent::Muda { id, description, menu }), answers);
            &&& id@ == menu::decimal(window as nat) + seq!['|'] + menu::decimal(entry as nat)
                ==> actions == if answers.window_found {
                seq![UserActionView::FindWindow(window), UserActionView::MenuEvent(entry)]
            } else {
                seq![UserActionView::FindWindow(window)]
            }
            &&& !id@.contains('|') ==> actions.len() == 0
            &&& menu::menu_entry(id@) is None ==> actions.len() == 0
            &&& menu::menu_entry(id@) == Some((window as nat, entry as nat)) ==> actions
                == if answers.window_found {
                seq![UserActionView::FindWindow(window), UserActionView::MenuEvent(entry)]
            } else {
                seq![UserActionView::FindWindow(window)]
            }
        }),
{
    let event = CustomEvent::Muda { id, description, menu };
    law_script(event, answers);
    menu::law_every_entry_has_an_id(window, entry);
    if !id@.contains('|') {
        menu::law_other_ids_stand_for_nothing(id@, seq![]);
    }
    let actions = course(first_step(event), answers);
    if menu::menu_entry(id@) == Some((window as nat, entry as nat)) {
        if answers.window_found {
            assert(actions =~= seq![
                UserActionView::FindWindow(window),
                UserActionView::MenuEvent(entry),
            ]);
        } else {
            assert(actions =~= seq![UserActionView::FindWindow(window)]);
        }
    }
}

/// The description of an event says which one it is, and for the assistive technology and for menus
/// what they say of it, as they say it.
pub proof fn law_descriptions(
    window_id: u64,
    id: String,
    description: String,
    menu: String,
)
    ensures
        CustomEvent::UserEvent.spec_description() == "UserEvent"@,
        CustomEvent::Exit.spec_description() == "Exit"@,
        CustomEvent::WakeEventLoopWorkaround.spec_description() == "WakeEventLoopWorkaround"@,
        (CustomEvent::Accesskit { window_id, description }).spec_description() == "AccessKit("@
            + description@ + ")"@,
        (CustomEvent::Muda { id, description, menu }).spec_description() == "Muda("@ + description@
            + ","@ + menu@ + ")"@,
{
}

/// An action stands for what it says: the windows, the window and the entry are those that it names.
pub proof fn law_actions_say_what_they_are(list: Vec<u64>, id: u64, entry: usize, stage: UserStage)
    ensures
        UserAction::RunCallback@ == UserActionView::RunCallback,
        UserAction::ListWindows@ == UserActionView::ListWindows,
        UserAction::SuspendWindows(list)@ == UserActionView::SuspendWindows(list@),
        UserAction::Exit@ == UserActionView::Exit,
        UserAction::FindWindow(id)@ == UserActionView::FindWindow(id),
        UserAction::ProcessAccessibilityEvent@ == UserActionView::ProcessAccessibilityEvent,
        UserAction::InvokeDeferredAction@ == UserActionView::InvokeDeferredAction,
        UserAction::Poll@ == UserActionView::Poll,
        UserAction::MenuEvent(entry)@ == UserActionView::MenuEvent(entry),
        UserStep::Done@ == UserStepView::Done,
        forall|action: UserAction|
            (#[trigger] UserStep::Perform(action, stage)@) == UserStepView::Perform(action@, stage),
{
}

} // verus!
