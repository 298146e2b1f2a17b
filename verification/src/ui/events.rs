//! What the interface does with a shortcut, a key in the roster, the search
//! field, or a menu choice.
//!
//! The interface never blocks on the core: every request to it is a one-way
//! command. Each handler here says which commands go out and what happens to
//! the panel; drawing and sending are the caller's.
use vstd::prelude::*;

use crate::text::{append, chars_of, lowercase, starts_with, starts_with_spec, to_lowercase, trim, trimmed};
use crate::ui::roster::{key_action_spec, Action};
use crate::ui::statusitem::MenuAction;

verus! {

/// A global shortcut.
#[derive(Debug, Clone, Copy, PartialEq, Eq, Structural)]
pub enum Shortcut {
    /// Open the panel.
    Talk,
    /// End the session and close the panel.
    Drop,
    /// Force the microphone off, without leaving the session.
    Mute,
}

/// Which shortcut a hot key event is, from the ids the three shortcuts were
/// registered under. An id that none of them has is ignored.
pub fn classify(id: u32, talk: u32, drop: u32, mute: u32) -> (r: Option<Shortcut>)
    ensures
        r == (if id == talk {
            Some(Shortcut::Talk)
        } else if id == drop {
            Some(Shortcut::Drop)
        } else if id == mute {
            Some(Shortcut::Mute)
        } else {
            None
        }),
{
    if id == talk {
        Some(Shortcut::Talk)
    } else if id == drop {
        Some(Shortcut::Drop)
    } else if id == mute {
        Some(Shortcut::Mute)
    } else {
        None
    }
}

/// A request from the interface to the core.
#[derive(Debug, Clone)]
pub enum UiCommand {
    ToggleSlot(u8),
    EndSession,
    ToggleMute,
    ToggleDnd,
    /// Close the microphone, but only if no session is using it.
    DisarmIfIdle,
    /// The key was copied; the panel says so for a moment.
    NoteKeyCopied,
    /// Choose an audio device; `None` follows the system default.
    SetDevice { input: bool, name: Option<String> },
    AddTicket(String),
    ApproveFirst,
    RejectFirst,
    Quit,
}

/// What the interface does in response to one event, in order.
#[derive(Debug, Clone)]
pub enum Effect {
    /// Send a command to the core.
    Send(UiCommand),
    /// Activate the application and show the panel with the current state.
    ShowPanel,
    /// Hide the panel.
    HidePanel,
    /// Show the menu bar menu.
    ShowMenu,
    /// Put the local key on the clipboard.
    CopyKey,
    /// Move the keyboard focus to the search field.
    FocusField,
    /// Move the keyboard focus back to the roster.
    FocusRoster,
    /// Empty the search field.
    ClearField,
    /// Quit the application.
    Terminate,
}

/// A command as values.
pub enum CommandView {
    ToggleSlot(u8),
    EndSession,
    ToggleMute,
    ToggleDnd,
    DisarmIfIdle,
    NoteKeyCopied,
    SetDevice(bool, Option<Seq<char>>),
    AddTicket(Seq<char>),
    ApproveFirst,
    RejectFirst,
    Quit,
}

/// An effect as values.
pub enum EffectView {
    Send(CommandView),
    ShowPanel,
    HidePanel,
    ShowMenu,
    CopyKey,
    FocusField,
    FocusRoster,
    ClearField,
    Terminate,
}

impl View for UiCommand {
    type V = CommandView;

    open spec fn view(&self) -> CommandView {
        match self {
            UiCommand::ToggleSlot(s) => CommandView::ToggleSlot(*s),
            UiCommand::EndSession => CommandView::EndSession,
            UiCommand::ToggleMute => CommandView::ToggleMute,
            UiCommand::ToggleDnd => CommandView::ToggleDnd,
            UiCommand::DisarmIfIdle => CommandView::DisarmIfIdle,
            UiCommand::NoteKeyCopied => CommandView::NoteKeyCopied,
            UiCommand::SetDevice { input, name } => CommandView::SetDevice(
                *input,
                match name {
                    Some(n) => Some(n@),
                    None => None,
                },
            ),
            UiCommand::AddTicket(t) => CommandView::AddTicket(t@),
            UiCommand::ApproveFirst => CommandView::ApproveFirst,
            UiCommand::RejectFirst => CommandView::RejectFirst,
            UiCommand::Quit => CommandView::Quit,
        }
    }
}

impl View for Effect {
    type V = EffectView;

    open spec fn view(&self) -> EffectView {
        match self {
            Effect::Send(c) => EffectView::Send(c@),
            Effect::ShowPanel => EffectView::ShowPanel,
            Effect::HidePanel => EffectView::HidePanel,
            Effect::ShowMenu => EffectView::ShowMenu,
            Effect::CopyKey => EffectView::CopyKey,
            Effect::FocusField => EffectView::FocusField,
            Effect::FocusRoster => EffectView::FocusRoster,
            Effect::ClearField => EffectView::ClearField,
            Effect::Terminate => EffectView::Terminate,
        }
    }
}

/// The views of a list of effects.
pub open spec fn effects_view(effects: Seq<Effect>) -> Seq<EffectView> {
    effects.map_values(|e: Effect| e@)
}

/// Closing the panel hides it and asks the core to close an idle
/// microphone: a session that ended while the panel was open would otherwise
/// leave the device running until the idle timer noticed.
pub open spec fn close_panel() -> Seq<EffectView> {
    seq![EffectView::HidePanel, EffectView::Send(CommandView::DisarmIfIdle)]
}

/// Copying the key puts it on the clipboard and tells the core, so the
/// panel can say so.
pub open spec fn copy_key() -> Seq<EffectView> {
    seq![EffectView::CopyKey, EffectView::Send(CommandView::NoteKeyCopied)]
}

/// What a global shortcut does.
pub open spec fn shortcut_spec(s: Shortcut) -> Seq<EffectView> {
    match s {
        Shortcut::Talk => seq![EffectView::ShowPanel],
        Shortcut::Drop => seq![EffectView::Send(CommandView::EndSession)] + close_panel(),
        Shortcut::Mute => seq![EffectView::Send(CommandView::ToggleMute)],
    }
}

fn send(effects: &mut Vec<Effect>, c: UiCommand)
    ensures
        effects_view(final(effects)@) == effects_view(old(effects)@).push(EffectView::Send(c@)),
{
    let ghost before = effects@;
    effects.push(Effect::Send(c));
    assert(effects_view(effects@) =~= effects_view(before).push(EffectView::Send(c@)));
}

fn push(effects: &mut Vec<Effect>, e: Effect)
    ensures
        effects_view(final(effects)@) == effects_view(old(effects)@).push(e@),
{
    let ghost before = effects@;
    effects.push(e);
    assert(effects_view(effects@) =~= effects_view(before).push(e@));
}

fn push_close_panel(effects: &mut Vec<Effect>)
    ensures
        effects_view(final(effects)@) == effects_view(old(effects)@) + close_panel(),
{
    let ghost before = effects_view(effects@);
    push(effects, Effect::HidePanel);
    send(effects, UiCommand::DisarmIfIdle);
    assert(effects_view(effects@) =~= before + close_panel());
}

/// What a global shortcut does.
pub fn on_shortcut(s: Shortcut) -> (r: Vec<Effect>)
    ensures
        effects_view(r@) == shortcut_spec(s),
{
    let mut effects: Vec<Effect> = Vec::new();
    match s {
        Shortcut::Talk => push(&mut effects, Effect::ShowPanel),
        Shortcut::Drop => {
            send(&mut effects, UiCommand::EndSession);
            push_close_panel(&mut effects);
        },
        Shortcut::Mute => send(&mut effects, UiCommand::ToggleMute),
    }
    assert(effects_view(effects@) =~= shortcut_spec(s));
    effects
}

/// What submitting the search field does. One field does two jobs: a key
/// that starts with `wt1`, in any case, is added as a contact; anything else
/// is a search, which the roster already applies as it is typed. An empty
/// field hands the focus back to the roster.
pub open spec fn submit_spec(field: Seq<char>) -> Seq<EffectView> {
    let t = trimmed(field);
    if t.len() == 0 {
        seq![EffectView::FocusRoster]
    } else if starts_with_spec(lowercase(t), seq!['w', 't', '1']) {
        seq![
            EffectView::Send(CommandView::AddTicket(t)),
            EffectView::ClearField,
            EffectView::FocusRoster,
        ]
    } else {
        Seq::empty()
    }
}

/// What submitting the search field does.
pub fn submit_field(field: &str) -> (r: Vec<Effect>)
    ensures
        effects_view(r@) == submit_spec(field@),
{
    let mut effects: Vec<Effect> = Vec::new();
    let t = trim(field);
    if t.unicode_len() == 0 {
        push(&mut effects, Effect::FocusRoster);
    } else {
        let lower = to_lowercase(t);
        let prefix: Vec<char> = vec!['w', 't', '1'];
        if starts_with(chars_of(lower.as_str()).as_slice(), prefix.as_slice()) {
            let mut ticket = String::new();
            append(&mut ticket, t);
            send(&mut effects, UiCommand::AddTicket(ticket));
            push(&mut effects, Effect::ClearField);
            push(&mut effects, Effect::FocusRoster);
        }
    }
    assert(effects_view(effects@) =~= submit_spec(field@));
    effects
}

/// What a key in the roster does. Escape hides the panel, or first empties
/// a search field that holds something; it never ends the session, because a
/// conversation must not stop because a window closed.
pub open spec fn roster_action_spec(action: Action, field: Seq<char>) -> Seq<EffectView> {
    match action {
        Action::ToggleSlot(s) => seq![EffectView::Send(CommandView::ToggleSlot(s))],
        Action::EndSession => seq![EffectView::Send(CommandView::EndSession)] + close_panel(),
        Action::ApproveFirstKnock => seq![EffectView::Send(CommandView::ApproveFirst)],
        Action::RejectFirstKnock => seq![EffectView::Send(CommandView::RejectFirst)],
        Action::FocusField => seq![EffectView::FocusField],
        Action::Submit => submit_spec(field),
        Action::CopyKey => copy_key(),
        Action::Close => if trimmed(field).len() == 0 {
            close_panel()
        } else {
            seq![EffectView::ClearField, EffectView::FocusRoster]
        },
    }
}

/// What a key in the roster does, given what the search field holds.
pub fn on_roster_action(action: Action, field: &str) -> (r: Vec<Effect>)
    ensures
        effects_view(r@) == roster_action_spec(action, field@),
{
    let mut effects: Vec<Effect> = Vec::new();
    match action {
        Action::ToggleSlot(s) => send(&mut effects, UiCommand::ToggleSlot(s)),
        Action::EndSession => {
            send(&mut effects, UiCommand::EndSession);
            push_close_panel(&mut effects);
        },
        Action::ApproveFirstKnock => send(&mut effects, UiCommand::ApproveFirst),
        Action::RejectFirstKnock => send(&mut effects, UiCommand::RejectFirst),
        Action::FocusField => push(&mut effects, Effect::FocusField),
        Action::Submit => {
            return submit_field(field);
        },
        Action::CopyKey => {
            push(&mut effects, Effect::CopyKey);
            send(&mut effects, UiCommand::NoteKeyCopied);
        },
        Action::Close => {
            if trim(field).unicode_len() == 0 {
                push_close_panel(&mut effects);
            } else {
                push(&mut effects, Effect::ClearField);
                push(&mut effects, Effect::FocusRoster);
            }
        },
    }
    assert(effects_view(effects@) =~= roster_action_spec(action, field@));
    effects
}

/// Choosing a device by its position in the list the menu showed. The list
/// is read again at the click; a device that went away in between no longer
/// resolves and nothing happens, which is better than switching to whatever
/// moved into its place.
pub open spec fn choose_device_spec(input: bool, index: usize, names: Seq<String>) -> Seq<EffectView> {
    if index < names.len() {
        seq![EffectView::Send(CommandView::SetDevice(input, Some(names[index as int]@)))]
    } else {
        Seq::empty()
    }
}

/// What a menu choice does, given whether the panel is showing and the
/// device names the host offers now.
pub open spec fn menu_action_spec(
    action: MenuAction,
    panel_visible: bool,
    input_names: Seq<String>,
    output_names: Seq<String>,
) -> Seq<EffectView> {
    match action {
        MenuAction::TogglePanel => if panel_visible {
            close_panel()
        } else {
            seq![EffectView::ShowPanel]
        },
        MenuAction::ShowMenu => seq![EffectView::ShowMenu],
        MenuAction::OpenPanel => seq![EffectView::ShowPanel],
        MenuAction::ToggleMute => seq![EffectView::Send(CommandView::ToggleMute)],
        MenuAction::ToggleDnd => seq![EffectView::Send(CommandView::ToggleDnd)],
        MenuAction::EndSession => seq![EffectView::Send(CommandView::EndSession)],
        MenuAction::CopyKey => copy_key(),
        MenuAction::ChooseInput(i) => choose_device_spec(true, i, input_names),
        MenuAction::ChooseOutput(i) => choose_device_spec(false, i, output_names),
        MenuAction::ResetDevices => seq![
            EffectView::Send(CommandView::SetDevice(true, None)),
            EffectView::Send(CommandView::SetDevice(false, None)),
        ],
        MenuAction::ToggleEchoCancellation => Seq::empty(),
        MenuAction::Quit => seq![EffectView::Send(CommandView::Quit), EffectView::Terminate],
    }
}

fn choose_device(effects: &mut Vec<Effect>, input: bool, index: usize, names: &[String])
    ensures
        effects_view(final(effects)@) == effects_view(old(effects)@) + choose_device_spec(
            input,
            index,
            names@,
        ),
{
    let ghost before = effects_view(effects@);
    if index < names.len() {
        let mut name = String::new();
        append(&mut name, names[index].as_str());
        send(effects, UiCommand::SetDevice { input, name: Some(name) });
    }
    assert(effects_view(effects@) =~= before + choose_device_spec(input, index, names@));
}

/// What a menu choice does.
pub fn on_menu_action(
    action: MenuAction,
    panel_visible: bool,
    input_names: &[String],
    output_names: &[String],
) -> (r: Vec<Effect>)
    ensures
        effects_view(r@) == menu_action_spec(action, panel_visible, input_names@, output_names@),
{
    let mut effects: Vec<Effect> = Vec::new();
    match action {
        MenuAction::TogglePanel => {
            if panel_visible {
                push_close_panel(&mut effects);
            } else {
                push(&mut effects, Effect::ShowPanel);
            }
        },
        MenuAction::ShowMenu => push(&mut effects, Effect::ShowMenu),
        MenuAction::OpenPanel => push(&mut effects, Effect::ShowPanel),
        MenuAction::ToggleMute => send(&mut effects, UiCommand::ToggleMute),
        MenuAction::ToggleDnd => send(&mut effects, UiCommand::ToggleDnd),
        MenuAction::EndSession => send(&mut effects, UiCommand::EndSession),
        MenuAction::CopyKey => {
            push(&mut effects, Effect::CopyKey);
            send(&mut effects, UiCommand::NoteKeyCopied);
        },
        MenuAction::ChooseInput(i) => choose_device(&mut effects, true, i, input_names),
        MenuAction::ChooseOutput(i) => choose_device(&mut effects, false, i, output_names),
        MenuAction::ResetDevices => {
            send(&mut effects, UiCommand::SetDevice { input: true, name: None });
            send(&mut effects, UiCommand::SetDevice { input: false, name: None });
        },
        MenuAction::ToggleEchoCancellation => {},
        MenuAction::Quit => {
            send(&mut effects, UiCommand::Quit);
            push(&mut effects, Effect::Terminate);
        },
    }
    assert(effects_view(effects@) =~= menu_action_spec(
        action,
        panel_visible,
        input_names@,
        output_names@,
    ));
    effects
}

/// Escape never ends a session: whatever the search field holds, closing
/// the roster sends no command but the idle check.
pub proof fn lemma_escape_never_ends_the_session(field: Seq<char>)
    ensures
        !roster_action_spec(Action::Close, field).contains(EffectView::Send(CommandView::EndSession)),
{
    let effects = roster_action_spec(Action::Close, field);
    if effects.contains(EffectView::Send(CommandView::EndSession)) {
        let i = choose|i: int| 0 <= i < effects.len() && effects[i] == EffectView::Send(CommandView::EndSession);
        assert(effects[i] == EffectView::Send(CommandView::EndSession));
    }
}

/// Hiding the panel always asks the core to close an idle microphone, so a
/// closed panel never leaves the device running on its account.
pub proof fn lemma_hiding_the_panel_disarms(
    action: MenuAction,
    panel_visible: bool,
    input_names: Seq<String>,
    output_names: Seq<String>,
    i: int,
)
    requires
        0 <= i < menu_action_spec(action, panel_visible, input_names, output_names).len(),
        menu_action_spec(action, panel_visible, input_names, output_names)[i] == EffectView::HidePanel,
    ensures
        i + 1 < menu_action_spec(action, panel_visible, input_names, output_names).len(),
        menu_action_spec(action, panel_visible, input_names, output_names)[i + 1] == EffectView::Send(
            CommandView::DisarmIfIdle,
        ),
{
}

/// Looking at the roster is not talking: opening the panel, by the shortcut
/// or from the menu, sends the core nothing, so no microphone opens for a
/// glance.
pub proof fn lemma_opening_the_panel_sends_nothing(
    panel_visible: bool,
    input_names: Seq<String>,
    output_names: Seq<String>,
)
    ensures
        shortcut_spec(Shortcut::Talk) == seq![EffectView::ShowPanel],
        menu_action_spec(MenuAction::OpenPanel, panel_visible, input_names, output_names) == seq![
            EffectView::ShowPanel,
        ],
        !panel_visible ==> menu_action_spec(MenuAction::TogglePanel, false, input_names, output_names)
            == seq![EffectView::ShowPanel],
{
}


/// Each roster key does its own thing, whatever the search field holds: `a`
/// approves the first waiting endpoint and `x` rejects it, each by sending
/// exactly its own command; a digit sends exactly the toggle for that slot;
/// ending the session sends the end first; `/` only moves the focus.
pub proof fn lemma_roster_keys_send_their_own_command(field: Seq<char>, s: u8)
    ensures
        key_action_spec('a') == Some(Action::ApproveFirstKnock),
        key_action_spec('x') == Some(Action::RejectFirstKnock),
        roster_action_spec(Action::ApproveFirstKnock, field) == seq![
            EffectView::Send(CommandView::ApproveFirst),
        ],
        roster_action_spec(Action::RejectFirstKnock, field) == seq![
            EffectView::Send(CommandView::RejectFirst),
        ],
        roster_action_spec(Action::ToggleSlot(s), field) == seq![
            EffectView::Send(CommandView::ToggleSlot(s)),
        ],
        roster_action_spec(Action::EndSession, field)[0] == EffectView::Send(CommandView::EndSession),
        roster_action_spec(Action::FocusField, field) == seq![EffectView::FocusField],
{
}

} // verus!
