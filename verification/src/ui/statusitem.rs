//! The menu bar item's decisions.
//!
//! The icon carries the one piece of state the user must never miss: whether
//! the microphone is open.
use vstd::prelude::*;

use crate::state::{receiving_spec, MicState, PeerView, UiState};
use crate::text::{decimal, decimal_string, push_all};

verus! {

/// What the menu bar asks the core to do.
#[derive(Debug, Clone, Copy, PartialEq, Eq, Structural)]
pub enum MenuAction {
    /// A left click. Show the roster, or hide it if it is already up.
    TogglePanel,
    /// A right click or a control click. Show the menu.
    ShowMenu,
    /// The menu's own "Open swivel" item.
    OpenPanel,
    ToggleMute,
    ToggleDnd,
    EndSession,
    CopyKey,
    Quit,
    /// Choose the input device at this position in the input device list.
    ChooseInput(usize),
    /// Choose the output device at this position in the output device list.
    ChooseOutput(usize),
    /// Follow the system defaults again.
    ResetDevices,
    /// Turn echo cancellation on or off.
    ToggleEchoCancellation,
}

/// Slot numbers written out and separated by single spaces.
pub open spec fn join_slots(slots: Seq<u8>) -> Seq<char>
    decreases slots.len(),
{
    if slots.len() == 0 {
        Seq::empty()
    } else if slots.len() == 1 {
        decimal(slots[0] as nat)
    } else {
        join_slots(slots.drop_last()) + seq![' '] + decimal(slots.last() as nat)
    }
}

/// The icon text for a state. Being offline beats every other state, then
/// do not disturb, then what the microphone is doing.
pub open spec fn title_spec(
    online: bool,
    dnd: bool,
    mic: MicState,
    live_slots: Seq<u8>,
    receiving: bool,
) -> Seq<char> {
    if !online {
        seq!['(', '(', '~', ')', ')']
    } else if dnd {
        seq!['(', '(', 'x', ')', ')']
    } else {
        match mic {
            MicState::Muted => seq!['(', '(', '/', ')', ')'],
            MicState::Live => if live_slots.len() == 0 {
                seq!['(', '(', '•', ')', ')']
            } else {
                seq!['(', '('] + join_slots(live_slots) + seq![')', ')']
            },
            MicState::Armed => seq!['(', '(', 'o', ')', ')'],
            MicState::Closed => if receiving {
                seq!['(', '(', '•', ')', ')']
            } else {
                seq!['(', '(', '·', ')', ')']
            },
        }
    }
}

/// Being offline beats every other state: an offline user cannot be live,
/// and an icon that said so would be a lie.
pub proof fn lemma_offline_beats_every_state(dnd: bool, mic: MicState, live_slots: Seq<u8>, receiving: bool)
    ensures
        title_spec(false, dnd, mic, live_slots, receiving) == seq!['(', '(', '~', ')', ')'],
{
}

/// An open microphone always shows: whenever it is armed or live and the
/// user is online and reachable, the icon differs from the idle one.
pub proof fn lemma_an_open_microphone_shows(mic: MicState, live_slots: Seq<u8>, receiving: bool)
    requires
        mic == MicState::Armed || mic == MicState::Live,
    ensures
        title_spec(true, false, mic, live_slots, receiving) != seq!['(', '(', '·', ')', ')'],
{
    let t = title_spec(true, false, mic, live_slots, receiving);
    let idle = seq!['(', '(', '·', ')', ')'];
    if mic == MicState::Live && live_slots.len() > 0 {
        let j = join_slots(live_slots);
        if live_slots.len() == 1 {
            assert(j == decimal(live_slots[0] as nat));
            if live_slots[0] < 10 {
                assert(j.len() == 1);
                assert(t[2] == j[0]);
                assert(t[2] != idle[2]);
            } else {
                let n = live_slots[0] as nat;
                assert(decimal(n / 10).len() >= 1);
                assert(j.len() >= 2);
                assert(t.len() != idle.len());
            }
        } else {
            assert(decimal(live_slots.last() as nat).len() >= 1);
            assert(j.len() >= 2);
            assert(t.len() != idle.len());
        }
    } else {
        assert(t[2] != idle[2]);
    }
}

/// The menu bar icon's text for a state.
pub fn title_for(state: &UiState) -> (r: String)
    ensures
        r@ == title_spec(
            state.online,
            state.dnd,
            state.mic,
            state.live_slots@,
            receiving_spec(state.peers@),
        ),
{
    let mut out = String::new();
    let open: Vec<char> = vec!['(', '('];
    let close: Vec<char> = vec![')', ')'];
    let mark: char = if !state.online {
        '~'
    } else if state.dnd {
        'x'
    } else {
        match state.mic {
            MicState::Muted => '/',
            MicState::Armed => 'o',
            MicState::Closed => if state.receiving() {
                '•'
            } else {
                '·'
            },
            MicState::Live => {
                if state.live_slots.len() == 0 {
                    '•'
                } else {
                    push_all(&mut out, open.as_slice());
                    let mut i: usize = 0;
                    while i < state.live_slots.len()
                        invariant
                            i <= state.live_slots@.len(),
                            state.live_slots@.len() > 0,
                            open@ == seq!['(', '('],
                            out@ == seq!['(', '('] + join_slots(
                                state.live_slots@.subrange(0, i as int),
                            ),
                        decreases state.live_slots@.len() - i,
                    {
                        proof {
                            let s = state.live_slots@.subrange(0, i + 1);
                            assert(s.drop_last() =~= state.live_slots@.subrange(0, i as int));
                            assert(s.last() == state.live_slots@[i as int]);
                            if i == 0 {
                                assert(s.len() == 1);
                            }
                        }
                        if i > 0 {
                            let space: Vec<char> = vec![' '];
                            push_all(&mut out, space.as_slice());
                        }
                        let digits = decimal_string(state.live_slots[i] as u64);
                        push_all(&mut out, crate::text::chars_of(digits.as_str()).as_slice());
                        i = i + 1;
                        proof {
                            let s = state.live_slots@.subrange(0, i as int);
                            if i == 1 {
                                assert(out@ =~= seq!['(', '('] + join_slots(s));
                            } else {
                                assert(out@ =~= seq!['(', '('] + join_slots(s));
                            }
                        }
                    }
                    push_all(&mut out, close.as_slice());
                    assert(state.live_slots@.subrange(0, state.live_slots@.len() as int)
                        =~= state.live_slots@);
                    assert(out@ =~= title_spec(
                        state.online,
                        state.dnd,
                        state.mic,
                        state.live_slots@,
                        receiving_spec(state.peers@),
                    ));
                    return out;
                }
            },
        }
    };
    push_all(&mut out, open.as_slice());
    let middle: Vec<char> = vec![mark];
    push_all(&mut out, middle.as_slice());
    push_all(&mut out, close.as_slice());
    assert(out@ =~= title_spec(
        state.online,
        state.dnd,
        state.mic,
        state.live_slots@,
        receiving_spec(state.peers@),
    ));
    out
}


/// One entry of a menu.
#[derive(Debug, Clone)]
pub enum MenuItem {
    /// A line between groups.
    Separator,
    /// A title that cannot be chosen.
    Header(String),
    /// A choosable entry, with its key equivalent and whether it is ticked.
    Entry { title: String, action: MenuAction, key: Option<char>, ticked: bool },
    /// Where the audio device submenu hangs.
    Devices,
}

/// A menu entry as text and values.
pub enum MenuItemView {
    Separator,
    Header(Seq<char>),
    Entry(Seq<char>, MenuAction, Option<char>, bool),
    Devices,
}

impl View for MenuItem {
    type V = MenuItemView;

    open spec fn view(&self) -> MenuItemView {
        match self {
            MenuItem::Separator => MenuItemView::Separator,
            MenuItem::Header(t) => MenuItemView::Header(t@),
            MenuItem::Entry { title, action, key, ticked } => MenuItemView::Entry(
                title@,
                *action,
                *key,
                *ticked,
            ),
            MenuItem::Devices => MenuItemView::Devices,
        }
    }
}

/// The views of a list of menu entries.
pub open spec fn items_view(items: Seq<MenuItem>) -> Seq<MenuItemView> {
    items.map_values(|i: MenuItem| i@)
}

/// The menu behind a right click: the device submenu sits above "Copy my
/// key", after the second separator.
pub open spec fn main_menu_spec() -> Seq<MenuItemView> {
    seq![
        MenuItemView::Entry("Open swivel   ⌃⌥⌘T"@, MenuAction::OpenPanel, None, false),
        MenuItemView::Separator,
        MenuItemView::Entry("Mute microphone   ⌃⌥⌘M"@, MenuAction::ToggleMute, None, false),
        MenuItemView::Entry("Do not disturb"@, MenuAction::ToggleDnd, None, false),
        MenuItemView::Entry("End session   ⌃⌥⌘⎋"@, MenuAction::EndSession, None, false),
        MenuItemView::Separator,
        MenuItemView::Devices,
        MenuItemView::Entry("Copy my key"@, MenuAction::CopyKey, None, false),
        MenuItemView::Entry("Quit swivel"@, MenuAction::Quit, Some('q'), false),
    ]
}

fn entry(title: &str, action: MenuAction, key: Option<char>, ticked: bool) -> (r: MenuItem)
    ensures
        r@ == MenuItemView::Entry(title@, action, key, ticked),
{
    let mut t = String::new();
    crate::text::append(&mut t, title);
    MenuItem::Entry { title: t, action, key, ticked }
}

/// The menu behind a right click.
pub fn main_menu() -> (r: Vec<MenuItem>)
    ensures
        items_view(r@) == main_menu_spec(),
{
    let items = vec![
        entry("Open swivel   ⌃⌥⌘T", MenuAction::OpenPanel, None, false),
        MenuItem::Separator,
        entry("Mute microphone   ⌃⌥⌘M", MenuAction::ToggleMute, None, false),
        entry("Do not disturb", MenuAction::ToggleDnd, None, false),
        entry("End session   ⌃⌥⌘⎋", MenuAction::EndSession, None, false),
        MenuItem::Separator,
        MenuItem::Devices,
        entry("Copy my key", MenuAction::CopyKey, None, false),
        entry("Quit swivel", MenuAction::Quit, Some('q'), false),
    ];
    assert(items_view(items@) =~= main_menu_spec());
    items
}

/// The entries that choose one device of a direction: its header, then every
/// device the host offers, indented, ticked where it is the one in use.
pub open spec fn device_section(
    label: Seq<char>,
    input: bool,
    names: Seq<String>,
    in_use: Option<Seq<char>>,
) -> Seq<MenuItemView> {
    seq![MenuItemView::Separator, MenuItemView::Header(label)] + Seq::new(
        names.len(),
        |i: int|
            MenuItemView::Entry(
                "   "@ + names[i]@,
                if input {
                    MenuAction::ChooseInput(i as usize)
                } else {
                    MenuAction::ChooseOutput(i as usize)
                },
                None,
                in_use == Some(names[i]@),
            ),
    )
}

/// A name as a text, if any.
pub open spec fn text_of(name: Option<&str>) -> Option<Seq<char>> {
    match name {
        Some(n) => Some(n@),
        None => None,
    }
}

/// The audio device submenu: echo cancellation, the way back to the system
/// defaults, then the microphones and the speakers the host offers.
///
/// "Use the system defaults" returns both directions to the system, so one
/// stored device is enough to take its tick away.
pub open spec fn devices_menu_spec(
    echo_cancelling: bool,
    input_device: Option<Seq<char>>,
    output_device: Option<Seq<char>>,
    input_names: Seq<String>,
    input_default: Option<Seq<char>>,
    output_names: Seq<String>,
    output_default: Option<Seq<char>>,
) -> Seq<MenuItemView> {
    seq![
        MenuItemView::Entry("Cancel echo"@, MenuAction::ToggleEchoCancellation, None, echo_cancelling),
        MenuItemView::Separator,
        MenuItemView::Entry(
            "Use the system defaults"@,
            MenuAction::ResetDevices,
            None,
            input_device is None && output_device is None,
        ),
    ] + device_section(
        "Microphone"@,
        true,
        input_names,
        crate::audio::device::in_use_spec(input_device, input_names, input_default),
    ) + device_section(
        "Speaker"@,
        false,
        output_names,
        crate::audio::device::in_use_spec(output_device, output_names, output_default),
    )
}

fn section(
    items: &mut Vec<MenuItem>,
    label: &str,
    input: bool,
    names: &[String],
    preferred: Option<&str>,
    default: Option<&str>,
)
    ensures
        items_view(final(items)@) == items_view(old(items)@) + device_section(
            label@,
            input,
            names@,
            crate::audio::device::in_use_spec(text_of(preferred), names@, text_of(default)),
        ),
{
    let ghost start = items_view(items@);
    let in_use = crate::audio::device::in_use(preferred, names, default);
    let ghost used = crate::audio::device::in_use_spec(text_of(preferred), names@, text_of(default));
    assert(in_use is Some <==> used is Some);
    items.push(MenuItem::Separator);
    let mut h = String::new();
    crate::text::append(&mut h, label);
    items.push(MenuItem::Header(h));
    let ghost head = seq![MenuItemView::Separator, MenuItemView::Header(label@)];
    assert(items_view(items@) =~= start + head);
    let mut i: usize = 0;
    while i < names.len()
        invariant
            i <= names@.len(),
            in_use is Some <==> used is Some,
            in_use matches Some(u) ==> u@ == used->Some_0,
            items_view(items@) == start + head + Seq::new(
                i as nat,
                |k: int|
                    MenuItemView::Entry(
                        "   "@ + names@[k]@,
                        if input {
                            MenuAction::ChooseInput(k as usize)
                        } else {
                            MenuAction::ChooseOutput(k as usize)
                        },
                        None,
                        used == Some(names@[k]@),
                    ),
            ),
        decreases names@.len() - i,
    {
        let ticked = match &in_use {
            Some(u) => {
                let a = crate::text::chars_of(u.as_str());
                let b = crate::text::chars_of(names[i].as_str());
                crate::text::chars_equal(a.as_slice(), b.as_slice())
            },
            None => false,
        };
        let mut title = String::new();
        crate::text::append(&mut title, "   ");
        crate::text::append(&mut title, names[i].as_str());
        let action = if input {
            MenuAction::ChooseInput(i)
        } else {
            MenuAction::ChooseOutput(i)
        };
        assert(ticked == (used == Some(names@[i as int]@)));
        let ghost prev = items@;
        let ghost v = MenuItemView::Entry(title@, action, None, ticked);
        items.push(MenuItem::Entry { title, action, key: None, ticked });
        assert(items_view(items@) =~= items_view(prev).push(v));
        i = i + 1;
        assert(items_view(items@) =~= start + head + Seq::new(
            i as nat,
            |k: int|
                MenuItemView::Entry(
                    "   "@ + names@[k]@,
                    if input {
                        MenuAction::ChooseInput(k as usize)
                    } else {
                        MenuAction::ChooseOutput(k as usize)
                    },
                    None,
                    used == Some(names@[k]@),
                ),
        ));
    }
    assert(items_view(items@) =~= start + device_section(label@, input, names@, used));
}

/// The audio device submenu.
pub fn devices_menu(
    echo_cancelling: bool,
    input_device: Option<&str>,
    output_device: Option<&str>,
    input_names: &[String],
    input_default: Option<&str>,
    output_names: &[String],
    output_default: Option<&str>,
) -> (r: Vec<MenuItem>)
    ensures
        items_view(r@) == devices_menu_spec(
            echo_cancelling,
            text_of(input_device),
            text_of(output_device),
            input_names@,
            text_of(input_default),
            output_names@,
            text_of(output_default),
        ),
{
    let mut items: Vec<MenuItem> = Vec::new();
    items.push(entry("Cancel echo", MenuAction::ToggleEchoCancellation, None, echo_cancelling));
    items.push(MenuItem::Separator);
    items.push(
        entry(
            "Use the system defaults",
            MenuAction::ResetDevices,
            None,
            input_device.is_none() && output_device.is_none(),
        ),
    );
    section(&mut items, "Microphone", true, input_names, input_device, input_default);
    section(&mut items, "Speaker", false, output_names, output_device, output_default);
    assert(items_view(items@) =~= devices_menu_spec(
        echo_cancelling,
        text_of(input_device),
        text_of(output_device),
        input_names@,
        text_of(input_default),
        output_names@,
        text_of(output_default),
    ));
    items
}


/// The text line of one menu entry: a separator as `--`, anything else with
/// its tick box and title.
pub open spec fn item_line(v: MenuItemView, indent: Seq<char>) -> Seq<char> {
    match v {
        MenuItemView::Separator => indent + "--\n"@,
        MenuItemView::Header(t) => indent + "[ ] "@ + t + "\n"@,
        MenuItemView::Entry(t, _, _, ticked) => indent + (if ticked {
            "[x] "@
        } else {
            "[ ] "@
        }) + t + "\n"@,
        MenuItemView::Devices => indent + "[ ] Audio devices\n"@,
    }
}

/// Menu entries as text, one line each, at one indent.
pub open spec fn lines_of(items: Seq<MenuItemView>, indent: Seq<char>) -> Seq<char>
    decreases items.len(),
{
    if items.len() == 0 {
        Seq::empty()
    } else {
        lines_of(items.drop_last(), indent) + item_line(items.last(), indent)
    }
}

/// The whole menu as text, ticks included: the device submenu's entries
/// follow the entry it hangs from, indented by two spaces.
pub open spec fn describe_spec(items: Seq<MenuItemView>, devices: Seq<MenuItemView>) -> Seq<char>
    decreases items.len(),
{
    if items.len() == 0 {
        Seq::empty()
    } else {
        describe_spec(items.drop_last(), devices) + item_line(items.last(), Seq::empty()) + (
        if items.last() is Devices {
            lines_of(devices, "  "@)
        } else {
            Seq::empty()
        })
    }
}

fn push_item_line(out: &mut String, item: &MenuItem, indent: &str)
    ensures
        final(out)@ == old(out)@ + item_line(item@, indent@),
{
    crate::text::append(out, indent);
    match item {
        MenuItem::Separator => crate::text::append(out, "--\n"),
        MenuItem::Header(t) => {
            crate::text::append(out, "[ ] ");
            crate::text::append(out, t.as_str());
            crate::text::append(out, "\n");
        },
        MenuItem::Entry { title, ticked, .. } => {
            crate::text::append(
                out,
                if *ticked {
                    "[x] "
                } else {
                    "[ ] "
                },
            );
            crate::text::append(out, title.as_str());
            crate::text::append(out, "\n");
        },
        MenuItem::Devices => crate::text::append(out, "[ ] Audio devices\n"),
    }
    assert(out@ =~= old(out)@ + item_line(item@, indent@));
}

fn push_lines(out: &mut String, items: &Vec<MenuItem>, indent: &str)
    ensures
        final(out)@ == old(out)@ + lines_of(items_view(items@), indent@),
{
    let ghost start = out@;
    let mut i: usize = 0;
    while i < items.len()
        invariant
            i <= items@.len(),
            out@ == start + lines_of(items_view(items@.subrange(0, i as int)), indent@),
        decreases items@.len() - i,
    {
        proof {
            assert(items_view(items@.subrange(0, i + 1)).drop_last() =~= items_view(
                items@.subrange(0, i as int),
            ));
        }
        push_item_line(out, &items[i], indent);
        i = i + 1;
        assert(out@ =~= start + lines_of(items_view(items@.subrange(0, i as int)), indent@));
    }
    assert(items@.subrange(0, items@.len() as int) =~= items@);
}

/// The whole menu as text, ticks included, for checking that exactly one
/// microphone and one speaker carry a tick without a screenshot.
pub fn describe_menu(items: &Vec<MenuItem>, devices: &Vec<MenuItem>) -> (r: String)
    ensures
        r@ == describe_spec(items_view(items@), items_view(devices@)),
{
    let mut out = String::new();
    let mut i: usize = 0;
    while i < items.len()
        invariant
            i <= items@.len(),
            out@ == describe_spec(items_view(items@.subrange(0, i as int)), items_view(devices@)),
        decreases items@.len() - i,
    {
        proof {
            assert(items_view(items@.subrange(0, i + 1)).drop_last() =~= items_view(
                items@.subrange(0, i as int),
            ));
        }
        let ghost before = out@;
        push_item_line(&mut out, &items[i], "");
        match &items[i] {
            MenuItem::Devices => push_lines(&mut out, devices, "  "),
            _ => {},
        }
        i = i + 1;
        proof {
            assert(""@ =~= Seq::<char>::empty()) by {
                reveal_strlit("");
            }
            assert(out@ =~= describe_spec(items_view(items@.subrange(0, i as int)), items_view(devices@)));
        }
    }
    assert(items@.subrange(0, items@.len() as int) =~= items@);
    out
}


/// With the user online, reachable and the microphone closed, the icon shows
/// incoming audio exactly when some live peer is speaking, and is the idle
/// icon otherwise.
pub proof fn lemma_closed_microphone_shows_incoming_audio(live_slots: Seq<u8>, peers: Seq<PeerView>)
    ensures
        (exists|i: int| 0 <= i < peers.len() && (#[trigger] peers[i]).live && peers[i].speaking)
            ==> title_spec(true, false, MicState::Closed, live_slots, receiving_spec(peers))
            == seq!['(', '(', '•', ')', ')'],
        !(exists|i: int| 0 <= i < peers.len() && (#[trigger] peers[i]).live && peers[i].speaking)
            ==> title_spec(true, false, MicState::Closed, live_slots, receiving_spec(peers))
            == seq!['(', '(', '·', ')', ')'],
{
    if exists|i: int| 0 <= i < peers.len() && (#[trigger] peers[i]).live && peers[i].speaking {
        let i = choose|i: int| 0 <= i < peers.len() && (#[trigger] peers[i]).live && peers[i].speaking;
        assert(peers[i].live && peers[i].speaking);
        assert(receiving_spec(peers));
    } else {
        assert(!receiving_spec(peers)) by {
            if receiving_spec(peers) {
                let i = choose|i: int| 0 <= i < peers.len() && #[trigger] peers[i].live && peers[i].speaking;
                assert((peers[i]).live && peers[i].speaking);
            }
        }
    }
}

} // verus!
