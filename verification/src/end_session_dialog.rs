//! The logout, power-off and restart confirmation dialog.
//!
//! Each type has one action button beside Cancel, so the layout is fixed. Left, Right and Tab
//! move the focus, Enter activates the focused button, Escape cancels; the pointer hovers to
//! focus and clicks to activate. Which type, and how many seconds are left, come from the
//! session's own state machine.

use vstd::prelude::*;
use vstd::string::*;

use crate::area::UNITS;
use crate::card::{half, in_card_reach, inner_box, label_origin, stacked_origins, CARD_REACH};
use crate::exit_confirm_dialog::{DialogLayer, DialogState};
use crate::keys::Key;
use crate::node::{
    new_node, node_description, node_label, node_modal, node_role, set_label, set_modal, NodeRole,
};
use crate::rect::{max_of, Rect};
use crate::text::{decimal, digits};

verus! {

pub const WIDTH: i32 = 400;

pub const HEIGHT: i32 = 190;

pub const PADDING: i32 = 24;

pub const BUTTON_W: i32 = 120;

pub const BUTTON_H: i32 = 40;

pub const BUTTON_GAP: i32 = 12;

/// How the session is to end.
#[derive(Clone, Copy, Debug, PartialEq, Eq, Structural)]
pub enum EndSessionType {
    Logout,
    Shutdown,
    Restart,
}

/// An output's size, in units.
#[derive(Clone, Copy, Debug, PartialEq, Eq, Structural)]
pub struct Screen {
    pub w: i64,
    pub h: i64,
}

/// Where the dialog starts on an output, in half units: centred, but not off the near edge.
pub open spec fn corner(len: int, side: int) -> int {
    if len > side * UNITS {
        len - side * UNITS
    } else {
        0
    }
}

/// The button that has the focus. Hovering a button focuses it.
#[derive(Clone, Copy, Debug, PartialEq, Eq, Structural)]
pub enum Button {
    Cancel,
    Action,
}

impl Button {
    /// The other button.
    pub fn toggled(self) -> (other: Self)
        ensures
            other == if self == Button::Cancel {
                Button::Action
            } else {
                Button::Cancel
            },
    {
        match self {
            Button::Cancel => Button::Action,
            Button::Action => Button::Cancel,
        }
    }

    /// What activating the button asks for.
    pub open spec fn asks(self) -> DialogOutcome {
        match self {
            Button::Cancel => DialogOutcome::Cancel,
            Button::Action => DialogOutcome::Confirm,
        }
    }

    /// The button's left edge in the dialog, in logical pixels.
    pub open spec fn left(self) -> int {
        match self {
            Button::Cancel => 124,
            Button::Action => 256,
        }
    }

    /// The point of an output is on the button. All of it doubled, because the dialog's corner
    /// may be on half a unit.
    pub open spec fn holds(self, out: Screen, x: int, y: int) -> bool {
        let left = corner(out.w as int, WIDTH as int) + 2 * UNITS * self.left();
        let top = corner(out.h as int, HEIGHT as int) + 2 * UNITS * 126;
        &&& left <= 2 * x < left + 2 * UNITS * BUTTON_W
        &&& top <= 2 * y < top + 2 * UNITS * BUTTON_H
    }
}

/// What an input event on the dialog asks the compositor to do.
#[derive(Clone, Copy, Debug, PartialEq, Eq, Structural)]
pub enum DialogOutcome {
    /// Consumed; nothing else to do.
    Handled,
    /// The user activated the action button: confirm the session action.
    Confirm,
    /// The user pressed Cancel or Escape: abort.
    Cancel,
}

/// A type's number in a key.
pub open spec fn kind_code(kind: EndSessionType) -> u64 {
    match kind {
        EndSessionType::Logout => 0,
        EndSessionType::Shutdown => 1,
        EndSessionType::Restart => 2,
    }
}

/// The key of the drawn dialog: the type, the focused button, and the seconds left, with
/// zero for no countdown.
pub open spec fn dialog_key(kind: u64, action: u64, seconds: u64) -> u64 {
    kind | (action << 2u64) | (seconds << 3u64)
}

/// Pack what the dialog shows into the key under which its picture is kept.
pub fn revision_for(kind: EndSessionType, seconds_left: Option<u64>, focused: Button) -> (key: u64)
    requires
        seconds_left != Some(u64::MAX),
    ensures
        key == dialog_key(
            kind_code(kind),
            if focused == Button::Action {
                1
            } else {
                0
            },
            match seconds_left {
                Some(s) => (s + 1) as u64,
                None => 0,
            },
        ),
{
    let secs: u64 = match seconds_left {
        Some(s) => s + 1,
        None => 0,
    };
    let kind: u64 = match kind {
        EndSessionType::Logout => 0,
        EndSessionType::Shutdown => 1,
        EndSessionType::Restart => 2,
    };
    let action: u64 = if focused == Button::Action {
        1
    } else {
        0
    };
    kind | (action << 2u64) | (secs << 3u64)
}

pub struct EndSessionDialog {
    pub state: DialogState,
    pub focused: Button,
    /// What the dialog is showing, kept while it goes away so that there is something to
    /// draw.
    pub content: Option<(EndSessionType, Option<u64>)>,
}

impl EndSessionDialog {
    /// A dialog that is not hidden has something to show.
    pub open spec fn wf(&self) -> bool {
        self.state != DialogState::Hidden ==> self.content is Some
    }

    /// What is drawn, topmost first, with `drawn` for whether the box could be: the backdrop
    /// whenever the dialog is not hidden.
    pub fn render_plan(&self, drawn: bool) -> (layers: Vec<DialogLayer>)
        requires
            self.wf(),
        ensures
            layers@ == self.state.layers_of(drawn),
    {
        self.state.layers(drawn)
    }

    pub fn new() -> (dialog: Self)
        ensures
            dialog.wf(),
            dialog.state == DialogState::Hidden,
            dialog.focused == Button::Action,
            dialog.content is None,
    {
        EndSessionDialog { state: DialogState::Hidden, focused: Button::Action, content: None }
    }

    /// Raise the dialog for `kind`, with the action button focused, so Enter confirms.
    pub fn show(&mut self, kind: EndSessionType)
        ensures
            final(self).wf(),
            final(self).focused == Button::Action,
            final(self).content == Some((kind, None::<u64>)),
            final(self).state == if old(self).state.is_up() {
                old(self).state
            } else {
                DialogState::Showing
            },
    {
        self.focused = Button::Action;
        self.content = Some((kind, None));
        if !self.is_open() {
            self.state = DialogState::Showing;
        }
    }

    /// Update the type and the countdown that the dialog shows.
    pub fn set_content(&mut self, kind: EndSessionType, seconds_left: Option<u64>)
        ensures
            final(self).wf(),
            final(self).content == Some((kind, seconds_left)),
            final(self).state == old(self).state,
            final(self).focused == old(self).focused,
    {
        self.content = Some((kind, seconds_left));
    }

    /// Let the dialog go away. Returns whether it started to.
    pub fn start_hiding(&mut self) -> (started: bool)
        ensures
            old(self).wf() ==> final(self).wf(),
            started == old(self).state.is_up(),
            final(self).state == if started {
                DialogState::Hiding
            } else {
                old(self).state
            },
            final(self).focused == old(self).focused,
            final(self).content == old(self).content,
    {
        if !self.is_open() {
            return false;
        }
        self.state = DialogState::Hiding;
        true
    }

    pub fn is_open(&self) -> (open: bool)
        ensures
            open == self.state.is_up(),
    {
        self.state.up()
    }

    /// Interactive only once fully open: while it moves, so do the buttons.
    fn is_interactive(&self) -> (interactive: bool)
        ensures
            interactive == (self.state == DialogState::Visible),
    {
        self.state == DialogState::Visible
    }

    /// Settle a finished animation.
    pub fn advance_animations(&mut self, animation_done: bool)
        ensures
            old(self).wf() ==> final(self).wf(),
            final(self).state == old(self).state.settled(animation_done),
            final(self).focused == old(self).focused,
            final(self).content == old(self).content,
    {
        self.state = self.state.settle(animation_done);
    }

    pub fn are_animations_ongoing(&self) -> (ongoing: bool)
        ensures
            ongoing == self.state.is_moving(),
    {
        self.state.moving()
    }

    /// Feed a key. Only presses act, and only on a dialog that is fully open.
    pub fn handle_key(&mut self, key: Option<Key>, pressed: bool) -> (outcome: DialogOutcome)
        ensures
            final(self).state == old(self).state,
            final(self).content == old(self).content,
            ({
                let live = pressed && old(self).state == DialogState::Visible;
                let moves = live && (key == Some(Key::Left) || key == Some(Key::Right) || key
                    == Some(Key::Tab) || key == Some(Key::IsoLeftTab));
                &&& outcome == match key {
                    Some(Key::Escape) if live => DialogOutcome::Cancel,
                    Some(k) if live && k.enters() => old(self).focused.asks(),
                    _ => DialogOutcome::Handled,
                }
                &&& (final(self).focused != old(self).focused) == moves
            }),
    {
        if !pressed || !self.is_interactive() {
            return DialogOutcome::Handled;
        }
        match key {
            Some(Key::Escape) => DialogOutcome::Cancel,
            Some(Key::Left) | Some(Key::Right) | Some(Key::Tab) | Some(Key::IsoLeftTab) => {
                self.focused = self.focused.toggled();
                DialogOutcome::Handled
            },
            Some(k) => if k.is_enter() {
                self.activate(self.focused)
            } else {
                DialogOutcome::Handled
            },
            None => DialogOutcome::Handled,
        }
    }

    /// The pointer moved to this point of an output. Hovering a button focuses it. Returns
    /// whether the focus changed.
    pub fn pointer_motion(&mut self, out: Screen, x: i64, y: i64) -> (changed: bool)
        ensures
            final(self).state == old(self).state,
            final(self).content == old(self).content,
            changed == (final(self).focused != old(self).focused),
            old(self).state != DialogState::Visible ==> !changed,
            old(self).state == DialogState::Visible && Button::Cancel.holds(
                out,
                x as int,
                y as int,
            ) ==> final(self).focused == Button::Cancel,
            old(self).state == DialogState::Visible && Button::Action.holds(
                out,
                x as int,
                y as int,
            ) ==> final(self).focused == Button::Action,
            !Button::Cancel.holds(out, x as int, y as int) && !Button::Action.holds(out, x as int, y as int)
                ==> !changed,
    {
        if !self.is_interactive() {
            return false;
        }
        if let Some(button) = Self::button_at(out, x, y) {
            if self.focused != button {
                self.focused = button;
                return true;
            }
        }
        false
    }

    /// Left click at this point of an output: activates the button under it, and is
    /// swallowed anywhere else.
    pub fn pointer_click(&self, out: Screen, x: i64, y: i64) -> (outcome: DialogOutcome)
        ensures
            outcome == if self.state != DialogState::Visible {
                DialogOutcome::Handled
            } else if Button::Cancel.holds(out, x as int, y as int) {
                DialogOutcome::Cancel
            } else if Button::Action.holds(out, x as int, y as int) {
                DialogOutcome::Confirm
            } else {
                DialogOutcome::Handled
            },
    {
        if !self.is_interactive() {
            return DialogOutcome::Handled;
        }
        match Self::button_at(out, x, y) {
            Some(button) => self.activate(button),
            None => DialogOutcome::Handled,
        }
    }

    fn activate(&self, button: Button) -> (outcome: DialogOutcome)
        ensures
            outcome == button.asks(),
    {
        match button {
            Button::Cancel => DialogOutcome::Cancel,
            Button::Action => DialogOutcome::Confirm,
        }
    }

    /// A button's place in the dialog, in logical pixels: left, top, width, height.
    pub fn button_rect(button: Button) -> (rect: (i32, i32, i32, i32))
        ensures
            rect == (button.left() as i32, 126i32, BUTTON_W, BUTTON_H),
    {
        let y: i32 = HEIGHT - PADDING - BUTTON_H;
        let action_x: i32 = WIDTH - PADDING - BUTTON_W;
        let x: i32 = match button {
            Button::Action => action_x,
            Button::Cancel => action_x - BUTTON_GAP - BUTTON_W,
        };
        (x, y, BUTTON_W, BUTTON_H)
    }

    fn button_at(out: Screen, x: i64, y: i64) -> (button: Option<Button>)
        ensures
            match button {
                Some(b) => b.holds(out, x as int, y as int),
                None => !Button::Cancel.holds(out, x as int, y as int) && !Button::Action.holds(
                    out,
                    x as int,
                    y as int,
                ),
            },
    {
        if Self::on_button(Button::Cancel, out, x, y) {
            Some(Button::Cancel)
        } else if Self::on_button(Button::Action, out, x, y) {
            Some(Button::Action)
        } else {
            None
        }
    }

    /// The dialog's corner on an output, in half units.
    pub fn origin(out: Screen) -> (at: (i128, i128))
        ensures
            at.0 == corner(out.w as int, WIDTH as int),
            at.1 == corner(out.h as int, HEIGHT as int),
    {
        let w: i128 = WIDTH as i128 * UNITS;
        let h: i128 = HEIGHT as i128 * UNITS;
        (
            if out.w as i128 > w {
                out.w as i128 - w
            } else {
                0
            },
            if out.h as i128 > h {
                out.h as i128 - h
            } else {
                0
            },
        )
    }

    fn on_button(button: Button, out: Screen, x: i64, y: i64) -> (on: bool)
        ensures
            on == button.holds(out, x as int, y as int),
    {
        let (ox, oy) = Self::origin(out);
        let (bx, by, w, h) = Self::button_rect(button);
        assert(bx == 124 || bx == 256);
        assert(2 * UNITS * bx == 128 * bx && 2 * UNITS * by == 128 * by);
        let left: i128 = ox + 2 * UNITS * bx as i128;
        let top: i128 = oy + 2 * UNITS * by as i128;
        let (x, y): (i128, i128) = (2 * x as i128, 2 * y as i128);
        left <= x && x < left + 2 * UNITS * w as i128 && top <= y && y < top + 2 * UNITS
            * h as i128
    }

    /// Lay the dialog out from its lengths and its text's ink: the title and the description
    /// under it, and each button's label half-way up the button. The focused button is in the
    /// accent color.
    pub fn prepare(&self, px: &DialogPx, ink: &DialogInk) -> (layout: DialogLayout)
        requires
            px.good(),
            ink.good(),
        ensures
            layout.inner.x == px.border,
            layout.inner.y == px.border,
            layout.inner.w == max_of(px.w - px.border * 2, 0),
            layout.inner.h == max_of(px.h - px.border * 2, 0),
            layout.title.0 == px.padding,
            layout.title.1 + ink.title.y == px.padding,
            layout.description.0 == px.padding,
            layout.description.1 + ink.description.y == px.padding + ink.title.h + px.gap,
            layout.cancel.0 == px.cancel.x,
            layout.cancel.1 + ink.cancel.y == px.cancel.y + half(px.cancel.h - ink.cancel.h),
            layout.action.0 == px.action.x,
            layout.action.1 + ink.action.y == px.action.y + half(px.action.h - ink.action.h),
            layout.accented == self.focused,
    {
        let (title, description) = stacked_origins(
            ink.title,
            ink.description,
            px.padding,
            px.gap,
        );
        DialogLayout {
            inner: inner_box(px.w, px.h, px.border),
            title,
            description,
            cancel: label_origin(px.cancel, ink.cancel),
            action: label_origin(px.action, ink.action),
            accented: self.focused,
        }
    }
}

/// The dialog's lengths in physical pixels: its size, its padding and border, the room under the
/// title, and its buttons.
pub struct DialogPx {
    pub w: i32,
    pub h: i32,
    pub padding: i32,
    pub border: i32,
    pub gap: i32,
    pub cancel: Rect,
    pub action: Rect,
}

impl DialogPx {
    pub open spec fn good(self) -> bool {
        &&& -CARD_REACH <= self.w <= CARD_REACH
        &&& -CARD_REACH <= self.h <= CARD_REACH
        &&& 0 <= self.padding <= CARD_REACH
        &&& 0 <= self.border <= CARD_REACH
        &&& -CARD_REACH <= self.gap <= CARD_REACH
        &&& in_card_reach(self.cancel)
        &&& in_card_reach(self.action)
    }
}

/// The boxes of the dialog's ink, in physical pixels, each relative to where its text is placed.
pub struct DialogInk {
    pub title: Rect,
    pub description: Rect,
    pub cancel: Rect,
    pub action: Rect,
}

impl DialogInk {
    pub open spec fn good(self) -> bool {
        &&& in_card_reach(self.title)
        &&& in_card_reach(self.description)
        &&& in_card_reach(self.cancel)
        &&& in_card_reach(self.action)
    }
}

/// Where everything in the dialog is, in physical pixels.
pub struct DialogLayout {
    pub inner: Rect,
    pub title: (i32, i32),
    pub description: (i32, i32),
    pub cancel: (i32, i32),
    pub action: (i32, i32),
    pub accented: Button,
}

/// A type's title, which is its action's label too.
pub open spec fn title(kind: EndSessionType) -> Seq<char> {
    match kind {
        EndSessionType::Logout => "Log Out"@,
        EndSessionType::Shutdown => "Power Off"@,
        EndSessionType::Restart => "Restart"@,
    }
}

/// The question a type's dialog asks without a countdown.
pub open spec fn question(kind: EndSessionType) -> Seq<char> {
    match kind {
        EndSessionType::Logout => "Do you want to log out?"@,
        EndSessionType::Shutdown => "Do you want to power off?"@,
        EndSessionType::Restart => "Do you want to restart?"@,
    }
}

/// What a type's dialog says will happen, up to the number of seconds.
pub open spec fn warning(kind: EndSessionType) -> Seq<char> {
    match kind {
        EndSessionType::Logout => "The system will be logged out automatically in "@,
        EndSessionType::Shutdown => "The system will be powered off automatically in "@,
        EndSessionType::Restart => "The system will be restarted automatically in "@,
    }
}

/// Title, action-button label, and counting-down description for a dialog type.
pub fn content(kind: EndSessionType, seconds_left: Option<u64>) -> (text: (
    &'static str,
    &'static str,
    String,
))
    ensures
        text.0@ == title(kind),
        text.1@ == title(kind),
        text.2@ == match seconds_left {
            Some(secs) => warning(kind) + digits(secs as nat) + " seconds."@,
            None => question(kind),
        },
{
    let label = match kind {
        EndSessionType::Logout => "Log Out",
        EndSessionType::Shutdown => "Power Off",
        EndSessionType::Restart => "Restart",
    };
    let description = match seconds_left {
        Some(secs) => {
            let mut text = match kind {
                EndSessionType::Logout => "The system will be logged out automatically in ",
                EndSessionType::Shutdown => "The system will be powered off automatically in ",
                EndSessionType::Restart => "The system will be restarted automatically in ",
            }.to_owned();
            let number = decimal(secs);
            text.append(number.as_str());
            text.append(" seconds.");
            text
        },
        None => match kind {
            EndSessionType::Logout => "Do you want to log out?",
            EndSessionType::Shutdown => "Do you want to power off?",
            EndSessionType::Restart => "Do you want to restart?",
        }.to_owned(),
    };
    (label, label, description)
}

/// The dialog's accessibility node.
pub fn a11y_node() -> (node: accesskit::Node)
    ensures
        node_role(node) == NodeRole::AlertDialog,
        node_label(node) == Some("End Session"@),
        node_description(node) is None,
        node_modal(node),
{
    let mut node = new_node(NodeRole::AlertDialog);
    set_label(&mut node, "End Session");
    set_modal(&mut node);
    node
}

/// The buttons fit within the dialog wherever it is, and Cancel stands fully left of the action:
/// no point is on both.
pub proof fn law_the_buttons_fit_and_do_not_overlap(
    a: Button,
    b: Button,
    out: Screen,
    x: int,
    y: int,
)
    requires
        a.holds(out, x, y),
    ensures
        0 <= 2 * x - corner(out.w as int, WIDTH as int) < 2 * UNITS * WIDTH,
        0 <= 2 * y - corner(out.h as int, HEIGHT as int) < 2 * UNITS * HEIGHT,
        b.holds(out, x, y) ==> a == b,
        Button::Cancel.left() + BUTTON_W <= Button::Action.left(),
        Button::Action.left() + BUTTON_W <= WIDTH,
{
}

/// The dialog is in the middle of any output that is large enough for it.
pub proof fn law_the_dialog_is_centred(out: Screen)
    requires
        out.w >= WIDTH * UNITS,
        out.h >= HEIGHT * UNITS,
    ensures
        corner(out.w as int, WIDTH as int) + UNITS * WIDTH == out.w,
        corner(out.h as int, HEIGHT as int) + UNITS * HEIGHT == out.h,
{
}

/// Two dialogs with the same key show the same: the type, the focused button, and the
/// seconds left, for any countdown of less than two to the sixty-first seconds.
pub proof fn law_the_key_tells_what_is_shown(
    kind_a: EndSessionType,
    kind_b: EndSessionType,
    action_a: u64,
    action_b: u64,
    seconds_a: u64,
    seconds_b: u64,
)
    requires
        action_a <= 1,
        action_b <= 1,
        seconds_a < 0x2000_0000_0000_0000,
        seconds_b < 0x2000_0000_0000_0000,
        dialog_key(kind_code(kind_a), action_a, seconds_a) == dialog_key(
            kind_code(kind_b),
            action_b,
            seconds_b,
        ),
    ensures
        kind_a == kind_b,
        action_a == action_b,
        seconds_a == seconds_b,
{
    let ka = kind_code(kind_a);
    let kb = kind_code(kind_b);
    assert(ka == kb && action_a == action_b && seconds_a == seconds_b) by (bit_vector)
        requires
            ka <= 2,
            kb <= 2,
            action_a <= 1,
            action_b <= 1,
            seconds_a < 0x2000_0000_0000_0000,
            seconds_b < 0x2000_0000_0000_0000,
            ka | (action_a << 2u64) | (seconds_a << 3u64) == kb | (action_b << 2u64) | (seconds_b
                << 3u64),
    ;
}

/// A click on a button, wherever the dialog stands, asks for what the button says: the action
/// on the action button, and nothing but giving up on Cancel. Beside the buttons, and while the
/// dialog moves, it asks for nothing.
pub proof fn law_a_click_presses_the_button_under_it(
    dialog: EndSessionDialog,
    out: Screen,
    at: (i128, i128),
    button: Button,
    rect: (i32, i32, i32, i32),
    x: i64,
    y: i64,
    outcome: DialogOutcome,
)
    requires
        call_ensures(EndSessionDialog::origin, (out,), at),
        call_ensures(EndSessionDialog::button_rect, (button,), rect),
        call_ensures(EndSessionDialog::pointer_click, (&dialog, out, x, y), outcome),
    ensures
        dialog.state != DialogState::Visible ==> outcome == DialogOutcome::Handled,
        ({
            let left = at.0 + 128 * rect.0;
            let top = at.1 + 128 * rect.1;
            let on = left <= 2 * x < left + 128 * rect.2 && top <= 2 * y < top + 128 * rect.3;
            &&& dialog.state == DialogState::Visible && button == Button::Action ==> (on <==>
                outcome == DialogOutcome::Confirm)
            &&& dialog.state == DialogState::Visible && button == Button::Cancel ==> (on <==>
                outcome == DialogOutcome::Cancel)
        }),
        button == Button::Cancel ==> rect.0 + rect.2 < 400 - 24 - rect.2,
        button == Button::Action ==> rect.0 + rect.2 == 400 - 24,
{
}

/// Enter asks for what a click where the pointer is would, once the pointer has been moved
/// onto a button; Escape asks for what Cancel does.
pub proof fn law_enter_presses_the_focused_button(
    dialog: &mut EndSessionDialog,
    after: &mut EndSessionDialog,
    out: Screen,
    x: i64,
    y: i64,
    changed: bool,
    clicked: DialogOutcome,
    key: Key,
    pressed: bool,
    typed: DialogOutcome,
)
    requires
        call_ensures(EndSessionDialog::pointer_motion, (dialog, out, x, y), changed),
        *old(after) == *final(dialog),
        call_ensures(EndSessionDialog::pointer_click, (&*final(dialog), out, x, y), clicked),
        call_ensures(EndSessionDialog::handle_key, (after, Some(key), pressed), typed),
    ensures
        key == Key::Return && pressed && clicked != DialogOutcome::Handled ==> typed == clicked,
        key == Key::Escape && pressed && old(dialog).state == DialogState::Visible ==> typed
            == DialogOutcome::Cancel,
        !pressed || old(dialog).state != DialogState::Visible ==> typed == DialogOutcome::Handled
            && final(after).focused == final(dialog).focused,
        old(dialog).state != DialogState::Visible ==> final(dialog).focused
            == old(dialog).focused,
        final(after).state == old(dialog).state,
        final(after).content == old(dialog).content,
        (key == Key::Tab || key == Key::Left || key == Key::Right) && pressed
            && old(dialog).state == DialogState::Visible ==> final(after).focused
            != final(dialog).focused,
        key == Key::Other ==> typed == DialogOutcome::Handled,
{
}

/// A dialog that was raised and has come up confirms on Enter, whatever had the focus before.
pub proof fn law_a_raised_dialog_confirms_on_enter(
    raised: &mut EndSessionDialog,
    settled: &mut EndSessionDialog,
    typed_at: &mut EndSessionDialog,
    kind: EndSessionType,
    outcome: DialogOutcome,
)
    requires
        call_ensures(EndSessionDialog::show, (raised, kind), ()),
        *old(settled) == *final(raised),
        call_ensures(EndSessionDialog::advance_animations, (settled, true), ()),
        *old(typed_at) == *final(settled),
        call_ensures(EndSessionDialog::handle_key, (typed_at, Some(Key::Return), true), outcome),
    ensures
        final(raised).content == Some((kind, None::<u64>)),
        final(settled).state == DialogState::Visible,
        outcome == DialogOutcome::Confirm,
{
}

/// A dialog that is let go is open no more, and is gone once it has moved away.
pub proof fn law_a_dismissed_dialog_is_gone(
    leaving: &mut EndSessionDialog,
    settled: &mut EndSessionDialog,
    started: bool,
    open: bool,
)
    requires
        call_ensures(EndSessionDialog::start_hiding, (leaving,), started),
        call_ensures(EndSessionDialog::is_open, (&*final(leaving),), open),
        *old(settled) == *final(leaving),
        call_ensures(EndSessionDialog::advance_animations, (settled, true), ()),
    ensures
        !open,
        started <==> old(leaving).state == DialogState::Showing || old(leaving).state
            == DialogState::Visible,
        final(settled).state == DialogState::Hidden,
        final(settled).content == old(leaving).content,
{
}

/// The dialog says what it is about to do: with a countdown it names the seconds that are
/// left, without one it asks.
pub proof fn law_the_dialog_says_what_it_does(
    kind: EndSessionType,
    seconds_left: Option<u64>,
    text: (&'static str, &'static str, String),
)
    requires
        call_ensures(content, (kind, seconds_left), text),
    ensures
        text.0@ == text.1@,
        kind == EndSessionType::Logout ==> text.0@ == "Log Out"@,
        kind == EndSessionType::Shutdown ==> text.0@ == "Power Off"@,
        kind == EndSessionType::Restart ==> text.0@ == "Restart"@,
        kind == EndSessionType::Logout && seconds_left is None ==> text.2@
            == "Do you want to log out?"@,
        kind == EndSessionType::Shutdown && seconds_left is None ==> text.2@
            == "Do you want to power off?"@,
        kind == EndSessionType::Restart && seconds_left is None ==> text.2@
            == "Do you want to restart?"@,
        kind == EndSessionType::Logout && seconds_left is Some ==> text.2@
            == "The system will be logged out automatically in "@ + digits(
            seconds_left->0 as nat,
        ) + " seconds."@,
        kind == EndSessionType::Shutdown && seconds_left is Some ==> text.2@
            == "The system will be powered off automatically in "@ + digits(
            seconds_left->0 as nat,
        ) + " seconds."@,
        kind == EndSessionType::Restart && seconds_left is Some ==> text.2@
            == "The system will be restarted automatically in "@ + digits(
            seconds_left->0 as nat,
        ) + " seconds."@,
{
}

} // verus!
