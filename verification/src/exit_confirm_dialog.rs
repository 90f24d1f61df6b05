//! The dialog that asks before the session ends.

use vstd::prelude::*;
use vstd::string::*;

use crate::area::{SCALES, UNITS};
use crate::card::Span;
use crate::end_session_dialog::Screen;
use crate::node::{
    new_node, node_description, node_label, node_modal, node_role, set_description, set_label,
    set_modal, NodeRole,
};

verus! {

/// The key that confirms, as the dialog names it.
pub const KEY_NAME: &'static str = "Enter";

/// Where a modal dialog is in its life.
#[derive(Clone, Copy, Debug, PartialEq, Eq, Structural)]
pub enum DialogState {
    Hidden,
    Showing,
    Visible,
    Hiding,
}

/// One layer of a modal dialog.
#[derive(Clone, Copy, Debug, PartialEq, Eq, Structural)]
pub enum DialogLayer {
    /// The dialog's own box.
    Card,
    /// The dimming of everything behind it.
    Backdrop,
}

impl DialogState {
    /// What is drawn, topmost first, with `drawn` for whether the box could be: a dialog that is
    /// not hidden always has its backdrop, because it holds the input and must not leave the seat
    /// without an overlay.
    pub open spec fn layers_of(self, drawn: bool) -> Seq<DialogLayer> {
        if self == DialogState::Hidden {
            Seq::empty()
        } else if drawn {
            seq![DialogLayer::Card, DialogLayer::Backdrop]
        } else {
            seq![DialogLayer::Backdrop]
        }
    }

    /// What is drawn, topmost first, with `drawn` for whether the box could be.
    pub fn layers(self, drawn: bool) -> (layers: Vec<DialogLayer>)
        ensures
            layers@ == self.layers_of(drawn),
    {
        let mut layers: Vec<DialogLayer> = Vec::new();
        if self != DialogState::Hidden {
            if drawn {
                layers.push(DialogLayer::Card);
            }
            layers.push(DialogLayer::Backdrop);
        }
        assert(layers@ =~= self.layers_of(drawn));
        layers
    }

    /// The dialog is up or coming up.
    pub open spec fn is_up(self) -> bool {
        self == DialogState::Showing || self == DialogState::Visible
    }

    /// The dialog is between two resting states.
    pub open spec fn is_moving(self) -> bool {
        self == DialogState::Showing || self == DialogState::Hiding
    }

    /// Where a running animation leaves the dialog, once it is over.
    pub open spec fn settled(self, animation_done: bool) -> DialogState {
        match self {
            DialogState::Showing if animation_done => DialogState::Visible,
            DialogState::Hiding if animation_done => DialogState::Hidden,
            _ => self,
        }
    }

    pub fn up(self) -> (up: bool)
        ensures
            up == self.is_up(),
    {
        self == DialogState::Showing || self == DialogState::Visible
    }

    pub fn moving(self) -> (moving: bool)
        ensures
            moving == self.is_moving(),
    {
        self == DialogState::Showing || self == DialogState::Hiding
    }

    pub fn settle(self, animation_done: bool) -> (state: DialogState)
        ensures
            state == self.settled(animation_done),
    {
        match self {
            DialogState::Showing if animation_done => DialogState::Visible,
            DialogState::Hiding if animation_done => DialogState::Hidden,
            _ => self,
        }
    }
}

/// Where the box is on an output, and the point that it grows from, in device pixels.
#[derive(Clone, Copy, Debug, PartialEq, Eq, Structural)]
pub struct BoxPlace {
    pub x: i128,
    pub y: i128,
    pub pivot_x: i128,
    pub pivot_y: i128,
}

/// Where a box of `px` device pixels starts on a side of an output: in the middle to the nearest
/// device pixel, and of two to the one farther in, but not off the near edge. A side that the box
/// does not fit on starts it at the edge.
pub open spec fn box_start(len: int, scale: u16, px: int) -> int {
    let parts = UNITS * SCALES;
    let room = len * scale - px * parts;
    if room > 0 {
        (room + parts) / (2 * parts)
    } else {
        0
    }
}

fn start_of_box(len: i64, scale: u16, px: u32) -> (at: i128)
    ensures
        at == box_start(len as int, scale, px as int),
        0 <= at <= 0x1_0000_0000_0000_0000_0000,
{
    let (side, by) = (len as i128, scale as i128);
    assert(-0x8000_0000_0000_0000 * 0x1_0000 <= side * by <= 0x8000_0000_0000_0000 * 0x1_0000)
        by (nonlinear_arith)
        requires
            -0x8000_0000_0000_0000 <= side <= 0x8000_0000_0000_0000,
            0 <= by <= 0x1_0000,
    ;
    let room: i128 = side * by - px as i128 * 7680;
    if room > 0 {
        (room + 7680) / 15_360
    } else {
        0
    }
}

/// A change of state into `Showing` or `Hiding` is the caller's cue to start the animation,
/// from wherever the dialog is now.
pub struct ExitConfirmDialog {
    pub state: DialogState,
}

impl ExitConfirmDialog {
    pub fn new() -> (dialog: Self)
        ensures
            dialog.state == DialogState::Hidden,
    {
        ExitConfirmDialog { state: DialogState::Hidden }
    }

    /// Whether the dialog can be shown, which is always: what fails to draw leaves a dark
    /// overlay that most keys still dismiss.
    pub fn can_show(&self) -> (can: bool)
        ensures
            can,
    {
        true
    }

    /// Returns true if the dialog will be shown, even if it is already shown.
    pub fn show(&mut self) -> (shown: bool)
        ensures
            shown,
            final(self).state == if old(self).state.is_up() {
                old(self).state
            } else {
                DialogState::Showing
            },
    {
        if !self.can_show() {
            return false;
        }
        if !self.is_open() {
            self.state = DialogState::Showing;
        }
        true
    }

    /// Returns true if the dialog started to go away.
    pub fn start_hiding(&mut self) -> (started: bool)
        ensures
            started == old(self).state.is_up(),
            final(self).state == if started {
                DialogState::Hiding
            } else {
                old(self).state
            },
    {
        if !self.is_open() {
            return false;
        }
        self.state = DialogState::Hiding;
        true
    }

    pub fn is_open(&self) -> (open: bool)
        ensures
            open == self.state.is_up(),
    {
        self.state.up()
    }

    /// Settle a finished animation.
    pub fn advance_animations(&mut self, animation_done: bool)
        ensures
            final(self).state == old(self).state.settled(animation_done),
    {
        self.state = self.state.settle(animation_done);
    }

    pub fn are_animations_ongoing(&self) -> (ongoing: bool)
        ensures
            ongoing == self.state.is_moving(),
    {
        self.state.moving()
    }

    /// What is drawn, topmost first, with `drawn` for whether the box could be.
    pub fn render_plan(&self, drawn: bool) -> (layers: Vec<DialogLayer>)
        ensures
            layers@ == self.state.layers_of(drawn),
    {
        self.state.layers(drawn)
    }

    /// Where the box goes that is drawn, which is as large as its text: in the middle of the
    /// output, growing from its own middle.
    pub fn place(out: Screen, scale: u16, px_w: u32, px_h: u32) -> (place: BoxPlace)
        ensures
            place.x == box_start(out.w as int, scale, px_w as int),
            place.y == box_start(out.h as int, scale, px_h as int),
            place.pivot_x == place.x + (px_w + 1) / 2,
            place.pivot_y == place.y + (px_h + 1) / 2,
    {
        let x: i128 = start_of_box(out.w, scale, px_w);
        let y: i128 = start_of_box(out.h, scale, px_h);
        BoxPlace {
            x,
            y,
            pivot_x: x + (px_w as i128 + 1) / 2,
            pivot_y: y + (px_h as i128 + 1) / 2,
        }
    }
}

/// A box that fits is as far from either end of its side, to a device pixel, and one that does
/// not fit is cut at the far end only.
pub proof fn law_the_box_is_centred(len: int, scale: u16, px: int)
    requires
        0 <= px,
    ensures
        0 <= box_start(len, scale, px),
        px * (UNITS * SCALES) <= len * scale ==> -(UNITS * SCALES) <= len * scale - (2 * box_start(
            len,
            scale,
            px,
        ) + px) * (UNITS * SCALES) <= UNITS * SCALES,
        len * scale <= px * (UNITS * SCALES) ==> box_start(len, scale, px) == 0,
{
    let room = len * scale - px * 7680;
    let at = box_start(len, scale, px);
    assert((2 * at + px) * 7680 == 15_360 * at + px * 7680);
}

/// The dialog's message.
pub open spec fn message() -> Seq<char> {
    "Are you sure you want to exit synoik?\n\nPress Enter to confirm."@
}

/// The dialog's message as plain text.
pub fn text() -> (text: String)
    ensures
        text@ == message(),
{
    let mut text = "Are you sure you want to exit synoik?\n\nPress ".to_owned();
    text.append(KEY_NAME);
    text.append(" to confirm.");
    proof {
        reveal_strlit("Are you sure you want to exit synoik?\n\nPress ");
        reveal_strlit("Enter");
        reveal_strlit(" to confirm.");
        reveal_strlit("Are you sure you want to exit synoik?\n\nPress Enter to confirm.");
        assert(text@ =~= message());
    }
    text
}

/// The runs of the dialog's text, with the key in the fixed-width face.
pub fn spans() -> (spans: Vec<Span>)
    ensures
        spans@.len() == 3,
        spans@[0].text@ == "Are you sure you want to exit synoik?\n\nPress"@,
        spans@[1].text@ == " "@ + KEY_NAME@ + " "@,
        spans@[2].text@ == " to confirm."@,
        forall|i: int| 0 <= i < 3 ==> (#[trigger] spans@[i]).mono == (i == 1),
{
    let mut key = " ".to_owned();
    key.append(KEY_NAME);
    key.append(" ");
    let mut spans: Vec<Span> = Vec::new();
    spans.push(
        Span { text: "Are you sure you want to exit synoik?\n\nPress".to_owned(), mono: false },
    );
    spans.push(Span { text: key, mono: true });
    spans.push(Span { text: " to confirm.".to_owned(), mono: false });
    spans
}

/// The dialog's accessibility node.
pub fn a11y_node() -> (node: accesskit::Node)
    ensures
        node_role(node) == NodeRole::AlertDialog,
        node_label(node) == Some("Exit synoik"@),
        node_description(node) == Some(message()),
        node_modal(node),
{
    let mut node = new_node(NodeRole::AlertDialog);
    set_label(&mut node, "Exit synoik");
    let description = text();
    set_description(&mut node, description.as_str());
    set_modal(&mut node);
    node
}

/// A dialog has its backdrop exactly while it is not hidden, below everything else, whether its
/// box could be drawn or not.
pub proof fn law_a_dialog_never_lacks_its_backdrop(state: DialogState, drawn: bool)
    ensures
        state == DialogState::Hidden <==> state.layers_of(drawn).len() == 0,
        state != DialogState::Hidden ==> state.layers_of(drawn).last() == DialogLayer::Backdrop,
{
}

/// A finished animation leaves the dialog at rest, and up exactly if it was up or coming up.
pub proof fn law_a_settled_dialog_rests(state: DialogState)
    ensures
        !state.settled(true).is_moving(),
        state.settled(true).is_up() == state.is_up(),
{
}

/// A dialog that is shown comes up and stays; one that is let go leaves and is gone; one that
/// is not up has nothing to let go.
pub proof fn law_a_dialog_comes_and_goes(
    shown: &mut ExitConfirmDialog,
    up: &mut ExitConfirmDialog,
    leaving: &mut ExitConfirmDialog,
    gone: &mut ExitConfirmDialog,
    will: bool,
    started: bool,
)
    requires
        call_ensures(ExitConfirmDialog::show, (shown,), will),
        *old(up) == *final(shown),
        call_ensures(ExitConfirmDialog::advance_animations, (up, true), ()),
        call_ensures(ExitConfirmDialog::start_hiding, (leaving,), started),
        *old(gone) == *final(leaving),
        call_ensures(ExitConfirmDialog::advance_animations, (gone, true), ()),
    ensures
        will,
        final(up).state == DialogState::Visible,
        old(shown).state == DialogState::Visible ==> final(shown).state == DialogState::Visible,
        old(shown).state == DialogState::Hidden || old(shown).state == DialogState::Hiding
            ==> final(shown).state == DialogState::Showing,
        final(gone).state == DialogState::Hidden,
        started <==> old(leaving).state == DialogState::Visible || old(leaving).state
            == DialogState::Showing,
        !started ==> final(leaving).state == old(leaving).state,
{
}

/// What is drawn is the box over its backdrop, the backdrop alone where the box could not be
/// drawn, and nothing of a hidden dialog; a dialog at rest is not animated.
pub proof fn law_the_box_is_over_its_backdrop(
    dialog: ExitConfirmDialog,
    drawn: bool,
    layers: Vec<DialogLayer>,
    ongoing: bool,
)
    requires
        call_ensures(ExitConfirmDialog::render_plan, (&dialog, drawn), layers),
        call_ensures(ExitConfirmDialog::are_animations_ongoing, (&dialog,), ongoing),
    ensures
        layers@.len() == 0 <==> dialog.state == DialogState::Hidden,
        layers@.len() > 0 ==> layers@.last() == DialogLayer::Backdrop,
        layers@.contains(DialogLayer::Card) <==> drawn && dialog.state != DialogState::Hidden,
        ongoing <==> dialog.state == DialogState::Showing || dialog.state == DialogState::Hiding,
{
    if drawn && dialog.state != DialogState::Hidden {
        assert(layers@[0] == DialogLayer::Card);
    }
}

} // verus!
