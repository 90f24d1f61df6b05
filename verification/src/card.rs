//! Where text goes in a dialog's card, in physical pixels.
//!
//! Shaped text comes as an ink box: the rectangle its glyphs cover, relative to where the
//! text is placed.

use vstd::prelude::*;

use crate::rect::{far_edge, max_of, min_of, Rect};

verus! {

/// A run of a card's text.
pub struct Span {
    pub text: String,
    /// In the fixed-width face, on a patch.
    pub mono: bool,
}

/// The number fits a pixel coordinate.
pub open spec fn is_px(n: int) -> bool {
    i32::MIN <= n <= i32::MAX
}

/// A card sized to its text: its size, and where the text is placed so that its ink starts
/// `padding` in from the corner.
#[derive(Clone, Copy, Debug, PartialEq, Eq, Structural)]
pub struct ContentBox {
    pub w: i32,
    pub h: i32,
    pub text_x: i32,
    pub text_y: i32,
}

/// Wrap a card around an ink box. A card is at least one pixel in each direction.
pub fn content_box(ink: Rect, padding: i32) -> (card: ContentBox)
    requires
        padding >= 0,
        is_px(padding * 2),
        is_px(ink.w + padding * 2),
        is_px(ink.h + padding * 2),
        is_px(padding - ink.x),
        is_px(padding - ink.y),
    ensures
        card.w == max_of(ink.w + padding * 2, 1),
        card.h == max_of(ink.h + padding * 2, 1),
        card.text_x + ink.x == padding,
        card.text_y + ink.y == padding,
{
    let w: i32 = ink.w + padding * 2;
    let h: i32 = ink.h + padding * 2;
    ContentBox {
        w: if w >= 1 {
            w
        } else {
            1
        },
        h: if h >= 1 {
            h
        } else {
            1
        },
        text_x: padding - ink.x,
        text_y: padding - ink.y,
    }
}

/// The inside of a card of this size, within a border all round.
pub fn inner_box(w: i32, h: i32, border: i32) -> (inner: Rect)
    requires
        border >= 0,
        is_px(border * 2),
        is_px(w - border * 2),
        is_px(h - border * 2),
    ensures
        inner.wf(),
        inner.x == border,
        inner.y == border,
        inner.w == max_of(w - border * 2, 0),
        inner.h == max_of(h - border * 2, 0),
{
    let iw: i32 = w - border * 2;
    let ih: i32 = h - border * 2;
    Rect {
        x: border,
        y: border,
        w: if iw >= 0 {
            iw
        } else {
            0
        },
        h: if ih >= 0 {
            ih
        } else {
            0
        },
    }
}

/// The patch behind the inline key or command, before it is cut to the card.
pub open spec fn padded(
    span: Rect,
    text_x: int,
    text_y: int,
    pad_x: int,
    pad_y: int,
    r: Rect,
) -> bool {
    &&& r.x == text_x + span.x - pad_x
    &&& r.y == text_y + span.y - pad_y
    &&& r.w == span.w + pad_x * 2
    &&& r.h == span.h + pad_y * 2
}

/// The patch behind the inline key or command: its ink, padded, and cut to `clip`. A span
/// without ink has none.
pub open spec fn is_patch(
    span: Rect,
    text: (int, int),
    pad: (int, int),
    clip: Rect,
    patch: Option<Rect>,
) -> bool {
    &&& span.w <= 0 || span.h <= 0 ==> patch is None
    &&& span.w > 0 && span.h > 0 ==> exists|full: Rect|
        {
            &&& #[trigger] padded(span, text.0, text.1, pad.0, pad.1, full)
            &&& patch is Some <==> full.overlaps(clip)
            &&& patch matches Some(r) ==> {
                &&& r.wf()
                &&& r.x == max_of(full.x as int, clip.x as int)
                &&& r.y == max_of(full.y as int, clip.y as int)
                &&& r.x + r.w == min_of(
                    far_edge(full.x as int, full.w as int),
                    far_edge(clip.x as int, clip.w as int),
                )
                &&& r.y + r.h == min_of(
                    far_edge(full.y as int, full.h as int),
                    far_edge(clip.y as int, clip.h as int),
                )
            }
        }
}

/// The patch behind the inline key or command: its ink, padded, and cut to `clip`. A span
/// without ink has none.
pub fn keycap(span: Rect, text: (i32, i32), pad: (i32, i32), clip: Rect) -> (patch: Option<Rect>)
    requires
        clip.wf(),
        pad.0 >= 0,
        pad.1 >= 0,
        is_px(text.0 + span.x),
        is_px(text.1 + span.y),
        is_px(text.0 + span.x - pad.0),
        is_px(text.1 + span.y - pad.1),
        is_px(pad.0 * 2),
        is_px(pad.1 * 2),
        is_px(span.w + pad.0 * 2),
        is_px(span.h + pad.1 * 2),
    ensures
        is_patch(span, (text.0 as int, text.1 as int), (pad.0 as int, pad.1 as int), clip, patch),
{
    if span.w <= 0 || span.h <= 0 {
        return None;
    }
    let full = Rect {
        x: text.0 + span.x - pad.0,
        y: text.1 + span.y - pad.1,
        w: span.w + pad.0 * 2,
        h: span.h + pad.1 * 2,
    };
    assert(padded(span, text.0 as int, text.1 as int, pad.0 as int, pad.1 as int, full));
    full.intersection(&clip)
}

/// Where a label is placed so that its ink is centred in a button's height, starting at its
/// left edge.
pub fn label_origin(button: Rect, ink: Rect) -> (at: (i32, i32))
    requires
        is_px(button.h - ink.h),
        is_px(button.y + half(button.h - ink.h)),
        is_px(button.y + half(button.h - ink.h) - ink.y),
    ensures
        at.0 == button.x,
        at.1 == button.y + half(button.h - ink.h) - ink.y,
{
    let room = (button.h - ink.h) as i64;
    let above: i64 = if room >= 0 {
        room / 2
    } else {
        -(-room / 2)
    };
    (button.x, button.y + above as i32 - ink.y)
}

/// Half of a number, rounded toward zero.
pub open spec fn half(n: int) -> int {
    if n >= 0 {
        n / 2
    } else {
        -((-n) / 2)
    }
}

/// Where the title and the description under it are placed: the title's ink starts `padding`
/// down, the description's `gap` below it.
pub fn stacked_origins(title: Rect, description: Rect, padding: i32, gap: i32) -> (at: (
    (i32, i32),
    (i32, i32),
))
    requires
        is_px(padding - title.y),
        is_px(padding + title.h),
        is_px(padding + title.h + gap),
        is_px(padding + title.h + gap - description.y),
    ensures
        at.0.0 == padding && at.1.0 == padding,
        at.0.1 + title.y == padding,
        at.1.1 + description.y == padding + title.h + gap,
{
    ((padding, padding - title.y), (padding, padding + title.h + gap - description.y))
}

/// The furthest that anything in a card is from its corner, in pixels.
pub const CARD_REACH: i32 = 0x1000_0000;

/// Every number of the box is within a card's reach.
pub open spec fn in_card_reach(r: Rect) -> bool {
    &&& -CARD_REACH <= r.x <= CARD_REACH
    &&& -CARD_REACH <= r.y <= CARD_REACH
    &&& -CARD_REACH <= r.w <= CARD_REACH
    &&& -CARD_REACH <= r.h <= CARD_REACH
}

/// What a shaped message measures: the box of its ink, and of the ink of the key or command in
/// it.
#[derive(Clone, Copy, Debug, PartialEq, Eq, Structural)]
pub struct TextInk {
    pub all: Rect,
    pub span: Rect,
}

/// A card's own lengths: its padding, its border, and the patch's padding across and down.
#[derive(Clone, Copy, Debug, PartialEq, Eq, Structural)]
pub struct CardPx {
    pub padding: i32,
    pub border: i32,
    pub patch_x: i32,
    pub patch_y: i32,
}

impl CardPx {
    pub open spec fn good(self) -> bool {
        &&& 0 <= self.padding <= CARD_REACH
        &&& 0 <= self.border <= CARD_REACH
        &&& 0 <= self.patch_x <= CARD_REACH
        &&& 0 <= self.patch_y <= CARD_REACH
    }
}

/// A card around a message: its size and the text's place, the box within its border, and the
/// patch.
#[derive(Clone, Copy, Debug, PartialEq, Eq, Structural)]
pub struct TextCard {
    pub card: ContentBox,
    pub inner: Rect,
    pub patch: Option<Rect>,
}

/// Lay a card out around its message. The patch is cut to the box within the border.
pub fn text_card(ink: TextInk, px: CardPx) -> (layout: TextCard)
    requires
        in_card_reach(ink.all),
        in_card_reach(ink.span),
        px.good(),
    ensures
        layout.card.w == max_of(ink.all.w + px.padding * 2, 1),
        layout.card.h == max_of(ink.all.h + px.padding * 2, 1),
        layout.card.text_x + ink.all.x == px.padding,
        layout.card.text_y + ink.all.y == px.padding,
        layout.inner.x == px.border,
        layout.inner.y == px.border,
        layout.inner.w == max_of(layout.card.w - px.border * 2, 0),
        layout.inner.h == max_of(layout.card.h - px.border * 2, 0),
        is_patch(
            ink.span,
            (layout.card.text_x as int, layout.card.text_y as int),
            (px.patch_x as int, px.patch_y as int),
            layout.inner,
            layout.patch,
        ),
{
    let card = content_box(ink.all, px.padding);
    let inner = inner_box(card.w, card.h, px.border);
    let patch = keycap(ink.span, (card.text_x, card.text_y), (px.patch_x, px.patch_y), inner);
    TextCard { card, inner, patch }
}

/// A patch never reaches over the border: what is in it is in the box that it was cut to.
pub proof fn law_the_patch_stays_within(
    span: Rect,
    text: (int, int),
    pad: (int, int),
    clip: Rect,
    patch: Rect,
    x: int,
    y: int,
)
    requires
        is_patch(span, text, pad, clip, Some(patch)),
        patch.has(x, y),
    ensures
        clip.has(x, y),
{
}

} // verus!
