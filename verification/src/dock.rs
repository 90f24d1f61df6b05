//! The dash as a dock: it slides up from the bottom edge when the pointer pushes into it.
//!
//! The dock is a pure overlay. What is here decides when it slides, from where to where,
//! when it hides by itself, where it is, and what a push into the edge does to the edge's
//! barrier. The slide itself, the barrier and the pixels belong to the caller, who reports how
//! far a slide has got and when it is over.

use vstd::prelude::*;

use crate::area::Area;
use crate::time::{DURATION_MAX, MILLISECOND};

verus! {

/// How long a slide takes, in milliseconds.
pub const SLIDE_MS: u64 = 200;

/// How long the dock waits after the pointer leaves before sliding away: long enough to
/// cross a gap between two icons, or to overshoot the dock's top edge and come back.
pub const HIDE_DELAY: u128 = 300 * MILLISECOND;

/// All the way out, in the parts that a slide is told in.
pub const ONE: i64 = 1_000_000;

/// How far out the dock rests for an app that wants attention.
pub const POKE: i64 = 450_000;

/// The longest length of a screen.
pub const MAX_SCREEN: i64 = 0x100_0000_0000;

/// An output's size, and the height that the dash asks for there, in 64ths of a logical pixel.
#[derive(Clone, Copy, Debug, PartialEq, Eq, Structural)]
pub struct Screen {
    pub w: i64,
    pub h: i64,
    pub dash_h: i64,
}

impl Screen {
    pub open spec fn good(self) -> bool {
        &&& 0 <= self.w <= MAX_SCREEN
        &&& 0 <= self.h <= MAX_SCREEN
        &&& 0 <= self.dash_h <= MAX_SCREEN
    }

    /// The dash's area when all of it is out: as wide as the screen, at its bottom.
    pub open spec fn rest(self) -> Area {
        Area {
            x: 0,
            y: (self.h - self.dash_h) as i128,
            w: self.w as i128,
            h: self.dash_h as i128,
        }
    }

    /// The dash's area when so many parts of it are out, in parts of which a unit has `ONE`.
    pub open spec fn slid(self, out: int) -> Area {
        Area {
            x: 0,
            y: (ONE * (self.h - self.dash_h) + self.dash_h * (ONE - out)) as i128,
            w: (ONE * self.w) as i128,
            h: (ONE * self.dash_h) as i128,
        }
    }
}

/// Where the dock is in its life.
#[derive(Clone, Copy, Debug, PartialEq, Eq, Structural)]
pub enum DockState {
    Hidden,
    Showing,
    Shown,
    Hiding,
}

/// How far out the dock is, or is to be.
#[derive(Clone, Copy, Debug, PartialEq, Eq, Structural)]
pub enum Level {
    /// Off the screen.
    Away,
    /// Resting part-way out, so the icon of an app that wants attention shows.
    Poke,
    /// All the way out.
    Out,
    /// Wherever the running slide has got to.
    Current,
}

/// A slide for the caller to start.
#[derive(Clone, Copy, Debug, PartialEq, Eq, Structural)]
pub struct Slide {
    pub from: Level,
    pub to: Level,
}

/// What a motion does to the barrier at the bottom edge.
#[derive(Clone, Copy, Debug, PartialEq, Eq, Structural)]
pub struct PushStep {
    /// Forget the pressure first: it was built against another output's edge.
    pub leave_first: bool,
    /// Then push with this motion; otherwise leave the barrier, and nothing trips.
    pub push: bool,
}

pub struct Dock {
    pub state: DockState,
    /// The output it is showing on, the one whose bottom edge was pushed.
    pub output: Option<u64>,
    /// Whether the pointer is over the dock's area.
    pub hovered: bool,
    /// When the dock is to hide by itself.
    pub leave_at: Option<u128>,
    /// Held open while an icon is being dragged out of it.
    pub dragging: bool,
    /// Held open while a workspace peek is up.
    pub peeked: bool,
    /// An app wants attention, so "away" is the poke. Not a hold.
    pub poking: bool,
    /// Held open while one of its icons has its context menu up.
    pub menu_open: bool,
}

impl Dock {
    /// A dock that is off the screen, with nothing poking, belongs to no output.
    pub open spec fn wf(&self) -> bool {
        self.state == DockState::Hidden && !self.poking ==> self.output is None
    }

    /// Something other than the pointer keeps the dock out.
    pub open spec fn spec_held(&self) -> bool {
        self.dragging || self.menu_open || self.peeked
    }

    /// The dock is on the screen, mid-slide included.
    pub open spec fn visible(&self) -> bool {
        self.state != DockState::Hidden || self.poking
    }

    /// How far out "away" is.
    pub open spec fn spec_floor(&self) -> Level {
        if self.poking {
            Level::Poke
        } else {
            Level::Away
        }
    }

    /// The two docks are held and poked alike.
    pub open spec fn same_reasons(&self, other: &Dock) -> bool {
        &&& self.dragging == other.dragging
        &&& self.peeked == other.peeked
        &&& self.poking == other.poking
        &&& self.menu_open == other.menu_open
    }

    /// What taking or releasing a hold does to the hide deadline: nothing while the dock
    /// stays held or stays free; the first hold cancels it; the last release arms it, if the
    /// pointer is off a dock that is on the screen.
    pub open spec fn deadline_after_hold(&self, was_held: bool, now: u128) -> Option<u128> {
        if self.spec_held() == was_held {
            self.leave_at
        } else if self.spec_held() {
            None
        } else if !self.hovered && self.visible() {
            Some((now + HIDE_DELAY) as u128)
        } else {
            self.leave_at
        }
    }

    /// The dock once the pointer is known to be over it, or not: a change either calls the
    /// hiding off or starts the grace period.
    pub open spec fn pointed(&self, over: bool, now: u128) -> Dock {
        Dock {
            hovered: over,
            leave_at: if over == self.hovered {
                self.leave_at
            } else if over {
                None
            } else {
                Some((now + HIDE_DELAY) as u128)
            },
            ..*self
        }
    }

    /// The dock once it has been told to hide.
    pub open spec fn told_to_hide(&self) -> Dock {
        if self.state == DockState::Shown || self.state == DockState::Showing {
            Dock { state: DockState::Hiding, leave_at: None, ..*self }
        } else {
            *self
        }
    }

    pub fn new() -> (dock: Self)
        ensures
            dock.wf(),
            dock == (Dock {
                state: DockState::Hidden,
                output: None,
                hovered: false,
                leave_at: None,
                dragging: false,
                peeked: false,
                poking: false,
                menu_open: false,
            }),
    {
        Dock {
            state: DockState::Hidden,
            output: None,
            hovered: false,
            leave_at: None,
            dragging: false,
            peeked: false,
            poking: false,
            menu_open: false,
        }
    }

    /// What one clamped motion on `output` does to the barrier. `on_edge` says that the
    /// pointer is on the bottom edge.
    ///
    /// Pressure built against one output's edge does not carry to another's, unless the dock
    /// is out; off the edge the pressure is forgotten.
    pub fn push(&self, output: u64, on_edge: bool) -> (step: PushStep)
        ensures
            step.leave_first <==> self.output is Some && self.output != Some(output)
                && !self.visible(),
            step.push <==> on_edge,
    {
        let elsewhere = match self.output {
            Some(o) => o != output,
            None => false,
        };
        PushStep { leave_first: elsewhere && !self.is_visible(), push: on_edge }
    }

    /// Slide the dock out on `output`, or call off its hiding if it is already out.
    pub fn show(&mut self, output: u64) -> (slide: Option<Slide>)
        ensures
            final(self).wf(),
            final(self).output == Some(output),
            final(self).leave_at is None,
            final(self).hovered == old(self).hovered,
            final(self).same_reasons(old(self)),
            // Here and out, or on the way out: nothing to start. Out of a hide it turns round,
            // from rest it starts where "away" is, and on another output from off the screen.
            if old(self).output == Some(output) && (old(self).state == DockState::Shown
                || old(self).state == DockState::Showing) {
                final(self).state == old(self).state && slide is None
            } else {
                &&& final(self).state == DockState::Showing
                &&& slide == Some(
                    Slide {
                        from: if old(self).output != Some(output) {
                            Level::Away
                        } else if old(self).state == DockState::Hiding {
                            Level::Current
                        } else {
                            old(self).spec_floor()
                        },
                        to: Level::Out,
                    },
                )
            },
            // On its own output it never jumps: a slide starts where the dock is.
            old(self).output == Some(output) ==> (slide matches Some(s) ==> s.from
                == old(self).level()),
    {
        self.leave_at = None;
        let here = match self.output {
            Some(o) => o == output,
            None => false,
        };
        if !here {
            self.output = Some(output);
            self.state = DockState::Hidden;
        }
        let from = match self.state {
            DockState::Shown | DockState::Showing => {
                return None;
            },
            DockState::Hiding => Level::Current,
            DockState::Hidden => if here {
                self.floor()
            } else {
                Level::Away
            },
        };
        self.state = DockState::Showing;
        Some(Slide { from, to: Level::Out })
    }

    /// Start the slide away, to the floor and not to nothing: an app that still wants
    /// attention keeps its poke. Nothing happens if the dock is already going or gone.
    pub fn start_hiding(&mut self) -> (slide: Option<Slide>)
        ensures
            old(self).wf() ==> final(self).wf(),
            *final(self) == old(self).told_to_hide(),
            slide == match old(self).state {
                DockState::Hidden | DockState::Hiding => None,
                DockState::Shown => Some(
                    Slide { from: Level::Out, to: old(self).spec_floor() },
                ),
                DockState::Showing => Some(
                    Slide { from: Level::Current, to: old(self).spec_floor() },
                ),
            },
    {
        let from = match self.state {
            DockState::Hidden | DockState::Hiding => {
                return None;
            },
            DockState::Shown => Level::Out,
            DockState::Showing => Level::Current,
        };
        self.leave_at = None;
        self.state = DockState::Hiding;
        Some(Slide { from, to: self.floor() })
    }

    /// Hide without sliding, for the cases where the dock must simply not be there. The
    /// caller drops the barrier's pressure too.
    pub fn dismiss(&mut self)
        ensures
            final(self).wf(),
            *final(self) == (Dock {
                state: DockState::Hidden,
                output: None,
                hovered: false,
                leave_at: None,
                dragging: false,
                peeked: false,
                poking: false,
                menu_open: false,
            }),
    {
        self.state = DockState::Hidden;
        self.output = None;
        self.hovered = false;
        self.leave_at = None;
        self.dragging = false;
        self.peeked = false;
        self.poking = false;
        self.menu_open = false;
    }

    pub fn output(&self) -> (output: Option<u64>)
        ensures
            output == self.output,
    {
        self.output
    }

    /// Whether the dock is on screen at all, mid-slide in either direction included.
    pub fn is_visible(&self) -> (visible: bool)
        ensures
            visible == self.visible(),
    {
        self.state != DockState::Hidden || self.poking
    }

    /// Whether the dock is only out because an app wants attention, which is when it draws
    /// the urgent icons alone. True while sliding into or back down to the poke as well.
    pub fn is_poking(&self) -> (poking: bool)
        ensures
            poking <==> self.poking && self.state != DockState::Shown && self.state
                != DockState::Showing,
    {
        self.poking && self.state != DockState::Shown && self.state != DockState::Showing
    }

    fn floor(&self) -> (level: Level)
        ensures
            level == self.spec_floor(),
    {
        if self.poking {
            Level::Poke
        } else {
            Level::Away
        }
    }

    /// An app started or stopped demanding attention on `output`. Restating what already
    /// holds does nothing.
    pub fn set_poking(&mut self, output: Option<u64>, poking: bool) -> (slide: Option<Slide>)
        ensures
            old(self).wf() ==> final(self).wf(),
            old(self).poking == poking ==> *final(self) == *old(self) && slide is None,
            final(self).poking == poking,
            final(self).output == if poking && !old(self).poking && old(self).output is None {
                output
            } else {
                old(self).output
            },
            final(self).hovered == old(self).hovered,
            final(self).leave_at == old(self).leave_at,
            final(self).dragging == old(self).dragging,
            final(self).peeked == old(self).peeked,
            final(self).menu_open == old(self).menu_open,
            // From rest it rises into the poke or slides the rest of the way down; anywhere
            // else the new floor is enough.
            old(self).poking != poking ==> (if old(self).state == DockState::Hidden {
                &&& final(self).state == DockState::Hiding
                &&& slide == Some(
                    if poking {
                        Slide { from: Level::Away, to: Level::Poke }
                    } else {
                        Slide { from: Level::Poke, to: Level::Away }
                    },
                )
            } else {
                final(self).state == old(self).state && slide is None
            }),
    {
        if self.poking == poking {
            return None;
        }
        self.poking = poking;
        if poking {
            if self.output.is_none() {
                self.output = output;
            }
            if self.state == DockState::Hidden {
                self.state = DockState::Hiding;
                return Some(Slide { from: Level::Away, to: Level::Poke });
            }
        } else if self.state == DockState::Hidden {
            self.state = DockState::Hiding;
            return Some(Slide { from: Level::Poke, to: Level::Away });
        }
        None
    }

    pub fn are_animations_ongoing(&self) -> (ongoing: bool)
        ensures
            ongoing <==> self.state == DockState::Showing || self.state == DockState::Hiding,
    {
        self.state == DockState::Showing || self.state == DockState::Hiding
    }

    /// How far out the dock is.
    pub open spec fn level(&self) -> Level {
        match self.state {
            DockState::Hidden => self.spec_floor(),
            DockState::Shown => Level::Out,
            DockState::Showing | DockState::Hiding => Level::Current,
        }
    }

    /// How far out the dock is.
    pub fn progress(&self) -> (level: Level)
        ensures
            level == self.level(),
    {
        match self.state {
            DockState::Hidden => self.floor(),
            DockState::Shown => Level::Out,
            DockState::Showing | DockState::Hiding => Level::Current,
        }
    }

    /// Whether the dock is out on `output`.
    pub open spec fn there(&self, output: u64) -> bool {
        self.visible() && self.output == Some(output)
    }

    fn is_there(&self, output: u64) -> (there: bool)
        ensures
            there == self.there(output),
    {
        let here = match self.output {
            Some(o) => o == output,
            None => false,
        };
        self.is_visible() && here
    }

    /// How far out the dock is, with a running slide at `current`.
    pub open spec fn parts_out(&self, current: i64) -> i64 {
        match self.state {
            DockState::Hidden => if self.poking {
                POKE
            } else {
                0
            },
            DockState::Shown => ONE,
            DockState::Showing | DockState::Hiding => current,
        }
    }

    /// The dash's area on `output`: at the bottom, slid down by what is left of the slide. The
    /// dash centres its own pill in whatever area it is given. Its lengths are in parts of which
    /// a unit has `ONE`. None where the dock is not on this output, or not out at all.
    pub fn area(&self, output: u64, screen: Screen, current: i64) -> (area: Option<Area>)
        requires
            screen.good(),
            0 <= current <= ONE,
        ensures
            area == if self.there(output) {
                Some(screen.slid(self.parts_out(current) as int))
            } else {
                None
            },
    {
        if !self.is_there(output) {
            return None;
        }
        let out: i64 = match self.progress() {
            Level::Away => 0,
            Level::Poke => POKE,
            Level::Out => ONE,
            Level::Current => current,
        };
        let left: i128 = ONE as i128 - out as i128;
        let dash_h: i128 = screen.dash_h as i128;
        assert(0 <= dash_h * left <= 0x100_0000_0000 * 1_000_000) by (nonlinear_arith)
            requires
                0 <= dash_h <= 0x100_0000_0000,
                0 <= left <= 1_000_000,
        ;
        Some(
            Area {
                x: 0,
                y: ONE as i128 * (screen.h as i128 - dash_h) + dash_h * left,
                w: ONE as i128 * screen.w as i128,
                h: ONE as i128 * dash_h,
            },
        )
    }

    /// The area in which the pointer counts as being on the dock, which is the one it rests in:
    /// using the sliding one would make the dock chase the pointer away from itself.
    pub fn hover_area(&self, output: u64, screen: Screen) -> (area: Option<Area>)
        requires
            screen.good(),
        ensures
            area == if self.there(output) {
                Some(screen.rest())
            } else {
                None
            },
    {
        if !self.is_there(output) {
            return None;
        }
        Some(
            Area {
                x: 0,
                y: screen.h as i128 - screen.dash_h as i128,
                w: screen.w as i128,
                h: screen.dash_h as i128,
            },
        )
    }

    /// Track the pointer. Returns whether the barrier is to be re-armed, which is so wherever
    /// the pointer is off the bottom edge, whichever device moved it.
    pub fn pointer_motion(
        &mut self,
        output: u64,
        screen: Screen,
        x: i64,
        y: i64,
        on_edge: bool,
        now: u128,
    ) -> (rearm: bool)
        requires
            screen.good(),
            now + HIDE_DELAY <= DURATION_MAX,
        ensures
            old(self).wf() ==> final(self).wf(),
            rearm == !on_edge,
            *final(self) == old(self).pointed(
                old(self).there(output) && screen.rest().has(x as int, y as int),
                now,
            ),
    {
        let over = match self.hover_area(output, screen) {
            Some(area) => area.contains(x as i128, y as i128),
            None => false,
        };
        if over != self.hovered {
            self.hovered = over;
            self.leave_at = if over {
                None
            } else {
                Some(now + HIDE_DELAY)
            };
        }
        !on_edge
    }

    /// The pointer left the dock's output entirely. The caller re-arms the barrier.
    pub fn pointer_left(&mut self, now: u128)
        requires
            now + HIDE_DELAY <= DURATION_MAX,
        ensures
            old(self).wf() ==> final(self).wf(),
            *final(self) == old(self).pointed(false, now),
    {
        if self.hovered {
            self.hovered = false;
            self.leave_at = Some(now + HIDE_DELAY);
        }
    }

    /// An icon is being dragged out of the dock: hold it open until the drag ends, however
    /// far the pointer wanders. Restated every frame.
    pub fn set_dragging(&mut self, dragging: bool, now: u128)
        requires
            now + HIDE_DELAY <= DURATION_MAX,
        ensures
            old(self).wf() ==> final(self).wf(),
            *final(self) == (Dock {
                dragging,
                leave_at: (Dock { dragging, ..*old(self) }).deadline_after_hold(
                    old(self).spec_held(),
                    now,
                ),
                ..*old(self)
            }),
    {
        let was = self.held();
        self.dragging = dragging;
        self.held_changed(was, now);
    }

    /// An icon's context menu is up: hold the dock open until it closes. Restated every
    /// frame.
    pub fn set_menu_open(&mut self, open: bool, now: u128)
        requires
            now + HIDE_DELAY <= DURATION_MAX,
        ensures
            old(self).wf() ==> final(self).wf(),
            *final(self) == (Dock {
                menu_open: open,
                leave_at: (Dock { menu_open: open, ..*old(self) }).deadline_after_hold(
                    old(self).spec_held(),
                    now,
                ),
                ..*old(self)
            }),
    {
        let was = self.held();
        self.menu_open = open;
        self.held_changed(was, now);
    }

    /// A workspace peek is up: hold the dock out alongside it. Restated every frame.
    pub fn set_peeked(&mut self, peeked: bool, now: u128)
        requires
            now + HIDE_DELAY <= DURATION_MAX,
        ensures
            old(self).wf() ==> final(self).wf(),
            *final(self) == (Dock {
                peeked,
                leave_at: (Dock { peeked, ..*old(self) }).deadline_after_hold(
                    old(self).spec_held(),
                    now,
                ),
                ..*old(self)
            }),
    {
        let was = self.held();
        self.peeked = peeked;
        self.held_changed(was, now);
    }

    fn held(&self) -> (held: bool)
        ensures
            held == self.spec_held(),
    {
        self.dragging || self.menu_open || self.peeked
    }

    /// Re-arm or cancel the hide deadline when the last hold is released or the first taken.
    fn held_changed(&mut self, was: bool, now: u128)
        requires
            now + HIDE_DELAY <= DURATION_MAX,
        ensures
            *final(self) == (Dock {
                leave_at: old(self).deadline_after_hold(was, now),
                ..*old(self)
            }),
    {
        let held = self.held();
        if held == was {
            return ;
        }
        if held {
            self.leave_at = None;
        } else if !self.hovered && self.is_visible() {
            self.leave_at = Some(now + HIDE_DELAY);
        }
    }

    /// What a finished slide settles into. `slide_done` says that the running slide has
    /// arrived.
    pub open spec fn settled(&self, slide_done: bool) -> Dock {
        match self.state {
            DockState::Showing if slide_done => Dock { state: DockState::Shown, ..*self },
            // A poking dock is still on screen and still belongs to its output.
            DockState::Hiding if slide_done => Dock {
                state: DockState::Hidden,
                hovered: false,
                leave_at: None,
                output: if self.poking {
                    self.output
                } else {
                    None
                },
                ..*self
            },
            _ => *self,
        }
    }

    /// The grace period after the pointer left has run out, and nothing holds the dock.
    pub open spec fn expired(&self, now: u128) -> bool {
        !self.spec_held() && (self.leave_at matches Some(at) && now >= at)
    }

    /// Advance the state machine: settle a finished slide, and hide once the grace period
    /// after the pointer left has run out.
    pub fn advance_animations(&mut self, slide_done: bool, now: u128) -> (slide: Option<Slide>)
        ensures
            old(self).wf() ==> final(self).wf(),
            ({
                let settled = old(self).settled(slide_done);
                if settled.expired(now) {
                    &&& *final(self) == settled.told_to_hide()
                    &&& slide == match settled.state {
                        DockState::Hidden | DockState::Hiding => None,
                        DockState::Shown => Some(
                            Slide { from: Level::Out, to: settled.spec_floor() },
                        ),
                        DockState::Showing => Some(
                            Slide { from: Level::Current, to: settled.spec_floor() },
                        ),
                    }
                } else {
                    *final(self) == settled && slide is None
                }
            }),
    {
        match self.state {
            DockState::Showing if slide_done => {
                self.state = DockState::Shown;
            },
            DockState::Hiding if slide_done => {
                self.state = DockState::Hidden;
                self.hovered = false;
                self.leave_at = None;
                if !self.poking {
                    self.output = None;
                }
            },
            _ => {},
        }
        if self.held() {
            return None;
        }
        if let Some(at) = self.leave_at {
            if now >= at {
                return self.start_hiding();
            }
        }
        None
    }

    /// When the hide timer wants a frame, so an idle session still slides it away.
    pub fn next_wakeup(&self) -> (at: Option<u128>)
        ensures
            at == if self.spec_held() {
                None
            } else {
                self.leave_at
            },
    {
        if self.held() {
            None
        } else {
            self.leave_at
        }
    }
}

/// The further out the dock is, the higher it sits: from just off the screen to flush with the
/// bottom edge.
pub proof fn law_the_dock_slides_up(screen: Screen, a: int, b: int)
    requires
        screen.good(),
        0 <= a <= b <= ONE,
    ensures
        screen.slid(b).y <= screen.slid(a).y,
        a < b && screen.dash_h > 0 ==> screen.slid(b).y < screen.slid(a).y,
        screen.slid(0).y == ONE * screen.h,
        screen.slid(ONE as int).y == ONE * screen.rest().y,
        screen.slid(a).h == ONE * screen.rest().h,
        screen.slid(a).w == ONE * screen.rest().w,
{
    let h = screen.dash_h as int;
    assert(0 <= h * (1_000_000 - b) <= h * (1_000_000 - a) <= h * 1_000_000) by (nonlinear_arith)
        requires
            0 <= h,
            0 <= a <= b <= 1_000_000,
    ;
    assert(h * (ONE - ONE) == 0);
    assert(a < b && h > 0 ==> h * (1_000_000 - b) < h * (1_000_000 - a)) by (nonlinear_arith);
}

/// Restating a hold leaves the hide deadline where it is, however often and whenever it is
/// restated.
pub proof fn law_restating_a_hold_keeps_the_deadline(dock: Dock, now: u128)
    ensures
        dock.deadline_after_hold(dock.spec_held(), now) == dock.leave_at,
{
}

/// While anything holds the dock it never starts to hide, however much time passes, and no
/// wake-up is asked for.
pub proof fn law_a_held_dock_does_not_hide(dock: Dock, slide_done: bool, now: u128)
    requires
        dock.spec_held(),
    ensures
        !dock.settled(slide_done).expired(now),
{
}

/// The pointer leaving a shown, unheld dock arms a wake-up one grace period ahead; the dock
/// does not hide before it and does from then on.
pub proof fn law_leaving_hides_after_the_grace_period(dock: Dock, now: u128, later: u128)
    requires
        dock.state == DockState::Shown,
        dock.hovered,
        !dock.spec_held(),
        now + HIDE_DELAY <= DURATION_MAX,
    ensures
        dock.pointed(false, now).leave_at == Some((now + HIDE_DELAY) as u128),
        dock.pointed(false, now).settled(false).expired(later) <==> later >= now + HIDE_DELAY,
{
}

/// Coming back to the dock calls the hiding off for good.
pub proof fn law_returning_cancels_the_hide(dock: Dock, left: u128, back: u128, later: u128)
    requires
        dock.hovered,
    ensures
        !dock.pointed(false, left).pointed(true, back).expired(later),
{
}

/// The poke is a resting place: a dock that hides while an app wants attention stays on the
/// screen and on its output, and goes away once the attention is no longer wanted.
pub proof fn law_the_poke_outlives_a_hide(dock: Dock)
    requires
        dock.poking,
    ensures
        ({
            let rested = (Dock { state: DockState::Hiding, ..dock }).settled(true);
            &&& rested.visible()
            &&& rested.output == dock.output
            &&& !(Dock { state: DockState::Hiding, poking: false, ..rested }).settled(
                true,
            ).visible()
        }),
{
}

/// A hold is one of the three reasons besides the pointer that keep the dock out, and this is
/// the dock once it was taken or released.
pub open spec fn hold_set(was: Dock, now: Dock, held: bool) -> bool {
    ||| now == (Dock { dragging: held, leave_at: now.leave_at, ..was })
    ||| now == (Dock { menu_open: held, leave_at: now.leave_at, ..was })
    ||| now == (Dock { peeked: held, leave_at: now.leave_at, ..was })
}

/// What a hold does to a dock, taken or released: nothing but its own flag and the deadline
/// change. A hold that is taken calls the hiding off. The last that is released starts the grace
/// period, but only with the pointer off a dock that is on the screen: with the pointer on it no
/// deadline is set. A hold that is neither the first nor the last leaves the deadline.
pub open spec fn hold_kept(was: Dock, now: Dock, held: bool, at: u128) -> bool {
    let before = was.dragging || was.menu_open || was.peeked;
    let after = now.dragging || now.menu_open || now.peeked;
    &&& hold_set(was, now, held)
    &&& was.hovered && was.leave_at is None ==> now.leave_at is None
    &&& before == after ==> now.leave_at == was.leave_at
    &&& !before && after ==> now.leave_at is None
    &&& before && !after && was.hovered ==> now.leave_at == was.leave_at
    &&& before && !after && !was.hovered && (was.state != DockState::Hidden || was.poking)
        ==> now.leave_at == Some((at + 300 * MILLISECOND) as u128)
    &&& before && !after && was.state == DockState::Hidden && !was.poking ==> now.leave_at
        == was.leave_at
}

/// Opening and closing an icon's menu never hides the dock from under the pointer.
pub proof fn law_a_menu_holds_the_dock(dock: &mut Dock, open: bool, now: u128)
    requires
        call_ensures(Dock::set_menu_open, (dock, open, now), ()),
        now + HIDE_DELAY <= DURATION_MAX,
    ensures
        final(dock).menu_open == open,
        hold_kept(*old(dock), *final(dock), open, now),
{
}

/// Nor does a drag.
pub proof fn law_a_drag_holds_the_dock(dock: &mut Dock, dragging: bool, now: u128)
    requires
        call_ensures(Dock::set_dragging, (dock, dragging, now), ()),
        now + HIDE_DELAY <= DURATION_MAX,
    ensures
        final(dock).dragging == dragging,
        hold_kept(*old(dock), *final(dock), dragging, now),
{
}

/// Nor does a peek.
pub proof fn law_a_peek_holds_the_dock(dock: &mut Dock, peeked: bool, now: u128)
    requires
        call_ensures(Dock::set_peeked, (dock, peeked, now), ()),
        now + HIDE_DELAY <= DURATION_MAX,
    ensures
        final(dock).peeked == peeked,
        hold_kept(*old(dock), *final(dock), peeked, now),
{
}

/// The dock starts to hide by itself exactly when it is out or on its way out, nothing holds it,
/// and its deadline has come. So a dock without a deadline stays, and a held one does. It hides to
/// the poke while an app wants attention, and else all the way.
pub proof fn law_the_dock_hides_when_its_time_has_come(
    dock: &mut Dock,
    done: bool,
    now: u128,
    slide: Option<Slide>,
)
    requires
        call_ensures(Dock::advance_animations, (dock, done, now), slide),
        old(dock).state == DockState::Shown || old(dock).state == DockState::Showing,
    ensures
        ({
            let was = *old(dock);
            let after = *final(dock);
            let held = was.dragging || was.menu_open || was.peeked;
            let due = !held && (was.leave_at matches Some(at) && at <= now);
            &&& due <==> after.state == DockState::Hiding
            &&& due <==> slide is Some
            &&& due ==> after.leave_at is None && slide == Some(
                Slide {
                    from: if was.state == DockState::Shown || done {
                        Level::Out
                    } else {
                        Level::Current
                    },
                    to: if was.poking {
                        Level::Poke
                    } else {
                        Level::Away
                    },
                },
            )
            &&& !due ==> after.leave_at == was.leave_at && after.state == if done {
                DockState::Shown
            } else {
                was.state
            }
            &&& after.output == was.output && after.hovered == was.hovered
            &&& after.dragging == was.dragging && after.menu_open == was.menu_open && after.peeked
                == was.peeked && after.poking == was.poking
        }),
{
}

/// A dock that has slid away is at rest, off the pointer and off its output; one that pokes is at
/// rest on its output. While it slides away it stays as it is.
pub proof fn law_a_hidden_dock_rests(dock: &mut Dock, done: bool, now: u128, slide: Option<Slide>)
    requires
        call_ensures(Dock::advance_animations, (dock, done, now), slide),
        old(dock).state == DockState::Hiding || old(dock).state == DockState::Hidden,
    ensures
        slide is None,
        old(dock).state == DockState::Hiding && done ==> {
            &&& final(dock).state == DockState::Hidden
            &&& !final(dock).hovered
            &&& final(dock).leave_at is None
            &&& final(dock).output == if old(dock).poking {
                old(dock).output
            } else {
                None
            }
        },
        old(dock).state == DockState::Hidden || !done ==> *final(dock) == *old(dock),
{
}

/// The dock asks to be woken exactly when it would hide.
pub proof fn law_the_dock_wakes_when_it_hides(dock: Dock, at: Option<u128>)
    requires
        call_ensures(Dock::next_wakeup, (&dock,), at),
    ensures
        dock.dragging || dock.menu_open || dock.peeked ==> at is None,
        !(dock.dragging || dock.menu_open || dock.peeked) ==> at == dock.leave_at,
{
}

/// The pointer is on the dock where it rests, on its own output; coming onto it calls the hiding
/// off, going off it starts the grace period, and staying on or off changes nothing.
pub proof fn law_the_pointer_keeps_the_dock_out(
    dock: &mut Dock,
    output: u64,
    screen: Screen,
    x: i64,
    y: i64,
    on_edge: bool,
    now: u128,
    rearm: bool,
)
    requires
        call_ensures(Dock::pointer_motion, (dock, output, screen, x, y, on_edge, now), rearm),
        screen.good(),
        now + HIDE_DELAY <= DURATION_MAX,
    ensures
        rearm == !on_edge,
        ({
            let was = *old(dock);
            let after = *final(dock);
            &&& after.hovered == {
                &&& was.state != DockState::Hidden || was.poking
                &&& was.output == Some(output)
                &&& 0 <= x < screen.w
                &&& screen.h - screen.dash_h <= y < screen.h
            }
            &&& after.hovered == was.hovered ==> after.leave_at == was.leave_at
            &&& after.hovered && !was.hovered ==> after.leave_at is None
            &&& !after.hovered && was.hovered ==> after.leave_at == Some(
                (now + 300 * MILLISECOND) as u128,
            )
            &&& after == (Dock { hovered: after.hovered, leave_at: after.leave_at, ..was })
        }),
{
}

/// Leaving the output is going off the dock.
pub proof fn law_leaving_the_output_starts_the_grace_period(dock: &mut Dock, now: u128)
    requires
        call_ensures(Dock::pointer_left, (dock, now), ()),
        now + HIDE_DELAY <= DURATION_MAX,
    ensures
        !final(dock).hovered,
        old(dock).hovered ==> final(dock).leave_at == Some((now + 300 * MILLISECOND) as u128),
        !old(dock).hovered ==> final(dock).leave_at == old(dock).leave_at,
        *final(dock) == (Dock { hovered: false, leave_at: final(dock).leave_at, ..*old(dock) }),
{
}

/// A dock that is shown comes all the way out on the output it was asked for, and is not about to
/// hide.
pub proof fn law_a_shown_dock_comes_out(dock: &mut Dock, output: u64, slide: Option<Slide>)
    requires
        call_ensures(Dock::show, (dock, output), slide),
    ensures
        final(dock).output == Some(output),
        final(dock).leave_at is None,
        final(dock).state == DockState::Shown || final(dock).state == DockState::Showing,
        slide is Some ==> slide->Some_0.to == Level::Out && final(dock).state
            == DockState::Showing,
        slide is None ==> final(dock).state == old(dock).state,
        slide is None <==> old(dock).output == Some(output) && (old(dock).state
            == DockState::Shown || old(dock).state == DockState::Showing),
        slide is Some && old(dock).output != Some(output) ==> slide->Some_0.from == Level::Away,
{
}

/// A dock that is told to hide goes, down to the poke while an app wants attention; one that is
/// going or gone stays as it is.
pub proof fn law_a_dock_told_to_hide_goes(dock: &mut Dock, slide: Option<Slide>)
    requires
        call_ensures(Dock::start_hiding, (dock,), slide),
    ensures
        final(dock).state != DockState::Shown && final(dock).state != DockState::Showing,
        slide is Some <==> old(dock).state == DockState::Shown || old(dock).state
            == DockState::Showing,
        slide is Some ==> final(dock).state == DockState::Hiding && final(dock).leave_at is None
            && slide->Some_0.to == if old(dock).poking {
            Level::Poke
        } else {
            Level::Away
        },
        slide is None ==> *final(dock) == *old(dock),
        final(dock).output == old(dock).output,
        final(dock).hovered == old(dock).hovered,
{
}

/// An app that wants attention pokes a resting dock out a little, and one that no longer does
/// lets it down again; a dock that is out or moving stays its course. Restating either does
/// nothing.
pub proof fn law_attention_pokes_the_dock_out(
    dock: &mut Dock,
    output: Option<u64>,
    poking: bool,
    slide: Option<Slide>,
)
    requires
        call_ensures(Dock::set_poking, (dock, output, poking), slide),
    ensures
        final(dock).poking == poking,
        old(dock).poking == poking ==> *final(dock) == *old(dock) && slide is None,
        old(dock).poking != poking && old(dock).state == DockState::Hidden ==> slide is Some,
        slide matches Some(s) ==> {
            &&& old(dock).state == DockState::Hidden && old(dock).poking != poking
            &&& poking ==> s.from == Level::Away && s.to == Level::Poke
            &&& !poking ==> s.from == Level::Poke && s.to == Level::Away
        },
        old(dock).state != DockState::Hidden ==> final(dock).state == old(dock).state,
        old(dock).output is Some ==> final(dock).output == old(dock).output,
        poking && !old(dock).poking && old(dock).output is None ==> final(dock).output == output,
        final(dock).leave_at == old(dock).leave_at,
{
}

/// The dash is on the dock's own output and on no other, at the bottom: all of it when it is
/// out, none of it when it is away, and the further the slide is the more of it.
pub proof fn law_the_dash_is_where_the_dock_is(
    dock: Dock,
    output: u64,
    screen: Screen,
    current: i64,
    further: i64,
    area: Option<Area>,
    later: Option<Area>,
    hover: Option<Area>,
)
    requires
        screen.good(),
        0 <= current <= further <= ONE,
        call_ensures(Dock::area, (&dock, output, screen, current), area),
        call_ensures(Dock::area, (&dock, output, screen, further), later),
        call_ensures(Dock::hover_area, (&dock, output, screen), hover),
    ensures
        dock.output != Some(output) ==> area is None && hover is None,
        area is Some <==> later is Some,
        area is Some <==> hover is Some,
        area matches Some(at) ==> {
            &&& at.x == 0
            &&& at.w == ONE * screen.w
            &&& at.h == ONE * screen.dash_h
            &&& ONE * (screen.h - screen.dash_h) <= at.y <= ONE * screen.h
            &&& dock.state == DockState::Shown ==> at.y + at.h == ONE * screen.h
            &&& dock.state == DockState::Showing && current == ONE ==> at.y + at.h == ONE
                * screen.h
            &&& dock.state == DockState::Showing && current == 0 ==> at.y == ONE * screen.h
            &&& later->0.y <= at.y
            &&& hover->0.y + hover->0.h == screen.h
            &&& hover->0.h == screen.dash_h
            &&& hover->0.w == screen.w
        },
{
    let h = screen.dash_h as int;
    let (a, b) = (dock.parts_out(current) as int, dock.parts_out(further) as int);
    assert(0 <= h * (ONE - b) <= h * (ONE - a) <= h * ONE && h * (ONE - a) <= 0x100_0000_0000
        * 1_000_000) by (nonlinear_arith)
        requires
            0 <= h <= 0x100_0000_0000,
            0 <= a <= b <= ONE,
            ONE == 1_000_000,
    ;
    assert(a == ONE ==> h * (ONE - a) == 0) by (nonlinear_arith);
    assert(a == 0 ==> h * (ONE - a) == h * ONE) by (nonlinear_arith);
}

} // verus!
