//! The screenshot flash: a white rectangle over the captured area that fades away.

use vstd::prelude::*;

use crate::rect::{far_edge, max_of, min_of, Rect};
use crate::time::MILLISECOND;

verus! {

/// How long a flash takes to fade.
pub const OUT_TIME: u128 = 500 * MILLISECOND;

/// A flash, if one is running: its area in global coordinates, and when it started.
pub struct FlashSpot {
    pub active: Option<(Rect, u128)>,
}

/// How opaque a flash is: so much of the whole.
#[derive(Clone, Copy, Debug, PartialEq, Eq, Structural)]
pub struct Opacity {
    pub part: u128,
    pub whole: u128,
}

impl Opacity {
    /// The square of the share of its time that a flash has left, so that most of the fade
    /// happens early.
    pub open spec fn with_left(self, left: int) -> bool {
        &&& self.part == left * left
        &&& self.whole == OUT_TIME * OUT_TIME
    }
}

/// How much time has gone by since `start`, or none if that is still to come.
pub open spec fn elapsed(start: u128, now: u128) -> int {
    if now >= start {
        now - start
    } else {
        0
    }
}

impl FlashSpot {
    /// A flash is running and has not faded out.
    pub open spec fn animating(&self, now: u128) -> bool {
        self.active matches Some((_, start)) && elapsed(start, now) < OUT_TIME
    }

    pub fn new() -> (flash: Self)
        ensures
            flash.active is None,
    {
        FlashSpot { active: None }
    }

    /// Start a flash over `area`, replacing any that is running: two captures in quick
    /// succession look like two flashes over the newest area.
    pub fn fire(&mut self, area: Rect, now: u128)
        ensures
            final(self).active == Some((area, now)),
    {
        self.active = Some((area, now));
    }

    pub fn is_animating(&self, now: u128) -> (animating: bool)
        ensures
            animating == self.animating(now),
    {
        match self.active {
            Some((_, start)) => now < start || now - start < OUT_TIME,
            None => false,
        }
    }

    /// Drop a finished flash so it stops being asked about.
    pub fn advance(&mut self, now: u128)
        ensures
            final(self).active == if old(self).animating(now) {
                old(self).active
            } else {
                None
            },
    {
        if !self.is_animating(now) {
            self.active = None;
        }
    }

    /// The area that flashes, and how opaque it is.
    pub fn alpha(&self, now: u128) -> (fading: Option<(Rect, Opacity)>)
        ensures
            match fading {
                Some((area, opacity)) => {
                    &&& self.animating(now)
                    &&& self.active matches Some((a, start)) && area == a && opacity.with_left(
                        OUT_TIME - elapsed(start, now),
                    )
                },
                None => !self.animating(now),
            },
    {
        let (area, start) = match self.active {
            Some(active) => active,
            None => {
                return None;
            },
        };
        let gone: u128 = if now >= start {
            now - start
        } else {
            0
        };
        if gone >= OUT_TIME {
            return None;
        }
        let left: u128 = OUT_TIME - gone;
        assert(left * left <= 500_000_000 * 500_000_000) by (nonlinear_arith)
            requires
                0 <= left <= 500_000_000,
        ;
        Some((area, Opacity { part: left * left, whole: OUT_TIME * OUT_TIME }))
    }

    /// What one output draws of the flash: the part of the area that lands on it, in the
    /// output's own coordinates, and how opaque it is.
    pub fn visible_part(&self, output: Rect, now: u128) -> (part: Option<(Rect, Opacity)>)
        requires
            self.active matches Some((area, _)) ==> area.wf(),
            output.wf(),
        ensures
            part is Some <==> self.animating(now) && (self.active->0).0.overlaps(output),
            part matches Some((local, opacity)) ==> {
                let (area, start) = self.active->0;
                &&& opacity.with_left(OUT_TIME - elapsed(start, now))
                &&& local.wf()
                &&& local.x == max_of(area.x as int, output.x as int) - output.x
                &&& local.y == max_of(area.y as int, output.y as int) - output.y
                &&& local.x + local.w == min_of(
                    far_edge(area.x as int, area.w as int),
                    far_edge(output.x as int, output.w as int),
                ) - output.x
                &&& local.y + local.h == min_of(
                    far_edge(area.y as int, area.h as int),
                    far_edge(output.y as int, output.h as int),
                ) - output.y
            },
    {
        match self.alpha(now) {
            Some((area, opacity)) => match area.intersection(&output) {
                Some(visible) => Some(
                    (
                        Rect {
                            x: visible.x - output.x,
                            y: visible.y - output.y,
                            w: visible.w,
                            h: visible.h,
                        },
                        opacity,
                    ),
                ),
                None => None,
            },
            None => None,
        }
    }
}

/// A flash fired while one is running starts from the top, over its own area.
pub proof fn law_a_new_flash_starts_from_the_top(
    after: FlashSpot,
    area: Rect,
    now: u128,
    opacity: Opacity,
)
    requires
        after.active == Some((area, now)),
        opacity.with_left(OUT_TIME - elapsed(now, now)),
    ensures
        after.animating(now),
        opacity.part == opacity.whole,
{
}

/// A flash fades fast, then slowly: it is always further gone than its time is, and the less of
/// its time is left, the less there is of it.
pub proof fn law_most_of_the_fade_is_early(left: int, opacity: Opacity, later: int, fainter: Opacity)
    requires
        0 < later < left <= OUT_TIME,
        opacity.with_left(left),
        fainter.with_left(later),
    ensures
        opacity.part * OUT_TIME <= left * opacity.whole,
        left < OUT_TIME ==> opacity.part * OUT_TIME < left * opacity.whole,
        fainter.part < opacity.part,
{
    let all = OUT_TIME as int;
    assert((left * left) * all <= left * (all * all)) by (nonlinear_arith)
        requires
            0 < left <= all,
    ;
    assert(left < all ==> (left * left) * all < left * (all * all)) by (nonlinear_arith)
        requires
            0 < left <= all,
    ;
    assert(later * later < left * left) by (nonlinear_arith)
        requires
            0 < later < left,
    ;
}

/// A flash that has faded stays gone.
pub proof fn law_a_faded_flash_stays_gone(flash: FlashSpot, now: u128, later: u128)
    requires
        !flash.animating(now),
        now <= later,
    ensures
        !flash.animating(later),
{
}

/// A flash starts fully opaque over its own area, fades as time goes on, and is over after half
/// a second.
pub proof fn law_a_flash_fades_away(
    flash: &mut FlashSpot,
    area: Rect,
    start: u128,
    now: u128,
    later: u128,
    first: Option<(Rect, Opacity)>,
    then: Option<(Rect, Opacity)>,
    animating: bool,
)
    requires
        call_ensures(FlashSpot::fire, (flash, area, start), ()),
        start <= now <= later,
        call_ensures(FlashSpot::alpha, (&*final(flash), now), first),
        call_ensures(FlashSpot::alpha, (&*final(flash), later), then),
        call_ensures(FlashSpot::is_animating, (&*final(flash), now), animating),
    ensures
        animating <==> now < start + 500_000_000,
        first is Some <==> animating,
        first matches Some((over, opacity)) ==> {
            &&& over == area
            &&& opacity.whole > 0
            &&& now == start ==> opacity.part == opacity.whole
            &&& then matches Some((_, fainter)) ==> fainter.part <= opacity.part && fainter.whole
                == opacity.whole
            &&& then matches Some((_, fainter)) ==> now < later ==> fainter.part < opacity.part
        },
        then is Some ==> first is Some,
{
    if first is Some && then is Some {
        let (a, b) = (OUT_TIME - (now - start), OUT_TIME - (later - start));
        assert(b * b <= a * a && (b < a ==> b * b < a * a)) by (nonlinear_arith)
            requires
                0 < b <= a,
        ;
    }
}

/// A flash that is over is dropped, one that is not stays; an output shows the part of the area
/// that lands on it, where it lands.
pub proof fn law_an_output_shows_its_part(
    flash: FlashSpot,
    output: Rect,
    now: u128,
    area: Rect,
    start: u128,
    part: Option<(Rect, Opacity)>,
)
    requires
        flash.active == Some((area, start)),
        area.wf(),
        output.wf(),
        call_ensures(FlashSpot::visible_part, (&flash, output, now), part),
    ensures
        part matches Some((local, _)) ==> {
            &&& 0 <= local.x && local.x + local.w <= output.w
            &&& 0 <= local.y && local.y + local.h <= output.h
            &&& area.x <= local.x + output.x && local.x + output.x + local.w <= area.x + area.w
            &&& area.y <= local.y + output.y && local.y + output.y + local.h <= area.y + area.h
        },
        start <= now < start + 500_000_000 && output.x <= area.x && area.x + area.w <= output.x
            + output.w && output.y <= area.y && area.y + area.h <= output.y + output.h && area.w
            > 0 && area.h > 0 && output.x + output.w <= i32::MAX && output.y + output.h
            <= i32::MAX ==> part is Some && (part->0).0.x == area.x - output.x && (
        part->0).0.y == area.y - output.y && (part->0).0.w == area.w && (part->0).0.h == area.h,
{
}

} // verus!
