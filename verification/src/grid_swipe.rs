//! Swiping from one page of the app grid to another.
//!
//! While a swipe holds the view, the view is where the fingers are: so and so much travel is a
//! page. The release settles on a page. Positions are whole numbers of a unit in which both
//! the travel and the place the swipe started from come out even.

use vstd::prelude::*;

use crate::app_grid::{
    AppGrid, Swipe, SwipeSource, PAGE_SWITCH_MS, SWIPE_MAX_MS, SWIPE_MIN_MS, SWIPE_TOUCHPAD_PAGE,
    SWIPE_VELOCITY_THRESHOLD_TOUCH, SWIPE_VELOCITY_THRESHOLD_TOUCHPAD,
};
use crate::grid_layout::{larger, magnitude, Band, FINE, PARTS};

verus! {

/// The parts of a page in which the place that a swipe starts from is given.
pub const SUB: i128 = 0x10_0000;

/// The farthest a swipe can travel in one go, and the fastest it can be.
pub const MAX_TRAVEL: i64 = 0x100_0000_0000;

/// What a move of the fingers came to.
#[derive(Clone, Copy, Debug, PartialEq, Eq, Structural)]
pub enum SwipeStep {
    /// There is no swipe, or no page to go to.
    Ignored,
    /// The view is as far as it goes.
    Held,
    Moved,
}

/// Where the view settles, and how long it takes.
#[derive(Clone, Copy, Debug, PartialEq, Eq, Structural)]
pub struct Settle {
    pub page: usize,
    pub ms: u64,
}

/// A page that shows, and how far it is from where it rests.
#[derive(Clone, Copy, Debug, PartialEq, Eq, Structural)]
pub struct ShownPage {
    pub page: usize,
    pub dx: i128,
}

/// The nearest whole number to a quotient; of two, the larger.
pub open spec fn round_div(a: int, b: int) -> int {
    (2 * a + b) / (2 * b)
}

pub open spec fn ceil_div(a: int, b: int) -> int {
    (a + b - 1) / b
}

/// What is left of `v` between `lo` and `hi`.
pub open spec fn clamped(v: int, lo: int, hi: int) -> int {
    if v < lo {
        lo
    } else if v > hi {
        hi
    } else {
        v
    }
}

/// The travel that is a page.
pub open spec fn swipe_distance(source: SwipeSource, band: Band) -> int {
    match source {
        SwipeSource::Touchpad => SWIPE_TOUCHPAD_PAGE as int,
        SwipeSource::Pointer => larger(band.page_w(), FINE as int),
    }
}

impl Swipe {
    pub open spec fn wf(self) -> bool {
        &&& FINE * SUB <= self.unit <= 0x10_0000_0000 * SUB
        &&& 0 <= self.pos <= 0x1000_0000 * self.unit
        &&& 0 <= self.from <= 0x1000_0000 * self.unit
    }

    /// A page either side of where the swipe started is as far as it goes.
    pub open spec fn low(self, last: int) -> int {
        clamped(self.from as int / self.unit as int - 1, 0, last)
    }

    pub open spec fn high(self, last: int) -> int {
        clamped(ceil_div(self.from as int, self.unit as int) + 1, 0, last)
    }

    /// Where a move of the fingers takes the view.
    pub open spec fn swiped(self, travel: int, last: int) -> int {
        clamped(
            self.pos + travel * SUB,
            self.low(last) * self.unit,
            self.high(last) * self.unit,
        )
    }

    /// The fingers were still moving on release.
    pub open spec fn flicked(self, velocity: int) -> bool {
        magnitude(velocity) >= match self.source {
            SwipeSource::Touchpad => SWIPE_VELOCITY_THRESHOLD_TOUCHPAD as int,
            SwipeSource::Pointer => SWIPE_VELOCITY_THRESHOLD_TOUCH as int,
        }
    }

    /// The page that a release settles on: the nearest, or for a flick the next one its way.
    pub open spec fn target(self, velocity: int, last: int) -> int {
        let start = round_div(self.from as int, self.unit as int);
        clamped(
            if !self.flicked(velocity) {
                round_div(self.pos as int, self.unit as int)
            } else if velocity > 0 {
                start + 1
            } else {
                start - 1
            },
            0,
            last,
        )
    }

    /// How long the view takes to settle on a page, at the speed it was left with.
    pub open spec fn settle_ms(self, velocity: int, page: int) -> int {
        if velocity == 0 {
            PAGE_SWITCH_MS as int
        } else {
            clamped(
                round_div(
                    magnitude(page * self.unit - self.pos) * 3000,
                    SUB * magnitude(velocity),
                ),
                SWIPE_MIN_MS as int,
                SWIPE_MAX_MS as int,
            )
        }
    }
}

impl AppGrid {
    /// The last page.
    pub open spec fn last_page(&self, band: Band) -> int {
        larger(self.grid(band).n_pages() - 1, 0)
    }

    /// Begin a swipe from where the view is, which is given in parts of a page: the view
    /// follows the fingers from there.
    pub fn gesture_begin(&mut self, source: SwipeSource, page_pos: i64, band: Band)
        requires
            band.good(),
            0 <= page_pos <= 0x1000_0000_0000,
        ensures
            final(self).gesture matches Some(swipe) && swipe.wf() && swipe.source == source
                && swipe.unit == SUB * swipe_distance(source, band) && swipe.from == page_pos
                * swipe_distance(source, band) && swipe.pos == swipe.from,
            *final(self) == (AppGrid { gesture: final(self).gesture, ..*old(self) }),
    {
        let distance: i128 = match source {
            SwipeSource::Touchpad => SWIPE_TOUCHPAD_PAGE,
            SwipeSource::Pointer => {
                let w: i128 = PARTS * (band.w as i128);
                if w < FINE {
                    FINE
                } else {
                    w
                }
            },
        };
        let at: i128 = page_pos as i128;
        assert(0 <= at * distance <= 0x1000_0000 * (SUB * distance) && 0 <= at * distance
            <= 0x1000_0000_0000 * 0x10_0000_0000) by (nonlinear_arith)
            requires
                0 <= at <= 0x1000_0000_0000,
                0 <= distance <= 0x10_0000_0000,
                SUB == 0x10_0000,
        ;
        let pos: i128 = at * distance;
        self.gesture = Some(Swipe { pos, from: pos, unit: SUB * distance, source });
    }

    /// Whether a swipe holds the view.
    pub fn gesture_is_active(&self) -> (active: bool)
        ensures
            active == (self.gesture is Some),
    {
        self.gesture.is_some()
    }

    /// Move the view with the fingers.
    pub fn gesture_update(&mut self, travel: i64, band: Band) -> (step: SwipeStep)
        requires
            old(self).measured(band),
            old(self).gesture matches Some(swipe) ==> swipe.wf(),
            -MAX_TRAVEL <= travel <= MAX_TRAVEL,
        ensures
            ({
                let last = old(self).last_page(band);
                match old(self).gesture {
                    Some(swipe) if last > 0 => {
                        let to = swipe.swiped(travel as int, last);
                        &&& step == if to == swipe.pos {
                            SwipeStep::Held
                        } else {
                            SwipeStep::Moved
                        }
                        &&& final(self).gesture matches Some(now) && now.wf() && now == (Swipe {
                            pos: now.pos,
                            ..swipe
                        }) && now.pos == to
                    },
                    _ => step == SwipeStep::Ignored && final(self).gesture == old(self).gesture,
                }
            }),
            *final(self) == (AppGrid { gesture: final(self).gesture, ..*old(self) }),
    {
        let n_pages: usize = self.page_count(band);
        let swipe = match self.gesture {
            Some(swipe) => swipe,
            None => return SwipeStep::Ignored,
        };
        if n_pages <= 1 {
            return SwipeStep::Ignored;
        }
        proof {
            self.grid(band).lemma_n_pages();
            self.grid(band).lemma_page(0);
        }
        let last: i128 = (n_pages - 1) as i128;
        let unit: i128 = swipe.unit;
        proof {
            lemma_division(swipe.from as int, unit as int);
        }
        let low: i128 = clamp(swipe.from / unit - 1, 0, last);
        let high: i128 = clamp((swipe.from + unit - 1) / unit + 1, 0, last);
        proof {
            lemma_units(low as int, unit as int);
            lemma_units(high as int, unit as int);
        }
        let next: i128 = clamp(swipe.pos + travel as i128 * SUB, low * unit, high * unit);
        if next == swipe.pos {
            return SwipeStep::Held;
        }
        self.gesture = Some(Swipe { pos: next, ..swipe });
        SwipeStep::Moved
    }

    /// Let go of the view: it settles on a page. Takes the speed of the fingers, in travel per
    /// second.
    pub fn gesture_end(&mut self, velocity: i64, band: Band) -> (settle: Option<Settle>)
        requires
            old(self).measured(band),
            old(self).gesture matches Some(swipe) ==> swipe.wf(),
            -MAX_TRAVEL <= velocity <= MAX_TRAVEL,
        ensures
            match old(self).gesture {
                Some(swipe) => {
                    let page = swipe.target(velocity as int, old(self).last_page(band));
                    &&& settle matches Some(to) && to.page == page && to.ms == swipe.settle_ms(
                        velocity as int,
                        page,
                    )
                    &&& final(self).current_page == page
                    &&& *final(self) == (AppGrid {
                        current_page: final(self).current_page,
                        gesture: None,
                        ..*old(self)
                    })
                },
                None => settle is None && *final(self) == *old(self),
            },
    {
        let n_pages: usize = self.page_count(band);
        let swipe = match self.gesture {
            Some(swipe) => swipe,
            None => return None,
        };
        proof {
            self.grid(band).lemma_n_pages();
            if self.grid(band).shows() {
                self.grid(band).lemma_page(0);
            }
        }
        let last: i128 = if n_pages == 0 {
            0
        } else {
            (n_pages - 1) as i128
        };
        let unit: i128 = swipe.unit;
        let v: i128 = velocity as i128;
        let speed: i128 = if v < 0 {
            -v
        } else {
            v
        };
        let threshold: i128 = match swipe.source {
            SwipeSource::Touchpad => SWIPE_VELOCITY_THRESHOLD_TOUCHPAD,
            SwipeSource::Pointer => SWIPE_VELOCITY_THRESHOLD_TOUCH,
        };
        let start: i128 = rounded(swipe.from, unit);
        let nearest: i128 = rounded(swipe.pos, unit);
        let page: i128 = clamp(
            if speed < threshold {
                nearest
            } else if v > 0 {
                start + 1
            } else {
                start - 1
            },
            0,
            last,
        );
        proof {
            lemma_units(page as int, unit as int);
        }
        let ms: u64 = if v == 0 {
            PAGE_SWITCH_MS
        } else {
            let way: i128 = page * unit - swipe.pos;
            let way: i128 = if way < 0 {
                -way
            } else {
                way
            };
            let raw: i128 = rounded_time(way * 3000, SUB * speed);
            clamp(raw, SWIPE_MIN_MS as i128, SWIPE_MAX_MS as i128) as u64
        };
        self.current_page = page as usize;
        self.gesture = None;
        Some(Settle { page: page as usize, ms })
    }

    /// Give up a swipe: the view settles on the nearest page.
    pub fn gesture_cancel(&mut self, band: Band) -> (settle: Option<Settle>)
        requires
            old(self).measured(band),
            old(self).gesture matches Some(swipe) ==> swipe.wf(),
        ensures
            match old(self).gesture {
                Some(swipe) => {
                    let page = clamped(
                        round_div(swipe.pos as int, swipe.unit as int),
                        0,
                        old(self).last_page(band),
                    );
                    &&& settle matches Some(to) && to.page == page && to.ms == PAGE_SWITCH_MS
                    &&& final(self).current_page == page
                    &&& *final(self) == (AppGrid {
                        current_page: final(self).current_page,
                        gesture: None,
                        ..*old(self)
                    })
                },
                None => settle is None && *final(self) == *old(self),
            },
    {
        self.gesture_end(0, band)
    }
}

/// The pages that a view at `pos` shows, a page being `unit`: the one it is on at rest, two
/// while it is between them.
pub fn visible_pages(pos: i128, unit: i128, n_pages: usize) -> (pages: Vec<ShownPage>)
    requires
        0 < unit <= 0x1_0000_0000_0000_0000_0000,
        0 <= pos <= 0x1000_0000 * unit,
        n_pages <= 0x1000_0000,
    ensures
        forall|i: int|
            0 <= i < pages@.len() ==> (#[trigger] pages@[i]).dx == pages@[i].page * unit - pos
                && pages@[i].page < n_pages && magnitude(pages@[i].dx as int) < unit,
        forall|p: usize| #[trigger]
            in_view(pos as int, unit as int, p as int) && p < n_pages ==> exists|i: int|
                0 <= i < pages@.len() && (#[trigger] pages@[i]).page == p,
        pages@.len() <= 2,
        pages@.len() == 2 ==> pages@[0].page + 1 == pages@[1].page,
        pages@ == shown_pages(pos as int, unit as int, n_pages as int),
{
    proof {
        lemma_division(pos as int, unit as int);
    }
    let lo: i128 = pos / unit;
    proof {
        lemma_units(lo as int, unit as int);
        lemma_units(lo + 1, unit as int);
        assert((lo + 1) * unit == lo * unit + unit) by (nonlinear_arith);
        assert(lo * unit <= pos < lo * unit + unit) by (nonlinear_arith)
            requires
                lo == pos / unit,
                unit > 0,
                pos >= 0,
        ;
    }
    let mut pages: Vec<ShownPage> = Vec::new();
    if lo < n_pages as i128 {
        pages.push(ShownPage { page: lo as usize, dx: lo * unit - pos });
    }
    let first: usize = pages.len();
    if lo + 1 < n_pages as i128 && (lo + 1) * unit - pos < unit {
        pages.push(ShownPage { page: (lo + 1) as usize, dx: (lo + 1) * unit - pos });
    }
    proof {
        assert forall|p: usize| #[trigger]
            in_view(pos as int, unit as int, p as int) && p < n_pages implies exists|i: int|
            0 <= i < pages@.len() && (#[trigger] pages@[i]).page == p by {
            lemma_in_view(pos as int, unit as int, p as int, lo as int);
            if p == lo {
                assert(pages@[0].page == p);
            } else {
                assert(pages@[first as int].page == p);
            }
        }
    }
    pages
}

/// The page that the view is on and the one after it, as far as there are such pages and they
/// are in view.
pub open spec fn shown_pages(pos: int, unit: int, n_pages: int) -> Seq<ShownPage> {
    let on = pos / unit;
    (if on < n_pages {
        seq![ShownPage { page: on as usize, dx: (on * unit - pos) as i128 }]
    } else {
        Seq::empty()
    }) + (if on + 1 < n_pages && (on + 1) * unit - pos < unit {
        seq![ShownPage { page: (on + 1) as usize, dx: ((on + 1) * unit - pos) as i128 }]
    } else {
        Seq::empty()
    })
}

/// A page is less than its width away from where it rests.
pub open spec fn in_view(pos: int, unit: int, page: int) -> bool {
    magnitude(page * unit - pos) < unit
}

proof fn lemma_in_view(pos: int, unit: int, p: int, lo: int)
    by (nonlinear_arith)
    requires
        0 < unit,
        0 <= pos,
        lo == pos / unit,
        in_view(pos, unit, p),
    ensures
        p == lo || (p == lo + 1 && (lo + 1) * unit - pos < unit),
{
}

fn clamp(v: i128, lo: i128, hi: i128) -> (c: i128)
    ensures
        c == clamped(v as int, lo as int, hi as int),
{
    if v < lo {
        lo
    } else if v > hi {
        hi
    } else {
        v
    }
}

/// The nearest whole number of units.
fn rounded(a: i128, unit: i128) -> (n: i128)
    requires
        FINE * SUB <= unit <= 0x10_0000_0000 * SUB,
        0 <= a <= 0x1000_0000 * unit,
    ensures
        n == round_div(a as int, unit as int),
        0 <= n <= 0x1000_0001,
{
    proof {
        lemma_units(0x1000_0000, unit as int);
        assert(0 <= (2 * a + unit) / (2 * unit) <= 0x1000_0001) by (nonlinear_arith)
            requires
                0 < unit,
                0 <= a <= 0x1000_0000 * unit,
        ;
    }
    (2 * a + unit) / (2 * unit)
}

fn rounded_time(a: i128, b: i128) -> (n: i128)
    requires
        0 < b <= 0x1000_0000_0000_0000,
        0 <= a <= 0x1000_0000_0000_0000_0000_0000_0000,
    ensures
        n == round_div(a as int, b as int),
{
    (2 * a + b) / (2 * b)
}

proof fn lemma_units(n: int, unit: int)
    by (nonlinear_arith)
    requires
        0 <= n <= 0x1000_0001,
        0 <= unit <= 0x1_0000_0000_0000_0000_0000,
    ensures
        0 <= n * unit <= 0x1000_0001 * unit,
        n <= 0x1000_0000 ==> n * unit <= 0x1000_0000 * unit,
        0x1000_0001 * unit <= 0x1000_0001 * 0x1_0000_0000_0000_0000_0000,
{
}

proof fn lemma_division(a: int, unit: int)
    by (nonlinear_arith)
    requires
        0 < unit,
        0 <= a <= 0x1000_0000 * unit,
    ensures
        0 <= a / unit <= 0x1000_0000,
        0 <= (a + unit - 1) / unit <= 0x1000_0000,
{
}

impl Swipe {
    /// A swipe goes a page at most, and so does its release.
    pub proof fn law_one_page(self, travel: int, velocity: int, last: int)
        requires
            self.wf(),
            0 <= last,
            self.from <= last * self.unit,
            (self.from - self.unit) <= self.pos <= self.from + self.unit,
        ensures
            0 <= self.target(velocity, last) <= last,
            self.flicked(velocity) && velocity > 0 ==> self.target(velocity, last)
                <= round_div(self.from as int, self.unit as int) + 1,
            self.flicked(velocity) && velocity < 0 ==> self.target(velocity, last) >= round_div(
                self.from as int,
                self.unit as int,
            ) - 1 || last < round_div(self.from as int, self.unit as int) - 1,
            self.low(last) * self.unit <= self.swiped(travel, last) <= self.high(last) * self.unit,
            self.low(last) <= self.high(last),
            self.high(last) - self.low(last) <= 3,
    {
        let (f, u) = (self.from as int, self.unit as int);
        assert(f / u <= (f + u - 1) / u <= f / u + 1) by (nonlinear_arith)
            requires
                0 < u,
                0 <= f,
        ;
        let (a, b) = (self.low(last), self.high(last));
        assert(a * u <= b * u) by (nonlinear_arith)
            requires
                a <= b,
                0 < u,
        ;
    }

    /// The view settles neither at once nor slowly.
    pub proof fn law_settle_time(self, velocity: int, page: int)
        ensures
            SWIPE_MIN_MS <= self.settle_ms(velocity, page) <= SWIPE_MAX_MS,
    {
    }
}

/// A swipe that begins where the view rests on a page follows the fingers: as far as they
/// travel so far does the view go, a page's travel to a page, until the next page on either
/// side or the end.
pub proof fn law_the_view_follows_the_fingers(
    grid: &mut AppGrid,
    travel: i64,
    band: Band,
    swipe: Swipe,
    page: int,
    n: usize,
    step: SwipeStep,
)
    requires
        old(grid).measured(band),
        old(grid).gesture == Some(swipe),
        swipe.wf(),
        swipe.from == page * swipe.unit,
        0 <= page < n,
        n > 1,
        call_ensures(AppGrid::page_count, (&*old(grid), band), n),
        call_ensures(AppGrid::gesture_update, (grid, travel, band), step),
    ensures
        ({
            let to = swipe.pos + travel * SUB;
            let now = final(grid).gesture->0;
            &&& final(grid).gesture is Some
            &&& now.from == swipe.from && now.unit == swipe.unit && now.source == swipe.source
            &&& (page - 1) * swipe.unit <= to <= (page + 1) * swipe.unit && 0 <= to <= (n - 1)
                * swipe.unit ==> now.pos == to
            &&& to > (page + 1) * swipe.unit && page + 1 < n ==> now.pos == (page + 1)
                * swipe.unit
            &&& to < (page - 1) * swipe.unit && page > 0 ==> now.pos == (page - 1) * swipe.unit
            &&& to < 0 && page <= 1 ==> now.pos == 0
            &&& to > (n - 1) * swipe.unit && page + 2 >= n ==> now.pos == (n - 1) * swipe.unit
            &&& step == SwipeStep::Held <==> now.pos == swipe.pos
            &&& step == SwipeStep::Moved <==> now.pos != swipe.pos
            &&& final(grid).current_page == old(grid).current_page
            &&& final(grid).entries == old(grid).entries
        }),
{
    let u = swipe.unit as int;
    lemma_at_rest(page, u);
    let last = n - 1;
    assert((page - 1) * u == page * u - u && (page + 1) * u == page * u + u) by (nonlinear_arith);
    assert(page + 1 <= last ==> (page + 1) * u <= last * u) by (nonlinear_arith)
        requires
            u > 0,
    ;
    assert(page <= last ==> page * u <= last * u) by (nonlinear_arith)
        requires
            u > 0,
    ;
    assert(page == 0 ==> page * u == 0) by (nonlinear_arith);
    assert(page == 1 ==> page * u == u) by (nonlinear_arith);
    assert(page == last ==> page * u == last * u) by (nonlinear_arith);
    assert(page + 1 == last ==> (page + 1) * u == last * u) by (nonlinear_arith);
    assert(page >= 1 ==> page * u >= u) by (nonlinear_arith)
        requires
            u > 0,
    ;
    assert(0 * u == 0);
}

proof fn lemma_at_rest(page: int, unit: int)
    by (nonlinear_arith)
    requires
        0 < unit,
        0 <= page,
    ensures
        (page * unit) / unit == page,
        (page * unit + unit - 1) / unit == page,
        (2 * (page * unit) + unit) / (2 * unit) == page,
{
}

/// A flick goes a page on from where the swipe began, or back for a flick the other way, and
/// stops at the ends. Without one the view settles on the page nearest to where it was let go.
/// Either way that page is the current one and the swipe is over.
pub proof fn law_a_release_settles_on_a_page(
    grid: &mut AppGrid,
    velocity: i64,
    band: Band,
    swipe: Swipe,
    page: int,
    n: usize,
    other: int,
    settle: Option<Settle>,
)
    requires
        old(grid).measured(band),
        old(grid).gesture == Some(swipe),
        swipe.wf(),
        swipe.from == page * swipe.unit,
        0 <= page < n,
        0 <= other < n,
        call_ensures(AppGrid::page_count, (&*old(grid), band), n),
        call_ensures(AppGrid::gesture_end, (grid, velocity, band), settle),
    ensures
        settle is Some,
        settle->0.page == final(grid).current_page,
        settle->0.page < n,
        100 <= settle->0.ms <= 400,
        velocity == 0 ==> settle->0.ms == 300,
        final(grid).gesture is None,
        final(grid).entries == old(grid).entries,
        ({
            let fast: int = match swipe.source {
                SwipeSource::Touchpad => 600 * FINE,
                SwipeSource::Pointer => 300 * FINE,
            };
            let to = final(grid).current_page as int;
            &&& velocity >= fast ==> to == if page + 1 < n {
                page + 1
            } else {
                page
            }
            &&& velocity <= -fast ==> to == if page > 0 {
                page - 1
            } else {
                0
            }
            &&& -fast < velocity < fast ==> magnitude(to * swipe.unit - swipe.pos) <= magnitude(
                other * swipe.unit - swipe.pos,
            )
        }),
{
    let u = swipe.unit as int;
    lemma_at_rest(page, u);
    lemma_nearest_page(swipe.pos as int, u, n - 1, other);
}

/// The nearest whole number, held between the ends, is as near as any other between them.
proof fn lemma_nearest_page(pos: int, unit: int, last: int, other: int)
    requires
        0 < unit,
        0 <= pos,
        0 <= other <= last,
    ensures
        magnitude(clamped(round_div(pos, unit), 0, last) * unit - pos) <= magnitude(
            other * unit - pos,
        ),
{
    let q = round_div(pos, unit);
    assert(0 <= q && 2 * (q * unit) - unit <= 2 * pos < 2 * (q * unit) + unit)
        by (nonlinear_arith)
        requires
            q == (2 * pos + unit) / (2 * unit),
            0 < unit,
            0 <= pos,
    ;
    let c = clamped(q, 0, last);
    let (a, b) = (c * unit, other * unit);
    if other < c {
        assert(b + unit <= a && a <= q * unit) by (nonlinear_arith)
            requires
                a == c * unit,
                b == other * unit,
                other + 1 <= c <= q,
                0 < unit,
        ;
    } else if other > c {
        assert(c == q);
        assert(a + unit <= b) by (nonlinear_arith)
            requires
                a == c * unit,
                b == other * unit,
                c + 1 <= other,
                0 < unit,
        ;
    }
}

/// A swipe that is given up settles on the page nearest to where the view is.
pub proof fn law_a_given_up_swipe_settles_nearest(
    grid: &mut AppGrid,
    band: Band,
    swipe: Swipe,
    n: usize,
    other: int,
    settle: Option<Settle>,
)
    requires
        old(grid).measured(band),
        old(grid).gesture == Some(swipe),
        swipe.wf(),
        0 <= other < n,
        call_ensures(AppGrid::page_count, (&*old(grid), band), n),
        call_ensures(AppGrid::gesture_cancel, (grid, band), settle),
    ensures
        settle == Some(Settle { page: final(grid).current_page, ms: 300 }),
        final(grid).gesture is None,
        final(grid).current_page < n,
        magnitude(final(grid).current_page * swipe.unit - swipe.pos) <= magnitude(
            other * swipe.unit - swipe.pos,
        ),
{
    lemma_nearest_page(swipe.pos as int, swipe.unit as int, n - 1, other);
}

/// A swipe begins at rest where the view is, a page being the travel that its source says.
pub proof fn law_a_swipe_begins_where_the_view_is(
    grid: &mut AppGrid,
    source: SwipeSource,
    page_pos: i64,
    band: Band,
)
    requires
        call_ensures(AppGrid::gesture_begin, (grid, source, page_pos, band), ()),
    ensures
        final(grid).gesture matches Some(swipe) && {
            &&& swipe.pos == swipe.from
            &&& swipe.source == source
            &&& swipe.from * SUB == page_pos * swipe.unit
            &&& source == SwipeSource::Touchpad ==> swipe.unit == 400 * FINE * SUB
            &&& source == SwipeSource::Pointer && band.w >= 64 ==> swipe.unit == PARTS * band.w
                * SUB
        },
        final(grid).current_page == old(grid).current_page,
        final(grid).entries == old(grid).entries,
{
    let d = swipe_distance(source, band);
    let p = page_pos as int;
    assert((p * d) * SUB == p * (SUB * d)) by (nonlinear_arith);
}

} // verus!
