//! The banner that says a configuration file was created, or failed to parse.

use vstd::prelude::*;
use vstd::string::*;

use crate::area::UNITS;
use crate::card::Span;
use crate::time::{DURATION_MAX, MILLISECOND};

verus! {

/// How long a parse error stays up.
pub const ERROR_TIME: u128 = 4000 * MILLISECOND;

/// How long the notice of a created file stays up: longer, because it comes with a modeset
/// and a popup that divert the attention.
pub const CREATED_TIME: u128 = 8000 * MILLISECOND;

/// The room above the resting banner is twice this.
pub const PADDING: i128 = 8 * UNITS;

/// The parts of a whole slide.
pub const SLIDE: i128 = 1_000_000;

/// The longest length that a banner is laid out in.
pub const BANNER_REACH: i64 = 0x1_0000_0000_0000;

/// Where the banner is in its life.
#[derive(Clone, Copy, Debug, PartialEq, Eq, Structural)]
pub enum BannerState {
    Hidden,
    Showing,
    /// Up until this time.
    Shown(u128),
    Hiding,
}

/// Where the banner is drawn: its left edge in half units, its top in parts of a unit.
#[derive(Clone, Copy, Debug, PartialEq, Eq, Structural)]
pub struct BannerPlace {
    pub left: i128,
    pub top: i128,
}

/// How far down a banner `h` high is with `slid` of its slide behind it, in parts of a unit: from
/// just above the screen to its resting place.
pub open spec fn slid_top(h: int, slid: int) -> int {
    -h * SLIDE + slid * (h + 2 * PADDING)
}

pub struct ConfigErrorNotification {
    pub state: BannerState,
    /// Bumped whenever the content changes.
    pub revision: u64,
    /// If set, this file was created. If unset, the file failed to parse.
    pub created_path: Option<String>,
}

/// What `==` on `std::path::Path` says of two paths.
pub uninterp spec fn paths_alike(a: Seq<char>, b: Seq<char>) -> bool;

/// `==` on `std::path::Path`, which compares paths by their components. That depends on the
/// two texts alone, and a path is the same as itself; what a component is stays unsaid here.
#[verifier::external_body]
fn same_path(a: &str, b: &str) -> (same: bool)
    ensures
        same == paths_alike(a@, b@),
        a@ == b@ ==> same,
{
    std::path::Path::new(a) == std::path::Path::new(b)
}

/// What `std::path::Path`'s `Debug` writes of a path.
pub uninterp spec fn quoted(path: Seq<char>) -> Seq<char>;

/// `std::path::Path`'s `Debug`: the path in quotes, with what would not print escaped. That
/// depends on the path's text alone; how a character is escaped stays unsaid here.
#[verifier::external_body]
fn quoted_path(path: &str) -> (text: String)
    ensures
        text@ == quoted(path@),
{
    format!("{:?}", std::path::Path::new(path))
}

impl ConfigErrorNotification {
    pub fn new() -> (banner: Self)
        ensures
            banner.state == BannerState::Hidden,
            banner.revision == 0,
            banner.created_path is None,
    {
        ConfigErrorNotification { state: BannerState::Hidden, revision: 0, created_path: None }
    }

    /// Say that a file was created. The banner comes up from scratch, even if it is up, and is
    /// drawn anew if it named another file, or none.
    pub fn show_created(&mut self, created_path: &str)
        ensures
            final(self).state == BannerState::Showing,
            match old(self).created_path {
                Some(path) if paths_alike(path@, created_path@) => {
                    &&& final(self).created_path == old(self).created_path
                    &&& final(self).revision == old(self).revision
                },
                _ => {
                    &&& final(self).created_path is Some
                    &&& (final(self).created_path->0)@ == created_path@
                    &&& final(self).revision == old(self).revision.wrapping_add(1)
                },
            },
    {
        let same = match &self.created_path {
            Some(path) => same_path(path.as_str(), created_path),
            None => false,
        };
        self.show_file(created_path, same);
    }

    /// Say that a file was created, with `same` for whether it is the one that the banner names
    /// already.
    pub fn show_file(&mut self, created_path: &str, same: bool)
        ensures
            final(self).state == BannerState::Showing,
            if old(self).created_path is Some && same {
                &&& final(self).created_path == old(self).created_path
                &&& final(self).revision == old(self).revision
            } else {
                &&& final(self).created_path is Some
                &&& (final(self).created_path->0)@ == created_path@
                &&& final(self).revision == old(self).revision.wrapping_add(1)
            },
    {
        if self.created_path.is_none() || !same {
            self.created_path = Some(created_path.to_owned());
            self.revision = self.revision.wrapping_add(1);
        }
        self.state = BannerState::Showing;
    }

    /// Say that the file failed to parse, unless that is switched off. The banner comes up
    /// from scratch, even if it is up, to bring attention.
    pub fn show(&mut self, disable_failed: bool)
        ensures
            disable_failed ==> *final(self) == *old(self),
            !disable_failed ==> {
                &&& final(self).state == BannerState::Showing
                &&& final(self).created_path is None
                &&& final(self).revision == if old(self).created_path is Some {
                    old(self).revision.wrapping_add(1)
                } else {
                    old(self).revision
                }
            },
    {
        if disable_failed {
            return ;
        }
        if self.created_path.is_some() {
            self.created_path = None;
            self.revision = self.revision.wrapping_add(1);
        }
        self.state = BannerState::Showing;
    }

    /// Let the banner go away, if it is there.
    pub fn start_hiding(&mut self)
        ensures
            final(self).state == if old(self).state == BannerState::Hidden {
                BannerState::Hidden
            } else {
                BannerState::Hiding
            },
            final(self).revision == old(self).revision,
            final(self).created_path == old(self).created_path,
    {
        match self.state {
            BannerState::Hidden => {},
            _ => {
                self.state = BannerState::Hiding;
            },
        }
    }

    /// How long the banner stays up.
    pub open spec fn stays(&self) -> u128 {
        if self.created_path is Some {
            CREATED_TIME
        } else {
            ERROR_TIME
        }
    }

    /// Advance the state machine. `animation_done` says that the running animation is over.
    pub fn advance_animations(&mut self, animation_done: bool, now: u128)
        requires
            now + CREATED_TIME <= DURATION_MAX,
        ensures
            final(self).state == match old(self).state {
                BannerState::Showing if animation_done => BannerState::Shown(
                    (now + old(self).stays()) as u128,
                ),
                BannerState::Shown(deadline) if now >= deadline => BannerState::Hiding,
                BannerState::Hiding if animation_done => BannerState::Hidden,
                state => state,
            },
            final(self).revision == old(self).revision,
            final(self).created_path == old(self).created_path,
    {
        match self.state {
            BannerState::Hidden => {},
            BannerState::Showing => {
                if animation_done {
                    let stays: u128 = if self.created_path.is_some() {
                        CREATED_TIME
                    } else {
                        ERROR_TIME
                    };
                    self.state = BannerState::Shown(now + stays);
                }
            },
            BannerState::Shown(deadline) => {
                if now >= deadline {
                    self.start_hiding();
                }
            },
            BannerState::Hiding => {
                if animation_done {
                    self.state = BannerState::Hidden;
                }
            },
        }
    }

    pub fn are_animations_ongoing(&self) -> (ongoing: bool)
        ensures
            ongoing == (self.state != BannerState::Hidden),
    {
        match self.state {
            BannerState::Hidden => false,
            _ => true,
        }
    }

    /// Where a banner of this size is on an output `out_w` wide, with `slid` parts of its slide
    /// behind it: centred, and as far down as it has slid, or at rest. A slide may overshoot
    /// either end. A hidden banner is nowhere.
    pub fn place(&self, out_w: i64, w: i64, h: i64, slid: i64) -> (place: Option<BannerPlace>)
        requires
            -BANNER_REACH <= out_w <= BANNER_REACH,
            0 <= w <= BANNER_REACH,
            0 <= h <= BANNER_REACH,
            -BANNER_REACH <= slid <= BANNER_REACH,
        ensures
            place is Some <==> self.state != BannerState::Hidden,
            place matches Some(p) ==> {
                &&& p.left == if out_w > w {
                    out_w - w
                } else {
                    0
                }
                &&& p.top == match self.state {
                    BannerState::Shown(_) => 2 * PADDING * SLIDE,
                    _ => slid_top(h as int, slid as int),
                }
            },
    {
        let left: i128 = if out_w > w {
            out_w as i128 - w as i128
        } else {
            0
        };
        let down: i128 = h as i128 + 2 * PADDING;
        assert(-0x2_0000_0000_0000 * 0x2_0000_0000_0000 <= slid * down <= 0x2_0000_0000_0000
            * 0x2_0000_0000_0000) by (nonlinear_arith)
            requires
                -0x1_0000_0000_0000 <= slid <= 0x1_0000_0000_0000,
                0 <= down <= 0x2_0000_0000_0000,
        ;
        let top: i128 = match self.state {
            BannerState::Hidden => {
                return None;
            },
            BannerState::Shown(_) => 2 * PADDING * SLIDE,
            _ => -(h as i128) * SLIDE + slid as i128 * down,
        };
        Some(BannerPlace { left, top })
    }

    /// The runs of the banner's text.
    pub fn spans(&self) -> (spans: Vec<Span>)
        ensures
            self.is_text(
                match self.created_path {
                    Some(path) => quoted(path@),
                    None => Seq::empty(),
                },
                spans@,
            ),
    {
        match &self.created_path {
            Some(path) => {
                let path_text = quoted_path(path.as_str());
                self.spans_with(path_text.as_str())
            },
            None => {
                assert(""@ =~= Seq::empty()) by {
                    reveal_strlit("");
                }
                self.spans_with("")
            },
        }
    }

    /// The runs are the banner's text, for a created file with its path written out as
    /// `path_text`. The middle run, or the last, is the one on a patch.
    pub open spec fn is_text(&self, path_text: Seq<char>, spans: Seq<Span>) -> bool {
        &&& spans.len() == if self.created_path is Some {
            2int
        } else {
            3int
        }
        &&& forall|i: int| 0 <= i < spans.len() ==> (#[trigger] spans[i]).mono == (i == 1)
        &&& self.created_path is Some ==> {
            &&& spans[0].text@ == "Created a default config file at "@
            &&& spans[1].text@ == path_text
        }
        &&& self.created_path is None ==> {
            &&& spans[0].text@ + spans[1].text@ + spans[2].text@ == error_message()
            &&& spans[1].text@ == "niri validate"@
        }
    }

    /// The runs of the banner's text, for a created file with its path written out as
    /// `path_text`.
    pub fn spans_with(&self, path_text: &str) -> (spans: Vec<Span>)
        ensures
            self.is_text(path_text@, spans@),
    {
        let mut spans: Vec<Span> = Vec::new();
        if self.created_path.is_some() {
            spans.push(Span { text: "Created a default config file at ".to_owned(), mono: false });
            spans.push(Span { text: path_text.to_owned(), mono: true });
        } else {
            spans.push(
                Span {
                    text: "Failed to parse the config file. Please run ".to_owned(),
                    mono: false,
                },
            );
            spans.push(Span { text: "niri validate".to_owned(), mono: true });
            spans.push(Span { text: " to see the errors.".to_owned(), mono: false });
            proof {
                reveal_strlit("Failed to parse the config file. Please run ");
                reveal_strlit("niri validate");
                reveal_strlit(" to see the errors.");
                reveal_strlit(
                    "Failed to parse the config file. Please run niri validate to see the errors.",
                );
                assert(spans@[0].text@ + spans@[1].text@ + spans@[2].text@ =~= error_message());
            }
        }
        spans
    }
}

/// The parse-error message.
pub open spec fn error_message() -> Seq<char> {
    "Failed to parse the config file. Please run niri validate to see the errors."@
}

/// The parse-error message as plain text.
pub fn error_text() -> (text: String)
    ensures
        text@ == error_message(),
{
    "Failed to parse the config file. Please run niri validate to see the errors.".to_owned()
}

/// The slide starts with the whole banner above the screen, and ends where the banner rests.
pub proof fn law_the_slide_ends_at_rest(h: int)
    ensures
        slid_top(h, 0) + h * SLIDE == 0,
        slid_top(h, SLIDE as int) == 2 * PADDING * SLIDE,
{
    assert(SLIDE * (h + 2 * PADDING) == SLIDE * h + SLIDE * (2 * PADDING)) by (nonlinear_arith);
}

/// A banner that has come up stays for its time, four seconds for an error and eight for a
/// created file, then leaves; once it has left it is hidden. Nothing else of it changes.
pub proof fn law_the_banner_stays_for_its_time(
    up: &mut ConfigErrorNotification,
    later: &mut ConfigErrorNotification,
    gone: &mut ConfigErrorNotification,
    now: u128,
    then: u128,
    done: bool,
)
    requires
        now + 8_000_000_000 <= DURATION_MAX,
        call_ensures(ConfigErrorNotification::advance_animations, (up, true, now), ()),
        *old(later) == *final(up),
        call_ensures(ConfigErrorNotification::advance_animations, (later, done, then), ()),
        *old(gone) == *final(later),
        call_ensures(ConfigErrorNotification::advance_animations, (gone, true, then), ()),
        old(up).state == BannerState::Showing,
    ensures
        ({
            let stays: int = if old(up).created_path is Some {
                8_000_000_000
            } else {
                4_000_000_000
            };
            &&& then < now + stays ==> final(later).state == final(up).state
                && final(later).state is Shown
            &&& then >= now + stays ==> final(later).state == BannerState::Hiding
                && final(gone).state == BannerState::Hidden
        }),
        final(gone).created_path == old(up).created_path,
        final(gone).revision == old(up).revision,
{
}

/// An error puts the banner up unless that is switched off, and the banner then speaks of no
/// file; a created file puts it up with that file's name.
pub proof fn law_the_banner_says_what_happened(
    failed: &mut ConfigErrorNotification,
    created: &mut ConfigErrorNotification,
    disable_failed: bool,
    path: &str,
)
    requires
        call_ensures(ConfigErrorNotification::show, (failed, disable_failed), ()),
        call_ensures(ConfigErrorNotification::show_file, (created, path, false), ()),
    ensures
        disable_failed ==> *final(failed) == *old(failed),
        !disable_failed ==> final(failed).state == BannerState::Showing
            && final(failed).created_path is None,
        !disable_failed && old(failed).created_path is None
            ==> final(failed).revision == old(failed).revision,
        !disable_failed && old(failed).created_path is Some
            ==> final(failed).revision != old(failed).revision,
        final(created).state == BannerState::Showing,
        final(created).created_path is Some,
        (final(created).created_path->0)@ == path@,
        final(created).revision != old(created).revision,
{
}

/// The banner is centred, comes down from just above the screen and rests its padding below
/// the top edge.
pub proof fn law_the_banner_comes_down_from_above(
    banner: ConfigErrorNotification,
    out_w: i64,
    w: i64,
    h: i64,
    start: Option<BannerPlace>,
    end: Option<BannerPlace>,
    rest: Option<BannerPlace>,
    shown: ConfigErrorNotification,
    until: u128,
)
    requires
        banner.state == BannerState::Showing || banner.state == BannerState::Hiding,
        shown.state == BannerState::Shown(until),
        0 <= w <= out_w,
        0 <= h,
        call_ensures(ConfigErrorNotification::place, (&banner, out_w, w, h, 0i64), start),
        call_ensures(ConfigErrorNotification::place, (&banner, out_w, w, h, 1_000_000i64), end),
        call_ensures(ConfigErrorNotification::place, (&shown, out_w, w, h, 0i64), rest),
    ensures
        start is Some && end is Some && rest is Some,
        start->0.top + h * SLIDE == 0,
        end->0.top == rest->0.top,
        rest->0.top == 16 * UNITS * SLIDE,
        start->0.left == 2 * out_w - (start->0.left + 2 * w),
        end->0.left == start->0.left && rest->0.left == start->0.left,
{
    assert(0 * (h + 2 * PADDING) == 0);
    let d = h + 2 * PADDING;
    assert(1_000_000 * d == d * 1_000_000);
}

/// A banner that is told to leave leaves, from wherever it is; a hidden one stays hidden.
pub proof fn law_a_dismissed_banner_leaves(banner: &mut ConfigErrorNotification, ongoing: bool)
    requires
        call_ensures(ConfigErrorNotification::start_hiding, (banner,), ()),
        call_ensures(ConfigErrorNotification::are_animations_ongoing, (&*final(banner),), ongoing),
    ensures
        old(banner).state == BannerState::Hidden ==> final(banner).state == BannerState::Hidden
            && !ongoing,
        old(banner).state != BannerState::Hidden ==> final(banner).state == BannerState::Hiding
            && ongoing,
        final(banner).created_path == old(banner).created_path,
{
}

} // verus!
