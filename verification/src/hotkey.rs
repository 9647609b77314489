//! Decisions of the Windows host: Win+Z chord handling, and what the
//! on-screen status capsule shows and where.
use vstd::prelude::*;
use vstd::math::{max, min};
use crate::text::{chars_of, push_range, starts_with, starts_with_chars, starts_with_str, str_equal};

verus! {

/// What the keyboard hook does with a Z key event.
#[derive(Clone, Copy, Debug, PartialEq, Eq, Structural)]
pub enum ChordAction {
    /// Let the event through.
    Pass,
    /// Swallow the event.
    Consume,
    /// Swallow the event and toggle recording.
    Toggle,
}

/// The chord transition: `active` while Z is held after a Win+Z press.
/// Pressing Z with Win held toggles once and makes the chord active; every
/// further press (key repeat) is swallowed, whether or not Win is still held,
/// until Z is released, which is swallowed too and ends the chord.
pub open spec fn chord_step(active: bool, down: bool, up: bool, win: bool) -> (bool, ChordAction) {
    if down && active {
        (true, ChordAction::Consume)
    } else if down && win {
        (true, ChordAction::Toggle)
    } else if up && active {
        (false, ChordAction::Consume)
    } else {
        (active, ChordAction::Pass)
    }
}

/// Applies one Z key event to the chord state (see `chord_step`).
pub fn chord_event(active: &mut bool, down: bool, up: bool, win: bool) -> (a: ChordAction)
    ensures
        (*final(active), a) == chord_step(*old(active), down, up, win),
{
    if down && *active {
        ChordAction::Consume
    } else if down && win {
        *active = true;
        ChordAction::Toggle
    } else if up && *active {
        *active = false;
        ChordAction::Consume
    } else {
        ChordAction::Pass
    }
}

/// One Z key event: pressed (or repeated), released, and whether Win was held.
pub struct KeyEvent {
    pub down: bool,
    pub up: bool,
    pub win: bool,
}

/// The chord state after the events, from `active`.
pub open spec fn chord_after(active: bool, events: Seq<KeyEvent>) -> bool
    decreases events.len(),
{
    if events.len() == 0 {
        active
    } else {
        let e = events.last();
        chord_step(chord_after(active, events.drop_last()), e.down, e.up, e.win).0
    }
}

/// Whether event `i` of the sequence toggles recording.
pub open spec fn toggles_at(active: bool, events: Seq<KeyEvent>, i: int) -> bool {
    let e = events[i];
    chord_step(chord_after(active, events.take(i)), e.down, e.up, e.win).1 == ChordAction::Toggle
}

proof fn lemma_active_until_release(active: bool, events: Seq<KeyEvent>, i: int, j: int)
    requires
        0 <= i < j <= events.len(),
        toggles_at(active, events, i),
        forall|k: int| i < k < j ==> !(#[trigger] events[k]).up,
    ensures
        chord_after(active, events.take(j)),
    decreases j - i,
{
    if j == i + 1 {
        assert(events.take(j).drop_last() =~= events.take(i));
        assert(events.take(j).last() == events[i]);
    } else {
        lemma_active_until_release(active, events, i, j - 1);
        assert(events.take(j).drop_last() =~= events.take(j - 1));
        assert(events.take(j).last() == events[j - 1]);
    }
}

/// Law: one press toggles once. After a toggle, no other event toggles again
/// until Z has been released, even when Win is released first and Z repeats.
pub proof fn law_one_toggle_per_press(active: bool, events: Seq<KeyEvent>, i: int, j: int)
    requires
        0 <= i < j < events.len(),
        toggles_at(active, events, i),
        toggles_at(active, events, j),
    ensures
        exists|k: int| i < k < j && (#[trigger] events[k]).up,
{
    if forall|k: int| i < k < j ==> !(#[trigger] events[k]).up {
        lemma_active_until_release(active, events, i, j);
    }
}

/// The on-screen text for an error report: at most 34 characters of the
/// detail after `Error:`, behind `Error: `.
pub open spec fn error_display_spec(message: Seq<char>) -> Seq<char> {
    let detail = if message.len() >= 6 && message.take(6) == "Error:"@ {
        message.skip(6)
    } else {
        message
    };
    let shown = if detail.len() > 34 {
        detail.take(34)
    } else {
        detail
    };
    "Error: "@ + shown
}

/// The on-screen text for an error report (see `error_display_spec`).
pub fn error_display_text(message: &str) -> (s: String)
    ensures
        s@ == error_display_spec(message@),
{
    let v = chars_of(message);
    let prefix = chars_of("Error:");
    proof {
        reveal_strlit("Error:");
    }
    let from: usize = if starts_with_chars(&v, &prefix) {
        6
    } else {
        0
    };
    let to: usize = if v.len() - from > 34 {
        from + 34
    } else {
        v.len()
    };
    let mut s = String::from_str("Error: ");
    push_range(&mut s, &v, from, to);
    proof {
        let detail = if v@.len() >= 6 && v@.take(6) == "Error:"@ {
            v@.skip(6)
        } else {
            v@
        };
        assert(detail =~= v@.subrange(from as int, v@.len() as int));
        if detail.len() > 34 {
            assert(detail.take(34) =~= v@.subrange(from as int, to as int));
        } else {
            assert(detail =~= v@.subrange(from as int, to as int));
        }
    }
    s
}

/// Indicator colour while listening and for errors (a Windows COLORREF,
/// `0x00BBGGRR`).
pub const RED: u32 = 0x00A88BF3;

/// Indicator colour while transcribing and when nothing was said.
pub const YELLOW: u32 = 0x00AFE2F9;

/// Indicator colour once the text is typed, and for other reports.
pub const GREEN: u32 = 0x00A1E3A6;

/// What the on-screen capsule shows for a status report.
pub struct OsdStatus {
    /// Colour of the indicator dot.
    pub color: u32,
    /// The text beside it.
    pub text: String,
    /// Hide the capsule after this many milliseconds; `None` keeps it shown.
    pub hide_ms: Option<u32>,
}

/// The capsule for a report of the recording controller: colour, text and
/// display time.
pub open spec fn osd_spec(message: Seq<char>) -> (u32, Seq<char>, Option<u32>) {
    if starts_with(message, "Recording"@) {
        (RED, "Listening..."@, None)
    } else if starts_with(message, "Finishing"@) {
        (YELLOW, "Transcribing..."@, None)
    } else if message == "Ready"@ {
        (GREEN, "Text inserted"@, Some(1200))
    } else if message == "No speech detected"@ {
        (YELLOW, "No speech detected"@, Some(1500))
    } else if starts_with(message, "Error:"@) {
        (RED, error_display_spec(message), Some(3500))
    } else {
        (GREEN, message, Some(1500))
    }
}

/// The capsule for a status report (see `osd_spec`).
pub fn osd_status(message: &str) -> (s: OsdStatus)
    ensures
        (s.color, s.text@, s.hide_ms) == osd_spec(message@),
{
    if starts_with_str(message, "Recording") {
        OsdStatus { color: RED, text: String::from_str("Listening..."), hide_ms: None }
    } else if starts_with_str(message, "Finishing") {
        OsdStatus { color: YELLOW, text: String::from_str("Transcribing..."), hide_ms: None }
    } else if str_equal(message, "Ready") {
        OsdStatus { color: GREEN, text: String::from_str("Text inserted"), hide_ms: Some(1200) }
    } else if str_equal(message, "No speech detected") {
        OsdStatus {
            color: YELLOW,
            text: String::from_str("No speech detected"),
            hide_ms: Some(1500),
        }
    } else if starts_with_str(message, "Error:") {
        OsdStatus { color: RED, text: error_display_text(message), hide_ms: Some(3500) }
    } else {
        OsdStatus { color: GREEN, text: String::from_str(message), hide_ms: Some(1500) }
    }
}

/// Width of the capsule, in pixels.
pub const OSD_WIDTH: i32 = 240;

/// Height of the capsule, in pixels.
pub const OSD_HEIGHT: i32 = 40;

/// Distance of the capsule from the work area's bottom right corner.
pub const OSD_MARGIN: i32 = 24;

/// Where the capsule's top left corner goes, from the right and bottom edges
/// of the desktop work area; a 1920 by 1080 area when none is known.
pub fn osd_origin(work_area: Option<(i32, i32)>) -> (p: (i32, i32))
    requires
        work_area matches Some(a) ==> a.0 - OSD_WIDTH - OSD_MARGIN >= i32::MIN && a.1 - OSD_HEIGHT
            - OSD_MARGIN >= i32::MIN,
    ensures
        match work_area {
            Some(a) => p.0 == a.0 - OSD_WIDTH - OSD_MARGIN && p.1 == a.1 - OSD_HEIGHT - OSD_MARGIN,
            None => p.0 == 1920 - OSD_WIDTH - OSD_MARGIN && p.1 == 1080 - OSD_HEIGHT - OSD_MARGIN,
        },
{
    let (right, bottom) = match work_area {
        Some(a) => a,
        None => (1920, 1080),
    };
    (right - OSD_WIDTH - OSD_MARGIN, bottom - OSD_HEIGHT - OSD_MARGIN)
}

/// Diameter of the indicator dot.
pub const DOT_SIZE: i32 = 8;

/// Space between the dot and the text.
pub const GAP: i32 = 10;

/// Space kept free at the capsule's left and right edges.
pub const PADDING: i32 = 16;

/// Division by two rounding toward zero, as Rust's `/` on integers does.
pub open spec fn half(x: int) -> int {
    if x >= 0 {
        x / 2
    } else {
        -((-x) / 2)
    }
}

/// Width of the text: as measured, but no more than the room inside the
/// padding beside the dot.
pub open spec fn text_width(width: int, extent: int) -> int {
    min(extent, max(width - 2 * PADDING - DOT_SIZE - GAP, 0))
}

/// Dot left, dot top, text left and text right in a client rectangle, for
/// text measured `extent` pixels wide: dot and text are centred together.
pub open spec fn layout_spec(left: int, top: int, right: int, bottom: int, extent: int) -> (
    int,
    int,
    int,
    int,
) {
    let tw = text_width(right - left, extent);
    let dot_left = left + half(right - left - DOT_SIZE - GAP - tw);
    let dot_top = top + half(bottom - top - DOT_SIZE);
    (dot_left, dot_top, dot_left + DOT_SIZE + GAP, dot_left + DOT_SIZE + GAP + tw)
}

/// A value of `i32`.
pub open spec fn fits_i32(x: int) -> bool {
    i32::MIN <= x <= i32::MAX
}

/// Every value the layout computes, the intermediate ones included, is an
/// `i32`.
pub open spec fn layout_fits(left: int, top: int, right: int, bottom: int, extent: int) -> bool {
    let w = right - left;
    let l = layout_spec(left, top, right, bottom, extent);
    &&& fits_i32(w)
    &&& fits_i32(w - 2 * PADDING - DOT_SIZE - GAP)
    &&& fits_i32(w - DOT_SIZE - GAP - text_width(w, extent))
    &&& fits_i32(bottom - top)
    &&& fits_i32(bottom - top - DOT_SIZE)
    &&& fits_i32(l.0)
    &&& fits_i32(l.1)
    &&& fits_i32(l.2)
    &&& fits_i32(l.3)
}

/// Where the dot and the text of the capsule go.
pub struct OsdLayout {
    pub dot_left: i32,
    pub dot_top: i32,
    pub text_left: i32,
    pub text_right: i32,
}

fn half_i32(x: i32) -> (h: i32)
    ensures
        h == half(x as int),
{
    if x >= 0 {
        x / 2
    } else {
        let y: i64 = -(x as i64);
        let q: i64 = y / 2;
        -(q as i32)
    }
}

/// The capsule's layout in its client rectangle (see `layout_spec`).
pub fn osd_layout(left: i32, top: i32, right: i32, bottom: i32, extent: i32) -> (r: OsdLayout)
    requires
        layout_fits(left as int, top as int, right as int, bottom as int, extent as int),
    ensures
        (r.dot_left as int, r.dot_top as int, r.text_left as int, r.text_right as int)
            == layout_spec(left as int, top as int, right as int, bottom as int, extent as int),
{
    let width = right - left;
    let room = width - 2 * PADDING - DOT_SIZE - GAP;
    let room = if room > 0 {
        room
    } else {
        0
    };
    let shown = if extent < room {
        extent
    } else {
        room
    };
    let dot_left = left + half_i32(width - DOT_SIZE - GAP - shown);
    let dot_top = top + half_i32(bottom - top - DOT_SIZE);
    let text_left = dot_left + DOT_SIZE + GAP;
    OsdLayout { dot_left, dot_top, text_left, text_right: text_left + shown }
}

/// Law: the capsule follows the report. Recording shows "Listening..." in
/// red until the next report; finishing shows "Transcribing..." in yellow
/// until the next report; a typed text shows "Text inserted" in green for
/// 1.2 s; silence shows in yellow for 1.5 s; an error shows its shortened
/// text in red for 3.5 s; any other report shows as it is in green for
/// 1.5 s.
pub proof fn law_capsule_follows_report(message: Seq<char>)
    ensures
        starts_with(message, "Recording"@) ==> osd_spec(message) == (
            0x00A88BF3u32,
            "Listening..."@,
            None::<u32>,
        ),
        !starts_with(message, "Recording"@) && starts_with(message, "Finishing"@) ==> osd_spec(
            message,
        ) == (0x00AFE2F9u32, "Transcribing..."@, None::<u32>),
        message == "Ready"@ ==> osd_spec(message) == (0x00A1E3A6u32, "Text inserted"@, Some(1200u32)),
        message == "No speech detected"@ ==> osd_spec(message) == (
            0x00AFE2F9u32,
            "No speech detected"@,
            Some(1500u32),
        ),
        starts_with(message, "Error:"@) ==> osd_spec(message).0 == 0x00A88BF3u32 && osd_spec(
            message,
        ).1 == error_display_spec(message) && osd_spec(message).2 == Some(3500u32),
        !starts_with(message, "Recording"@) && !starts_with(message, "Finishing"@) && message
            != "Ready"@ && message != "No speech detected"@ && !starts_with(message, "Error:"@)
            ==> osd_spec(message) == (0x00A1E3A6u32, message, Some(1500u32)),
{
    reveal_strlit("Recording");
    reveal_strlit("Finishing");
    reveal_strlit("Ready");
    reveal_strlit("No speech detected");
    reveal_strlit("Error:");
    reveal_strlit("Listening...");
    reveal_strlit("Transcribing...");
    reveal_strlit("Text inserted");
    reveal_strlit("Error: ");
    if message == "Ready"@ {
        assert(!starts_with(message, "Recording"@));
        assert(!starts_with(message, "Finishing"@));
    }
    if message == "No speech detected"@ {
        assert(!starts_with(message, "Recording"@)) by {
            assert(message[0] != "Recording"@[0]);
        }
        assert(!starts_with(message, "Finishing"@)) by {
            assert(message[0] != "Finishing"@[0]);
        }
        assert(message != "Ready"@);
    }
    if starts_with(message, "Error:"@) {
        assert(message.take(6)[0] == message[0]);
        assert(message[0] == 'E');
        if starts_with(message, "Recording"@) {
            assert(message.take(9)[0] == message[0]);
            assert(false);
        }
        if starts_with(message, "Finishing"@) {
            assert(message.take(9)[0] == message[0]);
            assert(false);
        }
        assert(message != "Ready"@) by {
            if message == "Ready"@ {
                assert(message[0] == 'R');
            }
        }
        assert(message != "No speech detected"@) by {
            if message == "No speech detected"@ {
                assert(message[0] == 'N');
            }
        }
    }
}

} // verus!
