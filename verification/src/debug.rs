//! The debug overlay: its switches, its log of warnings, and where its panel and lines sit on
//! screen. The timings it shows are measured and formatted by the client.
use vstd::prelude::*;

use crate::headful::skilltree_camera::{sat_mul_u32_spec, Rect};
use crate::perf_budget::PerfBudgetStatus;
use crate::skilltree::runtime::{sat_add, starts_with};
use crate::skilltree::push_chars;
use crate::tetris_core::setup::string_from_chars;

verus! {

/// Pixels between the starts of two characters of the overlay font.
pub const GLYPH_ADVANCE_X: u32 = 8;

/// Pixels between the tops of two lines of the overlay font.
pub const LINE_ADVANCE_Y: u32 = 12;

/// Padding around the overlay's text, in pixels.
pub const PANEL_PAD: u32 = 12;

/// At most this many warnings are kept.
pub const MAX_LOG_LINES: usize = 8;

/// The overlay's colours: normal text, a warning, a critical value.
pub const COLOR_TEXT: [u8; 4] = [235, 235, 245, 255];

pub const COLOR_TEXT_WARN: [u8; 4] = [245, 198, 92, 255];

pub const COLOR_TEXT_CRITICAL: [u8; 4] = [245, 96, 96, 255];

pub ghost struct HudView {
    pub enabled: bool,
    pub minimized: bool,
    pub round_timer_disabled: bool,
    pub logs: Seq<Seq<char>>,
}

/// The switches of the debug overlay and its latest warnings.
#[derive(Debug, Clone)]
pub struct DebugHud {
    enabled: bool,
    minimized: bool,
    round_timer_disabled: bool,
    logs: Vec<String>,
}

pub open spec fn texts(v: Seq<String>) -> Seq<Seq<char>> {
    v.map_values(|s: String| s@)
}

impl View for DebugHud {
    type V = HudView;

    closed spec fn view(&self) -> HudView {
        HudView {
            enabled: self.enabled,
            minimized: self.minimized,
            round_timer_disabled: self.round_timer_disabled,
            logs: texts(self.logs@),
        }
    }
}

/// The text of a warning line.
pub open spec fn warning_text(message: Seq<char>) -> Seq<char> {
    "LOG WARN "@ + message
}

/// The log after a warning: unchanged when the last line already says the same; otherwise
/// the line is appended and, past `MAX_LOG_LINES`, the oldest dropped.
pub open spec fn spec_logged(logs: Seq<Seq<char>>, message: Seq<char>) -> Seq<Seq<char>> {
    let t = warning_text(message);
    if logs.len() > 0 && logs.last() == t {
        logs
    } else if logs.len() + 1 > MAX_LOG_LINES {
        logs.push(t).drop_first()
    } else {
        logs.push(t)
    }
}

/// The log never holds more than `MAX_LOG_LINES` warnings: logging keeps that bound.
pub proof fn lemma_log_bounded(logs: Seq<Seq<char>>, message: Seq<char>)
    requires
        logs.len() <= MAX_LOG_LINES,
    ensures
        spec_logged(logs, message).len() <= MAX_LOG_LINES,
        spec_logged(logs, message).len() > 0,
        spec_logged(logs, message).last() == warning_text(message),
{
}

/// The log's part of the overlay: a `LOGS` heading and the warnings, or nothing.
pub open spec fn spec_log_lines(logs: Seq<Seq<char>>) -> Seq<Seq<char>> {
    if logs.len() == 0 {
        Seq::empty()
    } else {
        seq!["LOGS"@] + logs
    }
}

impl DebugHud {
    /// An open, expanded overlay with the round timer on and no warnings.
    pub fn new() -> (r: Self)
        ensures
            r@ == (HudView { enabled: true, minimized: false, round_timer_disabled: false, logs: Seq::empty() }),
    {
        let r = DebugHud { enabled: true, minimized: false, round_timer_disabled: false, logs: Vec::new() };
        assert(texts(r.logs@) =~= Seq::<Seq<char>>::empty());
        r
    }

    pub fn toggle(&mut self)
        ensures
            final(self)@ == (HudView { enabled: !old(self)@.enabled, ..old(self)@ }),
    {
        self.enabled = !self.enabled;
    }

    pub fn is_enabled(&self) -> (r: bool)
        ensures
            r == self@.enabled,
    {
        self.enabled
    }

    pub fn toggle_minimized(&mut self)
        ensures
            final(self)@ == (HudView { minimized: !old(self)@.minimized, ..old(self)@ }),
    {
        self.minimized = !self.minimized;
    }

    pub fn is_minimized(&self) -> (r: bool)
        ensures
            r == self@.minimized,
    {
        self.minimized
    }

    pub fn toggle_round_timer_disabled(&mut self)
        ensures
            final(self)@ == (HudView { round_timer_disabled: !old(self)@.round_timer_disabled, ..old(self)@ }),
    {
        self.round_timer_disabled = !self.round_timer_disabled;
    }

    pub fn set_round_timer_disabled(&mut self, disabled: bool)
        ensures
            final(self)@ == (HudView { round_timer_disabled: disabled, ..old(self)@ }),
    {
        self.round_timer_disabled = disabled;
    }

    pub fn round_timer_disabled(&self) -> (r: bool)
        ensures
            r == self@.round_timer_disabled,
    {
        self.round_timer_disabled
    }

    /// Logs a warning; see `spec_logged`.
    pub fn log_warning(&mut self, message: &str)
        ensures
            final(self)@ == (HudView { logs: spec_logged(old(self)@.logs, message@), ..old(self)@ }),
    {
        let mut chars: Vec<char> = Vec::new();
        push_chars(&mut chars, "LOG WARN ");
        push_chars(&mut chars, message);
        let line = string_from_chars(&chars);
        proof {
            reveal_strlit("LOG WARN ");
        }
        assert(line@ =~= warning_text(message@));
        let n = self.logs.len();
        if n > 0 && self.logs[n - 1] == line {
            return;
        }
        let ghost before = self.logs@;
        self.logs.push(line);
        assert(texts(self.logs@) =~= texts(before).push(line@));
        if self.logs.len() > MAX_LOG_LINES {
            self.logs.remove(0);
            assert(texts(self.logs@) =~= texts(before).push(line@).drop_first());
        }
    }

    /// The log's lines of the overlay; see `spec_log_lines`.
    pub fn log_lines(&self) -> (r: Vec<String>)
        ensures
            texts(r@) == spec_log_lines(self@.logs),
    {
        let mut out: Vec<String> = Vec::new();
        if self.logs.len() == 0 {
            assert(texts(out@) =~= spec_log_lines(self@.logs));
            return out;
        }
        out.push(String::from_str("LOGS"));
        let mut i: usize = 0;
        while i < self.logs.len()
            invariant
                i <= self.logs.len(),
                self.logs.len() > 0,
                texts(out@) == seq!["LOGS"@] + texts(self.logs@).take(i as int),
            decreases self.logs.len() - i,
        {
            let ghost before = out@;
            out.push(self.logs[i].clone());
            assert(texts(out@) =~= texts(before).push(self.logs@[i as int]@));
            assert(texts(self.logs@).take(i + 1) =~= texts(self.logs@).take(i as int).push(self.logs@[i as int]@));
            i += 1;
            assert(texts(out@) =~= seq!["LOGS"@] + texts(self.logs@).take(i as int));
        }
        assert(texts(self.logs@).take(i as int) =~= texts(self.logs@));
        out
    }

    /// The overlay's line about the round timer.
    pub fn timer_line(&self) -> (r: String)
        ensures
            r@ == if self@.round_timer_disabled { "TIMER OFF [CLICK]"@ } else { "TIMER ON [CLICK]"@ },
    {
        if self.round_timer_disabled {
            String::from_str("TIMER OFF [CLICK]")
        } else {
            String::from_str("TIMER ON [CLICK]")
        }
    }

    /// The overlay's lines around its `body`: a `DEBUG [+]` heading alone while minimized,
    /// else a `DEBUG [-]` heading over the body.
    pub fn overlay_lines(&self, body: Vec<String>) -> (r: Vec<String>)
        ensures
            texts(r@) == if self@.minimized { seq!["DEBUG [+]"@] } else { seq!["DEBUG [-]"@] + texts(body@) },
    {
        let mut out: Vec<String> = Vec::new();
        if self.minimized {
            out.push(String::from_str("DEBUG [+]"));
            assert(texts(out@) =~= seq!["DEBUG [+]"@]);
            return out;
        }
        out.push(String::from_str("DEBUG [-]"));
        let mut i: usize = 0;
        while i < body.len()
            invariant
                i <= body.len(),
                texts(out@) == seq!["DEBUG [-]"@] + texts(body@).take(i as int),
            decreases body.len() - i,
        {
            let ghost before = out@;
            out.push(body[i].clone());
            assert(texts(out@) =~= texts(before).push(body@[i as int]@));
            assert(texts(body@).take(i + 1) =~= texts(body@).take(i as int).push(body@[i as int]@));
            i += 1;
            assert(texts(out@) =~= seq!["DEBUG [-]"@] + texts(body@).take(i as int));
        }
        assert(texts(body@).take(i as int) =~= texts(body@));
        out
    }

    /// Where the round-timer switch sits on a screen of `width` by `height` pixels when the
    /// overlay shows `lines`: none while the overlay is off or minimized; see
    /// `timer_toggle_rect_for_lines`.
    pub fn timer_toggle_rect(&self, width: u32, height: u32, lines: &Vec<String>) -> (r: Option<Rect>)
        requires
            panel_fits(lines@),
        ensures
            !self@.enabled || self@.minimized ==> r is None,
            self@.enabled && !self@.minimized ==> r == spec_timer_rect(
                spec_panel(width, height, lines@),
                PANEL_PAD,
                lines@,
            ),
    {
        if !self.enabled || self.minimized {
            return None;
        }
        let (panel, pad) = panel_rect_for_lines(width, height, lines);
        timer_toggle_rect_for_lines(panel, pad, lines)
    }
}

/// The length in bytes of `s` (UTF-8).
pub open spec fn byte_len(s: Seq<char>) -> usize {
    vstd::utf8::encode_utf8(s).len() as usize
}

/// The longest byte length among the first `n` lines (each taken modulo 2^32), or zero.
pub open spec fn max_len(lines: Seq<String>, n: int) -> u32
    decreases n,
{
    if n <= 0 {
        0
    } else {
        let rest = max_len(lines, n - 1);
        let l = byte_len(lines[n - 1]@) as u32;
        if l > rest { l } else { rest }
    }
}

/// The panel's text fits in `u32` with its padding.
pub open spec fn panel_fits(lines: Seq<String>) -> bool {
    &&& sat_mul_u32_spec(max_len(lines, lines.len() as int), GLYPH_ADVANCE_X) + 2 * PANEL_PAD <= u32::MAX
    &&& sat_mul_u32_spec(lines.len() as u32, LINE_ADVANCE_Y) + 2 * PANEL_PAD <= u32::MAX
}

/// The overlay panel for `lines` on a screen of `width` by `height` pixels: at (10, 10), as
/// wide as the longest line and as tall as the lines, plus padding on each side, at most the
/// screen's size.
pub open spec fn spec_panel(width: u32, height: u32, lines: Seq<String>) -> Rect {
    let w = (sat_mul_u32_spec(max_len(lines, lines.len() as int), GLYPH_ADVANCE_X) + 2 * PANEL_PAD) as u32;
    let h = (sat_mul_u32_spec(lines.len() as u32, LINE_ADVANCE_Y) + 2 * PANEL_PAD) as u32;
    Rect { x: 10, y: 10, w: if w < width { w } else { width }, h: if h < height { h } else { height } }
}

fn sat_mul(a: u32, b: u32) -> (r: u32)
    ensures
        r == sat_mul_u32_spec(a, b),
{
    match a.checked_mul(b) {
        Some(v) => v,
        None => u32::MAX,
    }
}

/// The overlay panel for `lines` and its padding; see `spec_panel`.
pub fn panel_rect_for_lines(width: u32, height: u32, lines: &Vec<String>) -> (r: (Rect, u32))
    requires
        panel_fits(lines@),
    ensures
        r == (spec_panel(width, height, lines@), PANEL_PAD),
{
    let mut max_chars: u32 = 0;
    let mut i: usize = 0;
    while i < lines.len()
        invariant
            i <= lines.len(),
            max_chars == max_len(lines@, i as int),
        decreases lines.len() - i,
    {
        let l = lines[i].as_str().len() as u32;
        if l > max_chars {
            max_chars = l;
        }
        i += 1;
    }
    let pad = PANEL_PAD;
    let inner_w = sat_mul(max_chars, GLYPH_ADVANCE_X);
    let inner_h = sat_mul(lines.len() as u32, LINE_ADVANCE_Y);
    let full_w = inner_w + pad * 2;
    let full_h = inner_h + pad * 2;
    let panel_w = if full_w < width { full_w } else { width };
    let panel_h = if full_h < height { full_h } else { height };
    (Rect::new(10, 10, panel_w, panel_h), pad)
}

/// The header of the panel: its top, one padding and one line tall, at most the panel.
pub open spec fn spec_header(panel: Rect, pad: u32) -> Rect {
    let h = pad + LINE_ADVANCE_Y;
    Rect { x: panel.x, y: panel.y, w: panel.w, h: if h < panel.h { h as u32 } else { panel.h } }
}

/// The header of the panel, where a click folds or unfolds it; see `spec_header`.
pub fn header_rect_for_panel(panel: Rect, pad: u32) -> (r: Rect)
    requires
        pad + LINE_ADVANCE_Y <= u32::MAX,
    ensures
        r == spec_header(panel, pad),
{
    let header_h = pad + LINE_ADVANCE_Y;
    Rect::new(panel.x, panel.y, panel.w, if header_h < panel.h { header_h } else { panel.h })
}

/// Line `i` of the panel: one line tall below the padding (cut at the panel's bottom) and as
/// wide as the panel within the padding; none when it starts at or below the bottom, has no
/// width, or the index exceeds `u32::MAX` (all sums saturating).
pub open spec fn spec_line_rect(panel: Rect, pad: u32, i: int) -> Option<Rect> {
    let y = sat_add(sat_add(panel.y, pad), sat_mul_u32_spec(i as u32, LINE_ADVANCE_Y));
    let bottom = sat_add(panel.y, panel.h);
    let w = if panel.w < sat_mul_u32_spec(pad, 2) { 0 } else { panel.w - sat_mul_u32_spec(pad, 2) };
    if i > u32::MAX || y >= bottom || w == 0 {
        None
    } else {
        Some(Rect {
            x: sat_add(panel.x, pad),
            y,
            w: w as u32,
            h: if LINE_ADVANCE_Y < bottom - y { LINE_ADVANCE_Y } else { (bottom - y) as u32 },
        })
    }
}

/// The rectangle of line `line_index` of the panel; see `spec_line_rect`.
pub fn line_rect_for_index(panel: Rect, pad: u32, line_index: usize) -> (r: Option<Rect>)
    ensures
        r == spec_line_rect(panel, pad, line_index as int),
{
    if line_index > u32::MAX as usize {
        return None;
    }
    let i = line_index as u32;
    let y = panel.y.saturating_add(pad).saturating_add(sat_mul(i, LINE_ADVANCE_Y));
    let bottom = panel.y.saturating_add(panel.h);
    if y >= bottom {
        return None;
    }
    let h = if LINE_ADVANCE_Y < bottom - y { LINE_ADVANCE_Y } else { bottom - y };
    if h == 0 {
        return None;
    }
    let x = panel.x.saturating_add(pad);
    let w = panel.w.saturating_sub(sat_mul(pad, 2));
    if w == 0 {
        return None;
    }
    Some(Rect::new(x, y, w, h))
}

/// The index of the first line starting with `TIMER `, if any.
pub open spec fn timer_index(lines: Seq<String>) -> Option<int> {
    if exists|k: int| 0 <= k < lines.len() && "TIMER "@.is_prefix_of(#[trigger] lines[k]@) {
        Some(choose|k: int| 0 <= k < lines.len() && "TIMER "@.is_prefix_of(#[trigger] lines[k]@)
            && forall|j: int| 0 <= j < k ==> !"TIMER "@.is_prefix_of(#[trigger] lines[j]@))
    } else {
        None
    }
}

/// Where the round-timer switch of the panel sits: the rectangle of the first line that
/// starts with `TIMER `.
pub open spec fn spec_timer_rect(panel: Rect, pad: u32, lines: Seq<String>) -> Option<Rect> {
    match timer_index(lines) {
        Some(k) => spec_line_rect(panel, pad, k),
        None => None,
    }
}

/// The rectangle of the round-timer line of the panel; see `spec_timer_rect`.
pub fn timer_toggle_rect_for_lines(panel: Rect, pad: u32, lines: &Vec<String>) -> (r: Option<Rect>)
    ensures
        r == spec_timer_rect(panel, pad, lines@),
{
    let mut i: usize = 0;
    while i < lines.len()
        invariant
            i <= lines.len(),
            forall|j: int| 0 <= j < i ==> !"TIMER "@.is_prefix_of(#[trigger] lines@[j]@),
        decreases lines.len() - i,
    {
        if starts_with(lines[i].as_str(), "TIMER ") {
            proof {
                let k = choose|k: int| 0 <= k < lines@.len() && "TIMER "@.is_prefix_of(#[trigger] lines@[k]@)
                    && forall|j: int| 0 <= j < k ==> !"TIMER "@.is_prefix_of(#[trigger] lines@[j]@);
                assert(0 <= i < lines@.len() && "TIMER "@.is_prefix_of(lines@[i as int]@));
                assert(k == i) by {
                    if k < i {
                    } else if k > i {
                        assert(!"TIMER "@.is_prefix_of(lines@[i as int]@));
                    }
                }
            }
            return line_rect_for_index(panel, pad, i);
        }
        i += 1;
    }
    None
}

/// The colour of a line about a budget in the given state: normal text, the warning colour,
/// or the critical colour.
pub fn status_color(status: PerfBudgetStatus) -> (r: [u8; 4])
    ensures
        r == match status {
            PerfBudgetStatus::Normal => COLOR_TEXT,
            PerfBudgetStatus::Warn => COLOR_TEXT_WARN,
            PerfBudgetStatus::Critical => COLOR_TEXT_CRITICAL,
        },
{
    match status {
        PerfBudgetStatus::Normal => COLOR_TEXT,
        PerfBudgetStatus::Warn => COLOR_TEXT_WARN,
        PerfBudgetStatus::Critical => COLOR_TEXT_CRITICAL,
    }
}

} // verus!
