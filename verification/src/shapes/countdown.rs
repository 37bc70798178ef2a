//! Countdown timer shown in large box-drawing digits.
//!
//! The timer counts a span of time down while running, can be paused,
//! resumed and reset, and blinks its colon while paused. Its display is the
//! remaining time as `MM:SS` (or `HH:MM:SS` from one hour up) in a
//! seven-line digit font, scaled to the buffer it is drawn into.

use crate::text::{
    all_digits, chars_of, digits_value, is_digit, is_space, is_whitespace, lemma_split_concat,
    lemma_split_without_separator, parse_decimal, parse_u64, split_at_char, split_on, trim, trim_end,
    trim_start, trimmed,
};
use crate::time::{span_limit, TimeSpan};
use vstd::prelude::*;
use vstd::string::*;

verus! {

/// Countdown timer state
#[derive(Debug, Clone, Copy, PartialEq, Eq, Hash, Structural)]
pub enum CountdownState {
    Running,
    Paused,
    Finished,
}

/// Half a second, in nanoseconds: the colon blinks at this period.
pub open spec fn blink_period() -> nat {
    500_000_000
}

/// The state and remaining time after `elapsed` nanoseconds pass: a
/// running timer counts down and finishes when the time runs out; a paused
/// or finished one does not move.
pub open spec fn tick(state: CountdownState, left: nat, elapsed: nat) -> (CountdownState, nat) {
    if state != CountdownState::Running {
        (state, left)
    } else if left > elapsed {
        (CountdownState::Running, (left - elapsed) as nat)
    } else {
        (CountdownState::Finished, 0)
    }
}

/// The state after toggling pause: running pauses, paused resumes, finished
/// stays finished.
pub open spec fn toggled(state: CountdownState) -> CountdownState {
    match state {
        CountdownState::Running => CountdownState::Paused,
        CountdownState::Paused => CountdownState::Running,
        CountdownState::Finished => CountdownState::Finished,
    }
}

/// Letting time pass in two steps counts down exactly as letting the whole
/// time pass at once.
pub proof fn lemma_tick_additive(state: CountdownState, left: nat, a: nat, b: nat)
    ensures
        tick(tick(state, left, a).0, tick(state, left, a).1, b) == tick(state, left, a + b),
{
}

/// Toggling pause twice gives back the state it started from.
pub proof fn lemma_toggle_twice(state: CountdownState)
    ensures
        toggled(toggled(state)) == state,
{
}

/// A finished timer stays finished, and keeps its remaining time, however
/// much time passes and however often pause is toggled.
pub proof fn lemma_finished_is_final(left: nat, elapsed: nat)
    ensures
        tick(CountdownState::Finished, left, elapsed) == (CountdownState::Finished, left),
        toggled(CountdownState::Finished) == CountdownState::Finished,
{
}

/// A paused timer does not count down, however much time passes.
pub proof fn lemma_paused_time_stands_still(left: nat, elapsed: nat)
    ensures
        tick(CountdownState::Paused, left, elapsed) == (CountdownState::Paused, left),
{
}

/// The seven rows of the digit font for a character (digits, the colon,
/// and a blank glyph for everything else).
pub open spec fn font(c: char) -> Seq<Seq<char>> {
    if c == '0' {
        seq!["  █████╗ "@, " ██╔══██╗"@, " ██║  ██║"@, " ██║  ██║"@, " ██║  ██║"@, " ╚█████╔╝"@, "         "@]
    } else if c == '1' {
        seq!["    ██╗  "@, "   ███║  "@, "    ██║  "@, "    ██║  "@, "    ██║  "@, "    ██║  "@, "         "@]
    } else if c == '2' {
        seq!["  █████╗ "@, " ╚════██╗"@, "  █████╔╝"@, " ██╔════╝"@, " ███████╗"@, " ╚══════╝"@, "         "@]
    } else if c == '3' {
        seq!["  █████╗ "@, " ╚════██╗"@, "   ████╔╝"@, "   ╚══██╗"@, " █████╔╝ "@, " ╚════╝  "@, "         "@]
    } else if c == '4' {
        seq![" ██╗ ██╗ "@, " ██║ ██║ "@, " ███████╗"@, " ╚════██║"@, "      ██║"@, "      ╚═╝"@, "         "@]
    } else if c == '5' {
        seq![" ███████╗"@, " ██╔════╝"@, " ██████╗ "@, " ╚════██╗"@, " ██████╔╝"@, " ╚═════╝ "@, "         "@]
    } else if c == '6' {
        seq!["  █████╗ "@, " ██╔════╝"@, " ██████╗ "@, " ██╔══██╗"@, " ╚█████╔╝"@, "  ╚════╝ "@, "         "@]
    } else if c == '7' {
        seq![" ███████╗"@, " ╚════██║"@, "     ██╔╝"@, "    ██╔╝ "@, "   ██╔╝  "@, "   ╚═╝   "@, "         "@]
    } else if c == '8' {
        seq!["  █████╗ "@, " ██╔══██╗"@, "  █████╔╝"@, " ██╔══██╗"@, " ╚█████╔╝"@, "  ╚════╝ "@, "         "@]
    } else if c == '9' {
        seq!["  █████╗ "@, " ██╔══██╗"@, " ╚██████║"@, "  ╚═══██║"@, "  █████╔╝"@, "  ╚════╝ "@, "         "@]
    } else if c == ':' {
        seq!["   "@, "██╗"@, "╚═╝"@, "██╗"@, "╚═╝"@, "   "@, "   "@]
    } else if c == ' ' {
        seq!["   "@, "   "@, "   "@, "   "@, "   "@, "   "@, "   "@]
    } else {
        seq!["   "@, "   "@, "   "@, "   "@, "   "@, "   "@, "   "@]
    }
}

fn digit_pattern(c: char) -> (r: &'static [&'static str])
    ensures
        r@.len() == 7,
        forall|i: int| 0 <= i < 7 ==> #[trigger] r@[i]@ == font(c)[i],
{
    match c {
        '0' => &["  █████╗ ", " ██╔══██╗", " ██║  ██║", " ██║  ██║", " ██║  ██║", " ╚█████╔╝", "         "],
        '1' => &["    ██╗  ", "   ███║  ", "    ██║  ", "    ██║  ", "    ██║  ", "    ██║  ", "         "],
        '2' => &["  █████╗ ", " ╚════██╗", "  █████╔╝", " ██╔════╝", " ███████╗", " ╚══════╝", "         "],
        '3' => &["  █████╗ ", " ╚════██╗", "   ████╔╝", "   ╚══██╗", " █████╔╝ ", " ╚════╝  ", "         "],
        '4' => &[" ██╗ ██╗ ", " ██║ ██║ ", " ███████╗", " ╚════██║", "      ██║", "      ╚═╝", "         "],
        '5' => &[" ███████╗", " ██╔════╝", " ██████╗ ", " ╚════██╗", " ██████╔╝", " ╚═════╝ ", "         "],
        '6' => &["  █████╗ ", " ██╔════╝", " ██████╗ ", " ██╔══██╗", " ╚█████╔╝", "  ╚════╝ ", "         "],
        '7' => &[" ███████╗", " ╚════██║", "     ██╔╝", "    ██╔╝ ", "   ██╔╝  ", "   ╚═╝   ", "         "],
        '8' => &["  █████╗ ", " ██╔══██╗", "  █████╔╝", " ██╔══██╗", " ╚█████╔╝", "  ╚════╝ ", "         "],
        '9' => &["  █████╗ ", " ██╔══██╗", " ╚██████║", "  ╚═══██║", "  █████╔╝", "  ╚════╝ ", "         "],
        ':' => &["   ", "██╗", "╚═╝", "██╗", "╚═╝", "   ", "   "],
        ' ' => &["   ", "   ", "   ", "   ", "   ", "   ", "   "],
        _ => &["   ", "   ", "   ", "   ", "   ", "   ", "   "],
    }
}

/// Every row of a digit's glyph is nine characters wide; the colon and the
/// blank glyph are three.
pub proof fn lemma_font_row_width(c: char, i: int)
    requires
        0 <= i < 7,
    ensures
        font(c)[i].len() == (if '0' <= c && c <= '9' { 9int } else { 3int }),
{
    reveal_strlit("   ");
    reveal_strlit("         ");
    reveal_strlit("      ╚═╝");
    reveal_strlit("      ██║");
    reveal_strlit("     ██╔╝");
    reveal_strlit("    ██║  ");
    reveal_strlit("    ██╔╝ ");
    reveal_strlit("    ██╗  ");
    reveal_strlit("   ╚══██╗");
    reveal_strlit("   ╚═╝   ");
    reveal_strlit("   ██╔╝  ");
    reveal_strlit("   ███║  ");
    reveal_strlit("   ████╔╝");
    reveal_strlit("  ╚════╝ ");
    reveal_strlit("  ╚═══██║");
    reveal_strlit("  █████╔╝");
    reveal_strlit("  █████╗ ");
    reveal_strlit(" ╚══════╝");
    reveal_strlit(" ╚═════╝ ");
    reveal_strlit(" ╚════╝  ");
    reveal_strlit(" ╚════██║");
    reveal_strlit(" ╚════██╗");
    reveal_strlit(" ╚█████╔╝");
    reveal_strlit(" ╚██████║");
    reveal_strlit(" ██║  ██║");
    reveal_strlit(" ██║ ██║ ");
    reveal_strlit(" ██╔════╝");
    reveal_strlit(" ██╔══██╗");
    reveal_strlit(" ██╗ ██╗ ");
    reveal_strlit(" █████╔╝ ");
    reveal_strlit(" ██████╔╝");
    reveal_strlit(" ██████╗ ");
    reveal_strlit(" ███████╗");
    reveal_strlit("╚═╝");
    reveal_strlit("██╗");
}

/// The character of a decimal digit.
pub open spec fn digit_char(d: nat) -> char {
    seq!['0', '1', '2', '3', '4', '5', '6', '7', '8', '9'][d as int]
}

/// The decimal digits of `n`, most significant first, without leading zeros.
pub open spec fn decimal(n: nat) -> Seq<char>
    decreases n,
{
    if n < 10 {
        seq![digit_char(n)]
    } else {
        decimal(n / 10).push(digit_char(n % 10))
    }
}

/// `n` in decimal, zero-padded to at least two digits.
pub open spec fn two_digits(n: nat) -> Seq<char> {
    if n < 10 {
        seq!['0', digit_char(n)]
    } else {
        decimal(n)
    }
}

/// The clock text for a number of whole seconds: `MM:SS` below one hour,
/// `HH:MM:SS` from one hour up (the hours taking as many digits as they
/// need).
pub open spec fn clock_text(total_secs: nat) -> Seq<char> {
    let hours = total_secs / 3600;
    let mins = (total_secs % 3600) / 60;
    let secs = total_secs % 60;
    if hours > 0 {
        two_digits(hours) + seq![':'] + two_digits(mins) + seq![':'] + two_digits(secs)
    } else {
        two_digits(mins) + seq![':'] + two_digits(secs)
    }
}

/// The text the timer shows: the clock text, with the colons blanked while
/// the timer is paused in the half-second the colon is hidden.
pub open spec fn shown_text(clock: Seq<char>, blank_colons: bool) -> Seq<char> {
    clock.map_values(|c: char| if blank_colons && c == ':' { ' ' } else { c })
}

fn digit(d: u64) -> (r: char)
    requires
        d < 10,
    ensures
        r == digit_char(d as nat),
{
    let digits: [char; 10] = ['0', '1', '2', '3', '4', '5', '6', '7', '8', '9'];
    digits[d as usize]
}

fn push_decimal(out: &mut Vec<char>, n: u64)
    ensures
        final(out)@ == old(out)@ + decimal(n as nat),
    decreases n,
{
    if n < 10 {
        out.push(digit(n));
    } else {
        push_decimal(out, n / 10);
        out.push(digit(n % 10));
        assert(decimal(n as nat) == decimal((n / 10) as nat).push(digit_char((n % 10) as nat)));
    }
}

fn push_two_digits(out: &mut Vec<char>, n: u64)
    ensures
        final(out)@ == old(out)@ + two_digits(n as nat),
{
    if n < 10 {
        out.push('0');
        out.push(digit(n));
    } else {
        push_decimal(out, n);
    }
}

/// Row widths of a glyph: the longest row, in characters.
pub open spec fn glyph_width(rows: Seq<Seq<char>>) -> nat
    decreases rows.len(),
{
    if rows.len() == 0 {
        0
    } else {
        let rest = glyph_width(rows.drop_last());
        if rows.last().len() > rest {
            rows.last().len()
        } else {
            rest
        }
    }
}

pub open spec fn str_views(strs: Seq<&str>) -> Seq<Seq<char>> {
    strs.map_values(|s: &str| s@)
}

/// Get the display width of a digit pattern
fn pattern_width(pattern: &[&str]) -> (r: usize)
    requires
        forall|i: int| 0 <= i < pattern@.len() ==> (#[trigger] pattern@[i]@).len() <= 9,
    ensures
        r == glyph_width(str_views(pattern@)),
{
    let mut width: usize = 0;
    let mut i: usize = 0;
    while i < pattern.len()
        invariant
            i <= pattern@.len(),
            width == glyph_width(str_views(pattern@).take(i as int)),
            width <= 9,
            forall|j: int| 0 <= j < pattern@.len() ==> (#[trigger] pattern@[j]@).len() <= 9,
        decreases pattern@.len() - i,
    {
        let n = pattern[i].unicode_len();
        assert(str_views(pattern@).take(i + 1).drop_last() =~= str_views(pattern@).take(i as int));
        if n > width {
            width = n;
        }
        i = i + 1;
    }
    assert(str_views(pattern@).take(pattern@.len() as int) =~= str_views(pattern@));
    width
}

/// The digit row `row` of the whole shown text: the glyph rows of its
/// characters side by side.
pub open spec fn strip_row(text: Seq<char>, row: int) -> Seq<char>
    decreases text.len(),
{
    if text.len() == 0 {
        seq![]
    } else {
        strip_row(text.drop_last(), row) + font(text.last())[row]
    }
}

/// Width of the whole shown text in the digit font.
pub open spec fn strip_width(text: Seq<char>) -> nat
    decreases text.len(),
{
    if text.len() == 0 {
        0
    } else {
        strip_width(text.drop_last()) + glyph_width(font(text.last()))
    }
}

/// The shown text drawn in the digit font at full size: seven rows of
/// characters, and its width (the sum of the glyph widths).
pub struct GlyphStrip {
    pub rows: Vec<Vec<char>>,
    pub width: usize,
}

impl GlyphStrip {
    /// `self` holds `text` drawn in the digit font.
    pub open spec fn draws(&self, text: Seq<char>) -> bool {
        &&& self.rows@.len() == 7
        &&& forall|r: int| 0 <= r < 7 ==> (#[trigger] self.rows@[r])@ == strip_row(text, r)
        &&& self.width == strip_width(text)
    }
}


/// Draw `text` in the digit font at full size.
pub fn glyph_strip(text: &[char]) -> (r: GlyphStrip)
    requires
        text@.len() <= 1000,
    ensures
        r.draws(text@),
        r.width <= 9 * text@.len(),
{
    let mut rows: Vec<Vec<char>> = Vec::new();
    let mut k: usize = 0;
    while k < 7
        invariant
            k <= 7,
            rows@.len() == k,
            forall|r: int| 0 <= r < k ==> (#[trigger] rows@[r])@ == Seq::<char>::empty(),
        decreases 7 - k,
    {
        rows.push(Vec::new());
        k = k + 1;
    }
    let mut width: usize = 0;
    let mut i: usize = 0;
    while i < text.len()
        invariant
            i <= text@.len(),
            text@.len() <= 1000,
            rows@.len() == 7,
            forall|r: int| 0 <= r < 7 ==> (#[trigger] rows@[r])@ == strip_row(text@.take(i as int), r),
            width == strip_width(text@.take(i as int)),
            width <= 9 * i,
        decreases text@.len() - i,
    {
        let c = text[i];
        let pattern = digit_pattern(c);
        proof {
            assert forall|j: int| 0 <= j < pattern@.len() implies (#[trigger] pattern@[j]@).len() <= 9 by {
                lemma_font_row_width(c, j);
            }
        }
        let w = pattern_width(pattern);
        proof {
            lemma_glyph_width_of_font(c);
            assert(str_views(pattern@) =~= font(c));
        }
        let ghost before = rows@;
        let mut row: usize = 0;
        while row < 7
            invariant
                row <= 7,
                rows@.len() == 7,
                pattern@.len() == 7,
                forall|r: int| 0 <= r < 7 ==> #[trigger] pattern@[r]@ == font(c)[r],
                forall|r: int| 0 <= r < row ==> (#[trigger] rows@[r])@ == before[r]@ + font(c)[r],
                forall|r: int| row <= r < 7 ==> (#[trigger] rows@[r]) == before[r],
            decreases 7 - row,
        {
            let line: &str = pattern[row];
            let n = line.unicode_len();
            let mut target = rows.remove(row);
            let ghost start = target@;
            let mut j: usize = 0;
            while j < n
                invariant
                    j <= n,
                    n == line@.len(),
                    target@ == start + line@.take(j as int),
                decreases n - j,
            {
                target.push(line.get_char(j));
                assert(line@.take(j + 1) =~= line@.take(j as int).push(line@[j as int]));
                j = j + 1;
            }
            assert(line@.take(n as int) =~= line@);
            rows.insert(row, target);
            row = row + 1;
        }
        proof {
            let t = text@.take(i + 1);
            assert(t.drop_last() =~= text@.take(i as int));
            assert(t.last() == c);
            assert forall|r: int| 0 <= r < 7 implies (#[trigger] rows@[r])@ == strip_row(t, r) by {
                assert(strip_row(t, r) == strip_row(text@.take(i as int), r) + font(c)[r]);
            }
        }
        width = width + w;
        i = i + 1;
    }
    assert(text@.take(text@.len() as int) =~= text@);
    GlyphStrip { rows, width }
}

proof fn lemma_glyph_width_of_font(c: char)
    ensures
        glyph_width(font(c)) == (if '0' <= c && c <= '9' { 9nat } else { 3nat }),
{
    let rows = font(c);
    let w: nat = if '0' <= c && c <= '9' { 9 } else { 3 };
    assert forall|i: int| 0 <= i < 7 implies (#[trigger] rows[i]).len() == w by {
        lemma_font_row_width(c, i);
    }
    assert(rows.len() == 7);
    lemma_glyph_width_uniform(rows, w);
}

proof fn lemma_glyph_width_uniform(rows: Seq<Seq<char>>, w: nat)
    requires
        rows.len() > 0,
        forall|i: int| 0 <= i < rows.len() ==> (#[trigger] rows[i]).len() == w,
    ensures
        glyph_width(rows) == w,
    decreases rows.len(),
{
    if rows.len() > 1 {
        let rest = rows.drop_last();
        assert forall|i: int| 0 <= i < rest.len() implies (#[trigger] rest[i]).len() == w by {
            assert(rest[i] == rows[i]);
        }
        lemma_glyph_width_uniform(rest, w);
        assert(rows.last().len() == w);
    } else {
        assert(rows.drop_last().len() == 0);
        assert(glyph_width(rows.drop_last()) == 0);
        assert(rows.last().len() == w);
    }
}


/// Powers of ten.
pub open spec fn pow10(k: nat) -> nat
    decreases k,
{
    if k == 0 {
        1
    } else {
        10 * pow10((k - 1) as nat)
    }
}

proof fn lemma_decimal_len(n: nat, k: nat)
    requires
        k >= 1,
        n < pow10(k),
    ensures
        decimal(n).len() <= k,
    decreases k,
{
    if n >= 10 {
        assert(k >= 2) by {
            if k == 1 {
                assert(pow10(1) == 10 * pow10(0));
            }
        }
        assert(pow10(k) == 10 * pow10((k - 1) as nat));
        lemma_decimal_len(n / 10, (k - 1) as nat);
    }
}

/// How a drawn cell of the countdown shows: the solid blocks and the box
/// edges of the digits, the title, and the status line (drawn with
/// luminance 1.0, 0.7, 0.5 and 0.4).
#[derive(Debug, Clone, Copy, PartialEq, Eq, Hash, Structural)]
pub enum Ink {
    Solid,
    Edge,
    Title,
    Status,
}

/// The ink of a digit-font character: full blocks are solid, box-drawing
/// edges are edges, and anything else is left blank.
pub open spec fn ink_of(c: char) -> Option<Ink> {
    if c == '█' {
        Some(Ink::Solid)
    } else if c == '╔' || c == '╗' || c == '╚' || c == '╝' || c == '║' || c == '═' {
        Some(Ink::Edge)
    } else {
        None
    }
}

fn ink_for(c: char) -> (r: Option<Ink>)
    ensures
        r == ink_of(c),
{
    if c == '█' {
        Some(Ink::Solid)
    } else if c == '╔' || c == '╗' || c == '╚' || c == '╝' || c == '║' || c == '═' {
        Some(Ink::Edge)
    } else {
        None
    }
}

/// How the digit strip is scaled into the buffer, as measured with the
/// zoom factor: the scaled height and width of the digits (before they are
/// fitted to the buffer), and for each output row and column the strip row
/// and column it samples (before they are clamped to the strip).
pub struct Sampling {
    pub height: usize,
    pub width: usize,
    pub rows: Vec<usize>,
    pub cols: Vec<usize>,
}

/// `raw` limited to `1..=limit` (to 1 when `limit` is 0).
pub open spec fn fit(raw: int, limit: int) -> int {
    let m = if raw < limit { raw } else { limit };
    if m < 1 {
        1
    } else {
        m
    }
}

/// Offset that centers `used` cells in `space` (0 when it does not fit).
pub open spec fn centered(space: int, used: int) -> int {
    if space > used {
        (space - used) / 2
    } else {
        0
    }
}

/// The status line below the digits.
pub open spec fn status_line(state: CountdownState) -> Seq<char> {
    match state {
        CountdownState::Finished => "FINISHED"@,
        CountdownState::Paused => "PAUSED"@,
        CountdownState::Running => seq![],
    }
}


/// Seconds a unit letter stands for in `1h2m3s`-style durations (0 for
/// any other character).
pub open spec fn unit_secs(c: char) -> nat {
    if c == 'h' || c == 'H' {
        3600
    } else if c == 'm' || c == 'M' {
        60
    } else if c == 's' || c == 'S' {
        1
    } else {
        0
    }
}

/// Reading a `1h2m3s`-style duration: the seconds counted so far, and the
/// digits read since the last other character. Each non-digit ends the
/// number before it (an unreadable number counts as 0) and adds it times
/// the character's unit.
pub open spec fn scan_units(s: Seq<char>) -> (nat, Seq<char>)
    decreases s.len(),
{
    if s.len() == 0 {
        (0, seq![])
    } else {
        let prev = scan_units(s.drop_last());
        let c = s.last();
        if is_digit(c) {
            (prev.0, prev.1.push(c))
        } else {
            let num = match parse_u64(prev.1) {
                Some(n) => n,
                None => 0,
            };
            (prev.0 + unit_secs(c) * num, seq![])
        }
    }
}

/// The duration, in seconds, that a countdown string stands for, or the
/// message it is refused with. After trimming, a string with a colon is
/// `MM:SS` or `HH:MM:SS`; any other string is read as `1h2m3s`, where a
/// bare number counts as seconds. A duration of zero is refused.
pub open spec fn duration_secs(s: Seq<char>) -> Result<nat, Seq<char>> {
    let t = trimmed(s);
    if t.contains(':') {
        let parts = split_on(t, ':');
        if parts.len() == 2 {
            match parse_u64(parts[0]) {
                None => Err("Invalid minutes"@),
                Some(m) => match parse_u64(parts[1]) {
                    None => Err("Invalid seconds"@),
                    Some(sec) => Ok(m * 60 + sec),
                },
            }
        } else if parts.len() == 3 {
            match parse_u64(parts[0]) {
                None => Err("Invalid hours"@),
                Some(h) => match parse_u64(parts[1]) {
                    None => Err("Invalid minutes"@),
                    Some(m) => match parse_u64(parts[2]) {
                        None => Err("Invalid seconds"@),
                        Some(sec) => Ok(h * 3600 + m * 60 + sec),
                    },
                },
            }
        } else {
            Err("Invalid time format"@)
        }
    } else {
        let (counted, digits) = scan_units(t);
        let total = if digits.len() > 0 && counted == 0 {
            match parse_u64(digits) {
                Some(n) => n,
                None => 0,
            }
        } else {
            counted
        };
        if total == 0 {
            Err("Invalid duration"@)
        } else {
            Ok(total)
        }
    }
}

/// Whether reading the string stays within 64-bit seconds (otherwise the
/// arithmetic of the duration overflows).
pub open spec fn duration_fits(s: Seq<char>) -> bool {
    duration_secs(s) matches Ok(n) ==> n <= u64::MAX
}

proof fn lemma_digit_char_reads(d: nat)
    requires
        d < 10,
    ensures
        is_digit(digit_char(d)),
        digit_char(d) as u32 - '0' as u32 == d,
{
    let t = seq!['0', '1', '2', '3', '4', '5', '6', '7', '8', '9'];
    assert(t[0] == '0' && t[1] == '1' && t[2] == '2' && t[3] == '3' && t[4] == '4');
    assert(t[5] == '5' && t[6] == '6' && t[7] == '7' && t[8] == '8' && t[9] == '9');
}

proof fn lemma_decimal_reads(n: nat)
    ensures
        decimal(n).len() >= 1,
        all_digits(decimal(n)),
        digits_value(decimal(n)) == n,
    decreases n,
{
    lemma_digit_char_reads(n % 10);
    if n >= 10 {
        lemma_decimal_reads(n / 10);
        let d = decimal(n);
        assert(d.drop_last() =~= decimal(n / 10));
        assert(d.last() == digit_char(n % 10));
        assert(digits_value(d) == digits_value(d.drop_last()) * 10 + ((d.last() as u32 - '0' as u32) as nat));
        assert(digits_value(d) == (n / 10) * 10 + n % 10);
        assert forall|i: int| 0 <= i < d.len() implies is_digit(#[trigger] d[i]) by {
            if i < d.len() - 1 {
                assert(d[i] == decimal(n / 10)[i]);
            }
        }
    } else {
        lemma_digit_char_reads(n);
        let d = decimal(n);
        assert(d.drop_last() =~= Seq::<char>::empty());
        assert(d.last() == digit_char(n));
        assert(digits_value(d) == digits_value(d.drop_last()) * 10 + ((d.last() as u32 - '0' as u32) as nat));
    }
}

/// Two-digit clock fields read back as the number they show.
proof fn lemma_two_digits_reads(n: nat)
    requires
        n <= u64::MAX,
    ensures
        parse_u64(two_digits(n)) == Some(n),
        two_digits(n).len() >= 1,
        all_digits(two_digits(n)),
{
    let t = two_digits(n);
    if n < 10 {
        lemma_digit_char_reads(n);
        lemma_digit_char_reads(0);
        assert(t.drop_last() =~= seq!['0']);
        assert(seq!['0'].drop_last() =~= Seq::<char>::empty());
        assert(seq!['0'].last() == '0');
        assert(digits_value(seq!['0']) == digits_value(Seq::<char>::empty()) * 10 + (('0' as u32 - '0' as u32) as nat));
        assert(digits_value(seq!['0']) == 0);
        assert(all_digits(t)) by {
            assert forall|i: int| 0 <= i < t.len() implies is_digit(#[trigger] t[i]) by {
            }
        }
    } else {
        lemma_decimal_reads(n);
    }
    assert(is_digit(t[0]));
}

/// A clock field holds no colon and no white space.
proof fn lemma_digits_are_plain(t: Seq<char>)
    requires
        all_digits(t),
    ensures
        !t.contains(':'),
        forall|i: int| 0 <= i < t.len() ==> !is_space(#[trigger] t[i]),
{
    if t.contains(':') {
        let i = choose|i: int| 0 <= i < t.len() && t[i] == ':';
        assert(is_digit(t[i]));
    }
    assert forall|i: int| 0 <= i < t.len() implies !is_space(#[trigger] t[i]) by {
        assert(is_digit(t[i]));
    }
}

/// The clock a timer shows reads back, as a countdown duration, as the
/// number of seconds it shows.
pub proof fn lemma_clock_text_reads_back(secs: nat)
    requires
        secs <= u64::MAX,
    ensures
        duration_secs(clock_text(secs)) == Ok::<nat, Seq<char>>(secs),
{
    let hours = secs / 3600;
    let mins = (secs % 3600) / 60;
    let rest = secs % 60;
    assert(secs == hours * 3600 + mins * 60 + rest) by (nonlinear_arith)
        requires
            hours == secs / 3600,
            mins == (secs % 3600) / 60,
            rest == secs % 60,
    {
        assert(secs == hours * 3600 + secs % 3600);
        assert(secs % 3600 == mins * 60 + (secs % 3600) % 60);
        assert((secs % 3600) % 60 == secs % 60);
    }
    lemma_two_digits_reads(hours);
    lemma_two_digits_reads(mins);
    lemma_two_digits_reads(rest);
    let h = two_digits(hours);
    let m = two_digits(mins);
    let r = two_digits(rest);
    lemma_digits_are_plain(h);
    lemma_digits_are_plain(m);
    lemma_digits_are_plain(r);
    lemma_split_without_separator(h, ':');
    lemma_split_without_separator(m, ':');
    lemma_split_without_separator(r, ':');
    let t = clock_text(secs);
    if hours > 0 {
        let front = h + seq![':'] + m;
        assert(t == front + seq![':'] + r);
        lemma_split_concat(h, m, ':');
        lemma_split_concat(front, r, ':');
        assert(split_on(t, ':') =~= seq![h, m, r]);
        assert(t[h.len() as int] == ':');
        assert(t[0] == h[0]);
        assert(t.last() == r.last()) by {
            assert(t[t.len() - 1] == r[r.len() - 1]);
        }
    } else {
        assert(t == m + seq![':'] + r);
        lemma_split_concat(m, r, ':');
        assert(split_on(t, ':') =~= seq![m, r]);
        assert(t[m.len() as int] == ':');
        assert(t[0] == m[0]);
        assert(t.last() == r.last()) by {
            assert(t[t.len() - 1] == r[r.len() - 1]);
        }
    }
    assert(t.contains(':'));
    assert(trimmed(t) == t) by {
        assert(!is_space(t[0]));
        assert(trim_start(t) == t);
        assert(!is_space(t.last()));
    }
}

proof fn lemma_scan_grows(s: Seq<char>, i: int, j: int)
    requires
        0 <= i <= j <= s.len(),
    ensures
        scan_units(s.take(i)).0 <= scan_units(s.take(j)).0,
    decreases j - i,
{
    if i < j {
        lemma_scan_grows(s, i, j - 1);
        assert(s.take(j).drop_last() =~= s.take(j - 1));
    }
}

/// Read a `1h2m3s`-style duration; `None` when the count passes 64 bits.
fn scan_duration(t: &[char]) -> (r: Option<(u64, Vec<char>)>)
    ensures
        r is None <==> scan_units(t@).0 > u64::MAX,
        r matches Some(p) ==> p.0 == scan_units(t@).0 && p.1@ == scan_units(t@).1,
{
    let mut total: u64 = 0;
    let mut digits: Vec<char> = Vec::new();
    let mut i: usize = 0;
    while i < t.len()
        invariant
            i <= t@.len(),
            total == scan_units(t@.take(i as int)).0,
            digits@ == scan_units(t@.take(i as int)).1,
        decreases t@.len() - i,
    {
        let c = t[i];
        let ghost prefix = t@.take(i + 1);
        assert(prefix.drop_last() =~= t@.take(i as int));
        assert(prefix.last() == c);
        if '0' <= c && c <= '9' {
            digits.push(c);
        } else {
            let num = match parse_decimal(digits.as_slice()) {
                Some(n) => n,
                None => 0,
            };
            let unit: u64 = if c == 'h' || c == 'H' {
                3600
            } else if c == 'm' || c == 'M' {
                60
            } else if c == 's' || c == 'S' {
                1
            } else {
                0
            };
            let next = match num.checked_mul(unit) {
                Some(added) => total.checked_add(added),
                None => None,
            };
            match next {
                Some(n) => {
                    total = n;
                },
                None => {
                    proof {
                        assert(scan_units(prefix).0 > u64::MAX) by (nonlinear_arith)
                            requires
                                scan_units(prefix).0 == total + unit * num,
                                total + unit * num > u64::MAX || unit * num > u64::MAX,
                                total >= 0,
                        ;
                        lemma_scan_grows(t@, i + 1, t@.len() as int);
                        assert(t@.take(t@.len() as int) =~= t@);
                    }
                    return None;
                },
            }
            digits = Vec::new();
        }
        i = i + 1;
    }
    assert(t@.take(t@.len() as int) =~= t@);
    Some((total, digits))
}

/// Find the duration a countdown string stands for, with 64-bit seconds;
/// `None` when it does not fit.
fn read_duration(s: &str) -> (r: Option<Result<u64, String>>)
    ensures
        r is None <==> !duration_fits(s@),
        r matches Some(Ok(n)) ==> duration_secs(s@) == Ok::<nat, Seq<char>>(n as nat),
        r matches Some(Err(e)) ==> duration_secs(s@) == Err::<nat, Seq<char>>(e@),
{
    let chars = chars_of(s);
    let t = trim(chars.as_slice());
    let mut has_colon = false;
    let mut i: usize = 0;
    while i < t.len()
        invariant
            i <= t@.len(),
            has_colon == t@.take(i as int).contains(':'),
        decreases t@.len() - i,
    {
        let ghost before = t@.take(i as int);
        assert(t@.take(i + 1) =~= before.push(t@[i as int]));
        if t[i] == ':' {
            has_colon = true;
            assert(before.push(t@[i as int])[i as int] == ':');
        } else if has_colon {
            let ghost k = choose|k: int| 0 <= k < before.len() && before[k] == ':';
            assert(before.push(t@[i as int])[k] == ':');
        } else {
            assert forall|k: int| 0 <= k < before.len() + 1 implies before.push(t@[i as int])[k] != ':' by {
                if k < before.len() {
                    assert(before[k] != ':');
                }
            }
        }
        i = i + 1;
    }
    assert(t@.take(t@.len() as int) =~= t@);
    if has_colon {
        let parts = split_at_char(t.as_slice(), ':');
        if parts.len() == 2 {
            let m = match parse_decimal(parts[0].as_slice()) {
                None => return Some(Err("Invalid minutes".to_owned())),
                Some(m) => m,
            };
            let sec = match parse_decimal(parts[1].as_slice()) {
                None => return Some(Err("Invalid seconds".to_owned())),
                Some(sec) => sec,
            };
            let total: u128 = (m as u128) * 60 + (sec as u128);
            if total > u64::MAX as u128 {
                None
            } else {
                Some(Ok(total as u64))
            }
        } else if parts.len() == 3 {
            let h = match parse_decimal(parts[0].as_slice()) {
                None => return Some(Err("Invalid hours".to_owned())),
                Some(h) => h,
            };
            let m = match parse_decimal(parts[1].as_slice()) {
                None => return Some(Err("Invalid minutes".to_owned())),
                Some(m) => m,
            };
            let sec = match parse_decimal(parts[2].as_slice()) {
                None => return Some(Err("Invalid seconds".to_owned())),
                Some(sec) => sec,
            };
            let total: u128 = (h as u128) * 3600 + (m as u128) * 60 + (sec as u128);
            if total > u64::MAX as u128 {
                None
            } else {
                Some(Ok(total as u64))
            }
        } else {
            Some(Err("Invalid time format".to_owned()))
        }
    } else {
        match scan_duration(t.as_slice()) {
            None => None,
            Some((counted, digits)) => {
                let total = if digits.len() > 0 && counted == 0 {
                    match parse_decimal(digits.as_slice()) {
                        Some(n) => n,
                        None => 0,
                    }
                } else {
                    counted
                };
                if total == 0 {
                    Some(Err("Invalid duration".to_owned()))
                } else {
                    Some(Ok(total))
                }
            },
        }
    }
}

/// A countdown timer that renders as large ASCII digits
pub struct Countdown {
    /// Total duration to count down from
    total: TimeSpan,
    /// Time remaining
    remaining: TimeSpan,
    /// Current state
    state: CountdownState,
    /// Optional title to display below the timer
    pub title: Option<String>,
    /// Whether the colon shows (it blinks while paused)
    blink: bool,
    blink_elapsed: TimeSpan,
}

impl Countdown {
    /// Length of the full countdown, in nanoseconds.
    pub closed spec fn total_time(&self) -> nat {
        self.total@
    }

    /// Time left, in nanoseconds.
    pub closed spec fn time_left(&self) -> nat {
        self.remaining@
    }

    /// The title shown below the timer.
    pub closed spec fn spec_title(&self) -> Option<String> {
        self.title
    }

    pub closed spec fn spec_state(&self) -> CountdownState {
        self.state
    }

    /// Whether the colon is shown in the current half-second.
    pub closed spec fn colon_shown(&self) -> bool {
        self.blink
    }

    /// Time since the colon last changed, in nanoseconds.
    pub closed spec fn blink_time(&self) -> nat {
        self.blink_elapsed@
    }

    /// Well-formed: the time left never exceeds the total, the blink clock
    /// stays within one half-second period, and a finished timer has no
    /// time left.
    pub closed spec fn wf(&self) -> bool {
        &&& self.remaining@ <= self.total@
        &&& self.blink_elapsed@ < blink_period()
        &&& self.state == CountdownState::Finished ==> self.remaining@ == 0
    }

    /// The text the timer shows now.
    pub closed spec fn shown(&self) -> Seq<char> {
        shown_text(
            clock_text(self.remaining@ / 1_000_000_000),
            self.state == CountdownState::Paused && !self.blink,
        )
    }

    /// The title's length in bytes, which centers it.
    pub closed spec fn title_bytes(&self) -> nat {
        match self.title {
            Some(t) => (vstd::utf8::encode_utf8(t@).len() as usize) as nat,
            None => 0,
        }
    }

    /// What the timer draws at cell `(x, y)` of a `w` x `h` buffer: the
    /// digits, scaled by `s` and centered (leaving two rows for a title), the
    /// title centered one row below them, and while paused or finished the
    /// status line one row below that (or below the digits when there is no
    /// title). Buffers narrower than three cells stay empty.
    pub open spec fn drawn_cell(&self, w: int, h: int, s: &Sampling, x: int, y: int) -> Option<Ink> {
        let text = self.shown();
        let tw = strip_width(text) as int;
        let sh = fit(s.height as int, h);
        let sw = fit(s.width as int, w);
        let title_lines: int = if self.spec_title() is Some { 2 } else { 0 };
        let oy = centered(h, sh + title_lines);
        let ox = centered(w, sw);
        if w < 3 || h < 1 || tw == 0 {
            None
        } else if oy <= y < oy + sh && ox <= x < ox + sw {
            let sr = if s.rows@[y - oy] < 6 { s.rows@[y - oy] as int } else { 6 };
            let sc = if s.cols@[x - ox] < tw - 1 { s.cols@[x - ox] as int } else { tw - 1 };
            if sc < strip_row(text, sr).len() {
                ink_of(strip_row(text, sr)[sc])
            } else {
                None
            }
        } else if self.spec_title() is Some && y == oy + sh + 1 {
            let t = self.spec_title()->0@;
            let tx = centered(w, self.title_bytes() as int);
            if tx <= x < tx + t.len() && !is_space(t[x - tx]) {
                Some(Ink::Title)
            } else {
                None
            }
        } else if self.spec_state() != CountdownState::Running && y == oy + sh + title_lines + 1 {
            let st = status_line(self.spec_state());
            let sx = centered(w, st.len() as int);
            if sx <= x < sx + st.len() {
                Some(Ink::Status)
            } else {
                None
            }
        } else {
            None
        }
    }

    /// With a sampling that maps each output row and column to the same
    /// strip row and column, the digit area shows the glyph strip as it
    /// is: row `r` of the area (from its top) holds row `r` of the digit
    /// font, in font order, and column `col` holds strip column `col`.
    pub proof fn lemma_digits_drawn_in_font_order(self, w: int, h: int, s: Sampling, r: int, col: int)
        requires
            w >= 3,
            h >= 1,
            strip_width(self.shown()) > 0,
            0 <= r < 7,
            0 <= col < strip_width(self.shown()),
            r < fit(s.height as int, h),
            col < fit(s.width as int, w),
            r < s.rows@.len(),
            col < s.cols@.len(),
            s.rows@[r] == r,
            s.cols@[col] == col,
            col < strip_row(self.shown(), r).len(),
        ensures
            ({
                let sh = fit(s.height as int, h);
                let sw = fit(s.width as int, w);
                let title_lines: int = if self.spec_title() is Some { 2 } else { 0 };
                let oy = centered(h, sh + title_lines);
                let ox = centered(w, sw);
                self.drawn_cell(w, h, &s, ox + col, oy + r) == ink_of(strip_row(self.shown(), r)[col])
            }),
    {
    }

    /// Format remaining time as text
    fn format_time(&self) -> (r: Vec<char>)
        ensures
            r@ == clock_text(self.time_left() / 1_000_000_000),
            r@.len() <= 30,
    {
        let total_secs = self.remaining.as_secs();
        let hours = total_secs / 3600;
        let mins = (total_secs % 3600) / 60;
        let secs = total_secs % 60;
        let mut out: Vec<char> = Vec::new();
        proof {
            reveal_with_fuel(pow10, 21);
            assert(pow10(20) == 100_000_000_000_000_000_000nat);
            lemma_decimal_len(hours as nat, 20);
            lemma_decimal_len(mins as nat, 20);
            lemma_decimal_len(secs as nat, 20);
            assert(mins < 60 && secs < 60);
            lemma_decimal_len(mins as nat, 2);
            lemma_decimal_len(secs as nat, 2);
        }
        if hours > 0 {
            push_two_digits(&mut out, hours);
            out.push(':');
            push_two_digits(&mut out, mins);
            out.push(':');
            push_two_digits(&mut out, secs);
        } else {
            push_two_digits(&mut out, mins);
            out.push(':');
            push_two_digits(&mut out, secs);
        }
        out
    }

    /// The text the timer shows now: the remaining time, with the colons
    /// blanked in the hidden half-seconds while paused.
    pub fn shown_text(&self) -> (r: Vec<char>)
        ensures
            r@ == self.shown(),
            r@.len() <= 30,
    {
        let clock = self.format_time();
        let blank = self.state == CountdownState::Paused && !self.blink;
        let mut out: Vec<char> = Vec::new();
        let mut i: usize = 0;
        while i < clock.len()
            invariant
                i <= clock@.len(),
                clock@ == clock_text(self.remaining@ / 1_000_000_000),
                clock@.len() <= 30,
                blank == (self.state == CountdownState::Paused && !self.blink),
                out@ == shown_text(clock@.take(i as int), blank),
            decreases clock@.len() - i,
        {
            let c = clock[i];
            out.push(if blank && c == ':' { ' ' } else { c });
            assert(shown_text(clock@.take(i + 1), blank) =~= shown_text(clock@.take(i as int), blank).push(
                if blank && c == ':' { ' ' } else { c },
            ));
            i = i + 1;
        }
        assert(clock@.take(clock@.len() as int) =~= clock@);
        out
    }

    /// The shown text drawn in the digit font at full size; its width is
    /// what the digits are scaled from.
    pub fn strip(&self) -> (r: GlyphStrip)
        ensures
            r.draws(self.shown()),
    {
        let text = self.shown_text();
        glyph_strip(text.as_slice())
    }

    /// Draw the timer into a `w` x `h` grid of cells (row by row), given how
    /// its digits are scaled: each cell holds the ink drawn there, if any.
    pub fn render_cells(&self, w: usize, h: usize, s: &Sampling) -> (grid: Vec<Vec<Option<Ink>>>)
        requires
            w <= 65535,
            h <= 65535,
            s.rows@.len() >= h,
            s.cols@.len() >= w,
        ensures
            grid@.len() == h,
            forall|y: int| 0 <= y < h ==> (#[trigger] grid@[y])@.len() == w,
            forall|y: int, x: int|
                0 <= y < h && 0 <= x < w ==> #[trigger] grid@[y]@[x] == self.drawn_cell(
                    w as int,
                    h as int,
                    s,
                    x,
                    y,
                ),
    {
        let text = self.shown_text();
        let strip = glyph_strip(text.as_slice());
        let tw = strip.width;
        let sh_raw = if s.height < h { s.height } else { h };
        let sh = if sh_raw < 1 { 1 } else { sh_raw };
        let sw_raw = if s.width < w { s.width } else { w };
        let sw = if sw_raw < 1 { 1 } else { sw_raw };
        let title_lines: usize = if self.title.is_some() { 2 } else { 0 };
        let oy = if h > sh + title_lines { (h - (sh + title_lines)) / 2 } else { 0 };
        let ox = if w > sw { (w - sw) / 2 } else { 0 };
        let (title_chars, title_bytes) = match &self.title {
            Some(t) => (chars_of(t.as_str()), t.as_str().len()),
            None => (Vec::new(), 0),
        };
        let tx = if w > title_bytes { (w - title_bytes) / 2 } else { 0 };
        let status_len: usize = match self.state {
            CountdownState::Finished => 8,
            CountdownState::Paused => 6,
            CountdownState::Running => 0,
        };
        proof {
            reveal_strlit("FINISHED");
            reveal_strlit("PAUSED");
        }
        let sx = if w > status_len { (w - status_len) / 2 } else { 0 };
        let ghost t = self.shown();
        assert(strip.draws(t));

        let mut grid: Vec<Vec<Option<Ink>>> = Vec::new();
        let mut y: usize = 0;
        while y < h
            invariant
                y <= h,
                h <= 65535,
                w <= 65535,
                s.rows@.len() >= h,
                s.cols@.len() >= w,
                strip.draws(t),
                t == self.shown(),
                tw == strip_width(t),
                sh == fit(s.height as int, h as int),
                sw == fit(s.width as int, w as int),
                title_lines == (if self.spec_title() is Some { 2int } else { 0int }),
                oy == centered(h as int, sh + title_lines),
                ox == centered(w as int, sw as int),
                self.spec_title() matches Some(tt) ==> title_chars@ == tt@ && title_bytes == self.title_bytes(),
                tx == centered(w as int, title_bytes as int),
                status_len == status_line(self.spec_state()).len(),
                sx == centered(w as int, status_len as int),
                grid@.len() == y,
                forall|yy: int| 0 <= yy < y ==> (#[trigger] grid@[yy])@.len() == w,
                forall|yy: int, x: int|
                    0 <= yy < y && 0 <= x < w ==> #[trigger] grid@[yy]@[x] == self.drawn_cell(
                        w as int,
                        h as int,
                        s,
                        x,
                        yy,
                    ),
            decreases h - y,
        {
            let mut line: Vec<Option<Ink>> = Vec::new();
            let mut x: usize = 0;
            while x < w
                invariant
                    x <= w,
                    y < h,
                    h <= 65535,
                    w <= 65535,
                    s.rows@.len() >= h,
                    s.cols@.len() >= w,
                    strip.draws(t),
                    t == self.shown(),
                    tw == strip_width(t),
                    sh == fit(s.height as int, h as int),
                    sw == fit(s.width as int, w as int),
                    title_lines == (if self.spec_title() is Some { 2int } else { 0int }),
                    oy == centered(h as int, sh + title_lines),
                    ox == centered(w as int, sw as int),
                    self.spec_title() matches Some(tt) ==> title_chars@ == tt@ && title_bytes == self.title_bytes(),
                    tx == centered(w as int, title_bytes as int),
                    status_len == status_line(self.spec_state()).len(),
                    sx == centered(w as int, status_len as int),
                    line@.len() == x,
                    forall|xx: int|
                        0 <= xx < x ==> #[trigger] line@[xx] == self.drawn_cell(
                            w as int,
                            h as int,
                            s,
                            xx,
                            y as int,
                        ),
                decreases w - x,
            {
                let cell = if w < 3 || h < 1 || tw == 0 {
                    None
                } else if oy <= y && y < oy + sh && ox <= x && x < ox + sw {
                    let r = s.rows[y - oy];
                    let sr = if r < 6 { r } else { 6 };
                    let c = s.cols[x - ox];
                    let sc = if c < tw - 1 { c } else { tw - 1 };
                    if sc < strip.rows[sr].len() {
                        ink_for(strip.rows[sr][sc])
                    } else {
                        None
                    }
                } else if self.title.is_some() && y == oy + sh + 1 {
                    if tx <= x && x - tx < title_chars.len() && !is_whitespace(title_chars[x - tx]) {
                        Some(Ink::Title)
                    } else {
                        None
                    }
                } else if self.state != CountdownState::Running && y == oy + sh + title_lines + 1 {
                    if sx <= x && x < sx + status_len {
                        Some(Ink::Status)
                    } else {
                        None
                    }
                } else {
                    None
                };
                line.push(cell);
                x = x + 1;
            }
            grid.push(line);
            y = y + 1;
        }
        grid
    }

    /// `self` is a freshly made, running timer of `secs` seconds.
    pub open spec fn fresh(&self, secs: nat) -> bool {
        &&& self.wf()
        &&& self.total_time() == secs * 1_000_000_000
        &&& self.time_left() == self.total_time()
        &&& self.spec_state() == CountdownState::Running
        &&& self.spec_title() is None
        &&& self.colon_shown()
        &&& self.blink_time() == 0
    }

    /// Whether `parse` can read the string without its seconds overflowing
    /// 64 bits (reading such a string is arithmetic overflow).
    pub fn fits(s: &str) -> (r: bool)
        ensures
            r == duration_fits(s@),
    {
        read_duration(s).is_some()
    }

    /// Parse a duration string like "1h2m3s", "5m", "30s", "90", "1:30" or
    /// "1:30:00" into a running timer.
    pub fn parse(s: &str) -> (r: Result<Self, String>)
        requires
            duration_fits(s@),
        ensures
            duration_secs(s@) matches Ok(n) ==> (r matches Ok(c) && c.fresh(n)),
            duration_secs(s@) matches Err(msg) ==> (r matches Err(e) && e@ == msg),
    {
        match read_duration(s) {
            Some(Ok(n)) => Ok(Self::from_secs(n)),
            Some(Err(e)) => Err(e),
            None => Err("Invalid duration".to_owned()),
        }
    }

    /// Create a new, running countdown timer
    pub fn new(duration: TimeSpan) -> (r: Self)
        ensures
            r.wf(),
            r.total_time() == duration@,
            r.time_left() == duration@,
            r.spec_state() == CountdownState::Running,
            r.spec_title() is None,
            r.colon_shown(),
            r.blink_time() == 0,
    {
        Countdown {
            total: duration,
            remaining: duration,
            state: CountdownState::Running,
            title: None,
            blink: true,
            blink_elapsed: TimeSpan::zero(),
        }
    }

    /// Create from hours, minutes, seconds
    pub fn from_hms(hours: u64, minutes: u64, seconds: u64) -> (r: Self)
        requires
            hours * 3600 + minutes * 60 + seconds <= u64::MAX,
        ensures
            r.wf(),
            r.total_time() == (hours * 3600 + minutes * 60 + seconds) * 1_000_000_000,
            r.time_left() == r.total_time(),
            r.spec_state() == CountdownState::Running,
            r.spec_title() is None,
            r.colon_shown(),
            r.blink_time() == 0,
    {
        Self::new(TimeSpan::from_secs(hours * 3600 + minutes * 60 + seconds))
    }

    /// Create from minutes and seconds
    pub fn from_ms(minutes: u64, seconds: u64) -> (r: Self)
        requires
            minutes * 60 + seconds <= u64::MAX,
        ensures
            r.wf(),
            r.total_time() == (minutes * 60 + seconds) * 1_000_000_000,
            r.time_left() == r.total_time(),
            r.spec_state() == CountdownState::Running,
            r.spec_title() is None,
            r.colon_shown(),
            r.blink_time() == 0,
    {
        Self::from_hms(0, minutes, seconds)
    }

    /// Create from seconds only
    pub fn from_secs(seconds: u64) -> (r: Self)
        ensures
            r.wf(),
            r.total_time() == seconds * 1_000_000_000,
            r.time_left() == r.total_time(),
            r.spec_state() == CountdownState::Running,
            r.spec_title() is None,
            r.colon_shown(),
            r.blink_time() == 0,
    {
        Self::new(TimeSpan::from_secs(seconds))
    }

    /// Set a title to display below the timer
    pub fn with_title(self, title: &str) -> (r: Self)
        ensures
            r.spec_title() matches Some(t) && t@ == title@,
            r.total_time() == self.total_time(),
            r.time_left() == self.time_left(),
            r.spec_state() == self.spec_state(),
            r.colon_shown() == self.colon_shown(),
            r.blink_time() == self.blink_time(),
            r.wf() == self.wf(),
    {
        let mut c = self;
        c.title = Some(title.to_owned());
        c
    }

    /// Start or resume the timer (a finished timer stays finished)
    pub fn start(&mut self)
        ensures
            final(self).spec_state() == (if old(self).spec_state() == CountdownState::Finished {
                CountdownState::Finished
            } else {
                CountdownState::Running
            }),
            final(self).total_time() == old(self).total_time(),
            final(self).time_left() == old(self).time_left(),
            final(self).spec_title() == old(self).spec_title(),
            final(self).colon_shown() == old(self).colon_shown(),
            final(self).blink_time() == old(self).blink_time(),
            old(self).wf() ==> final(self).wf(),
    {
        if self.state != CountdownState::Finished {
            self.state = CountdownState::Running;
        }
    }

    /// Pause the timer (only a running timer pauses)
    pub fn pause(&mut self)
        ensures
            final(self).spec_state() == (if old(self).spec_state() == CountdownState::Running {
                CountdownState::Paused
            } else {
                old(self).spec_state()
            }),
            final(self).total_time() == old(self).total_time(),
            final(self).time_left() == old(self).time_left(),
            final(self).spec_title() == old(self).spec_title(),
            final(self).colon_shown() == old(self).colon_shown(),
            final(self).blink_time() == old(self).blink_time(),
            old(self).wf() ==> final(self).wf(),
    {
        if self.state == CountdownState::Running {
            self.state = CountdownState::Paused;
        }
    }

    /// Toggle pause/resume
    pub fn toggle_pause(&mut self)
        ensures
            final(self).spec_state() == toggled(old(self).spec_state()),
            final(self).total_time() == old(self).total_time(),
            final(self).time_left() == old(self).time_left(),
            final(self).spec_title() == old(self).spec_title(),
            final(self).colon_shown() == old(self).colon_shown(),
            final(self).blink_time() == old(self).blink_time(),
            old(self).wf() ==> final(self).wf(),
    {
        match self.state {
            CountdownState::Running => self.pause(),
            CountdownState::Paused => self.start(),
            CountdownState::Finished => {},
        }
    }

    /// Reset to the initial duration and run
    pub fn reset(&mut self)
        ensures
            final(self).spec_state() == CountdownState::Running,
            final(self).time_left() == old(self).total_time(),
            final(self).total_time() == old(self).total_time(),
            final(self).spec_title() == old(self).spec_title(),
            final(self).colon_shown() == old(self).colon_shown(),
            final(self).blink_time() == old(self).blink_time(),
            old(self).wf() ==> final(self).wf(),
    {
        self.remaining = self.total;
        self.state = CountdownState::Running;
    }

    /// Get current state
    pub fn state(&self) -> (r: CountdownState)
        ensures
            r == self.spec_state(),
    {
        self.state
    }

    /// Check if finished
    pub fn is_finished(&self) -> (r: bool)
        ensures
            r == (self.spec_state() == CountdownState::Finished),
    {
        self.state == CountdownState::Finished
    }

    /// Get remaining time
    pub fn remaining(&self) -> (r: TimeSpan)
        ensures
            r@ == self.time_left(),
    {
        self.remaining
    }

    /// Whether `update` can let `elapsed` pass without the blink clock
    /// overflowing.
    pub fn can_advance(&self, elapsed: &TimeSpan) -> (r: bool)
        ensures
            r == (self.blink_time() + elapsed@ < span_limit()),
    {
        self.blink_elapsed.checked_add(elapsed).is_some()
    }

    /// Let `elapsed` pass (call each frame): the colon's blink clock
    /// advances and flips the colon every half second, and a running timer
    /// counts down, finishing when its time runs out.
    pub fn update(&mut self, elapsed: TimeSpan)
        requires
            old(self).wf(),
            old(self).blink_time() + elapsed@ < span_limit(),
        ensures
            final(self).wf(),
            (final(self).spec_state(), final(self).time_left()) == tick(
                old(self).spec_state(),
                old(self).time_left(),
                elapsed@,
            ),
            old(self).blink_time() + elapsed@ >= blink_period() ==> final(self).blink_time() == 0
                && final(self).colon_shown() == !old(self).colon_shown(),
            old(self).blink_time() + elapsed@ < blink_period() ==> final(self).blink_time()
                == old(self).blink_time() + elapsed@ && final(self).colon_shown() == old(
                self,
            ).colon_shown(),
            final(self).total_time() == old(self).total_time(),
            final(self).spec_title() == old(self).spec_title(),
    {
        let blink_elapsed = match self.blink_elapsed.checked_add(&elapsed) {
            Some(t) => t,
            None => TimeSpan::zero(),
        };
        if !blink_elapsed.shorter_than(&TimeSpan::from_millis(500)) {
            self.blink_elapsed = TimeSpan::zero();
            self.blink = !self.blink;
        } else {
            self.blink_elapsed = blink_elapsed;
        }

        if self.state != CountdownState::Running {
            return;
        }

        if elapsed.shorter_than(&self.remaining) {
            self.remaining = self.remaining.minus(&elapsed);
        } else {
            self.remaining = TimeSpan::zero();
            self.state = CountdownState::Finished;
        }
    }
}

} // verus!
