//! The status bar drawn above a card: a green run growing from the left for the
//! cards remembered, a red run growing from the right for the cards forgotten,
//! and a centred label `remembered/total` laid over both.
//!
//! The bar is described column by column ([`Tally::cell`]); the renderer builds it
//! run by run and is proved to produce exactly that description.

use vstd::prelude::*;

verus! {

/// A colour of the status bar.
#[derive(Clone, Copy, Debug, PartialEq, Eq, Structural)]
pub enum Paint {
    Plain,
    Green,
    Red,
}

/// One terminal cell: a character, the colour it is drawn in and the colour behind it.
#[derive(Clone, Copy, Debug, PartialEq, Eq, Structural)]
pub struct Cell {
    pub glyph: char,
    pub ink: Paint,
    pub ground: Paint,
}

/// An empty cell.
pub const BLANK: char = ' ';

/// A cell filled completely.
pub const FULL_BLOCK: char = '\u{2588}';

/// The glyph for a cell filled from its left edge by `eighths` eighths of its width.
pub open spec fn rising_glyph(eighths: nat) -> char {
    if eighths == 1 {
        '\u{258F}'
    } else if eighths == 2 {
        '\u{258E}'
    } else if eighths == 3 {
        '\u{258D}'
    } else if eighths == 4 {
        '\u{258C}'
    } else if eighths == 5 {
        '\u{258B}'
    } else if eighths == 6 {
        '\u{258A}'
    } else if eighths == 7 {
        '\u{2589}'
    } else {
        BLANK
    }
}

/// The glyph for a cell filled from its right edge by `eighths` eighths of its width.
pub open spec fn falling_glyph(eighths: nat) -> char {
    if eighths == 1 {
        '\u{2595}'
    } else if eighths == 2 {
        '\u{1FB87}'
    } else if eighths == 3 {
        '\u{1FB88}'
    } else if eighths == 4 {
        '\u{2590}'
    } else if eighths == 5 {
        '\u{1FB89}'
    } else if eighths == 6 {
        '\u{1FB8A}'
    } else if eighths == 7 {
        '\u{1FB8B}'
    } else {
        BLANK
    }
}

/// The decimal digit `d`, for `d` below ten.
pub open spec fn digit(d: nat) -> char {
    if d == 0 {
        '0'
    } else if d == 1 {
        '1'
    } else if d == 2 {
        '2'
    } else if d == 3 {
        '3'
    } else if d == 4 {
        '4'
    } else if d == 5 {
        '5'
    } else if d == 6 {
        '6'
    } else if d == 7 {
        '7'
    } else if d == 8 {
        '8'
    } else {
        '9'
    }
}

/// `n` written in decimal, most significant digit first, without leading zeros.
pub open spec fn decimal(n: nat) -> Seq<char>
    decreases n,
{
    if n < 10 {
        seq![digit(n)]
    } else {
        decimal(n / 10).push(digit(n % 10))
    }
}

/// The counts of a session and the width of the terminal, as the bar sees them.
pub struct Tally {
    pub remembered: nat,
    pub forgotten: nat,
    pub incomplete: nat,
    pub columns: nat,
}

impl Tally {
    /// Every card counted once for each way it was answered, plus those still waiting.
    pub open spec fn total(self) -> nat {
        self.remembered + self.forgotten + self.incomplete
    }

    /// The whole cells of a run that stands for `count` cards: the floor of
    /// `columns * count / total`.
    pub open spec fn whole(self, count: nat) -> nat {
        (self.columns * count) / self.total()
    }

    /// What is left of `columns * count / total` above its floor, in eighths of a
    /// cell, rounded down.
    pub open spec fn eighths(self, count: nat) -> nat {
        (((self.columns * count) % self.total()) * 8) / self.total()
    }

    /// `columns * count / total` rounded to the nearest cell, halves upwards.
    pub open spec fn reach(self, count: nat) -> nat {
        if 2 * ((self.columns * count) % self.total()) >= self.total() {
            self.whole(count) + 1
        } else {
            self.whole(count)
        }
    }

    /// The text in the middle of the bar.
    pub open spec fn label(self) -> Seq<char> {
        decimal(self.remembered) + seq!['/'] + decimal(self.total())
    }

    /// Whether a bar can be drawn: there is a card, and the label has room.
    pub open spec fn fits(self) -> bool {
        self.total() > 0 && self.label().len() <= self.columns
    }

    /// The first column of the label: it is centred, and where the room left over
    /// is odd the extra column stands to its left.
    pub open spec fn label_start(self) -> nat {
        ((self.columns - self.label().len() + 1) / 2) as nat
    }

    /// The column after the last one of the label.
    pub open spec fn label_end(self) -> nat {
        self.label_start() + self.label().len()
    }

    /// Whether the two runs meet: then red fills everything to the right of the
    /// green boundary, with no gap and no red boundary cell.
    pub open spec fn crowded(self) -> bool {
        self.whole(self.remembered) + self.whole(self.forgotten) + 1 >= self.columns
    }

    /// The first column that counts as red under the label.
    pub open spec fn red_from(self) -> int {
        self.columns - self.reach(self.forgotten)
    }

    /// Column `i` of the bar where the label does not cover it.
    pub open spec fn track_cell(self, i: int) -> Cell {
        let green = self.whole(self.remembered);
        let red = self.whole(self.forgotten);
        if i < green {
            Cell { glyph: FULL_BLOCK, ink: Paint::Green, ground: Paint::Plain }
        } else if i == green {
            Cell {
                glyph: rising_glyph(self.eighths(self.remembered)),
                ink: Paint::Green,
                ground: if self.crowded() {
                    Paint::Red
                } else {
                    Paint::Plain
                },
            }
        } else if self.crowded() || i >= self.columns - red {
            Cell { glyph: FULL_BLOCK, ink: Paint::Red, ground: Paint::Plain }
        } else if i == self.columns - red - 1 {
            Cell {
                glyph: falling_glyph(self.eighths(self.forgotten)),
                ink: Paint::Red,
                ground: Paint::Plain,
            }
        } else {
            Cell { glyph: BLANK, ink: Paint::Plain, ground: Paint::Plain }
        }
    }

    /// The colour behind the label's character in column `i`: green as far as the
    /// green run reaches, red from where the red run starts, nothing in between.
    pub open spec fn label_ground(self, i: int) -> Paint {
        if i < self.reach(self.remembered) {
            Paint::Green
        } else if self.crowded() || i >= self.red_from() {
            Paint::Red
        } else {
            Paint::Plain
        }
    }

    /// Column `i` of the bar.
    pub open spec fn cell(self, i: int) -> Cell {
        if self.label_start() <= i < self.label_end() {
            self.letter(i, self.label_ground(i))
        } else {
            self.track_cell(i)
        }
    }

    /// The whole bar: one cell for each column.
    pub open spec fn cells(self) -> Seq<Cell> {
        Seq::new(self.columns, |i: int| self.cell(i))
    }
}

/// The bar has one cell for each column of the terminal, whatever the counts.
pub proof fn lemma_one_cell_per_column(t: Tally)
    ensures
        t.cells().len() == t.columns,
{
}

/// The two runs together are no longer than the bar.
pub proof fn lemma_runs_fit(t: Tally)
    requires
        t.total() > 0,
    ensures
        t.whole(t.remembered) + t.whole(t.forgotten) <= t.columns,
{
    let c = t.columns as int;
    let a = t.remembered as int;
    let b = t.forgotten as int;
    let d = t.total() as int;
    assert((c * a) / d + (c * b) / d <= c) by (nonlinear_arith)
        requires
            0 <= a,
            0 <= b,
            a + b <= d,
            0 < d,
            0 <= c,
    ;
}

/// The decimal digit `d`.
fn digit_of(d: u8) -> (glyph: char)
    requires
        d < 10,
    ensures
        glyph == digit(d as nat),
{
    if d == 0 {
        '0'
    } else if d == 1 {
        '1'
    } else if d == 2 {
        '2'
    } else if d == 3 {
        '3'
    } else if d == 4 {
        '4'
    } else if d == 5 {
        '5'
    } else if d == 6 {
        '6'
    } else if d == 7 {
        '7'
    } else if d == 8 {
        '8'
    } else {
        '9'
    }
}

/// Writes `n` in decimal.
pub fn decimal_digits(n: u128) -> (digits: Vec<char>)
    ensures
        digits@ == decimal(n as nat),
    decreases n,
{
    if n < 10 {
        let mut digits: Vec<char> = Vec::new();
        digits.push(digit_of(n as u8));
        digits
    } else {
        let mut digits = decimal_digits(n / 10);
        digits.push(digit_of((n % 10) as u8));
        digits
    }
}

/// The glyph for a cell filled from its left edge by `eighths` eighths.
fn rising(eighths: u128) -> (glyph: char)
    ensures
        glyph == rising_glyph(eighths as nat),
{
    if eighths == 1 {
        '\u{258F}'
    } else if eighths == 2 {
        '\u{258E}'
    } else if eighths == 3 {
        '\u{258D}'
    } else if eighths == 4 {
        '\u{258C}'
    } else if eighths == 5 {
        '\u{258B}'
    } else if eighths == 6 {
        '\u{258A}'
    } else if eighths == 7 {
        '\u{2589}'
    } else {
        BLANK
    }
}

/// The glyph for a cell filled from its right edge by `eighths` eighths.
fn falling(eighths: u128) -> (glyph: char)
    ensures
        glyph == falling_glyph(eighths as nat),
{
    if eighths == 1 {
        '\u{2595}'
    } else if eighths == 2 {
        '\u{1FB87}'
    } else if eighths == 3 {
        '\u{1FB88}'
    } else if eighths == 4 {
        '\u{2590}'
    } else if eighths == 5 {
        '\u{1FB89}'
    } else if eighths == 6 {
        '\u{1FB8A}'
    } else if eighths == 7 {
        '\u{1FB8B}'
    } else {
        BLANK
    }
}

/// The numbers from which the bar is drawn, computed once.
struct Layout {
    columns: usize,
    green: usize,
    green_glyph: char,
    green_reach: usize,
    red: usize,
    red_glyph: char,
    red_reach: usize,
    crowded: bool,
    label: Vec<char>,
    label_start: usize,
}

impl Layout {
    /// Whether the numbers are those of the bar for `t`.
    spec fn agrees(&self, t: Tally) -> bool {
        &&& t.fits()
        &&& self.columns == t.columns
        &&& self.green == t.whole(t.remembered)
        &&& self.green_glyph == rising_glyph(t.eighths(t.remembered))
        &&& self.green_reach == t.reach(t.remembered)
        &&& self.red == t.whole(t.forgotten)
        &&& self.red_glyph == falling_glyph(t.eighths(t.forgotten))
        &&& self.red_reach == t.reach(t.forgotten)
        &&& self.crowded == t.crowded()
        &&& self.label@ == t.label()
        &&& self.label_start == t.label_start()
        &&& self.green + self.red <= self.columns
        &&& self.label_start + self.label.len() <= self.columns
    }
}

/// The floor of `columns * count / total`, its remainder in eighths, and the
/// quotient rounded to the nearest cell.
fn share(columns: usize, count: usize, total: u128, Ghost(t): Ghost<Tally>) -> (parts: (
    usize,
    u128,
    usize,
))
    requires
        0 < total <= 0x3_0000_0000_0000_0000,
        count <= total,
        t.total() == total,
        t.columns == columns,
    ensures
        parts.0 == t.whole(count as nat),
        parts.1 == t.eighths(count as nat),
        parts.2 == t.reach(count as nat),
        parts.0 <= parts.2 <= columns,
{
    proof {
        assert(columns as int * count as int <= 0xFFFF_FFFF_FFFF_FFFF * 0xFFFF_FFFF_FFFF_FFFF)
            by (nonlinear_arith)
            requires
                0 <= columns as int <= 0xFFFF_FFFF_FFFF_FFFF,
                0 <= count as int <= 0xFFFF_FFFF_FFFF_FFFF,
        ;
    }
    let product: u128 = (columns as u128) * (count as u128);
    let whole: u128 = product / total;
    let rest: u128 = product % total;
    proof {
        let c = columns as int;
        let n = count as int;
        let d = total as int;
        let p = product as int;
        let w = whole as int;
        let r = rest as int;
        assert(p == c * n);
        assert(p == d * w + r && 0 <= r < d) by (nonlinear_arith)
            requires
                w == p / d,
                r == p % d,
                0 < d,
        ;
        assert(w <= c && (r > 0 ==> w < c)) by (nonlinear_arith)
            requires
                c * n == d * w + r,
                0 <= r,
                0 <= n <= d,
                0 < d,
                0 <= c,
        ;
        assert((r * 8) / d < 8) by (nonlinear_arith)
            requires
                0 <= r < d,
        ;
    }
    let eighths: u128 = (rest * 8) / total;
    let whole = whole as usize;
    let reach = if 2 * rest >= total {
        whole + 1
    } else {
        whole
    };
    (whole, eighths, reach)
}

/// `count` copies of `cell`.
pub open spec fn run(cell: Cell, count: nat) -> Seq<Cell> {
    Seq::new(count, |k: int| cell)
}

/// Appends `count` copies of `cell`.
fn push_run(cells: &mut Vec<Cell>, cell: Cell, count: usize)
    ensures
        final(cells)@ == old(cells)@ + run(cell, count as nat),
{
    let mut done: usize = 0;
    while done < count
        invariant
            done <= count,
            cells@ =~= old(cells)@ + run(cell, done as nat),
        decreases count - done,
    {
        cells.push(cell);
        done = done + 1;
    }
}

/// `x` brought into the range from `low` to `high`.
fn clamp_to(x: usize, low: usize, high: usize) -> (m: usize)
    requires
        low <= high,
    ensures
        low <= m <= high,
        low <= x <= high ==> m == x,
        x < low ==> m == low,
        x > high ==> m == high,
{
    if x < low {
        low
    } else if x > high {
        high
    } else {
        x
    }
}

impl Tally {
    /// The columns `from..to` of the bar as they are where no label covers them.
    pub open spec fn track(self, from: int, to: int) -> Seq<Cell> {
        Seq::new((to - from) as nat, |k: int| self.track_cell(from + k))
    }

    /// The label's character that stands in column `i`, over `ground`.
    pub open spec fn letter(self, i: int, ground: Paint) -> Cell {
        Cell { glyph: self.label()[i - self.label_start()], ink: Paint::Plain, ground: ground }
    }

    /// The label's characters in the columns `from..to`, all over `ground`.
    pub open spec fn lettering(self, from: int, to: int, ground: Paint) -> Seq<Cell> {
        Seq::new((to - from) as nat, |k: int| self.letter(from + k, ground))
    }
}

/// Appends the columns `from..to` of the bar as they are where no label covers them.
fn push_track(cells: &mut Vec<Cell>, layout: &Layout, from: usize, to: usize, Ghost(t): Ghost<Tally>)
    requires
        layout.agrees(t),
        from <= to <= layout.columns,
    ensures
        final(cells)@ == old(cells)@ + t.track(from as int, to as int),
{
    let ghost start = cells@;
    let full_green = Cell { glyph: FULL_BLOCK, ink: Paint::Green, ground: Paint::Plain };
    let full_red = Cell { glyph: FULL_BLOCK, ink: Paint::Red, ground: Paint::Plain };
    let blank = Cell { glyph: BLANK, ink: Paint::Plain, ground: Paint::Plain };
    // The green run, then its boundary cell.
    let green_end = clamp_to(layout.green, from, to);
    push_run(cells, full_green, green_end - from);
    let mut at = green_end;
    if from <= layout.green && layout.green < to {
        cells.push(
            Cell {
                glyph: layout.green_glyph,
                ink: Paint::Green,
                ground: if layout.crowded {
                    Paint::Red
                } else {
                    Paint::Plain
                },
            },
        );
        at = at + 1;
    }
    assert(cells@ =~= start + t.track(from as int, at as int));
    if layout.crowded {
        push_run(cells, full_red, to - at);
    } else {
        // The gap, the red boundary cell, and the red run.
        let red_edge = layout.columns - layout.red - 1;
        let gap_end = clamp_to(red_edge, at, to);
        push_run(cells, blank, gap_end - at);
        let mut past = gap_end;
        if at <= red_edge && red_edge < to {
            cells.push(Cell { glyph: layout.red_glyph, ink: Paint::Red, ground: Paint::Plain });
            past = past + 1;
        }
        assert(cells@ =~= start + t.track(from as int, past as int));
        push_run(cells, full_red, to - past);
    }
    assert(cells@ =~= start + t.track(from as int, to as int));
}

/// Appends the label's characters in the columns `from..to`, over `ground`.
fn push_label(
    cells: &mut Vec<Cell>,
    layout: &Layout,
    from: usize,
    to: usize,
    ground: Paint,
    Ghost(t): Ghost<Tally>,
)
    requires
        layout.agrees(t),
        layout.label_start <= from <= to <= layout.label_start + layout.label.len(),
    ensures
        final(cells)@ == old(cells)@ + t.lettering(from as int, to as int, ground),
{
    let mut at: usize = from;
    while at < to
        invariant
            layout.agrees(t),
            layout.label_start <= from <= at <= to <= layout.label_start + layout.label.len(),
            cells@ =~= old(cells)@ + t.lettering(from as int, at as int, ground),
        decreases to - at,
    {
        let cell = Cell { glyph: layout.label[at - layout.label_start], ink: Paint::Plain, ground };
        assert(cell == t.letter(at as int, ground));
        cells.push(cell);
        at = at + 1;
    }
}

impl Tally {
    /// The columns `from..to` of the bar.
    pub open spec fn span(self, from: int, to: int) -> Seq<Cell> {
        Seq::new((to - from) as nat, |k: int| self.cell(from + k))
    }
}

/// Away from the label the bar is its track.
proof fn lemma_track_is_span(t: Tally, from: int, to: int)
    requires
        0 <= from <= to,
        to <= t.label_start() || t.label_end() <= from,
    ensures
        t.track(from, to) == t.span(from, to),
{
    assert(t.track(from, to) =~= t.span(from, to));
}

/// Under the label the bar is the label, over the ground that each column calls for.
proof fn lemma_lettering_is_span(t: Tally, from: int, to: int, ground: Paint)
    requires
        t.label_start() <= from <= to <= t.label_end(),
        forall|i: int| from <= i < to ==> t.label_ground(i) == ground,
    ensures
        t.lettering(from, to, ground) == t.span(from, to),
{
    assert(t.lettering(from, to, ground) =~= t.span(from, to));
}

/// Appends the columns that the label covers.
fn push_lettering(cells: &mut Vec<Cell>, layout: &Layout, Ghost(t): Ghost<Tally>)
    requires
        layout.agrees(t),
    ensures
        final(cells)@ == old(cells)@ + t.span(t.label_start() as int, t.label_end() as int),
{
    let label_start = layout.label_start;
    let label_end = label_start + layout.label.len();
    let green_until = clamp_to(layout.green_reach, label_start, label_end);
    let red_from = if layout.crowded {
        green_until
    } else {
        clamp_to(layout.columns - layout.red_reach, green_until, label_end)
    };
    push_label(cells, layout, label_start, green_until, Paint::Green, Ghost(t));
    push_label(cells, layout, green_until, red_from, Paint::Plain, Ghost(t));
    push_label(cells, layout, red_from, label_end, Paint::Red, Ghost(t));
    proof {
        lemma_lettering_is_span(t, label_start as int, green_until as int, Paint::Green);
        lemma_lettering_is_span(t, green_until as int, red_from as int, Paint::Plain);
        lemma_lettering_is_span(t, red_from as int, label_end as int, Paint::Red);
        assert(t.span(label_start as int, green_until as int) + t.span(
            green_until as int,
            red_from as int,
        ) + t.span(red_from as int, label_end as int) =~= t.span(
            label_start as int,
            label_end as int,
        ));
    }
}

/// Draws the status bar for a session in which `remembered` cards were recalled,
/// `forgotten` answers were wrong and `incomplete` cards still wait, on a terminal
/// `columns` cells wide.
///
/// Returns one cell per column, or `None` where no bar can be drawn: when there is
/// no card at all, or the label is wider than the terminal.
pub fn print_progress(remembered: usize, forgotten: usize, incomplete: usize, columns: usize) -> (bar:
    Option<Vec<Cell>>)
    ensures
        ({
            let t = Tally {
                remembered: remembered as nat,
                forgotten: forgotten as nat,
                incomplete: incomplete as nat,
                columns: columns as nat,
            };
            match bar {
                Some(cells) => t.fits() && cells@ == t.cells(),
                None => !t.fits(),
            }
        }),
        bar matches Some(cells) ==> cells.len() == columns,
{
    let ghost t = Tally {
        remembered: remembered as nat,
        forgotten: forgotten as nat,
        incomplete: incomplete as nat,
        columns: columns as nat,
    };
    let total: u128 = remembered as u128 + forgotten as u128 + incomplete as u128;
    if total == 0 {
        return None;
    }
    let mut label = decimal_digits(remembered as u128);
    label.push('/');
    let mut total_digits = decimal_digits(total);
    label.append(&mut total_digits);
    assert(label@ =~= t.label());
    if label.len() > columns {
        return None;
    }
    let layout = measure(remembered, forgotten, total, columns, label, Ghost(t));
    let label_start = layout.label_start;
    let label_end = label_start + layout.label.len();
    let mut cells: Vec<Cell> = Vec::new();
    push_track(&mut cells, &layout, 0, label_start, Ghost(t));
    push_lettering(&mut cells, &layout, Ghost(t));
    push_track(&mut cells, &layout, label_end, columns, Ghost(t));
    proof {
        lemma_track_is_span(t, 0, label_start as int);
        lemma_track_is_span(t, label_end as int, columns as int);
        assert(t.span(0, label_start as int) + t.span(label_start as int, label_end as int)
            + t.span(label_end as int, columns as int) =~= t.cells());
    }
    Some(cells)
}

/// Computes the numbers from which the bar is drawn.
fn measure(
    remembered: usize,
    forgotten: usize,
    total: u128,
    columns: usize,
    label: Vec<char>,
    Ghost(t): Ghost<Tally>,
) -> (layout: Layout)
    requires
        t.fits(),
        t.remembered == remembered,
        t.forgotten == forgotten,
        t.total() == total,
        t.columns == columns,
        label@ == t.label(),
        total <= 0x3_0000_0000_0000_0000,
    ensures
        layout.agrees(t),
{
    let (green, green_eighths, green_reach) = share(columns, remembered, total, Ghost(t));
    let (red, red_eighths, red_reach) = share(columns, forgotten, total, Ghost(t));
    proof {
        lemma_runs_fit(t);
    }
    Layout {
        columns,
        green,
        green_glyph: rising(green_eighths),
        green_reach,
        red,
        red_glyph: falling(red_eighths),
        red_reach,
        crowded: columns - (green + red) <= 1,
        label_start: (columns - label.len() + 1) / 2,
        label,
    }
}

} // verus!
