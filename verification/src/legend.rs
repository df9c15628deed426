use vstd::prelude::*;

verus! {

/// A rectangle of terminal cells: its top-left corner and its size.
#[derive(Debug, Clone, Copy, PartialEq, Eq)]
pub struct HitRect {
    pub x: u16,
    pub y: u16,
    pub width: u16,
    pub height: u16,
}

/// What clicking a legend entry does.
#[derive(Debug, Clone, Copy, PartialEq, Eq)]
pub enum LegendAction {
    Quit,
    CycleWindow,
}

/// An entry of the keybind legend: the key, what it does in words, and the action.
#[derive(Debug, Clone, Copy)]
pub struct Keybind {
    pub key: &'static str,
    pub label: &'static str,
    pub action: LegendAction,
}

/// `a + b`, or `u16::MAX` where that would not fit.
pub open spec fn saturating_add_u16(a: u16, b: u16) -> u16 {
    if a + b > u16::MAX {
        u16::MAX
    } else {
        (a + b) as u16
    }
}

/// The rectangle at `(x, y)` of the given size, the size cut down so that the rectangle ends
/// inside the coordinate range.
pub open spec fn rect_at(x: u16, y: u16, width: u16, height: u16) -> HitRect {
    HitRect {
        x,
        y,
        width: if width > u16::MAX - x { (u16::MAX - x) as u16 } else { width },
        height: if height > u16::MAX - y { (u16::MAX - y) as u16 } else { height },
    }
}

/// Whether the cell `(px, py)` lies in the rectangle; its right and bottom edges are computed
/// with saturating addition.
pub open spec fn rect_holds(r: HitRect, px: u16, py: u16) -> bool {
    &&& px >= r.x
    &&& px < saturating_add_u16(r.x, r.width)
    &&& py >= r.y
    &&& py < saturating_add_u16(r.y, r.height)
}

/// Builds a rectangle with `ratatui::layout::Rect::new`, which keeps the position and cuts the
/// width and height down so that the rectangle ends inside the `u16` coordinate range.
#[verifier::external_body]
fn new_rect(x: u16, y: u16, width: u16, height: u16) -> (r: HitRect)
    ensures
        r == rect_at(x, y, width, height),
{
    let r = ratatui::layout::Rect::new(x, y, width, height);
    HitRect { x: r.x, y: r.y, width: r.width, height: r.height }
}

/// Hit-tests a cell with `ratatui::layout::Rect::contains`, which holds a position when it is at
/// or right of the left edge, left of `x.saturating_add(width)`, at or below the top edge and
/// above `y.saturating_add(height)`.
#[verifier::external_body]
fn rect_contains(r: &HitRect, px: u16, py: u16) -> (b: bool)
    ensures
        b == rect_holds(*r, px, py),
{
    let rect = ratatui::layout::Rect { x: r.x, y: r.y, width: r.width, height: r.height };
    rect.contains(ratatui::layout::Position { x: px, y: py })
}

/// The width in cells of a legend entry, which reads `" {key} {label} "`.
pub open spec fn entry_width(b: Keybind) -> int {
    (b.key@.len() + b.label@.len() + 3) as int
}

/// The cells a row of legend entries takes, one blank cell after each entry.
pub open spec fn legend_width(binds: Seq<Keybind>) -> int
    decreases binds.len(),
{
    if binds.len() == 0 {
        0
    } else {
        entry_width(binds[0]) + 1 + legend_width(binds.drop_first())
    }
}

/// The clickable rectangles of a row of legend entries laid out from column `x` on row `y`:
/// each entry one cell high and as wide as its text, one blank cell between entries.
pub open spec fn legend_layout(x: int, y: u16, binds: Seq<Keybind>) -> Seq<(HitRect, LegendAction)>
    decreases binds.len(),
{
    if binds.len() == 0 {
        Seq::empty()
    } else {
        let w = entry_width(binds[0]) as u16;
        seq![(rect_at(x as u16, y, w, 1), binds[0].action)] + legend_layout(
            x + w + 1,
            y,
            binds.drop_first(),
        )
    }
}

/// The action of the first rectangle that holds the cell `(x, y)`.
pub open spec fn first_hit(boxes: Seq<(HitRect, LegendAction)>, x: u16, y: u16) -> Option<LegendAction>
    decreases boxes.len(),
{
    if boxes.len() == 0 {
        None
    } else if rect_holds(boxes[0].0, x, y) {
        Some(boxes[0].1)
    } else {
        first_hit(boxes.drop_first(), x, y)
    }
}

/// The keybind legend, in the order it is drawn: `w` cycles the window, `q` quits.
pub open spec fn keybind_table() -> Seq<Keybind> {
    seq![
        Keybind { key: "w", label: "cycle window", action: LegendAction::CycleWindow },
        Keybind { key: "q", label: "quit", action: LegendAction::Quit },
    ]
}

/// The keybind legend, in the order it is drawn.
pub fn keybinds() -> (r: Vec<Keybind>)
    ensures
        r@ == keybind_table(),
{
    let r = vec![
        Keybind { key: "w", label: "cycle window", action: LegendAction::CycleWindow },
        Keybind { key: "q", label: "quit", action: LegendAction::Quit },
    ];
    assert(r@ =~= keybind_table());
    r
}

/// The cells the keybind legend takes, one blank cell after each entry.
pub open spec fn keybind_legend_width() -> int {
    legend_width(keybind_table())
}

proof fn lemma_keybind_widths()
    ensures
        entry_width(keybind_table()[0]) == 16,
        entry_width(keybind_table()[1]) == 8,
        keybind_legend_width() == 26,
{
    reveal_strlit("w");
    reveal_strlit("cycle window");
    reveal_strlit("q");
    reveal_strlit("quit");
    let t = keybind_table();
    assert(t.drop_first().drop_first() =~= Seq::<Keybind>::empty());
    assert(t.drop_first()[0] == t[1]);
    assert(legend_width(t.drop_first().drop_first()) == 0);
    assert(legend_width(t.drop_first()) == 9);
}

proof fn lemma_legend_width_nonneg(binds: Seq<Keybind>)
    ensures
        legend_width(binds) >= 0,
    decreases binds.len(),
{
    if binds.len() > 0 {
        lemma_legend_width_nonneg(binds.drop_first());
    }
}

/// Whether the keybind legend fits on a row starting at column `x`.
pub fn legend_fits(x: u16) -> (r: bool)
    ensures
        r == (x + keybind_legend_width() <= u16::MAX),
{
    proof {
        lemma_keybind_widths();
    }
    x <= u16::MAX - 26
}

/// The clickable rectangles of the keybind legend drawn from column `x` on row `y`.
pub fn legend_hitboxes(x: u16, y: u16) -> (r: Vec<(HitRect, LegendAction)>)
    requires
        x + keybind_legend_width() <= u16::MAX,
    ensures
        r@ == legend_layout(x as int, y, keybind_table()),
{
    let binds = keybinds();
    proof {
        lemma_keybind_widths();
    }
    let mut out: Vec<(HitRect, LegendAction)> = Vec::new();
    let mut col: u16 = x;
    let n = binds.len();
    assert(binds@.skip(0) =~= binds@);
    assert(out@ + legend_layout(col as int, y, binds@.skip(0)) =~= legend_layout(x as int, y, binds@));
    for i in 0..n
        invariant
            n == binds@.len(),
            binds@ == keybind_table(),
            col as int + legend_width(binds@.skip(i as int)) <= u16::MAX,
            out@ + legend_layout(col as int, y, binds@.skip(i as int)) == legend_layout(
                x as int,
                y,
                binds@,
            ),
            forall|j: int| 0 <= j < n ==> entry_width(#[trigger] binds@[j]) <= 16,
    {
        let b = binds[i];
        let ghost rest = binds@.skip(i as int);
        assert(rest[0] == b);
        assert(rest.drop_first() =~= binds@.skip(i + 1));
        let width = (b.key.unicode_len() + b.label.unicode_len() + 3) as u16;
        assert(width == entry_width(b));
        proof {
            lemma_legend_width_nonneg(binds@.skip(i + 1));
        }
        let rect = new_rect(col, y, width, 1);
        out.push((rect, b.action));
        col = col + width + 1;
        assert(out@ + legend_layout(col as int, y, binds@.skip(i + 1)) =~= legend_layout(
            x as int,
            y,
            binds@,
        ));
    }
    assert(binds@.skip(n as int) =~= Seq::<Keybind>::empty());
    assert(out@ + legend_layout(col as int, y, binds@.skip(n as int)) =~= out@);
    out
}

/// The action of the first hitbox that holds the cell `(x, y)`, if any.
pub fn hit_test(boxes: &Vec<(HitRect, LegendAction)>, x: u16, y: u16) -> (r: Option<LegendAction>)
    ensures
        r == first_hit(boxes@, x, y),
{
    let n = boxes.len();
    assert(boxes@.skip(0) =~= boxes@);
    for i in 0..n
        invariant
            n == boxes@.len(),
            first_hit(boxes@.skip(i as int), x, y) == first_hit(boxes@, x, y),
    {
        let ghost rest = boxes@.skip(i as int);
        assert(rest[0] == boxes@[i as int]);
        assert(rest.drop_first() =~= boxes@.skip(i + 1));
        if rect_contains(&boxes[i].0, x, y) {
            return Some(boxes[i].1);
        }
    }
    assert(boxes@.skip(n as int) =~= Seq::<(HitRect, LegendAction)>::empty());
    None
}

/// Each entry of the keybind legend is a button exactly over its own text: on the legend's row,
/// the cells under `" w cycle window "` cycle the window, the cells under `" q quit "` (after
/// one blank cell) quit, and no other cell does anything.
pub proof fn law_legend_buttons_cover_their_text(x: u16, y: u16, px: u16, py: u16)
    requires
        x + keybind_legend_width() <= u16::MAX,
        y < u16::MAX,
    ensures
        ({
            let w0 = entry_width(keybind_table()[0]);
            let w1 = entry_width(keybind_table()[1]);
            first_hit(legend_layout(x as int, y, keybind_table()), px, py) == if py == y && x <= px
                < x + w0 {
                Some(LegendAction::CycleWindow)
            } else if py == y && x + w0 + 1 <= px < x + w0 + 1 + w1 {
                Some(LegendAction::Quit)
            } else {
                None
            }
        }),
{
    lemma_keybind_widths();
    let t = keybind_table();
    let l = legend_layout(x as int, y, t);
    assert(t.drop_first()[0] == t[1]);
    assert(t.drop_first().drop_first() =~= Seq::<Keybind>::empty());
    let l1 = legend_layout(x + 17, y, t.drop_first());
    assert(entry_width(t.drop_first()[0]) == 8);
    assert(legend_layout(x + 17 + 8 + 1, y, t.drop_first().drop_first()) =~= Seq::<(HitRect, LegendAction)>::empty());
    assert(l1 =~= seq![(rect_at((x + 17) as u16, y, 8, 1), LegendAction::Quit)]);
    assert(l =~= seq![(rect_at(x, y, 16, 1), LegendAction::CycleWindow)] + l1);
    assert(l.drop_first() =~= l1);
    assert(l1.drop_first() =~= Seq::<(HitRect, LegendAction)>::empty());
    assert(first_hit(l1.drop_first(), px, py) == None::<LegendAction>);
    let r0 = rect_at(x, y, 16, 1);
    let r1 = rect_at((x + 17) as u16, y, 8, 1);
    assert(l[0] == (r0, LegendAction::CycleWindow));
    assert(l1[0] == (r1, LegendAction::Quit));
    assert(rect_holds(r0, px, py) == (py == y && x <= px < x + 16));
    assert(rect_holds(r1, px, py) == (py == y && x + 17 <= px < x + 25));
    assert(first_hit(l1, px, py) == (if rect_holds(r1, px, py) { Some(LegendAction::Quit) } else { None }));
}

/// The hit test answers with the action of a rectangle that holds the cell, and of the first
/// such rectangle in the list; it answers nothing only where no rectangle holds the cell.
pub proof fn law_hit_test_takes_the_first_box_that_holds_the_cell(
    boxes: Seq<(HitRect, LegendAction)>,
    x: u16,
    y: u16,
)
    ensures
        first_hit(boxes, x, y) is None <==> forall|i: int|
            0 <= i < boxes.len() ==> !rect_holds(#[trigger] boxes[i].0, x, y),
        first_hit(boxes, x, y) matches Some(a) ==> exists|i: int|
            0 <= i < boxes.len() && #[trigger] boxes[i].1 == a && rect_holds(boxes[i].0, x, y)
                && forall|j: int| 0 <= j < i ==> !rect_holds(#[trigger] boxes[j].0, x, y),
    decreases boxes.len(),
{
    if boxes.len() > 0 {
        let rest = boxes.drop_first();
        law_hit_test_takes_the_first_box_that_holds_the_cell(rest, x, y);
        assert forall|i: int| 0 <= i < rest.len() implies #[trigger] rest[i] == boxes[i + 1] by {}
        if rect_holds(boxes[0].0, x, y) {
            assert(boxes[0].1 == first_hit(boxes, x, y)->0);
        } else if first_hit(rest, x, y) is Some {
            let a = first_hit(rest, x, y)->0;
            let i = choose|i: int|
                0 <= i < rest.len() && #[trigger] rest[i].1 == a && rect_holds(rest[i].0, x, y)
                    && forall|j: int| 0 <= j < i ==> !rect_holds(#[trigger] rest[j].0, x, y);
            assert(boxes[i + 1].1 == a);
            assert forall|j: int| 0 <= j < i + 1 implies !rect_holds(#[trigger] boxes[j].0, x, y) by {
                if j > 0 {
                    assert(boxes[j] == rest[j - 1]);
                }
            }
        } else {
            assert forall|i: int| 0 <= i < boxes.len() implies !rect_holds(#[trigger] boxes[i].0, x, y) by {
                if i > 0 {
                    assert(boxes[i] == rest[i - 1]);
                }
            }
        }
    }
}

} // verus!
