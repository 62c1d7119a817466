//! The keybind reference's keyboard: a grid of keys whose unit is a quarter
//! of a key, in blocks laid out in one shared space so they keep their real
//! spacing. Every cell stands for a variable (or nothing), and asks the
//! keybinds what that variable would do.
//!
//! Lengths here are in quarter keys: a plain key is 4 wide and 4 tall, and
//! the space bar is 25 wide.
use vstd::prelude::*;
use crate::text::{owned, push_str};

verus! {

/// The height of a row, and the width of a plain key, in quarter keys.
pub const KEY: u32 = 4;

/// What one cell of the keyboard stands for.
#[derive(Debug, Clone, Copy)]
pub enum Cell {
    /// a key egui reports, by its lowercased name, bound to `key_<name>`.
    Key(&'static str),
    /// any other boolean variable, with the name to show for it: the mouse
    /// buttons, and the modifier state variables. The modifier cells use
    /// `key_shift` rather than a left or right shift, because that's what
    /// guards are normally written against.
    Var(&'static str, &'static str),
    /// a key egui never reports, drawn dead so the keyboard still looks
    /// right.
    Dead(&'static str),
    Gap,
}

/// The variable a cell stands for, if any.
pub open spec fn cell_variable(cell: Cell) -> Option<Seq<char>> {
    match cell {
        Cell::Key(name) => Some("key_"@ + name@),
        Cell::Var(variable, _) => Some(variable@),
        Cell::Dead(_) => None,
        Cell::Gap => None,
    }
}

impl Cell {
    /// The variable the cell toggles and previews.
    pub fn variable(self) -> (r: Option<String>)
        ensures
            match r {
                Some(s) => cell_variable(self) == Some(s@),
                None => cell_variable(self) is None,
            },
    {
        match self {
            Cell::Key(name) => {
                let mut s = owned("key_");
                push_str(&mut s, name);
                Some(s)
            },
            Cell::Var(variable, _) => Some(owned(variable)),
            Cell::Dead(_) => None,
            Cell::Gap => None,
        }
    }
}

/// The blocks of the keyboard.
#[derive(Debug, Clone, Copy, PartialEq, Eq, Structural)]
pub enum Block {
    Function,
    Main,
    Arrows,
    Mouse,
}

/// A block of the keyboard: where it sits in the shared grid, and its rows
/// of cells with their widths.
pub struct Area {
    pub left: u32,
    pub top: u32,
    pub right: u32,
    pub bottom: u32,
    pub rows: Vec<Vec<(Cell, u32)>>,
}

/// How wide a row is: the sum of its cells' widths.
pub open spec fn row_width(row: Seq<(Cell, u32)>) -> int
    decreases row.len(),
{
    if row.len() == 0 {
        0
    } else {
        row_width(row.drop_last()) + row.last().1
    }
}

pub open spec fn rows_of(area: Area) -> Seq<Seq<(Cell, u32)>> {
    area.rows@.map_values(|r: Vec<(Cell, u32)>| r@)
}

/// Every row fits in its block's width, and the rows in its height.
pub open spec fn fits(area: Area) -> bool {
    &&& area.left <= area.right
    &&& area.top <= area.bottom
    &&& forall|i: int| 0 <= i < area.rows@.len() ==> row_width(#[trigger] rows_of(area)[i]) <= area.right - area.left
    &&& area.rows@.len() * KEY <= area.bottom - area.top
}

/// Every row is exactly as wide as its block, as on a real keyboard.
pub open spec fn full(area: Area) -> bool {
    forall|i: int| 0 <= i < area.rows@.len() ==> row_width(#[trigger] rows_of(area)[i]) == area.right - area.left
}

/// The place of a block in the shared grid, as left, top, right, bottom.
pub open spec fn block_rect(block: Block) -> (u32, u32, u32, u32) {
    match block {
        Block::Function => (0, 0, 60, 4),
        Block::Main => (0, 5, 60, 25),
        Block::Arrows => (0, 26, 12, 34),
        Block::Mouse => (14, 26, 26, 30),
    }
}

/// How many rows each block has.
pub open spec fn block_rows(block: Block) -> nat {
    match block {
        Block::Function => 1,
        Block::Main => 5,
        Block::Arrows => 2,
        Block::Mouse => 1,
    }
}

/// An area laid out as `block` is.
pub open spec fn is_block(area: Area, block: Block) -> bool {
    &&& (area.left, area.top, area.right, area.bottom) == block_rect(block)
    &&& area.rows@.len() == block_rows(block)
    &&& fits(area)
}

fn key(name: &'static str) -> (r: (Cell, u32))
    ensures
        r == (Cell::Key(name), KEY),
{
    (Cell::Key(name), KEY)
}

fn wide(name: &'static str, width: u32) -> (r: (Cell, u32))
    ensures
        r == (Cell::Key(name), width),
{
    (Cell::Key(name), width)
}

fn var(variable: &'static str, label: &'static str, width: u32) -> (r: (Cell, u32))
    ensures
        r == (Cell::Var(variable, label), width),
{
    (Cell::Var(variable, label), width)
}

fn dead(label: &'static str, width: u32) -> (r: (Cell, u32))
    ensures
        r == (Cell::Dead(label), width),
{
    (Cell::Dead(label), width)
}

fn gap(width: u32) -> (r: (Cell, u32))
    ensures
        r == (Cell::Gap, width),
{
    (Cell::Gap, width)
}

/// A plain key.
pub open spec fn key_cell(name: &'static str) -> (Cell, u32) {
    (Cell::Key(name), KEY)
}

/// Escape and the twelve function keys, in groups of four.
pub open spec fn function_row_cells() -> Seq<(Cell, u32)> {
    seq![
        key_cell("escape"),
        (Cell::Gap, 4u32),
        key_cell("f1"),
        key_cell("f2"),
        key_cell("f3"),
        key_cell("f4"),
        (Cell::Gap, 2u32),
        key_cell("f5"),
        key_cell("f6"),
        key_cell("f7"),
        key_cell("f8"),
        (Cell::Gap, 2u32),
        key_cell("f9"),
        key_cell("f10"),
        key_cell("f11"),
        key_cell("f12"),
    ]
}

pub open spec fn number_row_cells() -> Seq<(Cell, u32)> {
    seq![
        key_cell("backtick"),
        key_cell("num1"),
        key_cell("num2"),
        key_cell("num3"),
        key_cell("num4"),
        key_cell("num5"),
        key_cell("num6"),
        key_cell("num7"),
        key_cell("num8"),
        key_cell("num9"),
        key_cell("num0"),
        key_cell("minus"),
        key_cell("equals"),
        (Cell::Key("backspace"), 8u32),
    ]
}

pub open spec fn top_row_cells() -> Seq<(Cell, u32)> {
    seq![
        (Cell::Key("tab"), 6u32),
        key_cell("q"),
        key_cell("w"),
        key_cell("e"),
        key_cell("r"),
        key_cell("t"),
        key_cell("y"),
        key_cell("u"),
        key_cell("i"),
        key_cell("o"),
        key_cell("p"),
        key_cell("openbracket"),
        key_cell("closebracket"),
        (Cell::Key("backslash"), 6u32),
    ]
}

pub open spec fn home_row_cells() -> Seq<(Cell, u32)> {
    seq![
        (Cell::Dead("Caps"), 7u32),
        key_cell("a"),
        key_cell("s"),
        key_cell("d"),
        key_cell("f"),
        key_cell("g"),
        key_cell("h"),
        key_cell("j"),
        key_cell("k"),
        key_cell("l"),
        key_cell("semicolon"),
        key_cell("quote"),
        (Cell::Key("enter"), 9u32),
    ]
}

pub open spec fn bottom_row_cells() -> Seq<(Cell, u32)> {
    seq![
        (Cell::Var("key_shift", "Shift"), 9u32),
        key_cell("z"),
        key_cell("x"),
        key_cell("c"),
        key_cell("v"),
        key_cell("b"),
        key_cell("n"),
        key_cell("m"),
        key_cell("comma"),
        key_cell("period"),
        key_cell("slash"),
        (Cell::Var("key_shift", "Shift"), 11u32),
    ]
}

/// The space bar's row; `super_label` names the super key, which is cmd on
/// macOS, where it is also what `key_command` reads.
pub open spec fn space_row_cells(super_label: &'static str) -> Seq<(Cell, u32)> {
    seq![
        (Cell::Var("key_ctrl", "Ctrl"), 5u32),
        (Cell::Var("key_command", super_label), 5u32),
        (Cell::Var("key_alt", "Alt"), 5u32),
        (Cell::Key("space"), 25u32),
        (Cell::Var("key_alt", "Alt"), 5u32),
        (Cell::Var("key_command", super_label), 5u32),
        (Cell::Dead("Menu"), 5u32),
        (Cell::Var("key_ctrl", "Ctrl"), 5u32),
    ]
}

pub open spec fn arrow_up_cells() -> Seq<(Cell, u32)> {
    seq![(Cell::Gap, 4u32), key_cell("arrowup")]
}

pub open spec fn arrow_row_cells() -> Seq<(Cell, u32)> {
    seq![key_cell("arrowleft"), key_cell("arrowdown"), key_cell("arrowright")]
}

/// Mousebinds are keybinds, so the mouse buttons get cells like
/// everything else.
pub open spec fn mouse_row_cells() -> Seq<(Cell, u32)> {
    seq![
        (Cell::Var("mouse_left", "LMB"), 4u32),
        (Cell::Var("mouse_middle", "MMB"), 4u32),
        (Cell::Var("mouse_right", "RMB"), 4u32),
    ]
}

/// The rows of each block.
pub open spec fn block_cells(block: Block, super_label: &'static str) -> Seq<Seq<(Cell, u32)>> {
    match block {
        Block::Function => seq![function_row_cells()],
        Block::Main => seq![
            number_row_cells(),
            top_row_cells(),
            home_row_cells(),
            bottom_row_cells(),
            space_row_cells(super_label),
        ],
        Block::Arrows => seq![arrow_up_cells(), arrow_row_cells()],
        Block::Mouse => seq![mouse_row_cells()],
    }
}

/// The keyboard's rows add up: every row of every block fits in its
/// block, and every row of the main block is exactly full.
pub proof fn lemma_rows_add_up(super_label: &'static str)
    ensures
        row_width(function_row_cells()) == 60,
        row_width(number_row_cells()) == 60,
        row_width(top_row_cells()) == 60,
        row_width(home_row_cells()) == 60,
        row_width(bottom_row_cells()) == 60,
        row_width(space_row_cells(super_label)) == 60,
        row_width(arrow_up_cells()) == 8,
        row_width(arrow_row_cells()) == 12,
        row_width(mouse_row_cells()) == 12,
{
    reveal_with_fuel(row_width, 17);
}

fn function_rows() -> (r: Vec<Vec<(Cell, u32)>>)
    ensures
        r@.len() == 1,
        r@[0]@ == function_row_cells(),
{
    let row = vec![
        key("escape"),
        gap(4),
        key("f1"),
        key("f2"),
        key("f3"),
        key("f4"),
        gap(2),
        key("f5"),
        key("f6"),
        key("f7"),
        key("f8"),
        gap(2),
        key("f9"),
        key("f10"),
        key("f11"),
        key("f12"),
    ];
    assert(row@ =~= function_row_cells());
    vec![row]
}

fn number_row() -> (r: Vec<(Cell, u32)>)
    ensures
        r@ == number_row_cells(),
{
    let row = vec![
        key("backtick"),
        key("num1"),
        key("num2"),
        key("num3"),
        key("num4"),
        key("num5"),
        key("num6"),
        key("num7"),
        key("num8"),
        key("num9"),
        key("num0"),
        key("minus"),
        key("equals"),
        wide("backspace", 8),
    ];
    assert(row@ =~= number_row_cells());
    row
}

fn top_row() -> (r: Vec<(Cell, u32)>)
    ensures
        r@ == top_row_cells(),
{
    let row = vec![
        wide("tab", 6),
        key("q"),
        key("w"),
        key("e"),
        key("r"),
        key("t"),
        key("y"),
        key("u"),
        key("i"),
        key("o"),
        key("p"),
        key("openbracket"),
        key("closebracket"),
        wide("backslash", 6),
    ];
    assert(row@ =~= top_row_cells());
    row
}

fn home_row() -> (r: Vec<(Cell, u32)>)
    ensures
        r@ == home_row_cells(),
{
    let row = vec![
        dead("Caps", 7),
        key("a"),
        key("s"),
        key("d"),
        key("f"),
        key("g"),
        key("h"),
        key("j"),
        key("k"),
        key("l"),
        key("semicolon"),
        key("quote"),
        wide("enter", 9),
    ];
    assert(row@ =~= home_row_cells());
    row
}

fn bottom_row() -> (r: Vec<(Cell, u32)>)
    ensures
        r@ == bottom_row_cells(),
{
    let row = vec![
        var("key_shift", "Shift", 9),
        key("z"),
        key("x"),
        key("c"),
        key("v"),
        key("b"),
        key("n"),
        key("m"),
        key("comma"),
        key("period"),
        key("slash"),
        var("key_shift", "Shift", 11),
    ];
    assert(row@ =~= bottom_row_cells());
    row
}

fn space_row(super_label: &'static str) -> (r: Vec<(Cell, u32)>)
    ensures
        r@ == space_row_cells(super_label),
{
    let row = vec![
        var("key_ctrl", "Ctrl", 5),
        var("key_command", super_label, 5),
        var("key_alt", "Alt", 5),
        wide("space", 25),
        var("key_alt", "Alt", 5),
        var("key_command", super_label, 5),
        dead("Menu", 5),
        var("key_ctrl", "Ctrl", 5),
    ];
    assert(row@ =~= space_row_cells(super_label));
    row
}

fn arrow_rows() -> (r: Vec<Vec<(Cell, u32)>>)
    ensures
        r@.len() == 2,
        r@[0]@ == arrow_up_cells(),
        r@[1]@ == arrow_row_cells(),
{
    let up = vec![gap(4), key("arrowup")];
    let rest = vec![key("arrowleft"), key("arrowdown"), key("arrowright")];
    assert(up@ =~= arrow_up_cells());
    assert(rest@ =~= arrow_row_cells());
    vec![up, rest]
}

fn mouse_rows() -> (r: Vec<Vec<(Cell, u32)>>)
    ensures
        r@.len() == 1,
        r@[0]@ == mouse_row_cells(),
{
    let row = vec![
        var("mouse_left", "LMB", 4),
        var("mouse_middle", "MMB", 4),
        var("mouse_right", "RMB", 4),
    ];
    assert(row@ =~= mouse_row_cells());
    vec![row]
}

impl Block {
    /// The block's cells. The extra blocks sit below the main one rather
    /// than beside it: the scale comes from the available width, so
    /// anything to the right would shrink every key on the keyboard.
    pub fn area(self, super_label: &'static str) -> (r: Area)
        ensures
            is_block(r, self),
            rows_of(r) == block_cells(self, super_label),
            self == Block::Main ==> full(r),
    {
        proof {
            lemma_rows_add_up(super_label);
        }
        let r = match self {
            Block::Function => Area { left: 0, top: 0, right: 60, bottom: 4, rows: function_rows() },
            Block::Main => {
                let rows = vec![number_row(), top_row(), home_row(), bottom_row(), space_row(super_label)];
                Area { left: 0, top: 5, right: 60, bottom: 25, rows }
            },
            Block::Arrows => Area { left: 0, top: 26, right: 12, bottom: 34, rows: arrow_rows() },
            Block::Mouse => Area { left: 14, top: 26, right: 26, bottom: 30, rows: mouse_rows() },
        };
        assert(rows_of(r) =~= block_cells(self, super_label));
        r
    }
}

/// A cell placed in the shared grid.
#[derive(Debug, Clone, Copy)]
pub struct Placed {
    pub cell: Cell,
    pub left: u32,
    pub top: u32,
    pub right: u32,
    pub bottom: u32,
}

/// Where the `j`th cell of the `i`th row of `area` goes: rows stack a key
/// apart from the block's top, and cells follow each other from its left.
pub open spec fn placed_at(area: Area, i: int, j: int, p: Placed) -> bool {
    let row = rows_of(area)[i];
    &&& p.cell == row[j].0
    &&& p.left == area.left + row_width(row.take(j))
    &&& p.right == p.left + row[j].1
    &&& p.top == area.top + KEY * i
    &&& p.bottom == p.top + KEY
}

/// A row's prefix is no wider than the row.
pub proof fn lemma_prefix_width(row: Seq<(Cell, u32)>, k: int)
    requires
        0 <= k <= row.len(),
    ensures
        0 <= row_width(row.take(k)) <= row_width(row),
    decreases row.len(),
{
    if k == row.len() {
        assert(row.take(k) =~= row);
        if row.len() > 0 {
            lemma_prefix_width(row.drop_last(), k - 1);
        }
    } else {
        lemma_prefix_width(row.drop_last(), k);
        assert(row.drop_last().take(k) =~= row.take(k));
    }
}

/// Place every cell of a block in the grid. Each cell lands inside the
/// block, which is why the rows have to fit.
pub fn place(area: &Area) -> (r: Vec<Vec<Placed>>)
    requires
        fits(*area),
    ensures
        r@.len() == area.rows@.len(),
        forall|i: int| 0 <= i < r@.len() ==> (#[trigger] r@[i])@.len() == rows_of(*area)[i].len(),
        forall|i: int, j: int|
            0 <= i < r@.len() && 0 <= j < r@[i]@.len() ==> placed_at(*area, i, j, #[trigger] r@[i]@[j]),
        forall|i: int, j: int|
            0 <= i < r@.len() && 0 <= j < r@[i]@.len() ==> {
                let p = #[trigger] r@[i]@[j];
                &&& area.left <= p.left <= p.right <= area.right
                &&& area.top <= p.top < p.bottom <= area.bottom
            },
{
    let mut r: Vec<Vec<Placed>> = Vec::new();
    let mut i: usize = 0;
    while i < area.rows.len()
        invariant
            fits(*area),
            i <= area.rows@.len(),
            r@.len() == i,
            forall|a: int| 0 <= a < i ==> (#[trigger] r@[a])@.len() == rows_of(*area)[a].len(),
            forall|a: int, b: int|
                0 <= a < i && 0 <= b < r@[a]@.len() ==> placed_at(*area, a, b, #[trigger] r@[a]@[b]),
            forall|a: int, b: int|
                0 <= a < i && 0 <= b < r@[a]@.len() ==> {
                    let p = #[trigger] r@[a]@[b];
                    &&& area.left <= p.left <= p.right <= area.right
                    &&& area.top <= p.top < p.bottom <= area.bottom
                },
        decreases area.rows@.len() - i,
    {
        let row = &area.rows[i];
        let ghost rv = rows_of(*area)[i as int];
        assert(rv == row@);
        assert(row_width(rv) <= area.right - area.left);
        assert((i + 1) * KEY <= area.bottom - area.top) by (nonlinear_arith)
            requires
                i < area.rows@.len(),
                area.rows@.len() * KEY <= area.bottom - area.top,
        ;
        let top: u32 = area.top + KEY * (i as u32);
        let mut placed: Vec<Placed> = Vec::new();
        let mut x: u32 = area.left;
        let mut j: usize = 0;
        while j < row.len()
            invariant
                fits(*area),
                rv == row@,
                rv == rows_of(*area)[i as int],
                row_width(rv) <= area.right - area.left,
                i < area.rows@.len(),
                top == area.top + KEY * i,
                top + KEY <= area.bottom,
                j <= row@.len(),
                x == area.left + row_width(rv.take(j as int)),
                placed@.len() == j,
                forall|b: int| 0 <= b < j ==> placed_at(*area, i as int, b, #[trigger] placed@[b]),
                forall|b: int|
                    0 <= b < j ==> {
                        let p = #[trigger] placed@[b];
                        &&& area.left <= p.left <= p.right <= area.right
                        &&& area.top <= p.top < p.bottom <= area.bottom
                    },
            decreases row@.len() - j,
        {
            let (cell, width) = row[j];
            proof {
                assert(rv.take(j + 1).drop_last() =~= rv.take(j as int));
                lemma_prefix_width(rv, j + 1);
                lemma_prefix_width(rv, j as int);
            }
            let p = Placed { cell, left: x, top, right: x + width, bottom: top + KEY };
            placed.push(p);
            x = x + width;
            j = j + 1;
        }
        r.push(placed);
        i = i + 1;
    }
    r
}

/// The reference's own settings. The bindings themselves live in the
/// keybinds; this is just how they're drawn.
#[derive(Debug, Clone, Copy, PartialEq, Eq, Structural)]
pub struct KeybindReference {
    pub open: bool,
    pub show_key_names: bool,
    pub show_function_keys: bool,
    pub show_arrow_keys: bool,
    pub show_mouse_buttons: bool,
}

impl Default for KeybindReference {
    /// Closed; the arrow keys and the mouse buttons shown.
    fn default() -> (r: Self)
        ensures
            r == (KeybindReference {
                open: false,
                show_key_names: false,
                show_function_keys: false,
                show_arrow_keys: true,
                show_mouse_buttons: true,
            }),
    {
        KeybindReference {
            open: false,
            show_key_names: false,
            show_function_keys: false,
            show_arrow_keys: true,
            show_mouse_buttons: true,
        }
    }
}

/// The blocks shown: the main one always, then the others that are on.
pub open spec fn shown_blocks(settings: KeybindReference) -> Seq<Block> {
    let a = seq![Block::Main];
    let b = if settings.show_function_keys { a.push(Block::Function) } else { a };
    let c = if settings.show_arrow_keys { b.push(Block::Arrows) } else { b };
    if settings.show_mouse_buttons { c.push(Block::Mouse) } else { c }
}

/// The smallest rectangle holding every given one.
pub open spec fn span(rects: Seq<(u32, u32, u32, u32)>) -> (u32, u32, u32, u32)
    decreases rects.len(),
{
    if rects.len() <= 1 {
        rects[0]
    } else {
        let rest = span(rects.drop_last());
        let last = rects.last();
        (
            if last.0 < rest.0 { last.0 } else { rest.0 },
            if last.1 < rest.1 { last.1 } else { rest.1 },
            if last.2 > rest.2 { last.2 } else { rest.2 },
            if last.3 > rest.3 { last.3 } else { rest.3 },
        )
    }
}

impl KeybindReference {
    pub fn blocks(&self) -> (r: Vec<Block>)
        ensures
            r@ == shown_blocks(*self),
    {
        let mut r = vec![Block::Main];
        if self.show_function_keys {
            r.push(Block::Function);
        }
        if self.show_arrow_keys {
            r.push(Block::Arrows);
        }
        if self.show_mouse_buttons {
            r.push(Block::Mouse);
        }
        r
    }

    /// The shown blocks' extent in the grid, as left, top, right, bottom.
    pub fn extent(&self) -> (r: (u32, u32, u32, u32))
        ensures
            r == span(shown_blocks(*self).map_values(|b: Block| block_rect(b))),
    {
        let blocks = self.blocks();
        let ghost rects = blocks@.map_values(|b: Block| block_rect(b));
        let mut r = block_rect_of(blocks[0]);
        let mut i: usize = 1;
        while i < blocks.len()
            invariant
                1 <= i <= blocks@.len(),
                rects == blocks@.map_values(|b: Block| block_rect(b)),
                r == span(rects.take(i as int)),
            decreases blocks@.len() - i,
        {
            let b = block_rect_of(blocks[i]);
            assert(rects.take(i + 1).drop_last() =~= rects.take(i as int));
            r = (
                if b.0 < r.0 { b.0 } else { r.0 },
                if b.1 < r.1 { b.1 } else { r.1 },
                if b.2 > r.2 { b.2 } else { r.2 },
                if b.3 > r.3 { b.3 } else { r.3 },
            );
            i = i + 1;
        }
        assert(rects.take(i as int) =~= rects);
        r
    }
}

fn block_rect_of(block: Block) -> (r: (u32, u32, u32, u32))
    ensures
        r == block_rect(block),
{
    match block {
        Block::Function => (0, 0, 60, 4),
        Block::Main => (0, 5, 60, 25),
        Block::Arrows => (0, 26, 12, 34),
        Block::Mouse => (14, 26, 26, 30),
    }
}

/// The top letter row reads as on a QWERTY keyboard: tab, then q to p, the
/// two brackets and backslash, each cell standing for its key's variable.
pub proof fn lemma_top_row_is_qwerty()
    ensures
        top_row_cells().map_values(|c: (Cell, u32)| cell_variable(c.0)) == seq![
            Some("key_tab"@),
            Some("key_q"@),
            Some("key_w"@),
            Some("key_e"@),
            Some("key_r"@),
            Some("key_t"@),
            Some("key_y"@),
            Some("key_u"@),
            Some("key_i"@),
            Some("key_o"@),
            Some("key_p"@),
            Some("key_openbracket"@),
            Some("key_closebracket"@),
            Some("key_backslash"@)
        ],
{
    reveal_strlit("key_");
    reveal_strlit("tab");
    reveal_strlit("key_tab");
    reveal_strlit("q");
    reveal_strlit("key_q");
    reveal_strlit("w");
    reveal_strlit("key_w");
    reveal_strlit("e");
    reveal_strlit("key_e");
    reveal_strlit("r");
    reveal_strlit("key_r");
    reveal_strlit("t");
    reveal_strlit("key_t");
    reveal_strlit("y");
    reveal_strlit("key_y");
    reveal_strlit("u");
    reveal_strlit("key_u");
    reveal_strlit("i");
    reveal_strlit("key_i");
    reveal_strlit("o");
    reveal_strlit("key_o");
    reveal_strlit("p");
    reveal_strlit("key_p");
    reveal_strlit("openbracket");
    reveal_strlit("key_openbracket");
    reveal_strlit("closebracket");
    reveal_strlit("key_closebracket");
    reveal_strlit("backslash");
    reveal_strlit("key_backslash");
    assert("key_"@ + "tab"@ =~= "key_tab"@);
    assert("key_"@ + "q"@ =~= "key_q"@);
    assert("key_"@ + "w"@ =~= "key_w"@);
    assert("key_"@ + "e"@ =~= "key_e"@);
    assert("key_"@ + "r"@ =~= "key_r"@);
    assert("key_"@ + "t"@ =~= "key_t"@);
    assert("key_"@ + "y"@ =~= "key_y"@);
    assert("key_"@ + "u"@ =~= "key_u"@);
    assert("key_"@ + "i"@ =~= "key_i"@);
    assert("key_"@ + "o"@ =~= "key_o"@);
    assert("key_"@ + "p"@ =~= "key_p"@);
    assert("key_"@ + "openbracket"@ =~= "key_openbracket"@);
    assert("key_"@ + "closebracket"@ =~= "key_closebracket"@);
    assert("key_"@ + "backslash"@ =~= "key_backslash"@);
    assert(top_row_cells().map_values(|c: (Cell, u32)| cell_variable(c.0)) =~= seq![
        Some("key_tab"@),
            Some("key_q"@),
            Some("key_w"@),
            Some("key_e"@),
            Some("key_r"@),
            Some("key_t"@),
            Some("key_y"@),
            Some("key_u"@),
            Some("key_i"@),
            Some("key_o"@),
            Some("key_p"@),
            Some("key_openbracket"@),
            Some("key_closebracket"@),
            Some("key_backslash"@)
    ]);
}

/// The number row reads as on a QWERTY keyboard: backtick, the digits 1 to 0, minus, equals and backspace.
pub proof fn lemma_number_row_is_qwerty()
    ensures
        number_row_cells().map_values(|c: (Cell, u32)| cell_variable(c.0)) == seq![
            Some("key_backtick"@),
            Some("key_num1"@),
            Some("key_num2"@),
            Some("key_num3"@),
            Some("key_num4"@),
            Some("key_num5"@),
            Some("key_num6"@),
            Some("key_num7"@),
            Some("key_num8"@),
            Some("key_num9"@),
            Some("key_num0"@),
            Some("key_minus"@),
            Some("key_equals"@),
            Some("key_backspace"@)
        ],
{
    reveal_strlit("key_");
    reveal_strlit("backtick");
    reveal_strlit("key_backtick");
    assert("key_"@ + "backtick"@ =~= "key_backtick"@);
    reveal_strlit("num1");
    reveal_strlit("key_num1");
    assert("key_"@ + "num1"@ =~= "key_num1"@);
    reveal_strlit("num2");
    reveal_strlit("key_num2");
    assert("key_"@ + "num2"@ =~= "key_num2"@);
    reveal_strlit("num3");
    reveal_strlit("key_num3");
    assert("key_"@ + "num3"@ =~= "key_num3"@);
    reveal_strlit("num4");
    reveal_strlit("key_num4");
    assert("key_"@ + "num4"@ =~= "key_num4"@);
    reveal_strlit("num5");
    reveal_strlit("key_num5");
    assert("key_"@ + "num5"@ =~= "key_num5"@);
    reveal_strlit("num6");
    reveal_strlit("key_num6");
    assert("key_"@ + "num6"@ =~= "key_num6"@);
    reveal_strlit("num7");
    reveal_strlit("key_num7");
    assert("key_"@ + "num7"@ =~= "key_num7"@);
    reveal_strlit("num8");
    reveal_strlit("key_num8");
    assert("key_"@ + "num8"@ =~= "key_num8"@);
    reveal_strlit("num9");
    reveal_strlit("key_num9");
    assert("key_"@ + "num9"@ =~= "key_num9"@);
    reveal_strlit("num0");
    reveal_strlit("key_num0");
    assert("key_"@ + "num0"@ =~= "key_num0"@);
    reveal_strlit("minus");
    reveal_strlit("key_minus");
    assert("key_"@ + "minus"@ =~= "key_minus"@);
    reveal_strlit("equals");
    reveal_strlit("key_equals");
    assert("key_"@ + "equals"@ =~= "key_equals"@);
    reveal_strlit("backspace");
    reveal_strlit("key_backspace");
    assert("key_"@ + "backspace"@ =~= "key_backspace"@);
    assert(number_row_cells().map_values(|c: (Cell, u32)| cell_variable(c.0)) =~= seq![
        Some("key_backtick"@),
            Some("key_num1"@),
            Some("key_num2"@),
            Some("key_num3"@),
            Some("key_num4"@),
            Some("key_num5"@),
            Some("key_num6"@),
            Some("key_num7"@),
            Some("key_num8"@),
            Some("key_num9"@),
            Some("key_num0"@),
            Some("key_minus"@),
            Some("key_equals"@),
            Some("key_backspace"@)
    ]);
}

/// The home row reads as on a QWERTY keyboard: caps lock (not a variable), a to l, semicolon, quote and enter.
pub proof fn lemma_home_row_is_qwerty()
    ensures
        home_row_cells().map_values(|c: (Cell, u32)| cell_variable(c.0)) == seq![
            None::<Seq<char>>,
            Some("key_a"@),
            Some("key_s"@),
            Some("key_d"@),
            Some("key_f"@),
            Some("key_g"@),
            Some("key_h"@),
            Some("key_j"@),
            Some("key_k"@),
            Some("key_l"@),
            Some("key_semicolon"@),
            Some("key_quote"@),
            Some("key_enter"@)
        ],
{
    reveal_strlit("key_");
    reveal_strlit("a");
    reveal_strlit("key_a");
    assert("key_"@ + "a"@ =~= "key_a"@);
    reveal_strlit("s");
    reveal_strlit("key_s");
    assert("key_"@ + "s"@ =~= "key_s"@);
    reveal_strlit("d");
    reveal_strlit("key_d");
    assert("key_"@ + "d"@ =~= "key_d"@);
    reveal_strlit("f");
    reveal_strlit("key_f");
    assert("key_"@ + "f"@ =~= "key_f"@);
    reveal_strlit("g");
    reveal_strlit("key_g");
    assert("key_"@ + "g"@ =~= "key_g"@);
    reveal_strlit("h");
    reveal_strlit("key_h");
    assert("key_"@ + "h"@ =~= "key_h"@);
    reveal_strlit("j");
    reveal_strlit("key_j");
    assert("key_"@ + "j"@ =~= "key_j"@);
    reveal_strlit("k");
    reveal_strlit("key_k");
    assert("key_"@ + "k"@ =~= "key_k"@);
    reveal_strlit("l");
    reveal_strlit("key_l");
    assert("key_"@ + "l"@ =~= "key_l"@);
    reveal_strlit("semicolon");
    reveal_strlit("key_semicolon");
    assert("key_"@ + "semicolon"@ =~= "key_semicolon"@);
    reveal_strlit("quote");
    reveal_strlit("key_quote");
    assert("key_"@ + "quote"@ =~= "key_quote"@);
    reveal_strlit("enter");
    reveal_strlit("key_enter");
    assert("key_"@ + "enter"@ =~= "key_enter"@);
    assert(home_row_cells().map_values(|c: (Cell, u32)| cell_variable(c.0)) =~= seq![
        None::<Seq<char>>,
            Some("key_a"@),
            Some("key_s"@),
            Some("key_d"@),
            Some("key_f"@),
            Some("key_g"@),
            Some("key_h"@),
            Some("key_j"@),
            Some("key_k"@),
            Some("key_l"@),
            Some("key_semicolon"@),
            Some("key_quote"@),
            Some("key_enter"@)
    ]);
}

/// The bottom letter row reads as on a QWERTY keyboard: shift, z to m, comma, period, slash and shift again.
pub proof fn lemma_bottom_row_is_qwerty()
    ensures
        bottom_row_cells().map_values(|c: (Cell, u32)| cell_variable(c.0)) == seq![
            Some("key_shift"@),
            Some("key_z"@),
            Some("key_x"@),
            Some("key_c"@),
            Some("key_v"@),
            Some("key_b"@),
            Some("key_n"@),
            Some("key_m"@),
            Some("key_comma"@),
            Some("key_period"@),
            Some("key_slash"@),
            Some("key_shift"@)
        ],
{
    reveal_strlit("key_");
    reveal_strlit("z");
    reveal_strlit("key_z");
    assert("key_"@ + "z"@ =~= "key_z"@);
    reveal_strlit("x");
    reveal_strlit("key_x");
    assert("key_"@ + "x"@ =~= "key_x"@);
    reveal_strlit("c");
    reveal_strlit("key_c");
    assert("key_"@ + "c"@ =~= "key_c"@);
    reveal_strlit("v");
    reveal_strlit("key_v");
    assert("key_"@ + "v"@ =~= "key_v"@);
    reveal_strlit("b");
    reveal_strlit("key_b");
    assert("key_"@ + "b"@ =~= "key_b"@);
    reveal_strlit("n");
    reveal_strlit("key_n");
    assert("key_"@ + "n"@ =~= "key_n"@);
    reveal_strlit("m");
    reveal_strlit("key_m");
    assert("key_"@ + "m"@ =~= "key_m"@);
    reveal_strlit("comma");
    reveal_strlit("key_comma");
    assert("key_"@ + "comma"@ =~= "key_comma"@);
    reveal_strlit("period");
    reveal_strlit("key_period");
    assert("key_"@ + "period"@ =~= "key_period"@);
    reveal_strlit("slash");
    reveal_strlit("key_slash");
    assert("key_"@ + "slash"@ =~= "key_slash"@);
    assert(bottom_row_cells().map_values(|c: (Cell, u32)| cell_variable(c.0)) =~= seq![
        Some("key_shift"@),
            Some("key_z"@),
            Some("key_x"@),
            Some("key_c"@),
            Some("key_v"@),
            Some("key_b"@),
            Some("key_n"@),
            Some("key_m"@),
            Some("key_comma"@),
            Some("key_period"@),
            Some("key_slash"@),
            Some("key_shift"@)
    ]);
}

} // verus!
