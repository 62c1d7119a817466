//! Filters: sets of pieces named by the sides of their stickers, and the
//! sequences of stages that style each piece by the first sets it falls in.
//!
//! A set term is written the way the hsc filter tool writes one: `RU` is
//! every piece with both an R and a U sticker, `!F` every piece without an F
//! sticker, `RU!FL` both at once, and terms joined by ` + ` are their union.
use vstd::prelude::*;
use crate::bindings::Color;
use crate::puzzle::{Side, all_sides, side_text};
use crate::text::{owned, push_str};

verus! {

/// Where a side sits in `Side::all()`.
pub open spec fn side_index(side: Side) -> int {
    match side {
        Side::R => 0,
        Side::L => 1,
        Side::U => 2,
        Side::D => 3,
        Side::F => 4,
        Side::B => 5,
    }
}

fn index_of(side: Side) -> (r: usize)
    ensures
        r == side_index(side),
{
    match side {
        Side::R => 0,
        Side::L => 1,
        Side::U => 2,
        Side::D => 3,
        Side::F => 4,
        Side::B => 5,
    }
}

/// A set of sides, one flag per side in the order of `Side::all()`.
#[derive(Debug, Clone, Copy)]
pub struct SideSet {
    pub has: [bool; 6],
}

impl SideSet {
    pub open spec fn holds(self, side: Side) -> bool {
        self.has@[side_index(side)]
    }

    pub fn empty() -> (r: Self)
        ensures
            forall|side: Side| !(#[trigger] r.holds(side)),
    {
        SideSet { has: [false, false, false, false, false, false] }
    }

    pub fn contains(&self, side: Side) -> (r: bool)
        ensures
            r == self.holds(side),
    {
        self.has[index_of(side)]
    }

    pub fn insert(&mut self, side: Side)
        ensures
            forall|s: Side| #[trigger] final(self).holds(s) == (old(self).holds(s) || s == side),
    {
        let i = index_of(side);
        self.has[i] = true;
    }

    pub fn remove(&mut self, side: Side)
        ensures
            forall|s: Side| #[trigger] final(self).holds(s) == (old(self).holds(s) && s != side),
    {
        let i = index_of(side);
        self.has[i] = false;
    }

    /// The sides listed.
    pub fn of(sides: &Vec<Side>) -> (r: Self)
        ensures
            forall|s: Side| #[trigger] r.holds(s) == sides@.contains(s),
    {
        let mut r = SideSet::empty();
        let mut i: usize = 0;
        while i < sides.len()
            invariant
                i <= sides@.len(),
                forall|s: Side| #[trigger] r.holds(s) == sides@.take(i as int).contains(s),
            decreases sides@.len() - i,
        {
            r.insert(sides[i]);
            i = i + 1;
            assert forall|s: Side| #[trigger] r.holds(s) == sides@.take(i as int).contains(s) by {
                if sides@.take(i - 1).contains(s) {
                    let k = choose|k: int| 0 <= k < i - 1 && #[trigger] sides@.take(i - 1)[k] == s;
                    assert(sides@.take(i as int)[k] == s);
                }
                if s == sides@[i - 1] {
                    assert(sides@.take(i as int)[i - 1] == s);
                }
                if sides@.take(i as int).contains(s) {
                    let k = choose|k: int| 0 <= k < i && #[trigger] sides@.take(i as int)[k] == s;
                    if k < i - 1 {
                        assert(sides@.take(i - 1)[k] == s);
                    }
                }
            }
        }
        assert(sides@.take(i as int) =~= sides@);
        r
    }
}

/// The sides of a piece: those of its stickers that face a side.
pub fn piece_sides(stickers: &Vec<Option<Side>>) -> (r: SideSet)
    ensures
        forall|s: Side| #[trigger] r.holds(s) == stickers@.contains(Some(s)),
{
    let mut r = SideSet::empty();
    let mut i: usize = 0;
    while i < stickers.len()
        invariant
            i <= stickers@.len(),
            forall|s: Side| #[trigger] r.holds(s) == stickers@.take(i as int).contains(Some(s)),
        decreases stickers@.len() - i,
    {
        let ghost before = r;
        if let Some(side) = stickers[i] {
            r.insert(side);
        }
        i = i + 1;
        assert forall|s: Side| #[trigger] r.holds(s) == stickers@.take(i as int).contains(Some(s)) by {
            if stickers@.take(i - 1).contains(Some(s)) {
                let k = choose|k: int| 0 <= k < i - 1 && #[trigger] stickers@.take(i - 1)[k] == Some(s);
                assert(stickers@.take(i as int)[k] == Some(s));
            }
            if stickers@[i - 1] == Some(s) {
                assert(stickers@.take(i as int)[i - 1] == Some(s));
            }
            if stickers@.take(i as int).contains(Some(s)) {
                let k = choose|k: int| 0 <= k < i && #[trigger] stickers@.take(i as int)[k] == Some(s);
                if k < i - 1 {
                    assert(stickers@.take(i - 1)[k] == Some(s));
                }
            }
        }
    }
    assert(stickers@.take(i as int) =~= stickers@);
    r
}

/// The order a label lists sides in: R, U, F, L, D, B.
pub open spec fn label_sides() -> Seq<Side> {
    seq![Side::R, Side::U, Side::F, Side::L, Side::D, Side::B]
}

/// The sides in the order a label lists them.
fn label_order() -> (r: Vec<Side>)
    ensures
        r@ == label_sides(),
{
    let r = vec![Side::R, Side::U, Side::F, Side::L, Side::D, Side::B];
    assert(r@ =~= label_sides());
    r
}

/// The letters of the sides in `set` among the first `k` of
/// `label_sides()`, in that order.
pub open spec fn letters(set: SideSet, k: int) -> Seq<char>
    decreases k,
{
    if k <= 0 {
        seq![]
    } else {
        let side = label_sides()[k - 1];
        letters(set, k - 1) + if set.holds(side) { side_text(side) } else { seq![] }
    }
}

/// One term of a piece set: the pieces with every side of `must_have` and
/// none of `cant_have`.
#[derive(Debug, Clone, Copy)]
pub struct PieceSetTerm {
    pub must_have: SideSet,
    pub cant_have: SideSet,
}

/// Does the term hold a piece with these sides?
pub open spec fn term_holds(term: PieceSetTerm, piece: SideSet) -> bool {
    &&& forall|s: Side| #[trigger] term.must_have.holds(s) ==> piece.holds(s)
    &&& forall|s: Side| #[trigger] term.cant_have.holds(s) ==> !piece.holds(s)
}

/// A term's summary, e.g. `RU!FL`: the required sides, then `!` and the
/// excluded ones; `all` when it requires and excludes nothing.
pub open spec fn term_label(term: PieceSetTerm) -> Seq<char> {
    let must = letters(term.must_have, 6);
    let cant = letters(term.cant_have, 6);
    if must.len() == 0 && cant.len() == 0 {
        "all"@
    } else if cant.len() == 0 {
        must
    } else if must.len() == 0 {
        "!"@ + cant
    } else {
        must + "!"@ + cant
    }
}

/// The letters of a side set, in the order of `label_sides()`.
fn push_letters(s: &mut String, set: SideSet)
    ensures
        final(s)@ == old(s)@ + letters(set, 6),
{
    let sides = label_order();
    let mut i: usize = 0;
    while i < 6
        invariant
            sides@ == label_sides(),
            i <= 6,
            s@ == old(s)@ + letters(set, i as int),
        decreases 6 - i,
    {
        if set.contains(sides[i]) {
            push_str(s, sides[i].name());
        }
        i = i + 1;
    }
}

impl Default for PieceSetTerm {
    /// The term that holds every piece.
    fn default() -> (r: Self)
        ensures
            forall|s: Side| !(#[trigger] r.must_have.holds(s)) && !r.cant_have.holds(s),
    {
        PieceSetTerm { must_have: SideSet::empty(), cant_have: SideSet::empty() }
    }
}

impl PieceSetTerm {
    pub fn contains(&self, piece: SideSet) -> (r: bool)
        ensures
            r == term_holds(*self, piece),
    {
        let sides = Side::all();
        let mut i: usize = 0;
        while i < 6
            invariant
                sides@ == all_sides(),
                i <= 6,
                forall|k: int|
                    0 <= k < i ==> (self.must_have.holds(#[trigger] all_sides()[k]) ==> piece.holds(all_sides()[k]))
                        && (self.cant_have.holds(all_sides()[k]) ==> !piece.holds(all_sides()[k])),
            decreases 6 - i,
        {
            let side = sides[i];
            if self.must_have.contains(side) && !piece.contains(side) {
                return false;
            }
            if self.cant_have.contains(side) && piece.contains(side) {
                return false;
            }
            i = i + 1;
        }
        assert forall|s: Side| #[trigger] self.must_have.holds(s) implies piece.holds(s) by {
            assert(all_sides()[side_index(s)] == s);
        }
        assert forall|s: Side| #[trigger] self.cant_have.holds(s) implies !piece.holds(s) by {
            assert(all_sides()[side_index(s)] == s);
        }
        true
    }

    /// The hsc-style summary, e.g. `RU!FL`.
    pub fn label(&self) -> (r: String)
        ensures
            r@ == term_label(*self),
    {
        let mut must = String::new();
        push_letters(&mut must, self.must_have);
        let mut cant = String::new();
        push_letters(&mut cant, self.cant_have);
        assert(must@ =~= letters(self.must_have, 6));
        assert(cant@ =~= letters(self.cant_have, 6));
        let must_empty = must.as_str().unicode_len() == 0;
        let cant_empty = cant.as_str().unicode_len() == 0;
        if must_empty && cant_empty {
            owned("all")
        } else if cant_empty {
            must
        } else if must_empty {
            let mut s = owned("!");
            push_str(&mut s, cant.as_str());
            s
        } else {
            push_str(&mut must, "!");
            push_str(&mut must, cant.as_str());
            must
        }
    }
}

/// A union of terms.
pub struct PieceSet {
    pub terms: Vec<PieceSetTerm>,
}

/// The labels of `terms` joined by ` + `.
pub open spec fn joined_labels(terms: Seq<PieceSetTerm>) -> Seq<char>
    decreases terms.len(),
{
    if terms.len() == 0 {
        seq![]
    } else if terms.len() == 1 {
        term_label(terms[0])
    } else {
        joined_labels(terms.drop_last()) + " + "@ + term_label(terms.last())
    }
}

/// A set's summary: its terms' labels joined by ` + `, or `none` for the
/// empty union.
pub open spec fn set_label(terms: Seq<PieceSetTerm>) -> Seq<char> {
    if terms.len() == 0 {
        "none"@
    } else {
        joined_labels(terms)
    }
}

impl PieceSet {
    /// Does any term hold the piece?
    pub fn contains(&self, piece: SideSet) -> (r: bool)
        ensures
            r == exists|i: int| 0 <= i < self.terms@.len() && term_holds(#[trigger] self.terms@[i], piece),
    {
        let mut i: usize = 0;
        while i < self.terms.len()
            invariant
                i <= self.terms@.len(),
                forall|k: int| 0 <= k < i ==> !term_holds(#[trigger] self.terms@[k], piece),
            decreases self.terms@.len() - i,
        {
            if self.terms[i].contains(piece) {
                return true;
            }
            i = i + 1;
        }
        false
    }

    pub fn label(&self) -> (r: String)
        ensures
            r@ == set_label(self.terms@),
    {
        if self.terms.len() == 0 {
            return owned("none");
        }
        let mut s = self.terms[0].label();
        let mut i: usize = 1;
        assert(self.terms@.take(1).drop_last() =~= seq![]);
        while i < self.terms.len()
            invariant
                1 <= i <= self.terms@.len(),
                s@ == joined_labels(self.terms@.take(i as int)),
            decreases self.terms@.len() - i,
        {
            push_str(&mut s, " + ");
            let label = self.terms[i].label();
            push_str(&mut s, label.as_str());
            i = i + 1;
            assert(self.terms@.take(i as int).drop_last() =~= self.terms@.take(i - 1));
        }
        assert(self.terms@.take(i as int) =~= self.terms@);
        s
    }
}

/// How a face is filled: with its sticker's color or a fixed one.
#[derive(Debug, Clone, Copy, PartialEq, Eq, Structural)]
pub enum FaceColor {
    Sticker,
    Fixed(Color),
}

/// A style with every field set. `F` is the type of the amounts
/// (opacities and sizes), which this module carries and never computes on.
#[derive(Debug, Clone, Copy)]
pub struct CompleteStyle<F> {
    pub face_opacity: F,
    pub face_color: FaceColor,
    pub outline_opacity: F,
    pub outline_size: F,
    pub outline_color: Color,
}

/// A style whose unset fields fall through to another.
#[derive(Debug, Clone, Copy)]
pub struct PartialStyle<F> {
    pub face_opacity: Option<F>,
    pub face_color: Option<FaceColor>,
    pub outline_opacity: Option<F>,
    pub outline_size: Option<F>,
    pub outline_color: Option<Color>,
}

/// `a` if it is set, else `b`.
pub open spec fn first<T>(a: Option<T>, b: Option<T>) -> Option<T> {
    if a is Some {
        a
    } else {
        b
    }
}

/// `a`'s set fields, and `b`'s where `a` leaves one unset.
pub open spec fn or_style<F>(a: PartialStyle<F>, b: PartialStyle<F>) -> PartialStyle<F> {
    PartialStyle {
        face_opacity: first(a.face_opacity, b.face_opacity),
        face_color: first(a.face_color, b.face_color),
        outline_opacity: first(a.outline_opacity, b.outline_opacity),
        outline_size: first(a.outline_size, b.outline_size),
        outline_color: first(a.outline_color, b.outline_color),
    }
}

/// The style that sets nothing.
pub open spec fn no_style<F>() -> PartialStyle<F> {
    PartialStyle {
        face_opacity: None,
        face_color: None,
        outline_opacity: None,
        outline_size: None,
        outline_color: None,
    }
}

pub open spec fn partial_of<F>(c: CompleteStyle<F>) -> PartialStyle<F> {
    PartialStyle {
        face_opacity: Some(c.face_opacity),
        face_color: Some(c.face_color),
        outline_opacity: Some(c.outline_opacity),
        outline_size: Some(c.outline_size),
        outline_color: Some(c.outline_color),
    }
}

pub open spec fn or_default<T>(a: Option<T>, d: T) -> T {
    match a {
        Some(x) => x,
        None => d,
    }
}

/// `p` completed by `d` where it leaves a field unset.
pub open spec fn completed<F>(p: PartialStyle<F>, d: CompleteStyle<F>) -> CompleteStyle<F> {
    CompleteStyle {
        face_opacity: or_default(p.face_opacity, d.face_opacity),
        face_color: or_default(p.face_color, d.face_color),
        outline_opacity: or_default(p.outline_opacity, d.outline_opacity),
        outline_size: or_default(p.outline_size, d.outline_size),
        outline_color: or_default(p.outline_color, d.outline_color),
    }
}

fn first_of<T: Copy>(a: Option<T>, b: Option<T>) -> (r: Option<T>)
    ensures
        r == first(a, b),
{
    match a {
        Some(x) => Some(x),
        None => b,
    }
}

fn or_default_of<T: Copy>(a: Option<T>, d: T) -> (r: T)
    ensures
        r == or_default(a, d),
{
    match a {
        Some(x) => x,
        None => d,
    }
}

impl<F: Copy> CompleteStyle<F> {
    /// The same style with every field set.
    pub fn to_partial(&self) -> (r: PartialStyle<F>)
        ensures
            r == partial_of(*self),
    {
        PartialStyle {
            face_opacity: Some(self.face_opacity),
            face_color: Some(self.face_color),
            outline_opacity: Some(self.outline_opacity),
            outline_size: Some(self.outline_size),
            outline_color: Some(self.outline_color),
        }
    }
}

impl<F: Copy> PartialStyle<F> {
    pub fn none() -> (r: Self)
        ensures
            r == no_style::<F>(),
    {
        PartialStyle {
            face_opacity: None,
            face_color: None,
            outline_opacity: None,
            outline_size: None,
            outline_color: None,
        }
    }

    /// Field by field, this style's value where it has one, else `rhs`'s.
    pub fn or(&self, rhs: &Self) -> (r: Self)
        ensures
            r == or_style(*self, *rhs),
    {
        PartialStyle {
            face_opacity: first_of(self.face_opacity, rhs.face_opacity),
            face_color: first_of(self.face_color, rhs.face_color),
            outline_opacity: first_of(self.outline_opacity, rhs.outline_opacity),
            outline_size: first_of(self.outline_size, rhs.outline_size),
            outline_color: first_of(self.outline_color, rhs.outline_color),
        }
    }

    /// This style, completed by `default` where it leaves a field unset.
    pub fn unwrap_or(&self, default: &CompleteStyle<F>) -> (r: CompleteStyle<F>)
        ensures
            r == completed(*self, *default),
    {
        CompleteStyle {
            face_opacity: or_default_of(self.face_opacity, default.face_opacity),
            face_color: or_default_of(self.face_color, default.face_color),
            outline_opacity: or_default_of(self.outline_opacity, default.outline_opacity),
            outline_size: or_default_of(self.outline_size, default.outline_size),
            outline_color: or_default_of(self.outline_color, default.outline_color),
        }
    }
}

/// A style defined by the user, under its name.
pub struct UserStyle<F> {
    pub name: String,
    pub style: PartialStyle<F>,
}

/// The styles every filter can refer to: the builtin basic, hovered and
/// selected ones, and the user's.
pub struct Styles<F> {
    pub basic: CompleteStyle<F>,
    pub hovered: PartialStyle<F>,
    pub selected: PartialStyle<F>,
    pub user: Vec<UserStyle<F>>,
}

/// Which style the style editor edits.
#[derive(Debug, Clone, Copy, PartialEq, Eq, Structural)]
pub enum StyleIdx {
    Basic,
    Hovered,
    Selected,
    User(usize),
}

impl StyleIdx {
    /// The builtin styles, in the order the editor lists them.
    pub fn builtin() -> (r: Vec<StyleIdx>)
        ensures
            r@ == seq![StyleIdx::Basic, StyleIdx::Hovered, StyleIdx::Selected],
    {
        let r = vec![StyleIdx::Basic, StyleIdx::Hovered, StyleIdx::Selected];
        assert(r@ =~= seq![StyleIdx::Basic, StyleIdx::Hovered, StyleIdx::Selected]);
        r
    }
}

/// A style as a filter refers to it: written out, or one of the named
/// styles, which the filter follows when it is edited.
#[derive(Debug, Clone, Copy)]
pub enum FilterStyle<F> {
    Literal(PartialStyle<F>),
    Basic,
    Hovered,
    Selected,
    User(usize),
}

/// Does the style refer only to styles that exist?
pub open spec fn refers_ok<F>(style: FilterStyle<F>, styles: Styles<F>) -> bool {
    style matches FilterStyle::User(i) ==> i < styles.user@.len()
}

/// What a filter style sets.
pub open spec fn style_spec<F>(style: FilterStyle<F>, styles: Styles<F>) -> PartialStyle<F> {
    match style {
        FilterStyle::Literal(s) => s,
        FilterStyle::Basic => partial_of(styles.basic),
        FilterStyle::Hovered => styles.hovered,
        FilterStyle::Selected => styles.selected,
        FilterStyle::User(i) => styles.user@[i as int].style,
    }
}

impl<F: Copy> Styles<F> {
    /// The filter style that follows the style at `idx`.
    pub fn get(&self, idx: StyleIdx) -> (r: FilterStyle<F>)
        requires
            idx matches StyleIdx::User(i) ==> i < self.user@.len(),
        ensures
            refers_ok(r, *self),
            r matches FilterStyle::Basic <==> idx == StyleIdx::Basic,
            r matches FilterStyle::Hovered <==> idx == StyleIdx::Hovered,
            r matches FilterStyle::Selected <==> idx == StyleIdx::Selected,
            forall|i: usize| r matches FilterStyle::User(j) && j == i <==> idx == StyleIdx::User(i),
    {
        match idx {
            StyleIdx::Basic => FilterStyle::Basic,
            StyleIdx::Hovered => FilterStyle::Hovered,
            StyleIdx::Selected => FilterStyle::Selected,
            StyleIdx::User(i) => FilterStyle::User(i),
        }
    }
}

impl<F: Copy> FilterStyle<F> {
    /// What the editor calls the style.
    pub fn name(&self, styles: &Styles<F>) -> (r: String)
        requires
            refers_ok(*self, *styles),
        ensures
            r@ == match *self {
                FilterStyle::Literal(_) => "literal"@,
                FilterStyle::Basic => "basic"@,
                FilterStyle::Hovered => "hovered"@,
                FilterStyle::Selected => "selected"@,
                FilterStyle::User(i) => styles.user@[i as int].name@,
            },
    {
        match self {
            FilterStyle::Literal(_) => owned("literal"),
            FilterStyle::Basic => owned("basic"),
            FilterStyle::Hovered => owned("hovered"),
            FilterStyle::Selected => owned("selected"),
            FilterStyle::User(i) => styles.user[*i].name.clone(),
        }
    }

    /// The fields the style sets, as they are now.
    pub fn style(&self, styles: &Styles<F>) -> (r: PartialStyle<F>)
        requires
            refers_ok(*self, *styles),
        ensures
            r == style_spec(*self, *styles),
    {
        match self {
            FilterStyle::Literal(s) => *s,
            FilterStyle::Basic => styles.basic.to_partial(),
            FilterStyle::Hovered => styles.hovered,
            FilterStyle::Selected => styles.selected,
            FilterStyle::User(i) => styles.user[*i].style,
        }
    }
}

/// Does some term of the set hold the piece?
pub open spec fn set_holds(set: PieceSet, piece: SideSet) -> bool {
    exists|i: int| 0 <= i < set.terms@.len() && term_holds(#[trigger] set.terms@[i], piece)
}

/// A set of pieces and the style it gives them.
pub struct StageTerm<F> {
    pub set: PieceSet,
    pub style: FilterStyle<F>,
}

impl<F: Copy> StageTerm<F> {
    /// Every piece, in `style`.
    pub fn new(style: FilterStyle<F>) -> (r: Self)
        ensures
            r.style == style,
            r.set.terms@.len() == 1,
            forall|s: Side| !(#[trigger] r.set.terms@[0].must_have.holds(s)) && !r.set.terms@[0].cant_have.holds(s),
    {
        StageTerm { set: PieceSet { terms: vec![PieceSetTerm::default()] }, style }
    }

    /// The term's style, if its set holds the piece.
    pub fn get(&self, piece: SideSet, styles: &Styles<F>) -> (r: Option<PartialStyle<F>>)
        requires
            refers_ok(self.style, *styles),
        ensures
            r == if set_holds(self.set, piece) {
                Some(style_spec(self.style, *styles))
            } else {
                None
            },
    {
        if self.set.contains(piece) {
            Some(self.style.style(styles))
        } else {
            None
        }
    }
}

/// What a stage takes from the stage before it.
#[derive(Debug, Clone, Copy)]
pub enum IncludePrev<F> {
    /// nothing: unmatched pieces use the fallbacks.
    Dont,
    /// the style the previous stage gave the piece, where it matched it.
    Prev,
    /// this style, for the pieces the previous stage matched.
    Fixed(FilterStyle<F>),
}

/// Each piece scans the stage's terms; then, if it matched the previous
/// stage, takes what `include_prev` says; a piece matched nowhere takes the
/// fallback.
pub struct Stage<F> {
    pub name: String,
    pub terms: Vec<StageTerm<F>>,
    pub include_prev: IncludePrev<F>,
    /// fields the terms leave unset fall through to this, then to the
    /// sequence's fallback.
    pub fallback: FilterStyle<F>,
}

/// A set of one term that asks nothing of a piece, so it holds every one.
pub open spec fn holds_every_piece(set: PieceSet) -> bool {
    &&& set.terms@.len() == 1
    &&& forall|s: Side| !(#[trigger] set.terms@[0].must_have.holds(s)) && !set.terms@[0].cant_have.holds(s)
}

/// A new stage: named `name`, one term that styles every piece in `style`,
/// nothing taken from the stage before, and `style` as its fallback.
pub open spec fn is_fresh_stage<F>(st: Stage<F>, name: Seq<char>, style: FilterStyle<F>) -> bool {
    &&& st.name@ == name
    &&& st.terms@.len() == 1
    &&& st.terms@[0].style == style
    &&& holds_every_piece(st.terms@[0].set)
    &&& st.include_prev matches IncludePrev::Dont
    &&& st.fallback == style
}

impl<F: Copy> Stage<F> {
    /// One term that styles every piece in `default_style`, which is also the
    /// fallback.
    pub fn new(name: String, default_style: FilterStyle<F>) -> (r: Self)
        ensures
            is_fresh_stage(r, name@, default_style),
    {
        Stage {
            name,
            terms: vec![StageTerm::new(default_style)],
            include_prev: IncludePrev::Dont,
            fallback: default_style,
        }
    }
}

/// A named sequence of stages sharing a fallback.
pub struct Sequence<F> {
    pub name: String,
    /// fields the stage's fallback leaves unset fall through to this.
    pub fallback: FilterStyle<F>,
    pub stages: Vec<Stage<F>>,
}

impl<F: Copy> Sequence<F> {
    /// One stage, `stage 0`, of `default_style`.
    pub fn new(name: String, default_style: FilterStyle<F>) -> (r: Self)
        ensures
            r.name@ == name@,
            r.fallback == default_style,
            r.stages@.len() == 1,
            is_fresh_stage(r.stages@[0], "stage 0"@, default_style),
    {
        Sequence { name, fallback: default_style, stages: vec![Stage::new(owned("stage 0"), default_style)] }
    }
}

/// `p` if the piece got matched, else nothing.
pub open spec fn or_none<F>(p: Option<PartialStyle<F>>) -> PartialStyle<F> {
    match p {
        Some(s) => s,
        None => no_style(),
    }
}

/// The first `n` terms of a stage, read top-down like match arms: each one
/// that holds the piece fills the fields the ones before it left unset.
pub open spec fn terms_style<F>(terms: Seq<StageTerm<F>>, styles: Styles<F>, piece: SideSet) -> Option<PartialStyle<F>>
    decreases terms.len(),
{
    if terms.len() == 0 {
        None
    } else {
        let before = terms_style(terms.drop_last(), styles, piece);
        let t = terms.last();
        if set_holds(t.set, piece) {
            Some(or_style(or_none(before), style_spec(t.style, styles)))
        } else {
            before
        }
    }
}

/// The style stage `k` of `seq` gives the piece before any fallback, or
/// `None` if it never got matched.
pub open spec fn stage_style<F>(seq: Sequence<F>, styles: Styles<F>, piece: SideSet, k: nat) -> Option<PartialStyle<F>>
    decreases k,
{
    let stage = seq.stages@[k as int];
    let own = terms_style(stage.terms@, styles, piece);
    if k == 0 {
        own
    } else {
        match stage.include_prev {
            IncludePrev::Dont => own,
            IncludePrev::Prev => match stage_style(seq, styles, piece, (k - 1) as nat) {
                Some(p) => Some(or_style(or_none(own), p)),
                None => own,
            },
            IncludePrev::Fixed(style) => match stage_style(seq, styles, piece, (k - 1) as nat) {
                Some(_) => Some(or_style(or_none(own), style_spec(style, styles))),
                None => own,
            },
        }
    }
}

/// Every style a stage refers to exists.
pub open spec fn stage_ok<F>(stage: Stage<F>, styles: Styles<F>) -> bool {
    &&& forall|i: int| 0 <= i < stage.terms@.len() ==> refers_ok(#[trigger] stage.terms@[i].style, styles)
    &&& refers_ok(stage.fallback, styles)
    &&& stage.include_prev matches IncludePrev::Fixed(s) ==> refers_ok(s, styles)
}

/// Every style a sequence refers to exists.
pub open spec fn sequence_ok<F>(seq: Sequence<F>, styles: Styles<F>) -> bool {
    &&& refers_ok(seq.fallback, styles)
    &&& forall|i: int| 0 <= i < seq.stages@.len() ==> stage_ok(#[trigger] seq.stages@[i], styles)
}

impl<F: Copy> Sequence<F> {
    /// The style stage `stage_idx` gives the piece, `None` if it never got
    /// matched. `Some` of a style that sets nothing can come back, from a
    /// term that assigns that style.
    pub fn get_no_fallback(&self, piece: SideSet, stage_idx: usize, styles: &Styles<F>) -> (r: Option<PartialStyle<F>>)
        requires
            stage_idx < self.stages@.len(),
            sequence_ok(*self, *styles),
        ensures
            r == stage_style(*self, *styles, piece, stage_idx as nat),
        decreases stage_idx,
    {
        let stage = &self.stages[stage_idx];
        assert(stage_ok(*stage, *styles));
        let mut ret: Option<PartialStyle<F>> = None;
        let mut i: usize = 0;
        while i < stage.terms.len()
            invariant
                stage_ok(*stage, *styles),
                i <= stage.terms@.len(),
                ret == terms_style(stage.terms@.take(i as int), *styles, piece),
            decreases stage.terms@.len() - i,
        {
            assert(stage.terms@.take(i + 1).drop_last() =~= stage.terms@.take(i as int));
            assert(refers_ok(stage.terms@[i as int].style, *styles));
            match stage.terms[i].get(piece, styles) {
                Some(style) => {
                    // earlier terms win per field: later terms only fill what
                    // earlier matching terms left unset.
                    let base = match ret {
                        Some(p) => p,
                        None => PartialStyle::none(),
                    };
                    ret = Some(base.or(&style));
                },
                None => {},
            }
            i = i + 1;
        }
        assert(stage.terms@.take(i as int) =~= stage.terms@);
        if stage_idx > 0 {
            match &stage.include_prev {
                IncludePrev::Dont => {},
                IncludePrev::Prev => {
                    match self.get_no_fallback(piece, stage_idx - 1, styles) {
                        Some(style) => {
                            let base = match ret {
                                Some(p) => p,
                                None => PartialStyle::none(),
                            };
                            ret = Some(base.or(&style));
                        },
                        None => {},
                    }
                },
                IncludePrev::Fixed(style) => {
                    if self.get_no_fallback(piece, stage_idx - 1, styles).is_some() {
                        let base = match ret {
                            Some(p) => p,
                            None => PartialStyle::none(),
                        };
                        let fixed = style.style(styles);
                        ret = Some(base.or(&fixed));
                    }
                },
            }
        }
        ret
    }
}

/// Which stage the puzzle is displayed with, and the stage editor edits.
/// With `NoStage`, the entire puzzle is shown in the basic style.
#[derive(Debug, Clone, Copy, PartialEq, Eq, Structural)]
pub enum SelectedSeqStage {
    NoStage,
    Stage { seq: usize, stage: usize },
}

pub struct Filters<F> {
    pub styles: Styles<F>,
    /// the style shown in the style editor.
    pub selected_style_idx: StyleIdx,
    pub sequences: Vec<Sequence<F>>,
    pub selected_seq_stage: SelectedSeqStage,
}

impl<F> Filters<F> {
    /// Every style referred to exists, and the selected stage does.
    pub open spec fn wf(&self) -> bool {
        &&& forall|i: int| 0 <= i < self.sequences@.len() ==> sequence_ok(#[trigger] self.sequences@[i], self.styles)
        &&& match self.selected_seq_stage {
            SelectedSeqStage::NoStage => true,
            SelectedSeqStage::Stage { seq, stage } => seq < self.sequences@.len() && stage
                < self.sequences@[seq as int].stages@.len(),
        }
    }
}

/// The style a piece is drawn with: with no stage selected, the basic
/// style; otherwise the selected stage's style, falling through the stage's
/// fallback, then the sequence's, then the basic style.
pub open spec fn style_of_spec<F>(filters: Filters<F>, piece: SideSet) -> CompleteStyle<F> {
    match filters.selected_seq_stage {
        SelectedSeqStage::NoStage => filters.styles.basic,
        SelectedSeqStage::Stage { seq, stage } => {
            let sq = filters.sequences@[seq as int];
            let fallback = or_style(
                style_spec(sq.stages@[stage as int].fallback, filters.styles),
                style_spec(sq.fallback, filters.styles),
            );
            let styled = match stage_style(sq, filters.styles, piece, stage as nat) {
                None => fallback,
                Some(s) => or_style(s, fallback),
            };
            completed(styled, filters.styles.basic)
        },
    }
}

impl<F: Copy> Filters<F> {
    /// One sequence of one stage that draws every piece in the basic
    /// style, selected.
    pub fn new(styles: Styles<F>) -> (r: Self)
        ensures
            r.wf(),
            r.styles == styles,
            r.selected_style_idx == StyleIdx::Basic,
            r.sequences@.len() == 1,
            r.sequences@[0].name@ == "sequence 0"@,
            r.sequences@[0].fallback matches FilterStyle::Basic,
            r.sequences@[0].stages@.len() == 1,
            r.sequences@[0].stages@[0].name@ == "stage 0"@,
            r.sequences@[0].stages@[0].terms@.len() == 1,
            r.sequences@[0].stages@[0].terms@[0].style matches FilterStyle::Basic,
            r.sequences@[0].stages@[0].terms@[0].set.terms@.len() == 1,
            forall|s: Side|
                !(#[trigger] r.sequences@[0].stages@[0].terms@[0].set.terms@[0].must_have.holds(s))
                    && !r.sequences@[0].stages@[0].terms@[0].set.terms@[0].cant_have.holds(s),
            r.sequences@[0].stages@[0].include_prev matches IncludePrev::Dont,
            r.sequences@[0].stages@[0].fallback matches FilterStyle::Basic,
            r.selected_seq_stage == (SelectedSeqStage::Stage { seq: 0, stage: 0 }),
    {
        let sequences = vec![Sequence::new(owned("sequence 0"), FilterStyle::Basic)];
        let r = Filters {
            styles,
            selected_style_idx: StyleIdx::Basic,
            sequences,
            selected_seq_stage: SelectedSeqStage::Stage { seq: 0, stage: 0 },
        };
        assert(stage_ok(r.sequences@[0].stages@[0], r.styles));
        r
    }

    pub fn style_of(&self, piece: SideSet) -> (r: CompleteStyle<F>)
        requires
            self.wf(),
        ensures
            r == style_of_spec(*self, piece),
    {
        match self.selected_seq_stage {
            SelectedSeqStage::NoStage => self.styles.basic,
            SelectedSeqStage::Stage { seq: seq_idx, stage: stage_idx } => {
                let seq = &self.sequences[seq_idx];
                assert(sequence_ok(*seq, self.styles));
                let stage = &seq.stages[stage_idx];
                assert(stage_ok(*stage, self.styles));
                let fallback = stage.fallback.style(&self.styles).or(&seq.fallback.style(&self.styles));
                let styled = match seq.get_no_fallback(piece, stage_idx, &self.styles) {
                    None => fallback,
                    Some(style) => style.or(&fallback),
                };
                styled.unwrap_or(&self.styles.basic)
            },
        }
    }

    /// The style a piece is drawn with, with the hover and the selection
    /// on top: the hovered style's fields first, then the selected style's,
    /// then the filtered style.
    pub fn style_of_state(&self, piece: SideSet, hovered: bool, selected: bool) -> (r: CompleteStyle<F>)
        requires
            self.wf(),
        ensures
            r == completed(
                or_style(
                    if hovered { self.styles.hovered } else { no_style() },
                    if selected { self.styles.selected } else { no_style() },
                ),
                style_of_spec(*self, piece),
            ),
    {
        let base = self.style_of(piece);
        let hover = if hovered { self.styles.hovered } else { PartialStyle::none() };
        let select = if selected { self.styles.selected } else { PartialStyle::none() };
        hover.or(&select).unwrap_or(&base)
    }

    /// The stage the puzzle is displayed with, if any.
    pub fn selected_stage(&self) -> (r: Option<&Stage<F>>)
        requires
            self.wf(),
        ensures
            match self.selected_seq_stage {
                SelectedSeqStage::NoStage => r is None,
                SelectedSeqStage::Stage { seq, stage } => r == Some(
                    &self.sequences@[seq as int].stages@[stage as int],
                ),
            },
    {
        match self.selected_seq_stage {
            SelectedSeqStage::NoStage => None,
            SelectedSeqStage::Stage { seq, stage } => Some(&self.sequences[seq].stages[stage]),
        }
    }
}

/// Merging styles is associative, so a chain of fallbacks reads the same
/// however it is grouped.
pub proof fn lemma_or_assoc<F>(a: PartialStyle<F>, b: PartialStyle<F>, c: PartialStyle<F>)
    ensures
        or_style(or_style(a, b), c) == or_style(a, or_style(b, c)),
{
}

/// The style that sets nothing changes nothing, on either side.
pub proof fn lemma_or_none<F>(a: PartialStyle<F>)
    ensures
        or_style(no_style(), a) == a,
        or_style(a, no_style()) == a,
{
}

/// A field a style sets survives whatever it falls through to.
pub proof fn lemma_or_keeps_set_fields<F>(a: PartialStyle<F>, b: PartialStyle<F>)
    ensures
        a.face_opacity is Some ==> or_style(a, b).face_opacity == a.face_opacity,
        a.face_color is Some ==> or_style(a, b).face_color == a.face_color,
        a.outline_opacity is Some ==> or_style(a, b).outline_opacity == a.outline_opacity,
        a.outline_size is Some ==> or_style(a, b).outline_size == a.outline_size,
        a.outline_color is Some ==> or_style(a, b).outline_color == a.outline_color,
{
}

/// Terms none of which holds the piece leave it unmatched.
pub proof fn lemma_no_match<F>(terms: Seq<StageTerm<F>>, styles: Styles<F>, piece: SideSet)
    requires
        forall|j: int| 0 <= j < terms.len() ==> !set_holds(#[trigger] terms[j].set, piece),
    ensures
        terms_style(terms, styles, piece) is None,
    decreases terms.len(),
{
    if terms.len() > 0 {
        lemma_no_match(terms.drop_last(), styles, piece);
    }
}

/// Terms read top-down like match arms: the first term that holds the piece
/// gives it its style, and the terms after it only fill the fields that
/// style leaves unset.
pub proof fn lemma_earlier_terms_win<F>(terms: Seq<StageTerm<F>>, styles: Styles<F>, piece: SideSet, k: int)
    requires
        0 <= k < terms.len(),
        set_holds(terms[k].set, piece),
        forall|j: int| 0 <= j < k ==> !set_holds(#[trigger] terms[j].set, piece),
    ensures
        terms_style(terms, styles, piece) == Some(
            or_style(
                style_spec(terms[k].style, styles),
                or_none(terms_style(terms.subrange(k + 1, terms.len() as int), styles, piece)),
            ),
        ),
    decreases terms.len(),
{
    let n = terms.len() as int;
    let sk = style_spec(terms[k].style, styles);
    if k == n - 1 {
        lemma_no_match(terms.drop_last(), styles, piece);
        assert(terms.subrange(k + 1, n).len() == 0);
    } else {
        let front = terms.drop_last();
        lemma_earlier_terms_win(front, styles, piece, k);
        let rest = terms.subrange(k + 1, n);
        assert(rest.drop_last() =~= front.subrange(k + 1, n - 1));
        assert(rest.last() == terms.last());
        let inner = or_none(terms_style(front.subrange(k + 1, n - 1), styles, piece));
        lemma_or_assoc(sk, inner, style_spec(terms.last().style, styles));
    }
}

/// A piece the selected stage never matched is drawn in the stage's
/// fallback, then the sequence's where that leaves a field unset, then the
/// basic style.
pub proof fn lemma_unmatched_falls_through<F>(filters: Filters<F>, piece: SideSet, seq: usize, stage: usize)
    requires
        filters.selected_seq_stage == (SelectedSeqStage::Stage { seq, stage }),
        stage_style(filters.sequences@[seq as int], filters.styles, piece, stage as nat) is None,
    ensures
        style_of_spec(filters, piece) == completed(
            or_style(
                style_spec(filters.sequences@[seq as int].stages@[stage as int].fallback, filters.styles),
                style_spec(filters.sequences@[seq as int].fallback, filters.styles),
            ),
            filters.styles.basic,
        ),
{
}

/// Every field `own` sets keeps its value in `r`, and every field it leaves
/// unset has the value `under` gives it.
pub open spec fn over<F>(r: PartialStyle<F>, own: PartialStyle<F>, under: PartialStyle<F>) -> bool {
    &&& r.face_opacity == if own.face_opacity is Some { own.face_opacity } else { under.face_opacity }
    &&& r.face_color == if own.face_color is Some { own.face_color } else { under.face_color }
    &&& r.outline_opacity == if own.outline_opacity is Some {
        own.outline_opacity
    } else {
        under.outline_opacity
    }
    &&& r.outline_size == if own.outline_size is Some { own.outline_size } else { under.outline_size }
    &&& r.outline_color == if own.outline_color is Some { own.outline_color } else { under.outline_color }
}

/// A stage that includes the previous stage's style keeps every field its
/// own terms set for the piece; the previous stage, or the fixed style it
/// is given, only fills the fields they leave unset, and only for pieces
/// the previous stage matched. A piece neither matched is unmatched.
pub proof fn lemma_own_terms_win_over_prev<F>(seq: Sequence<F>, styles: Styles<F>, piece: SideSet, k: nat)
    requires
        0 < k < seq.stages@.len(),
    ensures
        ({
            let stage = seq.stages@[k as int];
            let own = terms_style(stage.terms@, styles, piece);
            let prev = stage_style(seq, styles, piece, (k - 1) as nat);
            let r = stage_style(seq, styles, piece, k);
            &&& stage.include_prev matches IncludePrev::Prev ==> match (own, prev) {
                (Some(o), Some(p)) => r matches Some(x) && over(x, o, p),
                (None, Some(p)) => r == Some(p),
                (_, None) => r == own,
            }
            &&& stage.include_prev matches IncludePrev::Fixed(f) ==> match (own, prev) {
                (Some(o), Some(_)) => r matches Some(x) && over(x, o, style_spec(f, styles)),
                (None, Some(_)) => r == Some(style_spec(f, styles)),
                (_, None) => r == own,
            }
            &&& stage.include_prev matches IncludePrev::Dont ==> r == own
        }),
{
    let stage = seq.stages@[k as int];
    let own = terms_style(stage.terms@, styles, piece);
    if own is None {
        lemma_or_none(no_style::<F>());
        match stage_style(seq, styles, piece, (k - 1) as nat) {
            Some(p) => {
                assert(or_style(no_style::<F>(), p) =~= p);
                match stage.include_prev {
                    IncludePrev::Fixed(f) => {
                        assert(or_style(no_style::<F>(), style_spec(f, styles)) =~= style_spec(f, styles));
                    },
                    _ => {},
                }
            },
            None => {},
        }
    }
}

} // verus!
