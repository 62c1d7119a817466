//! The edits the filter editor makes: cycling a side of a set term, adding
//! and removing sequences, stages and user styles, and keeping the
//! selection pointing at something that exists.
use vstd::prelude::*;
use crate::filters::{
    FilterStyle, Filters, IncludePrev, PartialStyle, PieceSet, PieceSetTerm, SelectedSeqStage, Sequence,
    SideSet, Stage, StageTerm, StyleIdx, Styles, UserStyle, partial_of, refers_ok, sequence_ok, set_holds,
    stage_ok, stage_style, is_fresh_stage, holds_every_piece, style_of_spec, style_spec, terms_style,
};
use crate::puzzle::Side;
use crate::text::{int_text, numbered, owned, push_str};

verus! {

/// What a set term says of one side.
#[derive(Debug, Clone, Copy, PartialEq, Eq, Structural)]
pub enum SideState {
    /// pieces may or may not have it.
    May,
    /// pieces must have it.
    Must,
    /// pieces must not have it.
    Cant,
}

impl SideState {
    /// A left click's cycle: may, must, can't, may.
    pub fn next(self) -> (r: SideState)
        ensures
            r == match self {
                SideState::May => SideState::Must,
                SideState::Must => SideState::Cant,
                SideState::Cant => SideState::May,
            },
    {
        match self {
            SideState::May => SideState::Must,
            SideState::Must => SideState::Cant,
            SideState::Cant => SideState::May,
        }
    }

    /// A right click's cycle, the other way round.
    pub fn prev(self) -> (r: SideState)
        ensures
            r == match self {
                SideState::May => SideState::Cant,
                SideState::Must => SideState::May,
                SideState::Cant => SideState::Must,
            },
    {
        match self {
            SideState::May => SideState::Cant,
            SideState::Must => SideState::May,
            SideState::Cant => SideState::Must,
        }
    }
}

/// A right click undoes a left click, and the other way round.
pub proof fn lemma_cycles_undo(s: SideState)
    ensures
        ({
            let n = match s {
                SideState::May => SideState::Must,
                SideState::Must => SideState::Cant,
                SideState::Cant => SideState::May,
            };
            let p = match n {
                SideState::May => SideState::Cant,
                SideState::Must => SideState::May,
                SideState::Cant => SideState::Must,
            };
            p == s
        }),
{
}

/// What the term says of a side; a side in both sets reads as required.
pub open spec fn side_state_spec(term: PieceSetTerm, side: Side) -> SideState {
    if term.must_have.holds(side) {
        SideState::Must
    } else if term.cant_have.holds(side) {
        SideState::Cant
    } else {
        SideState::May
    }
}

impl PieceSetTerm {
    pub fn side_state(&self, side: Side) -> (r: SideState)
        ensures
            r == side_state_spec(*self, side),
    {
        if self.must_have.contains(side) {
            SideState::Must
        } else if self.cant_have.contains(side) {
            SideState::Cant
        } else {
            SideState::May
        }
    }

    /// Make the term say `state` of `side`, and nothing else of it.
    pub fn set_side_state(&mut self, side: Side, state: SideState)
        ensures
            final(self).must_have.holds(side) == (state == SideState::Must),
            final(self).cant_have.holds(side) == (state == SideState::Cant),
            side_state_spec(*final(self), side) == state,
            forall|s: Side|
                s != side ==> #[trigger] final(self).must_have.holds(s) == old(self).must_have.holds(s)
                    && final(self).cant_have.holds(s) == old(self).cant_have.holds(s),
    {
        self.must_have.remove(side);
        self.cant_have.remove(side);
        match state {
            SideState::May => {},
            SideState::Must => self.must_have.insert(side),
            SideState::Cant => self.cant_have.insert(side),
        }
    }
}

fn copy_set(set: &PieceSet) -> (r: PieceSet)
    ensures
        r.terms@ == set.terms@,
{
    let mut terms: Vec<PieceSetTerm> = Vec::new();
    let mut i: usize = 0;
    while i < set.terms.len()
        invariant
            i <= set.terms@.len(),
            terms@ == set.terms@.take(i as int),
        decreases set.terms@.len() - i,
    {
        terms.push(set.terms[i]);
        i = i + 1;
        assert(terms@ =~= set.terms@.take(i as int));
    }
    assert(set.terms@.take(i as int) =~= set.terms@);
    PieceSet { terms }
}

/// Two stage terms hold the same sets in the same style.
pub open spec fn same_term<F>(a: StageTerm<F>, b: StageTerm<F>) -> bool {
    a.set.terms@ == b.set.terms@ && a.style == b.style
}

/// Two stages agree in everything but their names.
pub open spec fn same_stage<F>(a: Stage<F>, b: Stage<F>) -> bool {
    &&& a.terms@.len() == b.terms@.len()
    &&& forall|i: int| 0 <= i < a.terms@.len() ==> same_term(#[trigger] a.terms@[i], b.terms@[i])
    &&& a.include_prev == b.include_prev
    &&& a.fallback == b.fallback
}

impl<F: Copy> Stage<F> {
    /// A copy of the stage under another name.
    pub fn copy_named(&self, name: String) -> (r: Stage<F>)
        ensures
            r.name@ == name@,
            same_stage(r, *self),
    {
        let mut terms: Vec<StageTerm<F>> = Vec::new();
        let mut i: usize = 0;
        while i < self.terms.len()
            invariant
                i <= self.terms@.len(),
                terms@.len() == i,
                forall|k: int| 0 <= k < i ==> same_term(#[trigger] terms@[k], self.terms@[k]),
            decreases self.terms@.len() - i,
        {
            let t = &self.terms[i];
            terms.push(StageTerm { set: copy_set(&t.set), style: t.style });
            i = i + 1;
        }
        Stage { name, terms, include_prev: self.include_prev, fallback: self.fallback }
    }
}

impl<F: Copy> Filters<F> {
    /// Select a stage, or nothing.
    pub fn select(&mut self, selection: SelectedSeqStage)
        requires
            old(self).wf(),
            selection matches SelectedSeqStage::Stage { seq, stage } ==> seq < old(self).sequences@.len()
                && stage < old(self).sequences@[seq as int].stages@.len(),
        ensures
            final(self).wf(),
            final(self).selected_seq_stage == selection,
            final(self).sequences == old(self).sequences,
            final(self).styles == old(self).styles,
            final(self).selected_style_idx == old(self).selected_style_idx,
    {
        self.selected_seq_stage = selection;
    }

    /// Append a new sequence of one stage, in the basic style, named by how
    /// many there were.
    pub fn add_sequence(&mut self)
        requires
            old(self).wf(),
            old(self).sequences@.len() < i64::MAX,
        ensures
            final(self).wf(),
            final(self).sequences@.len() == old(self).sequences@.len() + 1,
            forall|i: int|
                0 <= i < old(self).sequences@.len() ==> #[trigger] final(self).sequences@[i] == old(self).sequences@[i],
            final(self).sequences@.last().name@ == "sequence "@ + int_text(old(self).sequences@.len() as int),
            final(self).sequences@.last().fallback == FilterStyle::<F>::Basic,
            final(self).sequences@.last().stages@.len() == 1,
            is_fresh_stage(final(self).sequences@.last().stages@[0], "stage 0"@, FilterStyle::<F>::Basic),
            final(self).selected_seq_stage == old(self).selected_seq_stage,
            final(self).styles == old(self).styles,
    {
        let name = numbered("sequence ", self.sequences.len());
        let seq = Sequence::new(name, FilterStyle::Basic);
        self.sequences.push(seq);
        assert forall|i: int| 0 <= i < self.sequences@.len() implies sequence_ok(
            #[trigger] self.sequences@[i],
            self.styles,
        ) by {
            if i == self.sequences@.len() - 1 {
                assert(stage_ok(self.sequences@[i].stages@[0], self.styles));
            } else {
                assert(self.sequences@[i] == old(self).sequences@[i]);
            }
        }
    }

    /// Remove a sequence. A selection inside it goes; one in a later
    /// sequence follows it down.
    pub fn remove_sequence(&mut self, seq_idx: usize)
        requires
            old(self).wf(),
            seq_idx < old(self).sequences@.len(),
        ensures
            final(self).wf(),
            final(self).sequences@ == old(self).sequences@.remove(seq_idx as int),
            final(self).selected_seq_stage == match old(self).selected_seq_stage {
                SelectedSeqStage::NoStage => SelectedSeqStage::NoStage,
                SelectedSeqStage::Stage { seq, stage } => if seq == seq_idx {
                    SelectedSeqStage::NoStage
                } else if seq > seq_idx {
                    SelectedSeqStage::Stage { seq: (seq - 1) as usize, stage }
                } else {
                    SelectedSeqStage::Stage { seq, stage }
                },
            },
            final(self).styles == old(self).styles,
    {
        let ghost before = self.sequences@;
        self.sequences.remove(seq_idx);
        assert forall|i: int| 0 <= i < self.sequences@.len() implies sequence_ok(
            #[trigger] self.sequences@[i],
            self.styles,
        ) by {
            if i < seq_idx {
                assert(self.sequences@[i] == before[i]);
            } else {
                assert(self.sequences@[i] == before[i + 1]);
            }
        }
        match self.selected_seq_stage {
            SelectedSeqStage::NoStage => {},
            SelectedSeqStage::Stage { seq, stage } => {
                if seq == seq_idx {
                    self.selected_seq_stage = SelectedSeqStage::NoStage;
                } else if seq > seq_idx {
                    self.selected_seq_stage = SelectedSeqStage::Stage { seq: seq - 1, stage };
                    assert(self.sequences@[seq - 1] == before[seq as int]);
                } else {
                    assert(self.sequences@[seq as int] == before[seq as int]);
                }
            },
        }
    }

    /// Append a stage to a sequence: a copy of the selected stage, named
    /// "<name> copy", or a fresh basic one when nothing is selected.
    pub fn append_stage(&mut self, seq_idx: usize)
        requires
            old(self).wf(),
            seq_idx < old(self).sequences@.len(),
            old(self).sequences@[seq_idx as int].stages@.len() < i64::MAX,
        ensures
            final(self).wf(),
            final(self).sequences@.len() == old(self).sequences@.len(),
            final(self).sequences@[seq_idx as int].stages@.len() == old(self).sequences@[seq_idx as int].stages@.len()
                + 1,
            final(self).sequences@[seq_idx as int].name == old(self).sequences@[seq_idx as int].name,
            final(self).sequences@[seq_idx as int].fallback == old(self).sequences@[seq_idx as int].fallback,
            forall|j: int|
                0 <= j < old(self).sequences@[seq_idx as int].stages@.len()
                    ==> #[trigger] final(self).sequences@[seq_idx as int].stages@[j]
                    == old(self).sequences@[seq_idx as int].stages@[j],
            ({
                let added = final(self).sequences@[seq_idx as int].stages@.last();
                match old(self).selected_seq_stage {
                    SelectedSeqStage::Stage { seq, stage } => {
                        let sel = old(self).sequences@[seq as int].stages@[stage as int];
                        added.name@ == sel.name@ + " copy"@ && same_stage(added, sel)
                    },
                    SelectedSeqStage::NoStage => is_fresh_stage(
                        added,
                        "stage "@ + int_text(old(self).sequences@[seq_idx as int].stages@.len() as int),
                        FilterStyle::<F>::Basic,
                    ),
                }
            }),
            forall|i: int|
                0 <= i < old(self).sequences@.len() && i != seq_idx ==> #[trigger] final(self).sequences@[i]
                    == old(self).sequences@[i],
            final(self).selected_seq_stage == old(self).selected_seq_stage,
            final(self).styles == old(self).styles,
    {
        let stage = match self.selected_seq_stage {
            SelectedSeqStage::Stage { seq, stage } => {
                let sel = &self.sequences[seq].stages[stage];
                let mut name = sel.name.clone();
                push_str(&mut name, " copy");
                sel.copy_named(name)
            },
            SelectedSeqStage::NoStage => {
                let name = numbered("stage ", self.sequences[seq_idx].stages.len());
                Stage::new(name, FilterStyle::Basic)
            },
        };
        proof {
            match self.selected_seq_stage {
                SelectedSeqStage::Stage { seq, stage: st } => {
                    let sel = self.sequences@[seq as int].stages@[st as int];
                    assert(sequence_ok(self.sequences@[seq as int], self.styles));
                    assert(stage_ok(sel, self.styles));
                    assert forall|i: int| 0 <= i < stage.terms@.len() implies refers_ok(
                        #[trigger] stage.terms@[i].style,
                        self.styles,
                    ) by {
                        assert(same_term(stage.terms@[i], sel.terms@[i]));
                    }
                },
                SelectedSeqStage::NoStage => {},
            }
            assert(stage_ok(stage, self.styles));
        }
        let mut seqs: Vec<Sequence<F>> = Vec::new();
        std::mem::swap(&mut seqs, &mut self.sequences);
        let ghost before = seqs@;
        let mut seq = seqs.remove(seq_idx);
        seq.stages.push(stage);
        seqs.insert(seq_idx, seq);
        std::mem::swap(&mut seqs, &mut self.sequences);
        assert forall|i: int| 0 <= i < self.sequences@.len() implies sequence_ok(
            #[trigger] self.sequences@[i],
            self.styles,
        ) by {
            if i == seq_idx {
                assert forall|j: int| 0 <= j < self.sequences@[i].stages@.len() implies stage_ok(
                    #[trigger] self.sequences@[i].stages@[j],
                    self.styles,
                ) by {
                    if j < before[i].stages@.len() {
                        assert(self.sequences@[i].stages@[j] == before[i].stages@[j]);
                        assert(sequence_ok(before[i], self.styles));
                    }
                }
            } else {
                assert(self.sequences@[i] == before[i]);
            }
        }
        match self.selected_seq_stage {
            SelectedSeqStage::Stage { seq, stage } => {
                if seq == seq_idx {
                    assert(self.sequences@[seq as int].stages@[stage as int] == before[seq as int].stages@[stage as int]);
                } else {
                    assert(self.sequences@[seq as int] == before[seq as int]);
                }
            },
            SelectedSeqStage::NoStage => {},
        }
    }

    /// Remove a stage from a sequence that has another. A selection in that
    /// sequence stays on its stage number while it exists, else moves to
    /// the new last stage.
    pub fn remove_stage(&mut self, seq_idx: usize, stage_idx: usize)
        requires
            old(self).wf(),
            seq_idx < old(self).sequences@.len(),
            stage_idx < old(self).sequences@[seq_idx as int].stages@.len(),
            old(self).sequences@[seq_idx as int].stages@.len() > 1,
        ensures
            final(self).wf(),
            final(self).sequences@.len() == old(self).sequences@.len(),
            final(self).sequences@[seq_idx as int].stages@ == old(self).sequences@[seq_idx as int].stages@.remove(
                stage_idx as int,
            ),
            final(self).sequences@[seq_idx as int].name == old(self).sequences@[seq_idx as int].name,
            final(self).sequences@[seq_idx as int].fallback == old(self).sequences@[seq_idx as int].fallback,
            forall|i: int|
                0 <= i < old(self).sequences@.len() && i != seq_idx ==> #[trigger] final(self).sequences@[i]
                    == old(self).sequences@[i],
            final(self).selected_seq_stage == match old(self).selected_seq_stage {
                SelectedSeqStage::Stage { seq, stage } => if seq == seq_idx {
                    let last = old(self).sequences@[seq_idx as int].stages@.len() - 2;
                    SelectedSeqStage::Stage { seq, stage: if stage < last { stage } else { last as usize } }
                } else {
                    SelectedSeqStage::Stage { seq, stage }
                },
                SelectedSeqStage::NoStage => SelectedSeqStage::NoStage,
            },
            final(self).styles == old(self).styles,
    {
        let mut seqs: Vec<Sequence<F>> = Vec::new();
        std::mem::swap(&mut seqs, &mut self.sequences);
        let ghost before = seqs@;
        let mut seq = seqs.remove(seq_idx);
        let ghost stages0 = seq.stages@;
        seq.stages.remove(stage_idx);
        let last = seq.stages.len() - 1;
        seqs.insert(seq_idx, seq);
        std::mem::swap(&mut seqs, &mut self.sequences);
        assert forall|i: int| 0 <= i < self.sequences@.len() implies sequence_ok(
            #[trigger] self.sequences@[i],
            self.styles,
        ) by {
            if i == seq_idx {
                assert(sequence_ok(before[i], self.styles));
                assert forall|j: int| 0 <= j < self.sequences@[i].stages@.len() implies stage_ok(
                    #[trigger] self.sequences@[i].stages@[j],
                    self.styles,
                ) by {
                    if j < stage_idx {
                        assert(self.sequences@[i].stages@[j] == stages0[j]);
                    } else {
                        assert(self.sequences@[i].stages@[j] == stages0[j + 1]);
                    }
                }
            } else {
                assert(self.sequences@[i] == before[i]);
            }
        }
        match self.selected_seq_stage {
            SelectedSeqStage::Stage { seq, stage } => {
                if seq == seq_idx {
                    let s = if stage < last { stage } else { last };
                    self.selected_seq_stage = SelectedSeqStage::Stage { seq, stage: s };
                } else {
                    assert(self.sequences@[seq as int] == before[seq as int]);
                }
            },
            SelectedSeqStage::NoStage => {},
        }
    }
}

/// A reference to the user style `removed` after it is removed: the style
/// itself, written out, so what was drawn with it still is; references to
/// later user styles move down one.
pub open spec fn remap<F>(s: FilterStyle<F>, removed: int, gone: PartialStyle<F>) -> FilterStyle<F> {
    match s {
        FilterStyle::User(i) => if i == removed {
            FilterStyle::Literal(gone)
        } else if i > removed {
            FilterStyle::User((i - 1) as usize)
        } else {
            s
        },
        _ => s,
    }
}

pub open spec fn remap_prev<F>(p: IncludePrev<F>, removed: int, gone: PartialStyle<F>) -> IncludePrev<F> {
    match p {
        IncludePrev::Fixed(s) => IncludePrev::Fixed(remap(s, removed, gone)),
        _ => p,
    }
}

/// `b` is `a` with every style reference remapped.
pub open spec fn remapped_stage<F>(a: Stage<F>, b: Stage<F>, removed: int, gone: PartialStyle<F>) -> bool {
    &&& b.name@ == a.name@
    &&& b.terms@.len() == a.terms@.len()
    &&& forall|k: int|
        0 <= k < a.terms@.len() ==> (#[trigger] b.terms@[k]).set.terms@ == a.terms@[k].set.terms@
            && b.terms@[k].style == remap(a.terms@[k].style, removed, gone)
    &&& b.include_prev == remap_prev(a.include_prev, removed, gone)
    &&& b.fallback == remap(a.fallback, removed, gone)
}

pub open spec fn remapped_sequence<F>(a: Sequence<F>, b: Sequence<F>, removed: int, gone: PartialStyle<F>) -> bool {
    &&& b.name@ == a.name@
    &&& b.fallback == remap(a.fallback, removed, gone)
    &&& b.stages@.len() == a.stages@.len()
    &&& forall|k: int| 0 <= k < a.stages@.len() ==> remapped_stage(a.stages@[k], #[trigger] b.stages@[k], removed, gone)
}

fn remap_style<F: Copy>(s: FilterStyle<F>, removed: usize, gone: PartialStyle<F>) -> (r: FilterStyle<F>)
    ensures
        r == remap(s, removed as int, gone),
{
    match s {
        FilterStyle::User(i) => if i == removed {
            FilterStyle::Literal(gone)
        } else if i > removed {
            FilterStyle::User(i - 1)
        } else {
            s
        },
        _ => s,
    }
}

fn remap_stage<F: Copy>(stage: Stage<F>, removed: usize, gone: PartialStyle<F>) -> (r: Stage<F>)
    ensures
        remapped_stage(stage, r, removed as int, gone),
{
    let Stage { name, terms, include_prev, fallback } = stage;
    let ghost old_terms = terms@;
    let mut rest = terms;
    let mut out: Vec<StageTerm<F>> = Vec::new();
    while rest.len() > 0
        invariant
            out@.len() + rest@.len() == old_terms.len(),
            rest@ == old_terms.skip(out@.len() as int),
            forall|k: int|
                0 <= k < out@.len() ==> (#[trigger] out@[k]).set.terms@ == old_terms[k].set.terms@
                    && out@[k].style == remap(old_terms[k].style, removed as int, gone),
        decreases rest@.len(),
    {
        let ghost n = out@.len() as int;
        let t = rest.remove(0);
        assert(t == old_terms[n]);
        let StageTerm { set, style } = t;
        out.push(StageTerm { set, style: remap_style(style, removed, gone) });
        assert(rest@ =~= old_terms.skip(out@.len() as int));
    }
    let include_prev = match include_prev {
        IncludePrev::Fixed(s) => IncludePrev::Fixed(remap_style(s, removed, gone)),
        other => other,
    };
    Stage { name, terms: out, include_prev, fallback: remap_style(fallback, removed, gone) }
}

fn remap_sequence<F: Copy>(seq: Sequence<F>, removed: usize, gone: PartialStyle<F>) -> (r: Sequence<F>)
    ensures
        remapped_sequence(seq, r, removed as int, gone),
{
    let Sequence { name, fallback, stages } = seq;
    let ghost old_stages = stages@;
    let mut rest = stages;
    let mut out: Vec<Stage<F>> = Vec::new();
    while rest.len() > 0
        invariant
            out@.len() + rest@.len() == old_stages.len(),
            rest@ == old_stages.skip(out@.len() as int),
            forall|k: int| 0 <= k < out@.len() ==> remapped_stage(old_stages[k], #[trigger] out@[k], removed as int, gone),
        decreases rest@.len(),
    {
        let ghost n = out@.len() as int;
        let st = rest.remove(0);
        assert(st == old_stages[n]);
        out.push(remap_stage(st, removed, gone));
        assert(rest@ =~= old_stages.skip(out@.len() as int));
    }
    Sequence { name, fallback: remap_style(fallback, removed, gone), stages: out }
}

/// Where the style editor's selection goes when user style `removed` is
/// removed, leaving `len` user styles: a selection past the end moves to the
/// last user style, or to the basic style when none is left.
pub open spec fn selected_after_removal(selected: StyleIdx, len: nat) -> StyleIdx {
    match selected {
        StyleIdx::User(i) => if i > len {
            if len == 0 {
                StyleIdx::Basic
            } else {
                StyleIdx::User((len - 1) as usize)
            }
        } else {
            selected
        },
        _ => selected,
    }
}

/// What a style reads as after user style `removed` is gone and its
/// references remapped is what it read as before.
pub proof fn lemma_remap_keeps_style<F>(s: FilterStyle<F>, old: Styles<F>, new: Styles<F>, removed: int)
    requires
        refers_ok(s, old),
        0 <= removed < old.user@.len(),
        new.user@ == old.user@.remove(removed),
        new.basic == old.basic,
        new.hovered == old.hovered,
        new.selected == old.selected,
    ensures
        style_spec(remap(s, removed, old.user@[removed].style), new) == style_spec(s, old),
        refers_ok(remap(s, removed, old.user@[removed].style), new),
{
}

impl<F: Copy> Styles<F> {
    /// A new user style copying the one at `idx`, named "<name> copy".
    pub fn copy_of(&self, idx: StyleIdx) -> (r: UserStyle<F>)
        requires
            idx matches StyleIdx::User(i) ==> i < self.user@.len(),
        ensures
            r.name@ == match idx {
                StyleIdx::Basic => "basic copy"@,
                StyleIdx::Hovered => "hovered copy"@,
                StyleIdx::Selected => "selected copy"@,
                StyleIdx::User(i) => self.user@[i as int].name@ + " copy"@,
            },
            r.style == match idx {
                StyleIdx::Basic => partial_of(self.basic),
                StyleIdx::Hovered => self.hovered,
                StyleIdx::Selected => self.selected,
                StyleIdx::User(i) => self.user@[i as int].style,
            },
    {
        match idx {
            StyleIdx::Basic => UserStyle { name: owned("basic copy"), style: self.basic.to_partial() },
            StyleIdx::Hovered => UserStyle { name: owned("hovered copy"), style: self.hovered },
            StyleIdx::Selected => UserStyle { name: owned("selected copy"), style: self.selected },
            StyleIdx::User(i) => {
                let mut name = self.user[i].name.clone();
                push_str(&mut name, " copy");
                UserStyle { name, style: self.user[i].style }
            },
        }
    }
}

impl<F: Copy> Filters<F> {
    /// Append a copy of the style the editor shows.
    pub fn add_user_style(&mut self)
        requires
            old(self).wf(),
            old(self).selected_style_idx matches StyleIdx::User(i) ==> i < old(self).styles.user@.len(),
        ensures
            final(self).wf(),
            final(self).styles.user@.len() == old(self).styles.user@.len() + 1,
            forall|i: int| 0 <= i < old(self).styles.user@.len() ==> #[trigger] final(self).styles.user@[i] == old(self).styles.user@[i],
            final(self).styles.basic == old(self).styles.basic,
            final(self).styles.hovered == old(self).styles.hovered,
            final(self).styles.selected == old(self).styles.selected,
            final(self).sequences == old(self).sequences,
            final(self).selected_seq_stage == old(self).selected_seq_stage,
            final(self).selected_style_idx == old(self).selected_style_idx,
    {
        let copy = self.styles.copy_of(self.selected_style_idx);
        let ghost before = self.styles;
        let mut styles = Styles {
            basic: self.styles.basic,
            hovered: self.styles.hovered,
            selected: self.styles.selected,
            user: Vec::new(),
        };
        std::mem::swap(&mut styles.user, &mut self.styles.user);
        styles.user.push(copy);
        std::mem::swap(&mut styles.user, &mut self.styles.user);
        proof {
            assert forall|i: int| 0 <= i < self.sequences@.len() implies sequence_ok(
                #[trigger] self.sequences@[i],
                self.styles,
            ) by {
                let sq = self.sequences@[i];
                assert(sequence_ok(sq, before));
                assert forall|j: int| 0 <= j < sq.stages@.len() implies stage_ok(#[trigger] sq.stages@[j], self.styles) by {
                    assert(stage_ok(sq.stages@[j], before));
                    assert forall|k: int| 0 <= k < sq.stages@[j].terms@.len() implies refers_ok(
                        #[trigger] sq.stages@[j].terms@[k].style,
                        self.styles,
                    ) by {
                        assert(refers_ok(sq.stages@[j].terms@[k].style, before));
                    }
                }
            }
        }
    }

    /// Remove user style `i`. References to it become the style written
    /// out, references to later user styles move down, and the editor's
    /// selection moves off the end if it was there.
    pub fn remove_user_style(&mut self, i: usize)
        requires
            old(self).wf(),
            i < old(self).styles.user@.len(),
        ensures
            final(self).wf(),
            final(self).styles.user@ == old(self).styles.user@.remove(i as int),
            final(self).styles.basic == old(self).styles.basic,
            final(self).styles.hovered == old(self).styles.hovered,
            final(self).styles.selected == old(self).styles.selected,
            final(self).sequences@.len() == old(self).sequences@.len(),
            forall|k: int|
                0 <= k < old(self).sequences@.len() ==> remapped_sequence(
                    old(self).sequences@[k],
                    #[trigger] final(self).sequences@[k],
                    i as int,
                    old(self).styles.user@[i as int].style,
                ),
            final(self).selected_seq_stage == old(self).selected_seq_stage,
            final(self).selected_style_idx == selected_after_removal(
                old(self).selected_style_idx,
                final(self).styles.user@.len(),
            ),
    {
        let gone = self.styles.user[i].style;
        let ghost old_styles = self.styles;
        let ghost old_seqs = self.sequences@;
        self.styles.user.remove(i);
        let mut rest: Vec<Sequence<F>> = Vec::new();
        std::mem::swap(&mut rest, &mut self.sequences);
        let mut out: Vec<Sequence<F>> = Vec::new();
        while rest.len() > 0
            invariant
                out@.len() + rest@.len() == old_seqs.len(),
                rest@ == old_seqs.skip(out@.len() as int),
                forall|k: int| 0 <= k < out@.len() ==> remapped_sequence(old_seqs[k], #[trigger] out@[k], i as int, gone),
            decreases rest@.len(),
        {
            let ghost n = out@.len() as int;
            let sq = rest.remove(0);
            assert(sq == old_seqs[n]);
            out.push(remap_sequence(sq, i, gone));
            assert(rest@ =~= old_seqs.skip(out@.len() as int));
        }
        self.sequences = out;
        proof {
            assert forall|k: int| 0 <= k < self.sequences@.len() implies sequence_ok(
                #[trigger] self.sequences@[k],
                self.styles,
            ) by {
                let (a, b) = (old_seqs[k], self.sequences@[k]);
                assert(remapped_sequence(a, b, i as int, gone));
                assert(sequence_ok(a, old_styles));
                lemma_remap_keeps_style(a.fallback, old_styles, self.styles, i as int);
                assert forall|j: int| 0 <= j < b.stages@.len() implies stage_ok(#[trigger] b.stages@[j], self.styles) by {
                    let (sa, sb) = (a.stages@[j], b.stages@[j]);
                    assert(remapped_stage(sa, sb, i as int, gone));
                    assert(stage_ok(sa, old_styles));
                    lemma_remap_keeps_style(sa.fallback, old_styles, self.styles, i as int);
                    match sa.include_prev {
                        IncludePrev::Fixed(s) => lemma_remap_keeps_style(s, old_styles, self.styles, i as int),
                        _ => {},
                    }
                    assert forall|t: int| 0 <= t < sb.terms@.len() implies refers_ok(#[trigger] sb.terms@[t].style, self.styles) by {
                        assert(refers_ok(sa.terms@[t].style, old_styles));
                        lemma_remap_keeps_style(sa.terms@[t].style, old_styles, self.styles, i as int);
                    }
                }
            }
        }
        let len = self.styles.user.len();
        match self.selected_style_idx {
            StyleIdx::User(sel) => {
                if sel > len {
                    self.selected_style_idx = if len == 0 {
                        StyleIdx::Basic
                    } else {
                        StyleIdx::User(len - 1)
                    };
                }
            },
            _ => {},
        }
    }
}

proof fn lemma_remap_terms<F>(
    a: Seq<StageTerm<F>>,
    b: Seq<StageTerm<F>>,
    old: Styles<F>,
    new: Styles<F>,
    removed: int,
    piece: SideSet,
)
    requires
        0 <= removed < old.user@.len(),
        new.user@ == old.user@.remove(removed),
        new.basic == old.basic,
        new.hovered == old.hovered,
        new.selected == old.selected,
        b.len() == a.len(),
        forall|k: int| 0 <= k < a.len() ==> refers_ok(#[trigger] a[k].style, old),
        forall|k: int|
            0 <= k < a.len() ==> (#[trigger] b[k]).set.terms@ == a[k].set.terms@ && b[k].style == remap(
                a[k].style,
                removed,
                old.user@[removed].style,
            ),
    ensures
        terms_style(b, new, piece) == terms_style(a, old, piece),
    decreases a.len(),
{
    if a.len() > 0 {
        let n = a.len() - 1;
        assert(b[n].set.terms@ == a[n].set.terms@);
        assert(set_holds(b[n].set, piece) == set_holds(a[n].set, piece));
        lemma_remap_keeps_style(a[n].style, old, new, removed);
        lemma_remap_terms(a.drop_last(), b.drop_last(), old, new, removed, piece);
    }
}

proof fn lemma_remap_stage_style<F>(
    a: Sequence<F>,
    b: Sequence<F>,
    old: Styles<F>,
    new: Styles<F>,
    removed: int,
    piece: SideSet,
    k: nat,
)
    requires
        0 <= removed < old.user@.len(),
        new.user@ == old.user@.remove(removed),
        new.basic == old.basic,
        new.hovered == old.hovered,
        new.selected == old.selected,
        sequence_ok(a, old),
        remapped_sequence(a, b, removed, old.user@[removed].style),
        k < a.stages@.len(),
    ensures
        stage_style(b, new, piece, k) == stage_style(a, old, piece, k),
    decreases k,
{
    let (sa, sb) = (a.stages@[k as int], b.stages@[k as int]);
    assert(remapped_stage(sa, sb, removed, old.user@[removed].style));
    assert(stage_ok(sa, old));
    lemma_remap_terms(sa.terms@, sb.terms@, old, new, removed, piece);
    if k > 0 {
        lemma_remap_stage_style(a, b, old, new, removed, piece, (k - 1) as nat);
        match sa.include_prev {
            IncludePrev::Fixed(st) => lemma_remap_keeps_style(st, old, new, removed),
            _ => {},
        }
    }
}

/// Removing a user style changes how no piece is drawn: whatever referred
/// to it now holds it written out.
pub proof fn lemma_removing_a_style_keeps_every_piece<F>(old: Filters<F>, new: Filters<F>, i: int, piece: SideSet)
    requires
        old.wf(),
        0 <= i < old.styles.user@.len(),
        new.styles.user@ == old.styles.user@.remove(i),
        new.styles.basic == old.styles.basic,
        new.styles.hovered == old.styles.hovered,
        new.styles.selected == old.styles.selected,
        new.sequences@.len() == old.sequences@.len(),
        forall|k: int|
            0 <= k < old.sequences@.len() ==> remapped_sequence(
                old.sequences@[k],
                #[trigger] new.sequences@[k],
                i,
                old.styles.user@[i].style,
            ),
        new.selected_seq_stage == old.selected_seq_stage,
    ensures
        style_of_spec(new, piece) == style_of_spec(old, piece),
{
    match old.selected_seq_stage {
        SelectedSeqStage::NoStage => {},
        SelectedSeqStage::Stage { seq, stage } => {
            let (a, b) = (old.sequences@[seq as int], new.sequences@[seq as int]);
            assert(sequence_ok(a, old.styles));
            assert(remapped_sequence(a, b, i, old.styles.user@[i].style));
            lemma_remap_stage_style(a, b, old.styles, new.styles, i, piece, stage as nat);
            let (sa, sb) = (a.stages@[stage as int], b.stages@[stage as int]);
            assert(remapped_stage(sa, sb, i, old.styles.user@[i].style));
            assert(stage_ok(sa, old.styles));
            lemma_remap_keeps_style(sa.fallback, old.styles, new.styles, i);
            lemma_remap_keeps_style(a.fallback, old.styles, new.styles, i);
        },
    }
}

/// A term that asks nothing of a piece.
pub open spec fn is_empty_term(t: PieceSetTerm) -> bool {
    forall|s: Side| !(#[trigger] t.must_have.holds(s)) && !t.cant_have.holds(s)
}

impl PieceSet {
    /// Remove the row at `i`; the set becomes the union of the others.
    pub fn remove_row(&mut self, i: usize)
        requires
            i < old(self).terms@.len(),
        ensures
            final(self).terms@ == old(self).terms@.remove(i as int),
    {
        self.terms.remove(i);
    }

    /// Append a row that asks nothing, so the set then holds every piece.
    pub fn add_row(&mut self)
        ensures
            final(self).terms@.len() == old(self).terms@.len() + 1,
            final(self).terms@.drop_last() == old(self).terms@,
            is_empty_term(final(self).terms@.last()),
    {
        self.terms.push(PieceSetTerm::default());
        assert(self.terms@.drop_last() =~= old(self).terms@);
    }
}

impl<F: Copy> Stage<F> {
    /// Remove the term at `i`; the stage's other settings stay.
    pub fn remove_term(&mut self, i: usize)
        requires
            i < old(self).terms@.len(),
        ensures
            final(self).terms@ == old(self).terms@.remove(i as int),
            final(self).name == old(self).name,
            final(self).include_prev == old(self).include_prev,
            final(self).fallback == old(self).fallback,
    {
        self.terms.remove(i);
    }

    /// Append a term that styles every piece in the basic style; the
    /// stage's other settings stay.
    pub fn add_term(&mut self)
        ensures
            final(self).terms@.len() == old(self).terms@.len() + 1,
            final(self).terms@.drop_last() == old(self).terms@,
            final(self).terms@.last().style == FilterStyle::<F>::Basic,
            holds_every_piece(final(self).terms@.last().set),
            final(self).name == old(self).name,
            final(self).include_prev == old(self).include_prev,
            final(self).fallback == old(self).fallback,
    {
        self.terms.push(StageTerm::new(FilterStyle::Basic));
        assert(self.terms@.drop_last() =~= old(self).terms@);
    }
}

} // verus!
