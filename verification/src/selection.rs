//! Which suggestion is highlighted, and how Tab and Shift-Tab move the
//! highlight round the list.

use vstd::prelude::*;

verus! {

/// The highlighted suggestion: an index into the current list of suggestions,
/// or `None` while nothing is selected.
#[derive(Clone, Copy, Debug, PartialEq, Eq, Structural)]
pub struct SelectionCycle {
    pub selected: Option<usize>,
}

/// The selection after one step forward in a list of `count` suggestions:
/// from nothing and from the last suggestion to the first, else one further.
/// In an empty list the selection stays as it is.
pub open spec fn advanced(selected: Option<usize>, count: nat) -> Option<usize> {
    if count == 0 {
        selected
    } else {
        match selected {
            Some(i) if i + 1 < count => Some((i + 1) as usize),
            _ => Some(0),
        }
    }
}

/// The selection after one step back in a list of `count` suggestions: from
/// nothing and from the first suggestion to the last, else one back. In an
/// empty list the selection stays as it is.
pub open spec fn retreated(selected: Option<usize>, count: nat) -> Option<usize> {
    if count == 0 {
        selected
    } else {
        match selected {
            Some(i) if 0 < i < count => Some((i - 1) as usize),
            _ => Some((count - 1) as usize),
        }
    }
}

/// The selection after `steps` steps forward.
pub open spec fn advanced_by(selected: Option<usize>, count: nat, steps: nat) -> Option<usize>
    decreases steps,
{
    if steps == 0 {
        selected
    } else {
        advanced(advanced_by(selected, count, (steps - 1) as nat), count)
    }
}

/// The selection after `steps` steps back.
pub open spec fn retreated_by(selected: Option<usize>, count: nat, steps: nat) -> Option<usize>
    decreases steps,
{
    if steps == 0 {
        selected
    } else {
        retreated(retreated_by(selected, count, (steps - 1) as nat), count)
    }
}

impl SelectionCycle {
    /// The selection points into a list of `count` suggestions, or at nothing.
    pub open spec fn wf(self, count: nat) -> bool {
        match self.selected {
            Some(i) => i < count,
            None => true,
        }
    }

    /// A cycle with nothing selected.
    pub fn new() -> (cycle: SelectionCycle)
        ensures
            cycle.selected is None,
            forall|count: nat| cycle.wf(count),
    {
        SelectionCycle { selected: None }
    }

    /// The highlighted index, if any.
    pub fn selected(&self) -> (selected: Option<usize>)
        ensures
            selected == self.selected,
    {
        self.selected
    }

    /// Back to "nothing selected".
    pub fn reset(&mut self)
        ensures
            final(self).selected is None,
    {
        self.selected = None;
    }

    /// Moves the highlight one suggestion forward in a list of `count`
    /// suggestions, from the last one round to the first.
    pub fn advance(&mut self, count: usize)
        ensures
            final(self).selected == advanced(old(self).selected, count as nat),
            count > 0 ==> final(self).selected is Some && final(self).wf(count as nat),
            count == 0 ==> *final(self) == *old(self),
    {
        if count == 0 {
            return;
        }
        self.selected = match self.selected {
            Some(i) => if i < count - 1 {
                Some(i + 1)
            } else {
                Some(0)
            },
            None => Some(0),
        };
    }

    /// Moves the highlight one suggestion back in a list of `count`
    /// suggestions, from the first one round to the last.
    pub fn retreat(&mut self, count: usize)
        ensures
            final(self).selected == retreated(old(self).selected, count as nat),
            count > 0 ==> final(self).selected is Some && final(self).wf(count as nat),
            count == 0 ==> *final(self) == *old(self),
    {
        if count == 0 {
            return;
        }
        self.selected = match self.selected {
            Some(i) => if 0 < i && i < count {
                Some(i - 1)
            } else {
                Some(count - 1)
            },
            None => Some(count - 1),
        };
    }
}

/// Stepping forward from nothing visits the suggestions in order and starts
/// again after the last: step number `n` (counted from 1) lands on index
/// `(n - 1) % count`.
pub proof fn lemma_advance_cycles(count: nat, steps: nat)
    requires
        0 < count <= usize::MAX,
        0 < steps,
    ensures
        advanced_by(None, count, steps) == Some(((steps - 1) % (count as int)) as usize),
    decreases steps,
{
    let c = count as int;
    if steps == 1 {
        assert(advanced_by(None, count, 0) == None::<usize>);
        assert(0int % c == 0) by (nonlinear_arith)
            requires
                c > 0,
        ;
    } else {
        lemma_advance_cycles(count, (steps - 1) as nat);
        let prev = (steps - 2) % c;
        assert(0 <= prev < c && (steps - 1) % c == if prev + 1 < c {
            prev + 1
        } else {
            0
        }) by (nonlinear_arith)
            requires
                c > 0,
                steps >= 2,
                prev == (steps - 2) % c,
        ;
    }
}

/// Stepping back from nothing starts at the last suggestion, visits them in
/// reverse order and starts again after the first: step number `n` (counted
/// from 1) lands on index `count - 1 - (n - 1) % count`.
pub proof fn lemma_retreat_cycles(count: nat, steps: nat)
    requires
        0 < count <= usize::MAX,
        0 < steps,
    ensures
        retreated_by(None, count, steps) == Some((count - 1 - (steps - 1) % (count as int)) as usize),
    decreases steps,
{
    let c = count as int;
    if steps == 1 {
        assert(retreated_by(None, count, 0) == None::<usize>);
        assert(0int % c == 0) by (nonlinear_arith)
            requires
                c > 0,
        ;
    } else {
        lemma_retreat_cycles(count, (steps - 1) as nat);
        let prev = (steps - 2) % c;
        assert(0 <= prev < c && (steps - 1) % c == if prev + 1 < c {
            prev + 1
        } else {
            0
        }) by (nonlinear_arith)
            requires
                c > 0,
                steps >= 2,
                prev == (steps - 2) % c,
        ;
    }
}

/// A step forward and then a step back, or the other way round, returns to the
/// suggestion that was selected.
pub proof fn lemma_advance_retreat_inverse(selected: usize, count: nat)
    requires
        selected < count <= usize::MAX,
    ensures
        retreated(advanced(Some(selected), count), count) == Some(selected),
        advanced(retreated(Some(selected), count), count) == Some(selected),
{
}

} // verus!
