//! Bounded undo / redo history of editor states.
use vstd::prelude::*;

verus! {

/// What a history holds: the states that undo and redo go back to, most recent last,
/// and the most undo states it keeps.
pub struct HistoryView<T> {
    pub undo: Seq<T>,
    pub redo: Seq<T>,
    pub max_history: nat,
}

/// The history after recording `snapshot`: the oldest undo state goes when the undo
/// stack is full, the snapshot goes on top, and the redo stack is emptied.
pub open spec fn after_push<T>(h: HistoryView<T>, snapshot: T) -> HistoryView<T> {
    HistoryView {
        undo: (if h.undo.len() >= h.max_history {
            h.undo.drop_first()
        } else {
            h.undo
        }).push(snapshot),
        redo: Seq::empty(),
        max_history: h.max_history,
    }
}

/// The history after an undo from `current`, and the state undo goes back to (none, and
/// no change, when there is nothing to undo).
pub open spec fn after_undo<T>(h: HistoryView<T>, current: T) -> (HistoryView<T>, Option<T>) {
    if h.undo.len() == 0 {
        (h, None)
    } else {
        (
            HistoryView {
                undo: h.undo.drop_last(),
                redo: h.redo.push(current),
                max_history: h.max_history,
            },
            Some(h.undo.last()),
        )
    }
}

/// The history after a redo from `current`, and the state redo goes forward to (none,
/// and no change, when there is nothing to redo).
pub open spec fn after_redo<T>(h: HistoryView<T>, current: T) -> (HistoryView<T>, Option<T>) {
    if h.redo.len() == 0 {
        (h, None)
    } else {
        (
            HistoryView {
                undo: h.undo.push(current),
                redo: h.redo.drop_last(),
                max_history: h.max_history,
            },
            Some(h.redo.last()),
        )
    }
}

/// A history that records a snapshot: it may keep at least one state, or it has one to
/// drop (an empty history with a bound of zero keeps nothing).
pub open spec fn can_record<T>(h: HistoryView<T>) -> bool {
    h.max_history > 0 || h.undo.len() > 0
}

/// Bounded undo / redo history manager for editor states.
#[derive(Clone, Debug)]
pub struct TimelineHistory<T> {
    undo_stack: Vec<T>,
    redo_stack: Vec<T>,
    max_history: usize,
}

impl<T> View for TimelineHistory<T> {
    type V = HistoryView<T>;

    closed spec fn view(&self) -> HistoryView<T> {
        HistoryView {
            undo: self.undo_stack@,
            redo: self.redo_stack@,
            max_history: self.max_history as nat,
        }
    }
}

impl<T> Default for TimelineHistory<T> {
    /// An empty history with a bound of zero (it keeps nothing).
    fn default() -> (h: Self)
        ensures
            h@.undo == Seq::<T>::empty(),
            h@.redo == Seq::<T>::empty(),
            h@.max_history == 0,
    {
        let h = TimelineHistory { undo_stack: Vec::new(), redo_stack: Vec::new(), max_history: 0 };
        assert(h@.undo =~= Seq::<T>::empty());
        h
    }
}

impl<T: Clone> TimelineHistory<T> {
    /// An empty history that keeps at most `max_history` undo states.
    pub fn new(max_history: usize) -> (h: Self)
        ensures
            h@.undo == Seq::<T>::empty(),
            h@.redo == Seq::<T>::empty(),
            h@.max_history == max_history,
    {
        let h = TimelineHistory {
            undo_stack: Vec::new(),
            redo_stack: Vec::new(),
            max_history,
        };
        assert(h@.undo =~= Seq::<T>::empty());
        h
    }

    /// Record a copy of `timeline` before a change is made (a new change drops
    /// everything that could have been redone). A history with a bound of zero keeps no
    /// snapshot.
    pub fn push_snapshot(&mut self, timeline: &T)
        ensures
            can_record(old(self)@) ==> {
                &&& final(self)@ == after_push(old(self)@, final(self)@.undo.last())
                &&& cloned(*timeline, final(self)@.undo.last())
            },
            !can_record(old(self)@) ==> final(self)@ == (HistoryView {
                undo: Seq::<T>::empty(),
                redo: Seq::<T>::empty(),
                max_history: 0,
            }),
    {
        if self.max_history == 0 && self.undo_stack.len() == 0 {
            self.redo_stack.clear();
            assert(self@.undo =~= Seq::<T>::empty());
            return;
        }
        if self.undo_stack.len() >= self.max_history {
            self.undo_stack.remove(0);
        }
        let copy = timeline.clone();
        self.undo_stack.push(copy);
        self.redo_stack.clear();
        assert(self@.undo.last() == copy);
        assert(self@ == after_push(old(self)@, copy));
    }

    /// Drop the most recent undo state, leaving the redo stack alone (for a batch
    /// action that recorded a state up front and then changed nothing).
    pub fn discard_last_snapshot(&mut self)
        ensures
            final(self)@.undo == if old(self)@.undo.len() == 0 {
                old(self)@.undo
            } else {
                old(self)@.undo.drop_last()
            },
            final(self)@.redo == old(self)@.redo,
            final(self)@.max_history == old(self)@.max_history,
    {
        self.undo_stack.pop();
    }

    /// Go back to the previous state; `current` is kept for redo.
    pub fn undo(&mut self, current_timeline: &T) -> (r: Option<T>)
        ensures
            old(self)@.undo.len() == 0 ==> final(self)@ == old(self)@ && r is None,
            old(self)@.undo.len() > 0 ==> {
                &&& (final(self)@, r) == after_undo(old(self)@, final(self)@.redo.last())
                &&& cloned(*current_timeline, final(self)@.redo.last())
            },
    {
        match self.undo_stack.pop() {
            Some(prev_state) => {
                self.redo_stack.push(current_timeline.clone());
                Some(prev_state)
            },
            None => None,
        }
    }

    /// Go forward to the state undone last; `current` is kept for undo.
    pub fn redo(&mut self, current_timeline: &T) -> (r: Option<T>)
        ensures
            old(self)@.redo.len() == 0 ==> final(self)@ == old(self)@ && r is None,
            old(self)@.redo.len() > 0 ==> {
                &&& (final(self)@, r) == after_redo(old(self)@, final(self)@.undo.last())
                &&& cloned(*current_timeline, final(self)@.undo.last())
            },
    {
        match self.redo_stack.pop() {
            Some(next_state) => {
                self.undo_stack.push(current_timeline.clone());
                Some(next_state)
            },
            None => None,
        }
    }

    /// Whether there is a state to undo to.
    pub fn can_undo(&self) -> (b: bool)
        ensures
            b == (self@.undo.len() > 0),
    {
        self.undo_stack.len() > 0
    }

    /// Whether there is a state to redo to.
    pub fn can_redo(&self) -> (b: bool)
        ensures
            b == (self@.redo.len() > 0),
    {
        self.redo_stack.len() > 0
    }

    /// Forget every undo and redo state.
    pub fn clear(&mut self)
        ensures
            final(self)@.undo == Seq::<T>::empty(),
            final(self)@.redo == Seq::<T>::empty(),
            final(self)@.max_history == old(self)@.max_history,
    {
        self.undo_stack.clear();
        self.redo_stack.clear();
    }
}

/// Undo right after recording a snapshot goes back to that snapshot.
pub proof fn lemma_undo_after_push<T>(h: HistoryView<T>, snapshot: T, current: T)
    ensures
        after_undo(after_push(h, snapshot), current).1 == Some(snapshot),
{
}

/// Undo followed by redo (from the state undo went back to) restores the history and
/// goes forward to the state that was current at the undo.
pub proof fn lemma_redo_after_undo<T>(h: HistoryView<T>, current: T)
    requires
        h.undo.len() > 0,
    ensures
        ({
            let (h1, back) = after_undo(h, current);
            let (h2, forward) = after_redo(h1, back.unwrap());
            h2 == h && forward == Some(current)
        }),
{
    let (h1, back) = after_undo(h, current);
    assert(h1.undo.push(back.unwrap()) =~= h.undo);
    assert(h1.redo.drop_last() =~= h.redo);
}

/// Recording a new snapshot leaves nothing to redo.
pub proof fn lemma_push_clears_redo<T>(h: HistoryView<T>, snapshot: T, current: T)
    ensures
        after_redo(after_push(h, snapshot), current).1 is None,
{
}

/// With faithful clones (a clone equal to what it copies), undo followed by redo gives
/// back the state that was current at the undo and restores the history as it was:
/// `c1` is the copy of `current` that undo keeps, `c2` the copy of the state undo went
/// back to that redo keeps.
pub proof fn lemma_undo_redo_round_trip<T: Clone>(h: HistoryView<T>, current: T, c1: T, c2: T)
    requires
        h.undo.len() > 0,
        forall|a: T, b: T| cloned(a, b) ==> a == b,
        cloned(current, c1),
        cloned(after_undo(h, c1).1.unwrap(), c2),
    ensures
        ({
            let (h1, back) = after_undo(h, c1);
            let (h2, forward) = after_redo(h1, c2);
            h2 == h && forward == Some(current)
        }),
{
    lemma_redo_after_undo(h, current);
}

/// Recording never lets the undo stack grow past its bound.
pub proof fn lemma_push_bounded<T>(h: HistoryView<T>, snapshot: T)
    requires
        h.max_history > 0,
        h.undo.len() <= h.max_history,
    ensures
        after_push(h, snapshot).undo.len() <= h.max_history,
{
}

} // verus!
