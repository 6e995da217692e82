//! Match navigator: holds the ordered match list of the last search pass and
//! a cursor into it, and moves the cursor forward or backward with cyclic
//! wraparound, emitting the span the caller should jump to.

use vstd::prelude::*;

use crate::search::MatchSpan;

verus! {

/// The navigable search state: the match list of the last pass, the cursor
/// into it, whether the search surface is shown, and the identity of the
/// backing file (empty string meaning untitled).
pub struct SearchState {
    pub results: Vec<MatchSpan>,
    pub current: usize,
    pub visible: bool,
    pub filepath: String,
}

impl SearchState {
    /// The cursor is a valid index whenever there are results.
    pub open spec fn cursor_ok(self) -> bool {
        self.results@.len() > 0 ==> self.current < self.results@.len()
    }

    /// A fresh state: no results, cursor at the start, surface hidden,
    /// untitled file.
    pub fn new() -> (s: SearchState)
        ensures
            s.results@ == Seq::<MatchSpan>::empty(),
            s.current == 0,
            !s.visible,
            s.filepath@ == Seq::<char>::empty(),
            s.cursor_ok(),
    {
        SearchState { results: Vec::new(), current: 0, visible: false, filepath: String::new() }
    }

    /// Move the cursor to the next match, wrapping from the last to the
    /// first, and emit the span now under the cursor; a no-op without a
    /// result when the match list is empty.
    pub fn next(&mut self) -> (r: Option<MatchSpan>)
        requires
            old(self).cursor_ok(),
        ensures
            final(self).cursor_ok(),
            final(self).results == old(self).results,
            final(self).visible == old(self).visible,
            final(self).filepath == old(self).filepath,
            old(self).results@.len() == 0 ==> final(self).current == old(self).current && r
                is None,
            old(self).results@.len() > 0 ==> {
                &&& final(self).current == (old(self).current + 1) % (
                old(self).results@.len() as int)
                &&& r == Some(old(self).results@[final(self).current as int])
            },
    {
        if self.results.len() == 0 {
            return None;
        }
        let len = self.results.len();
        if self.current + 1 == len {
            self.current = 0;
            proof {
                vstd::arithmetic::div_mod::lemma_mod_self_0(len as int);
            }
        } else {
            self.current = self.current + 1;
            proof {
                vstd::arithmetic::div_mod::lemma_small_mod(self.current as nat, len as nat);
            }
        }
        Some(self.results[self.current])
    }

    /// Move the cursor to the previous match, wrapping from the first to the
    /// last, and emit the span now under the cursor; a no-op without a
    /// result when the match list is empty.
    pub fn previous(&mut self) -> (r: Option<MatchSpan>)
        requires
            old(self).cursor_ok(),
        ensures
            final(self).cursor_ok(),
            final(self).results == old(self).results,
            final(self).visible == old(self).visible,
            final(self).filepath == old(self).filepath,
            old(self).results@.len() == 0 ==> final(self).current == old(self).current && r
                is None,
            old(self).results@.len() > 0 ==> {
                &&& final(self).current == if old(self).current == 0 {
                    old(self).results@.len() - 1
                } else {
                    old(self).current - 1
                }
                &&& r == Some(old(self).results@[final(self).current as int])
            },
    {
        if self.results.len() == 0 {
            return None;
        }
        if self.current == 0 {
            self.current = self.results.len() - 1;
        } else {
            self.current = self.current - 1;
        }
        Some(self.results[self.current])
    }

    /// Install the match list of a new search pass: the cursor resets to the
    /// first match, which is emitted when there is one (the auto-jump to the
    /// first hit).
    pub fn set_results(&mut self, results: Vec<MatchSpan>) -> (r: Option<MatchSpan>)
        ensures
            final(self).cursor_ok(),
            final(self).results == results,
            final(self).current == 0,
            final(self).visible == old(self).visible,
            final(self).filepath == old(self).filepath,
            results@.len() == 0 ==> r is None,
            results@.len() > 0 ==> r == Some(results@[0]),
    {
        self.results = results;
        self.current = 0;
        if self.results.len() == 0 {
            None
        } else {
            Some(self.results[0])
        }
    }
}

} // verus!
