//! The session: one open document plus its search state, behind one mutation
//! entry point per external event (pattern change, content change, file load,
//! save-as, new document, navigation, surface toggle). Every entry point
//! keeps the session invariant: the match list is the search pass over the
//! current content, pattern and case flag; the style overlay renders that
//! match list; the cursor is valid; and the match-count display reports the
//! list's length.

use vstd::prelude::*;

use crate::document::Document;
use crate::encoding::{decode_with_bom, decoded_bytes};
use crate::navigate::SearchState;
use crate::search::{matches_of, search, spans_of, MatchSpan};
use crate::status::{
    display_name, line_of, line_start_of, match_count_chars, match_count_text, position_of,
    status_chars, status_text,
};

verus! {

/// One open document with its search state and match-count display.
pub struct Session {
    pub doc: Document,
    pub search: SearchState,
    pub pattern: Vec<u8>,
    pub case_sensitive: bool,
    pub match_display: String,
}

impl Session {
    /// The session invariant, restored by every mutation entry point.
    pub open spec fn wf(self) -> bool {
        &&& spans_of(self.search.results@) == matches_of(
            self.doc.content@,
            self.pattern@,
            self.case_sensitive,
        )
        &&& self.doc.styled_as(spans_of(self.search.results@))
        &&& self.search.cursor_ok()
        &&& self.match_display@ == match_count_chars(
            self.pattern@.len(),
            self.search.results@.len(),
        )
    }

    /// A fresh session: empty untitled document, no pattern, no matches,
    /// search surface hidden.
    pub fn new() -> (s: Session)
        ensures
            s.wf(),
            s.doc.content@ == Seq::<u8>::empty(),
            s.pattern@ == Seq::<u8>::empty(),
            !s.case_sensitive,
            s.search.results@ == Seq::<MatchSpan>::empty(),
            s.search.current == 0,
            !s.search.visible,
            s.search.filepath@ == Seq::<char>::empty(),
            s.match_display@ == Seq::<char>::empty(),
    {
        let s = Session {
            doc: Document::new(),
            search: SearchState::new(),
            pattern: Vec::new(),
            case_sensitive: false,
            match_display: String::new(),
        };
        proof {
            assert(spans_of(s.search.results@) =~= matches_of(
                s.doc.content@,
                s.pattern@,
                s.case_sensitive,
            ));
        }
        s
    }

    /// Re-run the search pass over the current content, pattern and case
    /// flag: install the match list, rewrite the style overlay, update the
    /// match-count display, reset the cursor to the first match and emit it
    /// when there is one.
    fn refresh(&mut self) -> (r: Option<MatchSpan>)
        ensures
            final(self).wf(),
            final(self).doc.content == old(self).doc.content,
            final(self).pattern == old(self).pattern,
            final(self).case_sensitive == old(self).case_sensitive,
            final(self).search.visible == old(self).search.visible,
            final(self).search.filepath == old(self).search.filepath,
            final(self).search.current == 0,
            final(self).search.results@.len() == 0 ==> r is None,
            final(self).search.results@.len() > 0 ==> r == Some(final(self).search.results@[0]),
    {
        let results = search(&self.pattern, self.case_sensitive, &self.doc.content);
        proof {
            let text = self.doc.content@;
            let pat = self.pattern@;
            let cs = self.case_sensitive;
            let m = matches_of(text, pat, cs);
            assert(spans_of(results@).len() == results@.len());
            if pat.len() > 0 {
                crate::search::lemma_search_matches(text, pat, cs);
            }
            assert forall|k: int| 0 <= k < results@.len() implies (#[trigger] results@[k]).start
                <= results@[k].end <= self.doc.content@.len() by {
                assert(spans_of(results@)[k] == (results@[k].start as int, results@[k].end as int));
                assert(m[k].1 == m[k].0 + pat.len());
                assert(0 <= m[k].0 && m[k].1 <= text.len());
            }
        }
        self.doc.apply_highlights(&results);
        self.match_display = match_count_text(self.pattern.len(), results.len());
        self.search.set_results(results)
    }

    /// A new query: store the pattern and case flag, run the search pass,
    /// and emit the first match when there is one (the auto-jump).
    pub fn set_pattern(&mut self, pattern: Vec<u8>, case_sensitive: bool) -> (r: Option<MatchSpan>)
        ensures
            final(self).wf(),
            final(self).pattern == pattern,
            final(self).case_sensitive == case_sensitive,
            final(self).doc.content == old(self).doc.content,
            final(self).search.visible == old(self).search.visible,
            final(self).search.filepath == old(self).search.filepath,
            final(self).search.current == 0,
            final(self).search.results@.len() == 0 ==> r is None,
            final(self).search.results@.len() > 0 ==> r == Some(final(self).search.results@[0]),
    {
        self.pattern = pattern;
        self.case_sensitive = case_sensitive;
        self.refresh()
    }

    /// The editing surface replaced the text: take the new content and
    /// re-derive the match list, overlay and display from it.
    pub fn set_content(&mut self, content: Vec<u8>) -> (r: Option<MatchSpan>)
        ensures
            final(self).wf(),
            final(self).doc.content == content,
            final(self).pattern == old(self).pattern,
            final(self).case_sensitive == old(self).case_sensitive,
            final(self).search.visible == old(self).search.visible,
            final(self).search.filepath == old(self).search.filepath,
            final(self).search.current == 0,
            final(self).search.results@.len() == 0 ==> r is None,
            final(self).search.results@.len() > 0 ==> r == Some(final(self).search.results@[0]),
    {
        self.doc.content = content;
        self.refresh()
    }

    /// A file was loaded: decode its bytes (consuming a recognized
    /// byte-order mark), make them the content, remember the path, and
    /// re-derive the search state over the new text.
    pub fn load_file(&mut self, path: String, bytes: &Vec<u8>) -> (r: Option<MatchSpan>)
        requires
            bytes@.len() <= usize::MAX / 4,
        ensures
            final(self).wf(),
            final(self).doc.content@ == decoded_bytes(bytes@),
            final(self).search.filepath == path,
            final(self).pattern == old(self).pattern,
            final(self).case_sensitive == old(self).case_sensitive,
            final(self).search.visible == old(self).search.visible,
            final(self).search.current == 0,
            final(self).search.results@.len() == 0 ==> r is None,
            final(self).search.results@.len() > 0 ==> r == Some(final(self).search.results@[0]),
    {
        self.doc.content = decode_with_bom(bytes);
        self.search.filepath = path;
        self.refresh()
    }

    /// The document was written out under a path: it becomes the file
    /// identity; nothing else changes.
    pub fn saved_as(&mut self, path: String)
        requires
            old(self).wf(),
        ensures
            final(self).wf(),
            final(self).search.filepath == path,
            final(self).doc == old(self).doc,
            final(self).pattern == old(self).pattern,
            final(self).case_sensitive == old(self).case_sensitive,
            final(self).search.results == old(self).search.results,
            final(self).search.current == old(self).search.current,
            final(self).search.visible == old(self).search.visible,
            final(self).match_display == old(self).match_display,
    {
        self.search.filepath = path;
    }

    /// Start over with an empty untitled document; the query is kept, and
    /// over empty content it matches nothing.
    pub fn new_document(&mut self)
        ensures
            final(self).wf(),
            final(self).doc.content@ == Seq::<u8>::empty(),
            final(self).search.filepath@ == Seq::<char>::empty(),
            final(self).search.results@ == Seq::<MatchSpan>::empty(),
            final(self).search.current == 0,
            final(self).pattern == old(self).pattern,
            final(self).case_sensitive == old(self).case_sensitive,
            final(self).search.visible == old(self).search.visible,
    {
        self.doc.content = Vec::new();
        self.search.filepath = String::new();
        self.refresh();
        proof {
            assert(matches_of(self.doc.content@, self.pattern@, self.case_sensitive)
                =~= Seq::<(int, int)>::empty());
            assert(self.search.results@ =~= Seq::<MatchSpan>::empty());
        }
    }

    /// Show or hide the search surface. Only event routing changes: the
    /// match list and the cursor stay as they are.
    pub fn toggle_search_visible(&mut self)
        requires
            old(self).wf(),
        ensures
            final(self).wf(),
            final(self).search.visible == !old(self).search.visible,
            final(self).doc == old(self).doc,
            final(self).pattern == old(self).pattern,
            final(self).case_sensitive == old(self).case_sensitive,
            final(self).search.results == old(self).search.results,
            final(self).search.current == old(self).search.current,
            final(self).search.filepath == old(self).search.filepath,
            final(self).match_display == old(self).match_display,
    {
        self.search.visible = !self.search.visible;
    }

    /// A next-match request: advance the cursor cyclically and emit the span
    /// to jump to; a no-op without a result when there are no matches.
    pub fn next_match(&mut self) -> (r: Option<MatchSpan>)
        requires
            old(self).wf(),
        ensures
            final(self).wf(),
            final(self).doc == old(self).doc,
            final(self).pattern == old(self).pattern,
            final(self).case_sensitive == old(self).case_sensitive,
            final(self).search.results == old(self).search.results,
            final(self).search.visible == old(self).search.visible,
            final(self).search.filepath == old(self).search.filepath,
            final(self).match_display == old(self).match_display,
            old(self).search.results@.len() == 0 ==> final(self).search.current == old(
                self,
            ).search.current && r is None,
            old(self).search.results@.len() > 0 ==> {
                &&& final(self).search.current == (old(self).search.current + 1) % (
                old(self).search.results@.len() as int)
                &&& r == Some(old(self).search.results@[final(self).search.current as int])
            },
    {
        self.search.next()
    }

    /// A previous-match request: move the cursor back cyclically and emit
    /// the span to jump to; a no-op without a result when there are no
    /// matches.
    pub fn previous_match(&mut self) -> (r: Option<MatchSpan>)
        requires
            old(self).wf(),
        ensures
            final(self).wf(),
            final(self).doc == old(self).doc,
            final(self).pattern == old(self).pattern,
            final(self).case_sensitive == old(self).case_sensitive,
            final(self).search.results == old(self).search.results,
            final(self).search.visible == old(self).search.visible,
            final(self).search.filepath == old(self).search.filepath,
            final(self).match_display == old(self).match_display,
            old(self).search.results@.len() == 0 ==> final(self).search.current == old(
                self,
            ).search.current && r is None,
            old(self).search.results@.len() > 0 ==> {
                &&& final(self).search.current == if old(self).search.current == 0 {
                    old(self).search.results@.len() - 1
                } else {
                    old(self).search.current - 1
                }
                &&& r == Some(old(self).search.results@[final(self).search.current as int])
            },
    {
        self.search.previous()
    }

    /// The status line for a cursor at the given byte offset of the content:
    /// 1-based line and column, then the file identity.
    pub fn status_at(&self, offset: usize) -> (r: String)
        requires
            offset <= self.doc.content@.len(),
            offset < usize::MAX,
        ensures
            r@ == status_chars(
                line_of(self.doc.content@, offset as int) + 1,
                (offset - line_start_of(self.doc.content@, offset as int) + 1) as nat,
                display_name(self.search.filepath@),
            ),
    {
        let (line, col) = position_of(offset, &self.doc.content);
        status_text(line, col, &self.search.filepath)
    }

    /// Law: after every mutation the style overlay has exactly one tag per
    /// content offset, or is the single-tag placeholder when the content is
    /// empty.
    pub proof fn lemma_style_overlay_length(self)
        requires
            self.wf(),
        ensures
            self.doc.content@.len() > 0 ==> self.doc.style@.len() == self.doc.content@.len(),
            self.doc.content@.len() == 0 ==> self.doc.style@.len() == 1,
    {
    }
}

} // verus!
