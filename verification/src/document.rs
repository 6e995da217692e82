//! Document model: the text content and a parallel style overlay with one
//! tag per byte offset. The overlay has the same length as the content after
//! every mutation; an empty document keeps a single-tag placeholder, since a
//! zero-length overlay is treated as invalid by its consumers.

use vstd::prelude::*;

use crate::search::{spans_of, MatchSpan};

verus! {

/// Style tag for an offset that no match covers.
pub const STYLE_PLAIN: u8 = 65;

/// Style tag for an offset inside a match span.
pub const STYLE_HIGHLIGHT: u8 = 66;

/// Offset `i` lies inside one of the first `upto` spans.
pub open spec fn covered_upto(spans: Seq<(int, int)>, upto: int, i: int) -> bool {
    exists|k: int| 0 <= k < upto && (#[trigger] spans[k]).0 <= i < spans[k].1
}

/// Offset `i` lies inside some span.
pub open spec fn covered(spans: Seq<(int, int)>, i: int) -> bool {
    covered_upto(spans, spans.len() as int, i)
}

/// The style overlay that renders a match list onto a content of the given
/// length: a highlighted tag over every covered offset, a plain tag over
/// every other offset, and the single plain placeholder tag for an empty
/// content.
pub open spec fn style_of(content_len: nat, spans: Seq<(int, int)>) -> Seq<u8> {
    if content_len == 0 {
        seq![STYLE_PLAIN]
    } else {
        Seq::new(
            content_len,
            |i: int| if covered(spans, i) {
                STYLE_HIGHLIGHT
            } else {
                STYLE_PLAIN
            },
        )
    }
}

/// The document: its text and the style overlay over the same offsets.
pub struct Document {
    pub content: Vec<u8>,
    pub style: Vec<u8>,
}

impl Document {
    /// The overlay never has length zero: it matches the content, or is the
    /// single placeholder tag when the content is empty.
    pub open spec fn style_len_ok(self) -> bool {
        self.style@.len() == if self.content@.len() == 0 {
            1nat
        } else {
            self.content@.len()
        }
    }

    /// The overlay renders exactly the given match list.
    pub open spec fn styled_as(self, spans: Seq<(int, int)>) -> bool {
        self.style@ == style_of(self.content@.len(), spans)
    }

    /// A fresh, empty document: no text, placeholder overlay.
    pub fn new() -> (d: Document)
        ensures
            d.content@ == Seq::<u8>::empty(),
            d.styled_as(Seq::<(int, int)>::empty()),
            d.style_len_ok(),
    {
        let mut style: Vec<u8> = Vec::new();
        style.push(STYLE_PLAIN);
        let d = Document { content: Vec::new(), style };
        proof {
            assert(d.style@ =~= style_of(d.content@.len(), Seq::<(int, int)>::empty()));
        }
        d
    }

    /// Replace the text wholesale (load, clear, or an edit handed in by the
    /// editing surface) and reset the overlay to all-plain tags.
    pub fn set_content(&mut self, content: Vec<u8>)
        ensures
            final(self).content == content,
            final(self).styled_as(Seq::<(int, int)>::empty()),
            final(self).style_len_ok(),
    {
        let no_spans: Vec<MatchSpan> = Vec::new();
        let style = rebuild_style(content.len(), &no_spans);
        proof {
            assert(spans_of(no_spans@) =~= Seq::<(int, int)>::empty());
        }
        self.content = content;
        self.style = style;
    }

    /// Rewrite the overlay so that it renders the given match list.
    pub fn apply_highlights(&mut self, spans: &Vec<MatchSpan>)
        requires
            forall|k: int|
                0 <= k < spans@.len() ==> (#[trigger] spans@[k]).start <= spans@[k].end
                    <= old(self).content@.len(),
        ensures
            final(self).content == old(self).content,
            final(self).styled_as(spans_of(spans@)),
            final(self).style_len_ok(),
    {
        self.style = rebuild_style(self.content.len(), spans);
    }
}

/// Appending one more span marks exactly the offsets it covers on top of
/// what the earlier spans already marked.
proof fn lemma_covered_step(spans: Seq<(int, int)>, upto: int, i: int)
    requires
        0 <= upto < spans.len(),
    ensures
        covered_upto(spans, upto + 1, i) <==> (covered_upto(spans, upto, i) || (spans[upto].0 <= i
            < spans[upto].1)),
{
    if covered_upto(spans, upto + 1, i) {
        let k = choose|k: int| 0 <= k < upto + 1 && (#[trigger] spans[k]).0 <= i < spans[k].1;
        if k < upto {
            assert(covered_upto(spans, upto, i));
        }
    }
    if covered_upto(spans, upto, i) {
        let k = choose|k: int| 0 <= k < upto && (#[trigger] spans[k]).0 <= i < spans[k].1;
        assert(0 <= k < upto + 1 && spans[k].0 <= i < spans[k].1);
    }
    if spans[upto].0 <= i < spans[upto].1 {
        assert(0 <= upto < upto + 1 && spans[upto].0 <= i < spans[upto].1);
    }
}

/// Build the style overlay for a content of the given length from a match
/// list whose spans all lie inside the content: the rendering of the match
/// list, rebuilt whole.
pub fn rebuild_style(content_len: usize, spans: &Vec<MatchSpan>) -> (r: Vec<u8>)
    requires
        forall|k: int|
            0 <= k < spans@.len() ==> (#[trigger] spans@[k]).start <= spans@[k].end <= content_len,
    ensures
        r@ == style_of(content_len as nat, spans_of(spans@)),
{
    let ghost sp = spans_of(spans@);
    let mut style: Vec<u8> = Vec::new();
    if content_len == 0 {
        style.push(STYLE_PLAIN);
        proof {
            assert(style@ =~= style_of(content_len as nat, sp));
        }
        return style;
    }
    while style.len() < content_len
        invariant
            style@.len() <= content_len,
            forall|i: int| 0 <= i < style@.len() ==> style@[i] == STYLE_PLAIN,
        decreases content_len - style@.len(),
    {
        style.push(STYLE_PLAIN);
    }
    let mut k: usize = 0;
    while k < spans.len()
        invariant
            0 < content_len,
            style@.len() == content_len,
            sp == spans_of(spans@),
            k <= spans@.len(),
            forall|k2: int|
                0 <= k2 < spans@.len() ==> (#[trigger] spans@[k2]).start <= spans@[k2].end
                    <= content_len,
            forall|i: int|
                0 <= i < content_len ==> style@[i] == if covered_upto(sp, k as int, i) {
                    STYLE_HIGHLIGHT
                } else {
                    STYLE_PLAIN
                },
        decreases spans@.len() - k,
    {
        let s = spans[k].start;
        let e = spans[k].end;
        let mut i: usize = s;
        while i < e
            invariant
                0 < content_len,
                style@.len() == content_len,
                sp == spans_of(spans@),
                k < spans@.len(),
                spans@[k as int].start == s,
                spans@[k as int].end == e,
                s <= i <= e <= content_len,
                forall|i2: int|
                    0 <= i2 < content_len ==> style@[i2] == if covered_upto(sp, k as int, i2) || (
                    s <= i2 < i) {
                        STYLE_HIGHLIGHT
                    } else {
                        STYLE_PLAIN
                    },
            decreases e - i,
        {
            style[i] = STYLE_HIGHLIGHT;
            i = i + 1;
        }
        proof {
            assert(sp[k as int] == (s as int, e as int));
            assert forall|i2: int| 0 <= i2 < content_len implies style@[i2] == (
            if covered_upto(sp, k as int + 1, i2) {
                STYLE_HIGHLIGHT
            } else {
                STYLE_PLAIN
            }) by {
                lemma_covered_step(sp, k as int, i2);
            }
        }
        k = k + 1;
    }
    proof {
        assert(style@ =~= style_of(content_len as nat, sp));
    }
    style
}

} // verus!
