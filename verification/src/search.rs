//! Search engine: scans the document content left to right for
//! non-overlapping occurrences of a pattern, optionally folding both sides
//! to a canonical case first. Offsets are raw storage units (bytes).

use vstd::prelude::*;

verus! {

/// One search hit: a half-open byte-offset interval into the content.
#[derive(Clone, Copy, Debug, PartialEq, Eq, Structural)]
pub struct MatchSpan {
    pub start: usize,
    pub end: usize,
}

/// Canonical case fold for one storage unit: ASCII uppercase letters map to
/// their lowercase counterparts, every other byte is unchanged.
pub open spec fn fold_byte(b: u8) -> u8 {
    if 65 <= b && b <= 90 {
        (b + 32) as u8
    } else {
        b
    }
}

/// The sequence a search pass compares: folded when the search is
/// case-insensitive, verbatim when it is case-sensitive.
pub open spec fn cmp_seq(s: Seq<u8>, case_sensitive: bool) -> Seq<u8> {
    if case_sensitive {
        s
    } else {
        s.map_values(|b: u8| fold_byte(b))
    }
}

/// The pattern occurs in the text at offset `i`.
pub open spec fn match_at(text: Seq<u8>, pat: Seq<u8>, i: int) -> bool {
    &&& 0 <= i
    &&& i + pat.len() <= text.len()
    &&& text.subrange(i, i + pat.len() as int) == pat
}

/// Left-to-right scan from `pos` for non-overlapping occurrences of a
/// non-empty pattern: after a hit at `s` the scan resumes at `s + pat.len()`.
pub open spec fn scan_from(text: Seq<u8>, pat: Seq<u8>, pos: nat) -> Seq<(int, int)>
    decreases text.len() + 1 - pos when pat.len() > 0
{
    if pos + pat.len() > text.len() {
        Seq::empty()
    } else if match_at(text, pat, pos as int) {
        seq![(pos as int, pos + pat.len() as int)] + scan_from(text, pat, (pos + pat.len()) as nat)
    } else {
        scan_from(text, pat, pos + 1)
    }
}

/// The match list of a whole search pass: empty for an empty pattern,
/// otherwise the scan over the (possibly case-folded) text and pattern.
pub open spec fn matches_of(text: Seq<u8>, pat: Seq<u8>, case_sensitive: bool) -> Seq<(int, int)> {
    if pat.len() == 0 {
        Seq::empty()
    } else {
        scan_from(cmp_seq(text, case_sensitive), cmp_seq(pat, case_sensitive), 0)
    }
}

/// The spans a search pass returns, as pairs of mathematical integers.
pub open spec fn spans_of(v: Seq<MatchSpan>) -> Seq<(int, int)> {
    v.map_values(|m: MatchSpan| (m.start as int, m.end as int))
}

/// Executable case fold, equal to the specification fold.
pub fn fold_byte_exec(b: u8) -> (r: u8)
    ensures
        r == fold_byte(b),
{
    if 65 <= b && b <= 90 {
        b + 32
    } else {
        b
    }
}

/// The pattern occurs at `pos` of the content, compared case-sensitively or
/// after folding both sides, exactly as `match_at` over the compared
/// sequences says.
fn match_at_exec(pattern: &Vec<u8>, case_sensitive: bool, content: &Vec<u8>, pos: usize) -> (r: bool)
    requires
        pattern@.len() > 0,
        pos + pattern@.len() <= content@.len(),
    ensures
        r == match_at(
            cmp_seq(content@, case_sensitive),
            cmp_seq(pattern@, case_sensitive),
            pos as int,
        ),
{
    let ghost ftext = cmp_seq(content@, case_sensitive);
    let ghost fpat = cmp_seq(pattern@, case_sensitive);
    let clen = content.len();
    let mut j: usize = 0;
    while j < pattern.len()
        invariant
            pattern@.len() > 0,
            pos + pattern@.len() <= content@.len(),
            clen == content@.len(),
            j <= pattern@.len(),
            ftext == cmp_seq(content@, case_sensitive),
            fpat == cmp_seq(pattern@, case_sensitive),
            forall|k: int| 0 <= k < j ==> ftext[pos + k] == #[trigger] fpat[k],
        decreases pattern@.len() - j,
    {
        let cb = if case_sensitive {
            content[pos + j]
        } else {
            fold_byte_exec(content[pos + j])
        };
        let pb = if case_sensitive {
            pattern[j]
        } else {
            fold_byte_exec(pattern[j])
        };
        if cb != pb {
            proof {
                assert(ftext[pos + j as int] != fpat[j as int]);
                assert(ftext.subrange(pos as int, pos + fpat.len() as int)[j as int]
                    == ftext[pos + j as int]);
            }
            return false;
        }
        j = j + 1;
    }
    proof {
        assert(ftext.subrange(pos as int, pos + fpat.len() as int) =~= fpat);
    }
    true
}

/// Search pass of the engine: the spans of all non-overlapping left-to-right
/// occurrences of the pattern in the content, folded to a canonical case
/// first when `case_sensitive` is false; an empty pattern yields no matches.
pub fn search(pattern: &Vec<u8>, case_sensitive: bool, content: &Vec<u8>) -> (r: Vec<MatchSpan>)
    ensures
        spans_of(r@) == matches_of(content@, pattern@, case_sensitive),
{
    let mut out: Vec<MatchSpan> = Vec::new();
    let plen = pattern.len();
    if plen == 0 {
        proof {
            assert(spans_of(out@) =~= matches_of(content@, pattern@, case_sensitive));
        }
        return out;
    }
    let ghost ftext = cmp_seq(content@, case_sensitive);
    let ghost fpat = cmp_seq(pattern@, case_sensitive);
    let mut pos: usize = 0;
    while plen <= content.len() && pos <= content.len() - plen
        invariant
            pattern@.len() == plen,
            plen > 0,
            pos <= content@.len(),
            ftext == cmp_seq(content@, case_sensitive),
            fpat == cmp_seq(pattern@, case_sensitive),
            scan_from(ftext, fpat, 0) =~= spans_of(out@) + scan_from(ftext, fpat, pos as nat),
        decreases content@.len() - pos,
    {
        if match_at_exec(pattern, case_sensitive, content, pos) {
            let ghost prev = out@;
            out.push(MatchSpan { start: pos, end: pos + plen });
            proof {
                assert(spans_of(out@) =~= spans_of(prev).push((pos as int, pos + plen as int)));
                assert(scan_from(ftext, fpat, pos as nat)
                    =~= seq![(pos as int, pos + plen as int)]
                        + scan_from(ftext, fpat, (pos + plen) as nat));
                assert(scan_from(ftext, fpat, 0)
                    =~= spans_of(out@) + scan_from(ftext, fpat, (pos + plen) as nat));
            }
            pos = pos + plen;
        } else {
            proof {
                assert(scan_from(ftext, fpat, pos as nat)
                    =~= scan_from(ftext, fpat, (pos + 1) as nat));
            }
            pos = pos + 1;
        }
    }
    proof {
        assert(scan_from(ftext, fpat, pos as nat) =~= Seq::<(int, int)>::empty());
        assert(spans_of(out@) =~= matches_of(content@, pattern@, case_sensitive));
    }
    out
}

/// The scan from `pos` reports only occurrences, each span exactly one
/// pattern length wide, in strictly increasing non-overlapping order, and
/// misses none: every occurrence at or after `pos` lies inside some
/// reported span.
proof fn lemma_scan_from_properties(text: Seq<u8>, pat: Seq<u8>, pos: nat)
    requires
        pat.len() > 0,
    ensures
        ({
            let r = scan_from(text, pat, pos);
            &&& forall|k: int| 0 <= k < r.len() ==> (#[trigger] r[k]).1 == r[k].0 + pat.len()
            &&& forall|k: int| 0 <= k < r.len() ==> pos <= (#[trigger] r[k]).0 && r[k].1 <= text.len()
            &&& forall|k: int| 0 <= k < r.len() ==> match_at(text, pat, (#[trigger] r[k]).0)
            &&& forall|k: int| 0 <= k < r.len() - 1 ==> (#[trigger] r[k]).1 <= r[k + 1].0
            &&& forall|i: int|
                pos <= i && #[trigger] match_at(text, pat, i) ==> exists|k: int|
                    0 <= k < r.len() && (#[trigger] r[k]).0 <= i < r[k].1
        }),
    decreases text.len() + 1 - pos,
{
    let r = scan_from(text, pat, pos);
    if pos + pat.len() > text.len() {
        assert forall|i: int| pos <= i && #[trigger] match_at(text, pat, i) implies exists|k: int|
            0 <= k < r.len() && (#[trigger] r[k]).0 <= i < r[k].1 by {
            assert(i + pat.len() <= text.len());
        }
    } else if match_at(text, pat, pos as int) {
        let rest = scan_from(text, pat, (pos + pat.len()) as nat);
        lemma_scan_from_properties(text, pat, (pos + pat.len()) as nat);
        assert(r =~= seq![(pos as int, pos + pat.len() as int)] + rest);
        assert forall|k: int| 0 <= k < r.len() - 1 implies (#[trigger] r[k]).1 <= r[k + 1].0 by {
            if k > 0 {
                assert(r[k] == rest[k - 1]);
                assert(r[k + 1] == rest[k]);
            } else {
                assert(r[1] == rest[0]);
            }
        }
        assert forall|i: int| pos <= i && #[trigger] match_at(text, pat, i) implies exists|k: int|
            0 <= k < r.len() && (#[trigger] r[k]).0 <= i < r[k].1 by {
            if i < pos + pat.len() {
                assert(r[0].0 <= i < r[0].1);
            } else {
                let k0 = choose|k: int|
                    0 <= k < rest.len() && (#[trigger] rest[k]).0 <= i < rest[k].1;
                assert(r[k0 + 1] == rest[k0]);
                assert(r[k0 + 1].0 <= i < r[k0 + 1].1);
            }
        }
    } else {
        lemma_scan_from_properties(text, pat, pos + 1);
        assert(r =~= scan_from(text, pat, pos + 1));
        assert forall|i: int| pos <= i && #[trigger] match_at(text, pat, i) implies exists|k: int|
            0 <= k < r.len() && (#[trigger] r[k]).0 <= i < r[k].1 by {
            assert(i != pos);
        }
    }
}

/// Law: an empty pattern matches nothing, whatever the text and case flag;
/// a search pass over it yields an empty match list.
pub proof fn lemma_empty_pattern(text: Seq<u8>, case_sensitive: bool)
    ensures
        matches_of(text, Seq::<u8>::empty(), case_sensitive) == Seq::<(int, int)>::empty(),
{
}

/// Law of the search pass, for any non-empty pattern, text and case flag:
/// the reported spans are strictly increasing and non-overlapping, each is
/// exactly one pattern length wide and marks an occurrence of the (possibly
/// case-folded) pattern, and every such occurrence lies inside some reported
/// span, so the scan that skips one pattern length after each hit misses
/// nothing between spans.
pub proof fn lemma_search_matches(text: Seq<u8>, pat: Seq<u8>, case_sensitive: bool)
    requires
        pat.len() > 0,
    ensures
        ({
            let ftext = cmp_seq(text, case_sensitive);
            let fpat = cmp_seq(pat, case_sensitive);
            let r = matches_of(text, pat, case_sensitive);
            &&& forall|k: int| 0 <= k < r.len() ==> (#[trigger] r[k]).1 == r[k].0 + pat.len()
            &&& forall|k: int| 0 <= k < r.len() ==> 0 <= (#[trigger] r[k]).0 && r[k].1 <= text.len()
            &&& forall|k: int| 0 <= k < r.len() ==> match_at(ftext, fpat, (#[trigger] r[k]).0)
            &&& forall|k: int| 0 <= k < r.len() - 1 ==> (#[trigger] r[k]).1 <= r[k + 1].0
            &&& forall|k: int| 0 <= k < r.len() - 1 ==> (#[trigger] r[k]).0 < r[k + 1].0
            &&& forall|i: int|
                #[trigger] match_at(ftext, fpat, i) ==> exists|k: int|
                    0 <= k < r.len() && (#[trigger] r[k]).0 <= i < r[k].1
        }),
{
    let ftext = cmp_seq(text, case_sensitive);
    let fpat = cmp_seq(pat, case_sensitive);
    assert(ftext.len() == text.len());
    assert(fpat.len() == pat.len());
    lemma_scan_from_properties(ftext, fpat, 0);
}

} // verus!
