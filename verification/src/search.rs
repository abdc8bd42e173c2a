//! Text search over the data buffer, and the focus that moves from hit to
//! hit.

use vstd::prelude::*;
use crate::data::{RichData, RichDataView};
use crate::board::views;
use crate::piece::LinePieceView;
use crate::text::chars_of;
use crate::PADDING_TOP;

verus! {

/// Whether `pat` occurs in `text` starting at character `p`.
pub open spec fn matches_at(text: Seq<char>, pat: Seq<char>, p: int) -> bool {
    0 <= p && p + pat.len() <= text.len() && text.subrange(p, p + pat.len()) == pat
}

/// Whether `pat` occurs in `text`.
pub open spec fn occurs_in(text: Seq<char>, pat: Seq<char>) -> bool {
    exists|p: int| matches_at(text, pat, p)
}

/// The starts of the occurrences of a non-empty `pat` in `text` that end
/// at or before `end`, found from the right without overlapping: the
/// rightmost one first, then those that end at or before its start. An
/// empty `pat` gives none.
pub open spec fn rmatches(text: Seq<char>, pat: Seq<char>, end: int) -> Seq<int>
    decreases end,
{
    if pat.len() == 0 || end < pat.len() {
        Seq::empty()
    } else if matches_at(text, pat, end - pat.len()) {
        seq![end - pat.len()] + rmatches(text, pat, end - pat.len())
    } else {
        rmatches(text, pat, end - 1)
    }
}

/// Character ranges of `n` characters starting at `starts`.
pub open spec fn ranges_of(starts: Seq<int>, n: nat) -> Seq<(usize, usize)> {
    starts.map_values(|p: int| (p as usize, (p + n) as usize))
}

/// The character ranges of the hits of `pat` in `text`, from the right.
pub open spec fn hit_ranges(text: Seq<char>, pat: Seq<char>) -> Seq<(usize, usize)> {
    ranges_of(rmatches(text, pat, text.len() as int), pat.len())
}

/// Every start that `rmatches` gives is an occurrence ending at or before
/// `end`; and a non-empty `pat` that occurs there gives at least one.
proof fn lemma_rmatches(text: Seq<char>, pat: Seq<char>, end: int)
    requires
        pat.len() > 0,
        end <= text.len(),
    ensures
        forall|i: int| 0 <= i < rmatches(text, pat, end).len() ==> #[trigger] matches_at(text, pat, rmatches(text, pat, end)[i])
            && rmatches(text, pat, end)[i] + pat.len() <= end,
        rmatches(text, pat, end).len() > 0 <==> exists|p: int| matches_at(text, pat, p) && p + pat.len() <= end,
    decreases end,
{
    if end < pat.len() {
        if exists|p: int| matches_at(text, pat, p) && p + pat.len() <= end {
            let p = choose|p: int| matches_at(text, pat, p) && p + pat.len() <= end;
            assert(p >= 0);
        }
    } else if matches_at(text, pat, end - pat.len()) {
        lemma_rmatches(text, pat, end - pat.len());
        let r = rmatches(text, pat, end);
        let rest = rmatches(text, pat, end - pat.len());
        assert forall|i: int| 0 <= i < r.len() implies #[trigger] matches_at(text, pat, r[i]) && r[i] + pat.len() <= end by {
            if i > 0 {
                assert(r[i] == rest[i - 1]);
            }
        }
    } else {
        lemma_rmatches(text, pat, end - 1);
        if exists|p: int| matches_at(text, pat, p) && p + pat.len() <= end {
            let p = choose|p: int| matches_at(text, pat, p) && p + pat.len() <= end;
            if p + pat.len() == end {
                assert(false);
            }
            assert(matches_at(text, pat, p) && p + pat.len() <= end - 1);
        }
    }
}

/// Whether a non-empty `pat` occurs in `text` starting at `p`, which leaves
/// room for it.
fn matches_at_exec(text: &Vec<char>, pat: &Vec<char>, p: usize) -> (b: bool)
    requires
        p + pat@.len() <= text@.len(),
    ensures
        b == matches_at(text@, pat@, p as int),
{
    let n = pat.len();
    let tl = text.len();
    let mut k: usize = 0;
    while k < n
        invariant
            n == pat@.len(),
            tl == text@.len(),
            k <= n,
            p + n <= text@.len(),
            forall|j: int| 0 <= j < k ==> text@[p + j] == pat@[j],
        decreases n - k,
    {
        if text[p + k] != pat[k] {
            assert(text@.subrange(p as int, p + n)[k as int] != pat@[k as int]);
            return false;
        }
        k = k + 1;
    }
    assert(text@.subrange(p as int, p + n) =~= pat@);
    true
}

/// The character ranges of the hits of `pat` in `text`, from the right and
/// without overlapping.
pub fn match_ranges(text: &Vec<char>, pat: &Vec<char>) -> (r: Vec<(usize, usize)>)
    ensures
        r@ == hit_ranges(text@, pat@),
{
    let n = pat.len();
    let mut r: Vec<(usize, usize)> = Vec::new();
    if n == 0 {
        assert(r@ =~= hit_ranges(text@, pat@));
        return r;
    }
    let mut end = text.len();
    assert(r@ + ranges_of(rmatches(text@, pat@, end as int), n as nat) =~= hit_ranges(text@, pat@));
    while end >= n
        invariant
            n == pat@.len(),
            n > 0,
            end <= text@.len(),
            r@ + ranges_of(rmatches(text@, pat@, end as int), n as nat) == hit_ranges(text@, pat@),
        decreases end,
    {
        if matches_at_exec(text, pat, end - n) {
            let ghost rest = rmatches(text@, pat@, end - n);
            assert(ranges_of(rmatches(text@, pat@, end as int), n as nat)
                =~= seq![((end - n) as usize, end)] + ranges_of(rest, n as nat));
            r.push((end - n, end));
            end = end - n;
            assert(r@ + ranges_of(rmatches(text@, pat@, end as int), n as nat)
                =~= hit_ranges(text@, pat@));
        } else {
            end = end - 1;
        }
    }
    assert(r@ =~= hit_ranges(text@, pat@));
    r
}

/// A segment after its search hits and focus were dropped.
pub open spec fn cleared(r: RichDataView) -> RichDataView {
    RichDataView { search_result_positions: None, search_highlight_pos: None, ..r }
}

/// A segment with the hits of `pat` recorded, where it has any.
pub open spec fn with_hits(r: RichDataView, pat: Seq<char>) -> RichDataView {
    if hit_ranges(r.text, pat).len() > 0 {
        RichDataView { search_result_positions: Some(hit_ranges(r.text, pat)), ..r }
    } else {
        r
    }
}

/// A segment with the focus on its hit `h`, or on none.
pub open spec fn with_focus(r: RichDataView, h: Option<usize>) -> RichDataView {
    RichDataView { search_highlight_pos: h, ..r }
}

/// The indices below `hi` of the segments whose text holds `pat`, in
/// decreasing order.
pub open spec fn hits_desc(bufs: Seq<RichDataView>, pat: Seq<char>, hi: int) -> Seq<usize>
    decreases hi,
{
    if hi <= 0 {
        Seq::empty()
    } else if hit_ranges(bufs[hi - 1].text, pat).len() > 0 {
        seq![(hi - 1) as usize] + hits_desc(bufs, pat, hi - 1)
    } else {
        hits_desc(bufs, pat, hi - 1)
    }
}

/// Whether the numbers decrease strictly.
pub open spec fn strictly_decreasing(s: Seq<usize>) -> bool {
    forall|i: int, j: int| 0 <= i < j < s.len() ==> s[i] > s[j]
}

/// Whether every recorded list of hits is non-empty, as the search makes
/// them.
pub open spec fn positions_nonempty(bufs: Seq<RichDataView>) -> bool {
    forall|i: int| 0 <= i < bufs.len() ==> match #[trigger] bufs[i].search_result_positions {
        Some(v) => v.len() > 0,
        None => true,
    }
}

/// Where the search stands: the string looked for, the buffer indices of
/// the segments that hold it (in decreasing order), and the focused hit as
/// (segment index, hit number).
#[derive(Debug)]
pub struct SearchState {
    pub search_string: Option<Vec<char>>,
    pub search_results: Vec<usize>,
    pub current_highlight_focus: Option<(usize, usize)>,
}

/// The contents of a search state.
pub struct SearchView {
    pub search_string: Option<Seq<char>>,
    pub search_results: Seq<usize>,
    pub current_highlight_focus: Option<(usize, usize)>,
}

impl View for SearchState {
    type V = SearchView;

    open spec fn view(&self) -> SearchView {
        SearchView {
            search_string: match self.search_string {
                Some(s) => Some(s@),
                None => None,
            },
            search_results: self.search_results@,
            current_highlight_focus: self.current_highlight_focus,
        }
    }
}

/// Where the search continues backwards after the focused segment `rd`:
/// the position after it in the result list, or the start.
pub open spec fn after_position(results: Seq<usize>, rd: usize) -> int {
    if results.contains(rd) {
        results.index_of(rd) + 1
    } else {
        0
    }
}

/// Where the search continues forwards after the focused segment `rd`: the
/// position before it in the result list, or the end.
pub open spec fn before_position(results: Seq<usize>, rd: usize) -> int {
    if results.contains(rd) && results.index_of(rd) >= 1 {
        results.index_of(rd) - 1
    } else {
        results.len() - 1
    }
}

/// The segment at position `j` of the result list, or the first one where
/// the list is shorter.
pub open spec fn result_or_first(results: Seq<usize>, j: int) -> usize {
    if 0 <= j < results.len() {
        results[j]
    } else if results.len() > 0 {
        results[0]
    } else {
        0
    }
}

/// The buffer with the focus of segment `i` set to `h`, where it exists.
pub open spec fn focus_at(bufs: Seq<RichDataView>, i: int, h: Option<usize>) -> Seq<RichDataView> {
    if 0 <= i < bufs.len() {
        bufs.update(i, with_focus(bufs[i], h))
    } else {
        bufs
    }
}

/// The focus and buffer after moving backwards (up and to the left) to the
/// next hit: within the focused segment to its next hit, else to the first
/// hit of the segment after it in the result list (the first segment after
/// the last); with no focus yet, to the first hit of the first segment.
pub open spec fn previous_step(results: Seq<usize>, focus: Option<(usize, usize)>, bufs: Seq<RichDataView>)
    -> (Option<(usize, usize)>, Seq<RichDataView>)
{
    match focus {
        None => {
            if results.len() > 0 && results[0] < bufs.len() && bufs[results[0] as int].search_result_positions is Some {
                (Some((results[0], 0usize)), focus_at(bufs, results[0] as int, Some(0usize)))
            } else {
                (focus, bufs)
            }
        },
        Some((rd, k)) => {
            if rd < bufs.len() && bufs[rd as int].search_result_positions is Some {
                let v = bufs[rd as int].search_result_positions->0;
                if k + 1 < v.len() {
                    (Some((rd, (k + 1) as usize)), focus_at(bufs, rd as int, Some((k + 1) as usize)))
                } else {
                    let next = result_or_first(results, after_position(results, rd));
                    (Some((next, 0usize)), focus_at(focus_at(bufs, rd as int, None), next as int, Some(0usize)))
                }
            } else {
                (focus, bufs)
            }
        },
    }
}

/// The focus and buffer after moving forwards (down and to the right) to
/// the next hit: within the focused segment to its previous hit, else to
/// the segment before it in the result list (the last segment before the
/// first), whose last hit (the leftmost) is marked and takes the focus;
/// with no focus yet, to the last hit of the last segment.
pub open spec fn next_step(results: Seq<usize>, focus: Option<(usize, usize)>, bufs: Seq<RichDataView>)
    -> (Option<(usize, usize)>, Seq<RichDataView>)
{
    match focus {
        None => {
            if results.len() > 0 && results.last() < bufs.len() && bufs[results.last() as int].search_result_positions is Some {
                let n = bufs[results.last() as int].search_result_positions->0.len();
                (Some((results.last(), (n - 1) as usize)), focus_at(bufs, results.last() as int, Some((n - 1) as usize)))
            } else {
                (focus, bufs)
            }
        },
        Some((rd, k)) => {
            if rd < bufs.len() {
                if k >= 1 {
                    (Some((rd, (k - 1) as usize)), focus_at(bufs, rd as int, Some((k - 1) as usize)))
                } else {
                    let next = results[before_position(results, rd)];
                    let b1 = focus_at(bufs, rd as int, None);
                    if next < b1.len() {
                        match b1[next as int].search_result_positions {
                            Some(pv) => (Some((next, (pv.len() - 1) as usize)), focus_at(b1, next as int, Some((pv.len() - 1) as usize))),
                            None => (focus, focus_at(b1, next as int, Some(0usize))),
                        }
                    } else {
                        (focus, b1)
                    }
                }
            } else {
                (focus, bufs)
            }
        },
    }
}

/// Whether `a` and `b` hold the same characters.
fn same_chars(a: &Vec<char>, b: &Vec<char>) -> (r: bool)
    ensures
        r == (a@ == b@),
{
    if a.len() != b.len() {
        return false;
    }
    let mut i: usize = 0;
    while i < a.len()
        invariant
            a@.len() == b@.len(),
            i <= a@.len(),
            forall|j: int| 0 <= j < i ==> a@[j] == b@[j],
        decreases a@.len() - i,
    {
        if a[i] != b[i] {
            return false;
        }
        i = i + 1;
    }
    assert(a@ =~= b@);
    true
}

/// Sets the focus mark of segment `i`, where it exists.
fn set_focus(buffer: &mut Vec<RichData>, i: usize, h: Option<usize>)
    ensures
        final(buffer)@.len() == old(buffer)@.len(),
        views(final(buffer)@) == focus_at(views(old(buffer)@), i as int, h),
{
    if i < buffer.len() {
        buffer[i].search_highlight_pos = h;
        assert(views(buffer@) =~= focus_at(views(old(buffer)@), i as int, h));
    } else {
        assert(views(buffer@) =~= focus_at(views(old(buffer)@), i as int, h));
    }
}

impl SearchState {
    /// The state before any search.
    pub fn new() -> (s: SearchState)
        ensures
            s@.search_string is None,
            s@.search_results == Seq::<usize>::empty(),
            s@.current_highlight_focus is None,
    {
        SearchState { search_string: None, search_results: Vec::new(), current_highlight_focus: None }
    }

    /// Looks for `target` among the results, which decrease strictly: where
    /// it stands, or where it would stand.
    pub fn binary_search_with_desc_order(&self, target: usize) -> (r: Result<usize, usize>)
        requires
            strictly_decreasing(self@.search_results),
        ensures
            match r {
                Ok(i) => i < self@.search_results.len() && self@.search_results[i as int] == target,
                Err(i) => i <= self@.search_results.len()
                    && !self@.search_results.contains(target)
                    && (forall|j: int| 0 <= j < i ==> self@.search_results[j] > target)
                    && (forall|j: int| i <= j < self@.search_results.len() ==> self@.search_results[j] < target),
            },
    {
        let s = &self.search_results;
        let mut lo: usize = 0;
        let mut hi: usize = s.len();
        while lo < hi
            invariant
                lo <= hi <= s@.len(),
                s@ == self@.search_results,
                strictly_decreasing(s@),
                forall|j: int| 0 <= j < lo ==> s@[j] > target,
                forall|j: int| hi <= j < s@.len() ==> s@[j] < target,
            decreases hi - lo,
        {
            let mid = lo + (hi - lo) / 2;
            if s[mid] == target {
                return Ok(mid);
            } else if s[mid] > target {
                lo = mid + 1;
            } else {
                hi = mid;
            }
        }
        Err(lo)
    }

    /// Drops the hits of the last search from the segments, and the focus.
    pub fn clear_results(&mut self, buffer: &mut Vec<RichData>)
        ensures
            final(self)@.search_string == old(self)@.search_string,
            final(self)@.search_results == Seq::<usize>::empty(),
            final(self)@.current_highlight_focus is None,
            views(final(buffer)@).len() == views(old(buffer)@).len(),
            forall|i: int| 0 <= i < views(old(buffer)@).len() ==> #[trigger] views(final(buffer)@)[i]
                == if old(self)@.search_results.contains(i as usize) { cleared(views(old(buffer)@)[i]) } else { views(old(buffer)@)[i] },
    {
        let n = self.search_results.len();
        let mut k: usize = 0;
        while k < n
            invariant
                n == self.search_results@.len(),
                self.search_results@ == old(self).search_results@,
                k <= n,
                buffer@.len() == old(buffer)@.len(),
                forall|i: int| 0 <= i < buffer@.len() ==> #[trigger] buffer@[i]@
                    == if self.search_results@.take(k as int).contains(i as usize) { cleared(old(buffer)@[i]@) } else { old(buffer)@[i]@ },
            decreases n - k,
        {
            let idx = self.search_results[k];
            let ghost before = buffer@;
            if idx < buffer.len() {
                buffer[idx].search_result_positions = None;
                buffer[idx].search_highlight_pos = None;
            }
            proof {
                let t0 = self.search_results@.take(k as int);
                let t1 = self.search_results@.take(k + 1);
                assert(t1 =~= t0.push(idx));
                assert forall|i: int| 0 <= i < buffer@.len() implies #[trigger] buffer@[i]@
                    == if t1.contains(i as usize) { cleared(old(buffer)@[i]@) } else { old(buffer)@[i]@ } by {
                    if i == idx as int {
                        assert(t1[k as int] == idx);
                        assert(before[i]@ == if t0.contains(i as usize) { cleared(old(buffer)@[i]@) } else { old(buffer)@[i]@ });
                        assert(buffer@[i]@ =~= cleared(before[i]@));
                        assert(cleared(before[i]@) =~= cleared(old(buffer)@[i]@));
                    } else {
                        assert(buffer@[i] == before[i]);
                        if t1.contains(i as usize) {
                            let w = choose|w: int| 0 <= w < t1.len() && t1[w] == i as usize;
                            assert(w < k);
                            assert(t0[w] == i as usize);
                        }
                        if t0.contains(i as usize) {
                            let w = choose|w: int| 0 <= w < t0.len() && t0[w] == i as usize;
                            assert(t1[w] == i as usize);
                        }
                    }
                }
            }
            k = k + 1;
        }
        assert(self.search_results@.take(n as int) =~= self.search_results@);
        self.search_results.clear();
        self.current_highlight_focus = None;
    }

    /// Looks for the non-empty `search_str` in every segment: the hits are
    /// recorded in the segments that hold it, those segments make the
    /// result list, and the focus is dropped. Returns whether any segment
    /// holds it.
    pub fn search_target(&mut self, buffer: &mut Vec<RichData>, search_str: Vec<char>) -> (found: bool)
        requires
            search_str@.len() > 0,
        ensures
            final(self)@.search_string == Some(search_str@),
            final(self)@.search_results == hits_desc(views(old(buffer)@), search_str@, old(buffer)@.len() as int),
            final(self)@.current_highlight_focus is None,
            found == (final(self)@.search_results.len() > 0),
            views(final(buffer)@).len() == views(old(buffer)@).len(),
            forall|i: int| 0 <= i < views(old(buffer)@).len() ==> #[trigger] views(final(buffer)@)[i]
                == with_hits(if old(self)@.search_results.contains(i as usize) { cleared(views(old(buffer)@)[i]) } else { views(old(buffer)@)[i] }, search_str@),
    {
        self.clear_results(buffer);
        let ghost mid = views(buffer@);
        let ghost old_v = views(old(buffer)@);
        let n = buffer.len();
        let mut i = n;
        let mut results: Vec<usize> = Vec::new();
        while i > 0
            invariant
                i <= n,
                n == buffer@.len(),
                n == mid.len(),
                forall|j: int| 0 <= j < i ==> #[trigger] buffer@[j]@ == mid[j],
                forall|j: int| i <= j < n ==> #[trigger] buffer@[j]@ == with_hits(mid[j], search_str@),
                n == old_v.len(),
                forall|j: int| 0 <= j < n ==> #[trigger] mid[j].text == old_v[j].text,
                results@ + hits_desc(mid, search_str@, i as int) == hits_desc(mid, search_str@, n as int),
            decreases i,
        {
            i = i - 1;
            let hits = match_ranges(&buffer[i].text, &search_str);
            let ghost before = buffer@;
            assert(before[i as int]@ == mid[i as int]);
            assert(hits@ == hit_ranges(mid[i as int].text, search_str@));
            if hits.len() > 0 {
                results.push(i);
                buffer[i].search_result_positions = Some(hits);
                assert(buffer@[i as int]@ =~= with_hits(mid[i as int], search_str@));
            } else {
                assert(buffer@[i as int] == before[i as int]);
                assert(buffer@[i as int]@ =~= with_hits(mid[i as int], search_str@));
            }
            assert forall|j: int| 0 <= j < n && j != i implies #[trigger] buffer@[j] == before[j] by {}
        }
        proof {
            assert(results@ =~= hits_desc(mid, search_str@, n as int));
            assert forall|hi: int| 0 <= hi <= n implies #[trigger] hits_desc(mid, search_str@, hi) == hits_desc(old_v, search_str@, hi) by {
                lemma_hits_desc_same_text(mid, old_v, search_str@, hi);
            }
            assert(views(buffer@) =~= views(buffer@));
        }
        self.search_results = results;
        self.search_string = Some(search_str);
        self.current_highlight_focus = None;
        self.search_results.len() > 0
    }
}

impl SearchState {
    /// Moves the focus backwards (up and to the left) to the next hit, as
    /// `previous_step` says.
    pub fn highlight_previous(&mut self, buffer: &mut Vec<RichData>)
        requires
            strictly_decreasing(old(self)@.search_results),
        ensures
            (final(self)@.current_highlight_focus, views(final(buffer)@))
                == previous_step(old(self)@.search_results, old(self)@.current_highlight_focus, views(old(buffer)@)),
            final(self)@.search_results == old(self)@.search_results,
            final(self)@.search_string == old(self)@.search_string,
    {
        let ghost b0 = views(buffer@);
        match self.current_highlight_focus {
            Some((old_rd_idx, old_result_idx)) => {
                if old_rd_idx < buffer.len() {
                    let has = match &buffer[old_rd_idx].search_result_positions {
                        Some(v) => Some(v.len()),
                        None => None,
                    };
                    match has {
                        Some(len) => {
                            assert(b0[old_rd_idx as int].search_result_positions->0.len() == len);
                            if old_result_idx < len && old_result_idx + 1 < len {
                                let next_result_idx = old_result_idx + 1;
                                self.current_highlight_focus = Some((old_rd_idx, next_result_idx));
                                set_focus(buffer, old_rd_idx, Some(next_result_idx));
                            } else {
                                let rl = self.search_results.len();
                                let next_idx = match self.binary_search_with_desc_order(old_rd_idx) {
                                    Ok(old_idx) => old_idx + 1,
                                    Err(_) => 0,
                                };
                                proof {
                                    lemma_desc_index(self@.search_results, old_rd_idx);
                                }
                                let next_rd_pos = if next_idx < self.search_results.len() {
                                    self.search_results[next_idx]
                                } else if self.search_results.len() > 0 {
                                    self.search_results[0]
                                } else {
                                    0
                                };
                                set_focus(buffer, old_rd_idx, None);
                                self.current_highlight_focus = Some((next_rd_pos, 0));
                                set_focus(buffer, next_rd_pos, Some(0));
                            }
                        },
                        None => {},
                    }
                }
            },
            None => {
                if self.search_results.len() > 0 {
                    let rd_idx = self.search_results[0];
                    if rd_idx < buffer.len() && buffer[rd_idx].search_result_positions.is_some() {
                        self.current_highlight_focus = Some((rd_idx, 0));
                        set_focus(buffer, rd_idx, Some(0));
                    }
                }
            },
        }
    }

    /// Moves the focus forwards (down and to the right) to the next hit, as
    /// `next_step` says.
    pub fn highlight_next(&mut self, buffer: &mut Vec<RichData>)
        requires
            strictly_decreasing(old(self)@.search_results),
            old(self)@.search_results.len() > 0,
            positions_nonempty(views(old(buffer)@)),
        ensures
            (final(self)@.current_highlight_focus, views(final(buffer)@))
                == next_step(old(self)@.search_results, old(self)@.current_highlight_focus, views(old(buffer)@)),
            final(self)@.search_results == old(self)@.search_results,
            final(self)@.search_string == old(self)@.search_string,
    {
        let ghost b0 = views(buffer@);
        match self.current_highlight_focus {
            Some((old_rd_idx, old_result_idx)) => {
                if old_rd_idx < buffer.len() {
                    if old_result_idx >= 1 {
                        self.current_highlight_focus = Some((old_rd_idx, old_result_idx - 1));
                        set_focus(buffer, old_rd_idx, Some(old_result_idx - 1));
                    } else {
                        let len = self.search_results.len();
                        let next_idx = match self.binary_search_with_desc_order(old_rd_idx) {
                            Ok(old_idx) => if old_idx >= 1 { old_idx - 1 } else { len - 1 },
                            Err(_) => len - 1,
                        };
                        proof {
                            lemma_desc_index(self@.search_results, old_rd_idx);
                        }
                        let next_rd_pos = self.search_results[next_idx];
                        set_focus(buffer, old_rd_idx, None);
                        if next_rd_pos < buffer.len() {
                            let ghost b1 = views(buffer@);
                            let last = match &buffer[next_rd_pos].search_result_positions {
                                Some(pv) => Some(pv.len()),
                                None => None,
                            };
                            match last {
                                Some(n) => {
                                    assert(b1[next_rd_pos as int].search_result_positions == b0[next_rd_pos as int].search_result_positions);
                                    assert(n == b0[next_rd_pos as int].search_result_positions->0.len());
                                    assert(match b0[next_rd_pos as int].search_result_positions { Some(v) => v.len() > 0, None => true });
                                    self.current_highlight_focus = Some((next_rd_pos, n - 1));
                                    set_focus(buffer, next_rd_pos, Some(n - 1));
                                },
                                None => {
                                    set_focus(buffer, next_rd_pos, Some(0));
                                },
                            }
                        }
                    }
                }
            },
            None => {
                let rd_idx = self.search_results[self.search_results.len() - 1];
                if rd_idx < buffer.len() {
                    let last = match &buffer[rd_idx].search_result_positions {
                        Some(srp) => Some(srp.len()),
                        None => None,
                    };
                    match last {
                        Some(n) => {
                            assert(b0[rd_idx as int].search_result_positions->0.len() == n);
                            self.current_highlight_focus = Some((rd_idx, n - 1));
                            set_focus(buffer, rd_idx, Some(n - 1));
                        },
                        None => {},
                    }
                }
            },
        }
    }

    /// Searches for the non-empty `search_str`: the same string as before
    /// keeps the hits and finds something where there were any, another
    /// string is looked for anew. Where something is found the focus moves
    /// to the next hit, forwards or backwards. Returns whether something
    /// was found.
    pub fn search_str(&mut self, buffer: &mut Vec<RichData>, search_str: &str, forward: bool) -> (found: bool)
        requires
            search_str@.len() > 0,
            strictly_decreasing(old(self)@.search_results),
            positions_nonempty(views(old(buffer)@)),
        ensures
            final(self)@.search_string == Some(search_str@),
            old(self)@.search_string == Some(search_str@) ==> {
                &&& found == (old(self)@.search_results.len() > 0)
                &&& final(self)@.search_results == old(self)@.search_results
                &&& (final(self)@.current_highlight_focus, views(final(buffer)@)) == if !found {
                        (old(self)@.current_highlight_focus, views(old(buffer)@))
                    } else if forward {
                        next_step(old(self)@.search_results, old(self)@.current_highlight_focus, views(old(buffer)@))
                    } else {
                        previous_step(old(self)@.search_results, old(self)@.current_highlight_focus, views(old(buffer)@))
                    }
            },
            old(self)@.search_string != Some(search_str@) ==> {
                let found_bufs = Seq::new(views(old(buffer)@).len(), |i: int|
                    with_hits(if old(self)@.search_results.contains(i as usize) { cleared(views(old(buffer)@)[i]) } else { views(old(buffer)@)[i] }, search_str@));
                let results = hits_desc(views(old(buffer)@), search_str@, old(buffer)@.len() as int);
                &&& found == (results.len() > 0)
                &&& final(self)@.search_results == results
                &&& (final(self)@.current_highlight_focus, views(final(buffer)@)) == if !found {
                        (None, found_bufs)
                    } else if forward {
                        next_step(results, None, found_bufs)
                    } else {
                        previous_step(results, None, found_bufs)
                    }
            },
    {
        let blen = buffer.len();
        let target = chars_of(search_str);
        let same = match &self.search_string {
            Some(old) => same_chars(old, &target),
            None => false,
        };
        let found = if same {
            self.search_results.len() > 0
        } else {
            let f = self.search_target(buffer, target);
            proof {
                let found_bufs = Seq::new(views(old(buffer)@).len(), |i: int|
                    with_hits(if old(self)@.search_results.contains(i as usize) { cleared(views(old(buffer)@)[i]) } else { views(old(buffer)@)[i] }, search_str@));
                assert(views(buffer@) =~= found_bufs);
                assert(views(old(buffer)@).len() == blen);
                lemma_hits_desc_decreasing(views(old(buffer)@), search_str@, old(buffer)@.len() as int);
                lemma_found_positions(views(old(buffer)@), old(self)@.search_results, search_str@);
            }
            f
        };
        if found {
            if forward {
                self.highlight_next(buffer);
            } else {
                self.highlight_previous(buffer);
            }
        }
        found
    }
}

/// A segment found at position `i` of strictly decreasing results is found
/// nowhere else.
proof fn lemma_desc_index(results: Seq<usize>, rd: usize)
    requires
        strictly_decreasing(results),
    ensures
        forall|i: int| 0 <= i < results.len() && results[i] == rd ==> results.contains(rd) && results.index_of(rd) == i,
{
    assert forall|i: int| 0 <= i < results.len() && results[i] == rd implies results.contains(rd) && results.index_of(rd) == i by {
        assert(results.contains(rd));
        let j = results.index_of(rd);
        assert(0 <= j < results.len() && results[j] == rd);
        if j < i {
            assert(results[j] > results[i]);
        } else if j > i {
            assert(results[i] > results[j]);
        }
    }
}

/// The indices of the hits decrease strictly, and each is below `hi`.
proof fn lemma_hits_desc_decreasing(bufs: Seq<RichDataView>, pat: Seq<char>, hi: int)
    requires
        hi <= bufs.len(),
        bufs.len() <= usize::MAX,
    ensures
        strictly_decreasing(hits_desc(bufs, pat, hi)),
        forall|i: int| 0 <= i < hits_desc(bufs, pat, hi).len() ==> #[trigger] hits_desc(bufs, pat, hi)[i] < hi,
    decreases hi,
{
    if hi > 0 {
        lemma_hits_desc_decreasing(bufs, pat, hi - 1);
        let rest = hits_desc(bufs, pat, hi - 1);
        let all = hits_desc(bufs, pat, hi);
        if hit_ranges(bufs[hi - 1].text, pat).len() > 0 {
            assert forall|i: int| 0 <= i < all.len() implies #[trigger] all[i] < hi by {
                if i > 0 {
                    assert(all[i] == rest[i - 1]);
                }
            }
            assert(all[0] == (hi - 1) as usize);
            assert forall|i: int, j: int| 0 <= i < j < all.len() implies all[i] > all[j] by {
                assert(all[j] == rest[j - 1]);
                if i > 0 {
                    assert(all[i] == rest[i - 1]);
                } else {
                    assert(rest[j - 1] < hi - 1);
                }
            }
        }
    }
}

/// After a search every recorded list of hits is non-empty.
proof fn lemma_found_positions(bufs: Seq<RichDataView>, results: Seq<usize>, pat: Seq<char>)
    requires
        positions_nonempty(bufs),
    ensures
        positions_nonempty(Seq::new(bufs.len(), |i: int|
            with_hits(if results.contains(i as usize) { cleared(bufs[i]) } else { bufs[i] }, pat))),
{
    let found = Seq::new(bufs.len(), |i: int|
        with_hits(if results.contains(i as usize) { cleared(bufs[i]) } else { bufs[i] }, pat));
    assert forall|i: int| 0 <= i < found.len() implies match #[trigger] found[i].search_result_positions {
        Some(v) => v.len() > 0,
        None => true,
    } by {
        assert(match bufs[i].search_result_positions { Some(v) => v.len() > 0, None => true });
    }
}

/// The piece of `pieces` that holds character `pos` of their joined lines,
/// counted from the first piece.
pub open spec fn piece_at(pieces: Seq<LinePieceView>, pos: int) -> Option<nat>
    decreases pieces.len(),
{
    if pieces.len() == 0 {
        None
    } else if 0 <= pos < pieces[0].line.len() {
        Some(0)
    } else {
        match piece_at(pieces.skip(1), pos - pieces[0].line.len()) {
            Some(i) => Some(i + 1),
            None => None,
        }
    }
}

/// How many characters the first `i` pieces hold together.
pub open spec fn chars_before(pieces: Seq<LinePieceView>, i: int) -> nat
    decreases i,
{
    if i <= 0 || pieces.len() == 0 {
        0
    } else {
        chars_before(pieces, i - 1) + pieces[i - 1].line.len()
    }
}

/// Counting from the second piece, the characters before piece `i` are
/// those before piece `i + 1` less the first piece's.
proof fn lemma_chars_before_skip(pieces: Seq<LinePieceView>, i: int)
    requires
        0 <= i < pieces.len(),
    ensures
        chars_before(pieces, i + 1) == pieces[0].line.len() + chars_before(pieces.skip(1), i),
    decreases i,
{
    assert(chars_before(pieces, 0) == 0);
    assert(chars_before(pieces.skip(1), 0) == 0);
    if i > 0 {
        lemma_chars_before_skip(pieces, i - 1);
        assert(pieces.skip(1)[i - 1] == pieces[i]);
        assert(chars_before(pieces.skip(1), i) == chars_before(pieces.skip(1), i - 1) + pieces.skip(1)[i - 1].line.len());
    }
}

/// Character `pos` of the joined lines of `pieces` lies in piece `i`
/// exactly when the pieces before `i` hold at most `pos` characters and
/// those up to and including `i` hold more: the piece found is the one
/// whose span of the joined text holds the position.
pub proof fn law_piece_at_span(pieces: Seq<LinePieceView>, pos: int, i: int)
    requires
        0 <= i < pieces.len(),
    ensures
        (piece_at(pieces, pos) == Some(i as nat)) <==> (chars_before(pieces, i) <= pos < chars_before(pieces, i + 1)),
    decreases pieces.len(),
{
    let l0 = pieces[0].line.len() as int;
    if i == 0 {
        assert(chars_before(pieces, 1) == l0) by {
            assert(chars_before(pieces, 0) == 0);
        }
        if !(0 <= pos < l0) {
            match piece_at(pieces.skip(1), pos - l0) {
                Some(j) => assert(piece_at(pieces, pos) == Some((j + 1) as nat)),
                None => {},
            }
        }
    } else {
        lemma_chars_before_skip(pieces, i);
        lemma_chars_before_skip(pieces, i - 1);
        law_piece_at_span(pieces.skip(1), pos - l0, i - 1);
        if 0 <= pos < l0 {
            assert(chars_before(pieces.skip(1), i - 1) >= 0);
        } else {
            match piece_at(pieces.skip(1), pos - l0) {
                Some(j) => {
                    assert(piece_at(pieces, pos) == Some((j + 1) as nat));
                },
                None => {},
            }
        }
    }
}

/// The piece found for a position is one of the pieces, and one is found
/// for every position within their joined lines.
pub proof fn law_piece_at_found(pieces: Seq<LinePieceView>, pos: int)
    ensures
        match piece_at(pieces, pos) {
            Some(i) => i < pieces.len(),
            None => pos < 0 || pos >= chars_before(pieces, pieces.len() as int),
        },
    decreases pieces.len(),
{
    if pieces.len() > 0 {
        law_piece_at_found(pieces.skip(1), pos - pieces[0].line.len());
        lemma_chars_before_skip(pieces, pieces.len() - 1);
        assert(pieces.skip(1).len() == pieces.len() - 1);
    }
}

/// The focused hit, as (segment index, piece index), that the view should
/// show; the piece is the one holding the start of the hit, or the first.
pub open spec fn focused_piece_of(s: SearchView, bufs: Seq<RichDataView>) -> Option<(usize, usize)> {
    match s.current_highlight_focus {
        None => None,
        Some((rd, k)) => {
            let piece = if rd < bufs.len() && s.search_string is Some
                && k < hit_ranges(bufs[rd as int].text, s.search_string->0).len() {
                match piece_at(bufs[rd as int].line_pieces, hit_ranges(bufs[rd as int].text, s.search_string->0)[k as int].0 as int) {
                    Some(i) => i,
                    None => 0,
                }
            } else {
                0
            };
            Some((rd, piece as usize))
        },
    }
}

/// The piece of `pieces` that holds character `pos` of their joined lines.
fn piece_index(pieces: &Vec<crate::piece::LinePiece>, pos: usize) -> (r: Option<usize>)
    ensures
        r == match piece_at(pieces@.map_values(|p: crate::piece::LinePiece| p@), pos as int) {
            Some(j) => Some(j as usize),
            None => None,
        },
{
    let ghost ps = pieces@.map_values(|p: crate::piece::LinePiece| p@);
    let mut processed: usize = 0;
    let mut i: usize = 0;
    assert(ps.skip(0) =~= ps);
    while i < pieces.len()
        invariant
            ps == pieces@.map_values(|p: crate::piece::LinePiece| p@),
            i <= pieces@.len(),
            processed <= pos,
            piece_at(ps, pos as int) == match piece_at(ps.skip(i as int), pos - processed) {
                Some(j) => Some((j + i) as nat),
                None => None,
            },
        decreases pieces@.len() - i,
    {
        let pl = pieces[i].line.len();
        assert(ps.skip(i as int)[0] == ps[i as int]);
        assert(ps.skip(i as int).skip(1) =~= ps.skip(i + 1));
        if pos - processed < pl {
            return Some(i);
        }
        processed = processed + pl;
        i = i + 1;
    }
    assert(ps.skip(pieces@.len() as int) =~= Seq::<LinePieceView>::empty());
    None
}

impl SearchState {
    /// The focused hit as (segment index, piece index), which the view
    /// scrolls to.
    pub fn focused_piece(&self, buffer: &Vec<RichData>) -> (r: Option<(usize, usize)>)
        ensures
            r == focused_piece_of(self@, views(buffer@)),
    {
        match self.current_highlight_focus {
            None => None,
            Some((rd_idx, result_idx)) => {
                let mut piece_idx: usize = 0;
                if rd_idx < buffer.len() {
                    match &self.search_string {
                        Some(s) => {
                            let hits = match_ranges(&buffer[rd_idx].text, s);
                            if result_idx < hits.len() {
                                let pos = hits[result_idx].0;
                                match piece_index(&buffer[rd_idx].line_pieces, pos) {
                                    Some(j) => { piece_idx = j; },
                                    None => {},
                                }
                            }
                        },
                        None => {},
                    }
                }
                Some((rd_idx, piece_idx))
            },
        }
    }
}

/// Where to scroll so that a piece at `piece_y` of height `piece_h` comes
/// into a view `scroller_h` high scrolled to `scroller_y`, over a panel
/// `panel_h` high: nowhere when it is in view, else so that it sits near
/// the bottom, within the panel.
pub open spec fn scroll_target_of(piece_y: int, piece_h: int, scroller_y: int, scroller_h: int, panel_h: int) -> Option<int> {
    if piece_y < scroller_y || piece_y + piece_h >= scroller_y + scroller_h {
        let to = piece_y - scroller_h + piece_h * 2 + PADDING_TOP + 3;
        Some(if to < 0 { 0 } else if to > panel_h - scroller_h { panel_h - scroller_h } else { to })
    } else {
        None
    }
}

/// Where to scroll to show a piece, as `scroll_target_of` says.
pub fn scroll_target(piece_y: i32, piece_h: i32, scroller_y: i32, scroller_h: i32, panel_h: i32) -> (r: Option<i32>)
    requires
        i32::MIN <= piece_y + piece_h <= i32::MAX,
        i32::MIN <= scroller_y + scroller_h <= i32::MAX,
        i32::MIN <= piece_y - scroller_h <= i32::MAX,
        i32::MIN <= piece_h * 2 <= i32::MAX,
        i32::MIN <= piece_y - scroller_h + piece_h * 2 + PADDING_TOP + 3 <= i32::MAX,
        i32::MIN <= piece_y - scroller_h + piece_h * 2 <= i32::MAX,
        i32::MIN <= panel_h - scroller_h <= i32::MAX,
    ensures
        r == match scroll_target_of(piece_y as int, piece_h as int, scroller_y as int, scroller_h as int, panel_h as int) {
            Some(t) => Some(t as i32),
            None => None,
        },
{
    if piece_y < scroller_y || piece_y + piece_h >= scroller_y + scroller_h {
        let to = piece_y - scroller_h + piece_h * 2 + PADDING_TOP + 3;
        Some(if to < 0 { 0 } else if to > panel_h - scroller_h { panel_h - scroller_h } else { to })
    } else {
        None
    }
}

/// The hits depend on the texts alone.
proof fn lemma_hits_desc_same_text(a: Seq<RichDataView>, b: Seq<RichDataView>, pat: Seq<char>, hi: int)
    requires
        a.len() == b.len(),
        hi <= a.len(),
        forall|j: int| 0 <= j < a.len() ==> #[trigger] a[j].text == b[j].text,
    ensures
        hits_desc(a, pat, hi) == hits_desc(b, pat, hi),
    decreases hi,
{
    if hi > 0 {
        assert(a[hi - 1].text == b[hi - 1].text);
        lemma_hits_desc_same_text(a, b, pat, hi - 1);
    }
}

/// Each recorded hit of a non-empty string is an occurrence of it in the
/// text, as wide as the string; and a text has hits exactly when the
/// string occurs in it.
pub proof fn law_hits_are_occurrences(text: Seq<char>, pat: Seq<char>)
    requires
        pat.len() > 0,
        text.len() <= usize::MAX,
    ensures
        forall|i: int| 0 <= i < hit_ranges(text, pat).len() ==> {
            let (a, b) = #[trigger] hit_ranges(text, pat)[i];
            &&& matches_at(text, pat, a as int)
            &&& b == a + pat.len()
        },
        hit_ranges(text, pat).len() > 0 <==> occurs_in(text, pat),
{
    lemma_rmatches(text, pat, text.len() as int);
    let r = rmatches(text, pat, text.len() as int);
    assert forall|i: int| 0 <= i < hit_ranges(text, pat).len() implies {
        let (a, b) = #[trigger] hit_ranges(text, pat)[i];
        &&& matches_at(text, pat, a as int)
        &&& b == a + pat.len()
    } by {
        assert(matches_at(text, pat, r[i]));
    }
    if occurs_in(text, pat) {
        let p = choose|p: int| matches_at(text, pat, p);
        assert(matches_at(text, pat, p) && p + pat.len() <= text.len());
    }
}

/// After a search for a non-empty string, a segment is in the result list
/// exactly when the string occurs in its text.
pub proof fn law_results_hold_the_string(bufs: Seq<RichDataView>, pat: Seq<char>, i: int)
    requires
        pat.len() > 0,
        bufs.len() <= usize::MAX,
        0 <= i < bufs.len(),
        forall|j: int| 0 <= j < bufs.len() ==> #[trigger] bufs[j].text.len() <= usize::MAX,
    ensures
        hits_desc(bufs, pat, bufs.len() as int).contains(i as usize) <==> occurs_in(bufs[i].text, pat),
{
    lemma_hits_desc_member(bufs, pat, bufs.len() as int, i);
    law_hits_are_occurrences(bufs[i].text, pat);
}

/// Membership in the hits below `hi`.
proof fn lemma_hits_desc_member(bufs: Seq<RichDataView>, pat: Seq<char>, hi: int, i: int)
    requires
        hi <= bufs.len(),
        bufs.len() <= usize::MAX,
        0 <= i < bufs.len(),
    ensures
        hits_desc(bufs, pat, hi).contains(i as usize) <==> (i < hi && hit_ranges(bufs[i].text, pat).len() > 0),
    decreases hi,
{
    if hi > 0 {
        lemma_hits_desc_member(bufs, pat, hi - 1, i);
        lemma_hits_desc_decreasing(bufs, pat, hi - 1);
        let rest = hits_desc(bufs, pat, hi - 1);
        let all = hits_desc(bufs, pat, hi);
        if hit_ranges(bufs[hi - 1].text, pat).len() > 0 {
            assert(all == seq![(hi - 1) as usize] + rest);
            if all.contains(i as usize) {
                let w = choose|w: int| 0 <= w < all.len() && all[w] == i as usize;
                if w > 0 {
                    assert(rest[w - 1] == i as usize);
                }
            }
            if i == hi - 1 {
                assert(all[0] == i as usize);
            } else if rest.contains(i as usize) {
                let w = choose|w: int| 0 <= w < rest.len() && rest[w] == i as usize;
                assert(all[w + 1] == i as usize);
            }
        } else {
            if i == hi - 1 && rest.contains(i as usize) {
                let w = choose|w: int| 0 <= w < rest.len() && rest[w] == i as usize;
                assert(rest[w] < hi - 1);
            }
        }
    }
}

/// Within a segment, moving to the previous hit and then to the next one
/// gives back the focus, and the hit marked in the segment.
pub proof fn law_steps_undo_within_segment(results: Seq<usize>, rd: usize, k: usize, bufs: Seq<RichDataView>)
    requires
        rd < bufs.len(),
        k < usize::MAX,
        bufs[rd as int].search_result_positions is Some,
        k + 1 < bufs[rd as int].search_result_positions->0.len(),
    ensures
        ({
            let (f1, b1) = previous_step(results, Some((rd, k)), bufs);
            let (f2, b2) = next_step(results, f1, b1);
            &&& f1 == Some((rd, (k + 1) as usize))
            &&& f2 == Some((rd, k))
            &&& b2 == focus_at(bufs, rd as int, Some(k))
        }),
{
    let k1 = (k + 1) as usize;
    let b1 = focus_at(bufs, rd as int, Some(k1));
    assert(previous_step(results, Some((rd, k)), bufs) == (Some((rd, k1)), b1));
    assert(b1.len() == bufs.len());
    assert((k1 - 1) as usize == k);
    assert(next_step(results, Some((rd, k1)), b1) == (Some((rd, k)), focus_at(b1, rd as int, Some(k))));
    assert(focus_at(b1, rd as int, Some(k)) =~= focus_at(bufs, rd as int, Some(k)));
}

} // verus!
