//! Interactive horizontal regions produced by a render pass.
use vstd::prelude::*;
use crate::geom::{sat, min, max, add_px, min_px, max_px};

verus! {

/// What a hover popup shows.  Two descriptions are equal when they name the
/// same item (by its index in the item tree) and the same iteration entry.
#[derive(Clone, Copy, Debug, PartialEq, Eq, Structural)]
pub enum PopupDesc {
    /// Render the item itself in the popup.
    RenderItem { item: usize, iter: Option<u64> },
    /// Show the tooltip text of a text item.
    TextItem { source: usize, iter: Option<u64> },
}

/// One interactive span `lo..hi` (half-open) with what it reacts to.
#[derive(Clone, Copy, Debug, PartialEq, Eq, Structural)]
pub struct Region {
    pub lo: i64,
    pub hi: i64,
    /// The popup shown while the pointer hovers here.
    pub popup: Option<PopupDesc>,
    /// The click handler, by its index in the handler table.
    pub action: Option<u64>,
    /// The iteration entry that a click here acts on.
    pub item: Option<u64>,
}

/// An ordered list of interactive regions.
#[derive(Clone, Debug)]
pub struct EventSink {
    pub regions: Vec<Region>,
}

impl View for EventSink {
    type V = Seq<Region>;

    open spec fn view(&self) -> Seq<Region> {
        self.regions@
    }
}

/// `r` moved right by `shift` and cut to `lo..hi`.
pub open spec fn clamp_region(r: Region, shift: int, lo: int, hi: int) -> Region {
    Region {
        lo: max(sat(r.lo + shift), lo) as i64,
        hi: min(sat(r.hi + shift), hi) as i64,
        ..r
    }
}

/// Every region moved right by `shift` and cut to `lo..hi`, dropping those
/// that become empty; the order is kept.
pub open spec fn offset_clamp_regions(s: Seq<Region>, shift: int, lo: int, hi: int) -> Seq<Region>
    decreases s.len(),
{
    if s.len() == 0 {
        s
    } else {
        let p = offset_clamp_regions(s.drop_last(), shift, lo, hi);
        let r = clamp_region(s.last(), shift, lo, hi);
        if r.lo < r.hi {
            p.push(r)
        } else {
            p
        }
    }
}

/// Every region tagged with the iteration entry `item`.
pub open spec fn with_item(s: Seq<Region>, item: u64) -> Seq<Region> {
    s.map_values(|r: Region| Region { item: Some(item), ..r })
}

/// A popup region covering every position.
pub open spec fn tooltip_region(desc: PopupDesc) -> Region {
    Region { lo: i64::MIN, hi: i64::MAX, popup: Some(desc), action: None, item: None }
}

/// The first region with a popup whose span holds `x`: its span and popup.
pub open spec fn hover_at(s: Seq<Region>, x: int) -> Option<(i64, i64, PopupDesc)>
    decreases s.len(),
{
    if s.len() == 0 {
        None
    } else if s[0].popup is Some && s[0].lo <= x < s[0].hi {
        Some((s[0].lo, s[0].hi, s[0].popup->Some_0))
    } else {
        hover_at(s.drop_first(), x)
    }
}

impl EventSink {
    pub fn new() -> (r: EventSink)
        ensures
            r@ == Seq::<Region>::empty(),
    {
        EventSink { regions: Vec::new() }
    }

    /// A copy of these regions.
    pub fn copy(&self) -> (r: EventSink)
        ensures
            r@ == self@,
    {
        let v = self.regions.clone();
        assert(v@ =~= self.regions@);
        EventSink { regions: v }
    }

    /// Appends the regions of `other` after these.
    pub fn merge(&mut self, other: EventSink)
        ensures
            final(self)@ == old(self)@ + other@,
    {
        let mut o = other.regions;
        self.regions.append(&mut o);
    }

    /// Moves every region right by `shift` and cuts it to `lo..hi`; regions
    /// left empty are dropped.
    pub fn offset_clamp(&mut self, shift: i64, lo: i64, hi: i64)
        ensures
            final(self)@ == offset_clamp_regions(old(self)@, shift as int, lo as int, hi as int),
    {
        let old_regions = Ghost(self.regions@);
        let mut out: Vec<Region> = Vec::new();
        let mut i: usize = 0;
        while i < self.regions.len()
            invariant
                self.regions@ == old_regions@,
                i <= self.regions@.len(),
                out@ == offset_clamp_regions(
                    old_regions@.subrange(0, i as int),
                    shift as int,
                    lo as int,
                    hi as int,
                ),
            decreases self.regions@.len() - i,
        {
            let r = self.regions[i];
            let nlo = max_px(add_px(r.lo, shift), lo);
            let nhi = min_px(add_px(r.hi, shift), hi);
            assert(old_regions@.subrange(0, i + 1).drop_last() =~= old_regions@.subrange(
                0,
                i as int,
            ));
            if nlo < nhi {
                out.push(Region { lo: nlo, hi: nhi, ..r });
            }
            i = i + 1;
        }
        assert(old_regions@.subrange(0, i as int) =~= old_regions@);
        self.regions = out;
    }

    /// Tags every region with the iteration entry `item`.
    pub fn set_item(&mut self, item: u64)
        ensures
            final(self)@ == with_item(old(self)@, item),
    {
        let old_regions = Ghost(self.regions@);
        let mut i: usize = 0;
        while i < self.regions.len()
            invariant
                self.regions@.len() == old_regions@.len(),
                i <= self.regions@.len(),
                forall|j: int|
                    0 <= j < i ==> self.regions@[j] == (Region { item: Some(item), ..old_regions@[j] }),
                forall|j: int| i <= j < self.regions@.len() ==> self.regions@[j] == old_regions@[j],
            decreases self.regions@.len() - i,
        {
            let r = self.regions[i];
            self.regions.set(i, Region { item: Some(item), ..r });
            i = i + 1;
        }
        assert(self.regions@ =~= with_item(old_regions@, item));
    }

    /// Adds a popup region covering every position.
    pub fn add_tooltip(&mut self, desc: PopupDesc)
        ensures
            final(self)@ == old(self)@.push(tooltip_region(desc)),
    {
        self.regions.push(
            Region { lo: i64::MIN, hi: i64::MAX, popup: Some(desc), action: None, item: None },
        );
    }

    /// The first region with a popup whose span holds `x`.
    pub fn get_hover(&self, x: i64) -> (r: Option<(i64, i64, PopupDesc)>)
        ensures
            r == hover_at(self@, x as int),
    {
        let mut i: usize = 0;
        assert(self@.subrange(0, self@.len() as int) =~= self@);
        while i < self.regions.len()
            invariant
                i <= self@.len(),
                hover_at(self@, x as int) == hover_at(self@.subrange(i as int, self@.len() as int), x as int),
            decreases self@.len() - i,
        {
            let r = self.regions[i];
            let ghost rest = self@.subrange(i as int, self@.len() as int);
            assert(rest.drop_first() =~= self@.subrange(i + 1, self@.len() as int));
            assert(rest[0] == r);
            match r.popup {
                Some(d) => {
                    if r.lo <= x && x < r.hi {
                        return Some((r.lo, r.hi, d));
                    }
                },
                None => {},
            }
            i = i + 1;
        }
        None
    }
}

/// Whether some region of `s` spans `x`.
pub open spec fn covers(s: Seq<Region>, x: int) -> bool {
    exists|i: int| 0 <= i < s.len() && #[trigger] s[i].lo <= x && x < s[i].hi
}

/// Whether some span of `s` holds `x`.
pub open spec fn spans_cover(s: Seq<(i64, i64)>, x: int) -> bool {
    exists|i: int| 0 <= i < s.len() && #[trigger] s[i].0 <= x && x < s[i].1
}

/// Non-empty spans in increasing order with a gap between neighbours.
pub open spec fn spans_canonical(s: Seq<(i64, i64)>) -> bool {
    &&& forall|i: int| 0 <= i < s.len() ==> #[trigger] s[i].0 < s[i].1
    &&& forall|i: int| 0 <= i < s.len() - 1 ==> #[trigger] s[i].1 < s[i + 1].0
}

pub open spec fn spans_sorted(s: Seq<(i64, i64)>) -> bool {
    forall|i: int, j: int| 0 <= i < j < s.len() ==> #[trigger] s[i].0 <= #[trigger] s[j].0
}

proof fn lemma_insert_cover(s: Seq<(i64, i64)>, p: int, e: (i64, i64), x: int)
    requires
        0 <= p <= s.len(),
    ensures
        spans_cover(s.insert(p, e), x) == (spans_cover(s, x) || (e.0 <= x && x < e.1)),
{
    let n = s.insert(p, e);
    if spans_cover(n, x) {
        let i = choose|i: int| 0 <= i < n.len() && #[trigger] n[i].0 <= x && x < n[i].1;
        if i < p {
            assert(s[i].0 <= x && x < s[i].1);
        } else if i > p {
            assert(s[i - 1].0 <= x && x < s[i - 1].1);
        }
    }
    if spans_cover(s, x) {
        let i = choose|i: int| 0 <= i < s.len() && #[trigger] s[i].0 <= x && x < s[i].1;
        if i < p {
            assert(n[i].0 <= x && x < n[i].1);
        } else {
            assert(n[i + 1].0 <= x && x < n[i + 1].1);
        }
    }
    if e.0 <= x && x < e.1 {
        assert(n[p].0 <= x && x < n[p].1);
    }
}

/// The non-empty spans of `regions`, sorted by start.
fn sorted_spans(regions: &Vec<Region>) -> (r: Vec<(i64, i64)>)
    ensures
        spans_sorted(r@),
        forall|i: int| 0 <= i < r@.len() ==> #[trigger] r@[i].0 < r@[i].1,
        forall|x: int| spans_cover(r@, x) == covers(regions@, x),
{
    let mut out: Vec<(i64, i64)> = Vec::new();
    let mut i: usize = 0;
    while i < regions.len()
        invariant
            i <= regions@.len(),
            spans_sorted(out@),
            forall|k: int| 0 <= k < out@.len() ==> #[trigger] out@[k].0 < out@[k].1,
            forall|x: int| spans_cover(out@, x) == covers(regions@.subrange(0, i as int), x),
        decreases regions@.len() - i,
    {
        let r = regions[i];
        let ghost pre = regions@.subrange(0, i as int);
        let ghost next = regions@.subrange(0, i + 1);
        assert forall|x: int| covers(next, x) == (covers(pre, x) || (r.lo <= x && x < r.hi)) by {
            if covers(next, x) {
                let k = choose|k: int| 0 <= k < next.len() && #[trigger] next[k].lo <= x && x < next[k].hi;
                if k < i {
                    assert(pre[k].lo <= x && x < pre[k].hi);
                }
            }
            if covers(pre, x) {
                let k = choose|k: int| 0 <= k < pre.len() && #[trigger] pre[k].lo <= x && x < pre[k].hi;
                assert(next[k].lo <= x && x < next[k].hi);
            }
            if r.lo <= x && x < r.hi {
                assert(next[i as int].lo <= x && x < next[i as int].hi);
            }
        }
        if r.lo < r.hi {
            let mut p: usize = 0;
            while p < out.len() && out[p].0 <= r.lo
                invariant
                    p <= out@.len(),
                    forall|k: int| 0 <= k < p ==> #[trigger] out@[k].0 <= r.lo,
                decreases out@.len() - p,
            {
                p = p + 1;
            }
            let ghost old_out = out@;
            out.insert(p, (r.lo, r.hi));
            assert forall|a: int, b: int| 0 <= a < b < out@.len() implies #[trigger] out@[a].0
                <= #[trigger] out@[b].0 by {
                if b < p {
                } else if b == p {
                } else if a < p {
                    assert(old_out[a].0 <= old_out[b - 1].0);
                } else if a == p {
                    assert(old_out[p as int].0 <= old_out[b - 1].0);
                } else {
                    assert(old_out[a - 1].0 <= old_out[b - 1].0);
                }
            }
            assert forall|x: int| spans_cover(out@, x) == covers(next, x) by {
                lemma_insert_cover(old_out, p as int, (r.lo, r.hi), x);
            }
        } else {
            assert forall|x: int| spans_cover(out@, x) == covers(next, x) by {}
        }
        i = i + 1;
    }
    assert(regions@.subrange(0, i as int) =~= regions@);
    out
}

impl EventSink {
    /// The points that some region spans, as the fewest spans: sorted,
    /// non-empty, with a gap between neighbours, so overlapping and
    /// touching regions come out merged.
    pub fn active_regions(&self) -> (r: Vec<(i64, i64)>)
        ensures
            spans_canonical(r@),
            forall|x: int| spans_cover(r@, x) == covers(self@, x),
    {
        let s = sorted_spans(&self.regions);
        let mut out: Vec<(i64, i64)> = Vec::new();
        if s.len() == 0 {
            assert forall|x: int| spans_cover(out@, x) == covers(self@, x) by {
                assert(!spans_cover(s@, x));
            }
            return out;
        }
        let mut cur = s[0];
        let mut i: usize = 1;
        assert(s@.subrange(0, 1) =~= seq![cur]);
        assert forall|x: int| (spans_cover(out@, x) || (cur.0 <= x && x < cur.1)) == spans_cover(s@.subrange(0, 1), x) by {
            if cur.0 <= x && x < cur.1 {
                assert(s@.subrange(0, 1)[0].0 <= x && x < s@.subrange(0, 1)[0].1);
            }
        }
        while i < s.len()
            invariant
                1 <= i <= s@.len(),
                spans_sorted(s@),
                forall|k: int| 0 <= k < s@.len() ==> #[trigger] s@[k].0 < s@[k].1,
                spans_canonical(out@),
                out@.len() > 0 ==> out@.last().1 < cur.0,
                cur.0 < cur.1,
                exists|k: int| 0 <= k < i && #[trigger] s@[k].0 == cur.0,
                forall|x: int| (spans_cover(out@, x) || (cur.0 <= x && x < cur.1)) == spans_cover(s@.subrange(0, i as int), x),
            decreases s@.len() - i,
        {
            let e = s[i];
            let ghost pre = s@.subrange(0, i as int);
            let ghost next = s@.subrange(0, i + 1);
            assert(next =~= pre.insert(i as int, e));
            assert forall|x: int| spans_cover(next, x) == (spans_cover(pre, x) || (e.0 <= x && x < e.1)) by {
                lemma_insert_cover(pre, i as int, e, x);
            }
            let ghost k = choose|k: int| 0 <= k < i && #[trigger] s@[k].0 == cur.0;
            let ghost out0 = out@;
            let ghost cur0 = cur;
            assert forall|x: int| (spans_cover(out0, x) || (cur0.0 <= x && x < cur0.1)) == spans_cover(pre, x) by {}
            assert(s@[k].0 <= s@[i as int].0);
            if e.0 <= cur.1 {
                let ghost old_cur = cur;
                let hi = if e.1 > cur.1 {
                    e.1
                } else {
                    cur.1
                };
                cur = (cur.0, hi);
                assert forall|x: int| (spans_cover(out@, x) || (cur.0 <= x && x < cur.1)) == spans_cover(next, x) by {
                    assert((cur.0 <= x && x < cur.1) == ((old_cur.0 <= x && x < old_cur.1) || (e.0 <= x && x < e.1)));
                    assert((spans_cover(out0, x) || (cur0.0 <= x && x < cur0.1)) == spans_cover(pre, x));
                    assert(spans_cover(next, x) == (spans_cover(pre, x) || (e.0 <= x && x < e.1)));
                }
            } else {
                let ghost old_out = out@;
                let ghost old_cur = cur;
                out.push(cur);
                cur = e;
                assert forall|j: int| 0 <= j < out@.len() - 1 implies #[trigger] out@[j].1 < out@[j + 1].0 by {
                    if j < old_out.len() - 1 {
                        assert(old_out[j].1 < old_out[j + 1].0);
                    }
                }
                assert forall|x: int| spans_cover(out@, x) == (spans_cover(old_out, x) || (old_cur.0 <= x && x < old_cur.1)) by {
                    lemma_insert_cover(old_out, old_out.len() as int, old_cur, x);
                    assert(old_out.insert(old_out.len() as int, old_cur) =~= out@);
                }
                assert forall|x: int| (spans_cover(out@, x) || (cur.0 <= x && x < cur.1)) == spans_cover(next, x) by {
                    assert((spans_cover(out0, x) || (cur0.0 <= x && x < cur0.1)) == spans_cover(pre, x));
                    assert(spans_cover(next, x) == (spans_cover(pre, x) || (e.0 <= x && x < e.1)));
                    lemma_insert_cover(old_out, old_out.len() as int, old_cur, x);
                    assert(old_out.insert(old_out.len() as int, old_cur) =~= out@);
                }
            }
            i = i + 1;
        }
        let ghost old_out = out@;
        let ghost old_cur = cur;
        out.push(cur);
        assert forall|j: int| 0 <= j < out@.len() - 1 implies #[trigger] out@[j].1 < out@[j + 1].0 by {
            if j < old_out.len() - 1 {
                assert(old_out[j].1 < old_out[j + 1].0);
            }
        }
        assert(s@.subrange(0, i as int) =~= s@);
        assert forall|x: int| spans_cover(out@, x) == covers(self@, x) by {
            lemma_insert_cover(old_out, old_out.len() as int, old_cur, x);
            assert(old_out.insert(old_out.len() as int, old_cur) =~= out@);
        }
        out
    }
}

/// Cutting regions to `lo..hi` without moving them is idempotent: cutting
/// twice gives what cutting once gave.
pub proof fn lemma_clamp_idempotent(s: Seq<Region>, lo: i64, hi: i64)
    ensures
        offset_clamp_regions(offset_clamp_regions(s, 0, lo as int, hi as int), 0, lo as int, hi as int)
            == offset_clamp_regions(s, 0, lo as int, hi as int),
    decreases s.len(),
{
    if s.len() > 0 {
        let p = offset_clamp_regions(s.drop_last(), 0, lo as int, hi as int);
        lemma_clamp_idempotent(s.drop_last(), lo, hi);
        let r = clamp_region(s.last(), 0, lo as int, hi as int);
        if r.lo < r.hi {
            assert(p.push(r).drop_last() =~= p);
            assert(clamp_region(r, 0, lo as int, hi as int) == r);
        }
    }
}

proof fn lemma_canonical_chain(a: Seq<(i64, i64)>, i: int, j: int)
    requires
        spans_canonical(a),
        0 <= i < j < a.len(),
    ensures
        a[i].1 < a[j].0,
    decreases j - i,
{
    if j > i + 1 {
        lemma_canonical_chain(a, i, j - 1);
        assert(a[j - 1].0 < a[j - 1].1);
        assert(a[j - 1].1 < a[j].0);
    } else {
        assert(a[i].1 < a[i + 1].0);
    }
}

/// Points before the first span, and the end of the first span, are not
/// covered by a canonical span list.
proof fn lemma_canonical_first(a: Seq<(i64, i64)>, x: int)
    requires
        spans_canonical(a),
        a.len() > 0,
        x < a[0].0 || x == a[0].1,
    ensures
        !spans_cover(a, x),
{
    if spans_cover(a, x) {
        let i = choose|i: int| 0 <= i < a.len() && #[trigger] a[i].0 <= x && x < a[i].1;
        if i > 0 {
            lemma_canonical_chain(a, 0, i);
            assert(a[0].0 < a[0].1);
        }
    }
}

/// Two canonical span lists that cover the same points are equal: the
/// merged spans of a set of regions are unique.
pub proof fn lemma_canonical_unique(a: Seq<(i64, i64)>, b: Seq<(i64, i64)>)
    requires
        spans_canonical(a),
        spans_canonical(b),
        forall|x: int| spans_cover(a, x) == spans_cover(b, x),
    ensures
        a == b,
    decreases a.len() + b.len(),
{
    if a.len() == 0 || b.len() == 0 {
        if a.len() > 0 {
            assert(a[0].0 < a[0].1);
            assert(spans_cover(a, a[0].0 as int));
        }
        if b.len() > 0 {
            assert(b[0].0 < b[0].1);
            assert(spans_cover(b, b[0].0 as int));
        }
        assert(a =~= b);
    } else {
        assert(a[0].0 < a[0].1 && b[0].0 < b[0].1);
        assert(spans_cover(a, a[0].0 as int));
        assert(spans_cover(b, b[0].0 as int));
        if a[0].0 < b[0].0 {
            lemma_canonical_first(b, a[0].0 as int);
        }
        if b[0].0 < a[0].0 {
            lemma_canonical_first(a, b[0].0 as int);
        }
        assert(a[0].0 == b[0].0);
        lemma_canonical_first(a, a[0].1 as int);
        lemma_canonical_first(b, b[0].1 as int);
        if a[0].1 < b[0].1 {
            assert(spans_cover(b, a[0].1 as int));
        }
        if b[0].1 < a[0].1 {
            assert(spans_cover(a, b[0].1 as int));
        }
        assert(a[0] == b[0]);
        let a1 = a.drop_first();
        let b1 = b.drop_first();
        assert forall|i: int| 0 <= i < a1.len() - 1 implies #[trigger] a1[i].1 < a1[i + 1].0 by {
            assert(a[i + 1].1 < a[i + 2].0);
        }
        assert forall|i: int| 0 <= i < b1.len() - 1 implies #[trigger] b1[i].1 < b1[i + 1].0 by {
            assert(b[i + 1].1 < b[i + 2].0);
        }
        assert forall|i: int| 0 <= i < a1.len() implies #[trigger] a1[i].0 < a1[i].1 by {
            assert(a[i + 1].0 < a[i + 1].1);
        }
        assert forall|i: int| 0 <= i < b1.len() implies #[trigger] b1[i].0 < b1[i].1 by {
            assert(b[i + 1].0 < b[i + 1].1);
        }
        assert forall|x: int| spans_cover(a1, x) == spans_cover(b1, x) by {
            lemma_rest_cover(a, x);
            lemma_rest_cover(b, x);
        }
        lemma_canonical_unique(a1, b1);
        assert(a =~= b) by {
            assert forall|i: int| 0 <= i < a.len() implies a[i] == b[i] by {
                if i > 0 {
                    assert(a[i] == a1[i - 1] && b[i] == b1[i - 1]);
                }
            }
        }
    }
}

/// What the spans after the first of a canonical list cover: the covered
/// points from the end of the first span on.
proof fn lemma_rest_cover(a: Seq<(i64, i64)>, x: int)
    requires
        spans_canonical(a),
        a.len() > 0,
    ensures
        spans_cover(a.drop_first(), x) == (spans_cover(a, x) && x >= a[0].1),
{
    let r = a.drop_first();
    if spans_cover(r, x) {
        let i = choose|i: int| 0 <= i < r.len() && #[trigger] r[i].0 <= x && x < r[i].1;
        assert(a[i + 1].0 <= x && x < a[i + 1].1);
        lemma_canonical_chain(a, 0, i + 1);
    }
    if spans_cover(a, x) && x >= a[0].1 {
        let i = choose|i: int| 0 <= i < a.len() && #[trigger] a[i].0 <= x && x < a[i].1;
        if i > 0 {
            assert(r[i - 1].0 <= x && x < r[i - 1].1);
        }
    }
}

/// Every region that moving and cutting keeps is non-empty and inside
/// `lo..hi`.
pub proof fn lemma_clamp_within(s: Seq<Region>, shift: int, lo: int, hi: int)
    requires
        i64::MIN <= lo <= i64::MAX,
        i64::MIN <= hi <= i64::MAX,
    ensures
        forall|i: int| 0 <= i < offset_clamp_regions(s, shift, lo, hi).len() ==> {
            let r = #[trigger] offset_clamp_regions(s, shift, lo, hi)[i];
            lo <= r.lo < r.hi <= hi
        },
    decreases s.len(),
{
    if s.len() > 0 {
        lemma_clamp_within(s.drop_last(), shift, lo, hi);
        let p = offset_clamp_regions(s.drop_last(), shift, lo, hi);
        let r = clamp_region(s.last(), shift, lo, hi);
        if r.lo < r.hi {
            assert forall|i: int| 0 <= i < p.push(r).len() implies lo <= (#[trigger] p.push(r)[i]).lo < p.push(r)[i].hi <= hi by {
                if i < p.len() {
                    assert(p.push(r)[i] == p[i]);
                }
            }
        }
    }
}

} // verus!
