//! The presentation driver: which bars repaint, when a draw pass runs, and
//! which configured bars an output gets.
use vstd::prelude::*;
use crate::bar::{Bar, BarSettings};

verus! {

/// Bytes per row of a 32-bit ARGB image `width` pixels wide.
pub open spec fn argb32_stride(width: int) -> int {
    4 * width
}

impl Bar {
    /// The buffer bytes this bar needs on the next draw pass: a frame when
    /// it will paint, and its popup's surface when that is configured.
    /// Sizes are in pixels; `popup_pixels` is the popup surface's size.
    pub fn get_render_size(&self, pixel_width: u32, pixel_height: u32, popup_pixels: (u32, u32)) -> (r: u128)
        ensures
            r == bar_render_size(*self, pixel_width, pixel_height, popup_pixels),
    {
        let mut rv: u128 = 0;
        if self.dirty && self.throttle.is_none() {
            assert(pixel_height as int * (4 * pixel_width as int) <= 0x4_0000_0000_0000_0000 - 1) by (nonlinear_arith)
                requires
                    pixel_height <= u32::MAX,
                    pixel_width <= u32::MAX,
            ;
            rv = pixel_height as u128 * (4 * pixel_width as u128);
        }
        match self.popup {
            Some(p) => {
                if !p.waiting_on_configure {
                    assert(popup_pixels.1 as int * (4 * popup_pixels.0 as int) <= 0x4_0000_0000_0000_0000 - 1) by (nonlinear_arith)
                        requires
                            popup_pixels.1 <= u32::MAX,
                            popup_pixels.0 <= u32::MAX,
                    ;
                    rv = rv + popup_pixels.1 as u128 * (4 * popup_pixels.0 as u128);
                }
            },
            None => {},
        }
        rv
    }
}

/// The bytes that bar `b` needs on a draw pass, see [`Bar::get_render_size`].
pub open spec fn bar_render_size(b: Bar, w: u32, h: u32, p: (u32, u32)) -> int {
    (if b.dirty && b.throttle is None {
        h * argb32_stride(w as int)
    } else {
        0
    }) + match b.popup {
        Some(q) => if !q.waiting_on_configure {
            p.1 * argb32_stride(p.0 as int)
        } else {
            0
        },
        None => 0,
    }
}

/// The bytes that the first `k` bars need.
pub open spec fn total_render_size(bars: Seq<Bar>, sizes: Seq<(u32, u32, (u32, u32))>, k: int) -> int
    decreases k,
{
    if k <= 0 {
        0
    } else {
        total_render_size(bars, sizes, k - 1) + bar_render_size(bars[k - 1], sizes[k - 1].0, sizes[k - 1].1, sizes[k - 1].2)
    }
}

proof fn lemma_render_size_bound(b: Bar, w: u32, h: u32, p: (u32, u32))
    ensures
        0 <= bar_render_size(b, w, h, p) <= 0x8_0000_0000_0000_0000,
{
    assert(0 <= h as int * (4 * w as int) <= 0x4_0000_0000_0000_0000) by (nonlinear_arith)
        requires
            h <= u32::MAX,
            w <= u32::MAX,
    ;
    assert(0 <= p.1 as int * (4 * p.0 as int) <= 0x4_0000_0000_0000_0000) by (nonlinear_arith)
        requires
            p.1 <= u32::MAX,
            p.0 <= u32::MAX,
    ;
}

/// Hands out consecutive parts of one shared buffer, one per surface.
#[derive(Debug)]
pub struct RenderTarget {
    pub len: usize,
    pub pos: usize,
}

impl RenderTarget {
    /// A buffer of `len` bytes, nothing handed out yet.
    pub fn new(len: usize) -> (r: RenderTarget)
        ensures
            r.len == len,
            r.pos == 0,
    {
        RenderTarget { len, pos: 0 }
    }

    /// The offset of the part for a `width` by `height` ARGB surface, when
    /// it still fits; the next part follows it.
    pub fn with_surface(&mut self, width: u32, height: u32) -> (r: Option<usize>)
        requires
            old(self).pos <= old(self).len,
        ensures
            final(self).len == old(self).len,
            final(self).pos <= final(self).len,
            ({
                let need = height * argb32_stride(width as int);
                if old(self).pos + need <= old(self).len {
                    r == Some(old(self).pos) && final(self).pos == old(self).pos + need
                } else {
                    r is None && final(self).pos == old(self).pos
                }
            }),
    {
        assert(height as int * (4 * width as int) <= 0x4_0000_0000_0000_0000 - 1) by (nonlinear_arith)
            requires
                height <= u32::MAX,
                width <= u32::MAX,
        ;
        let need: u128 = height as u128 * (4 * width as u128);
        if need <= (self.len - self.pos) as u128 {
            let at = self.pos;
            self.pos = self.pos + need as usize;
            Some(at)
        } else {
            None
        }
    }
}

/// Timers and change flags shared by the items during rendering.
#[derive(Debug)]
pub struct Runtime {
    /// The earliest time (milliseconds) some item asked to be re-evaluated.
    pub wake_at: Option<u64>,
    /// Data changed since the bars were last marked dirty.
    pub data_update: bool,
}

impl Runtime {
    pub fn new() -> (r: Runtime)
        ensures
            r.wake_at is None,
            r.data_update,
    {
        Runtime { wake_at: None, data_update: true }
    }

    /// Asks for a refresh at `wake`; an earlier request already pending
    /// stands.  True when the timer has to be rearmed.
    pub fn set_wake_at(&mut self, wake: u64) -> (r: bool)
        ensures
            r == !(old(self).wake_at matches Some(t) && t < wake),
            final(self).wake_at == (if r {
                Some(wake)
            } else {
                old(self).wake_at
            }),
            final(self).data_update == old(self).data_update,
    {
        match self.wake_at {
            Some(t) => {
                if t < wake {
                    return false;
                }
            },
            None => {},
        }
        self.wake_at = Some(wake);
        true
    }

    /// The refresh timer fired: the data counts as changed.
    pub fn wake_fired(&mut self)
        ensures
            final(self).wake_at is None,
            final(self).data_update,
    {
        self.wake_at = None;
        self.data_update = true;
    }

    /// Notes that data changed.
    pub fn notify_data(&mut self)
        ensures
            final(self).data_update,
            final(self).wake_at == old(self).wake_at,
    {
        self.data_update = true;
    }
}

/// What is known of a display output.
#[derive(Debug)]
pub struct OutputInfo {
    pub name: String,
    pub make: String,
    pub model: String,
    pub description: String,
}

/// Which outputs a configured bar goes on: each filter that is set must
/// equal the output's property.
#[derive(Debug)]
pub struct OutputFilter {
    pub name: Option<String>,
    pub make: Option<String>,
    pub model: Option<String>,
    pub description: Option<String>,
}

pub open spec fn field_matches(f: Option<String>, v: String) -> bool {
    match f {
        Some(s) => s@ == v@,
        None => true,
    }
}

pub open spec fn output_matches(f: OutputFilter, o: OutputInfo) -> bool {
    field_matches(f.name, o.name) && field_matches(f.make, o.make) && field_matches(f.model, o.model)
        && field_matches(f.description, o.description)
}

fn field_ok(f: &Option<String>, v: &String) -> (r: bool)
    ensures
        r == field_matches(*f, *v),
{
    match f {
        Some(s) => *s == *v,
        None => true,
    }
}

impl OutputFilter {
    pub fn matches(&self, o: &OutputInfo) -> (r: bool)
        ensures
            r == output_matches(*self, *o),
    {
        field_ok(&self.name, &o.name) && field_ok(&self.make, &o.make) && field_ok(&self.model, &o.model)
            && field_ok(&self.description, &o.description)
    }
}

/// The bars and the state of the draw loop.
#[derive(Debug)]
pub struct State {
    pub bars: Vec<Bar>,
    pub runtime: Runtime,
    /// A draw pass waits for the shared buffer to be released.
    pub draw_waiting_on_shm: bool,
}

impl State {
    pub fn new() -> (r: State)
        ensures
            r.bars@.len() == 0,
            r.runtime.data_update,
            !r.draw_waiting_on_shm,
    {
        State { bars: Vec::new(), runtime: Runtime::new(), draw_waiting_on_shm: false }
    }

    /// Data changed: the next draw pass repaints every bar.
    pub fn request_update(&mut self)
        ensures
            final(self).runtime.data_update,
            final(self).bars@ == old(self).bars@,
            final(self).draw_waiting_on_shm == old(self).draw_waiting_on_shm,
    {
        self.runtime.notify_data();
    }

    /// Marks every bar dirty when data changed since the last time.
    pub fn set_data(&mut self)
        ensures
            !final(self).runtime.data_update,
            final(self).runtime.wake_at == old(self).runtime.wake_at,
            final(self).draw_waiting_on_shm == old(self).draw_waiting_on_shm,
            final(self).bars@.len() == old(self).bars@.len(),
            forall|i: int|
                0 <= i < final(self).bars@.len() ==> (#[trigger] final(self).bars@[i]).dirty == (old(self).bars@[i].dirty
                    || old(self).runtime.data_update) && final(self).bars@[i].throttle == old(self).bars@[i].throttle
                    && final(self).bars@[i].popup == old(self).bars@[i].popup,
    {
        if !self.runtime.data_update {
            return;
        }
        let mut i: usize = 0;
        while i < self.bars.len()
            invariant
                i <= self.bars@.len(),
                self.bars@.len() == old(self).bars@.len(),
                self.runtime == old(self).runtime,
                self.draw_waiting_on_shm == old(self).draw_waiting_on_shm,
                forall|k: int| 0 <= k < i ==> (#[trigger] self.bars@[k]).dirty && self.bars@[k].throttle == old(self).bars@[k].throttle
                    && self.bars@[k].popup == old(self).bars@[k].popup,
                forall|k: int| i <= k < self.bars@.len() ==> #[trigger] self.bars@[k] == old(self).bars@[k],
            decreases self.bars@.len() - i,
        {
            self.bars[i].dirty = true;
            i = i + 1;
        }
        self.runtime.data_update = false;
    }

    /// A draw pass was asked for.  While the shared buffer is in use it
    /// waits; otherwise the bars are marked dirty if data changed, and true
    /// says to draw now.
    pub fn request_draw_internal(&mut self, shm_in_use: bool) -> (r: bool)
        ensures
            r == !shm_in_use,
            final(self).draw_waiting_on_shm == (old(self).draw_waiting_on_shm || shm_in_use),
            shm_in_use ==> final(self).bars@ == old(self).bars@ && final(self).runtime == old(self).runtime,
            !shm_in_use ==> !final(self).runtime.data_update && final(self).bars@.len() == old(self).bars@.len(),
            !shm_in_use ==> forall|i: int|
                0 <= i < final(self).bars@.len() ==> (#[trigger] final(self).bars@[i]).dirty == (old(self).bars@[i].dirty
                    || old(self).runtime.data_update) && final(self).bars@[i].throttle == old(self).bars@[i].throttle,
    {
        if shm_in_use {
            self.draw_waiting_on_shm = true;
            false
        } else {
            self.set_data();
            true
        }
    }

    /// The shared buffer was released: a waiting draw pass goes ahead (true).
    pub fn shm_ok_callback(&mut self) -> (r: bool)
        ensures
            r == old(self).draw_waiting_on_shm,
            !final(self).draw_waiting_on_shm,
            !r ==> final(self).bars@ == old(self).bars@ && final(self).runtime == old(self).runtime,
            r ==> !final(self).runtime.data_update && final(self).bars@.len() == old(self).bars@.len(),
            r ==> forall|i: int|
                0 <= i < final(self).bars@.len() ==> (#[trigger] final(self).bars@[i]).dirty == (old(self).bars@[i].dirty
                    || old(self).runtime.data_update) && final(self).bars@[i].throttle == old(self).bars@[i].throttle,
    {
        if self.draw_waiting_on_shm {
            self.draw_waiting_on_shm = false;
            self.set_data();
            true
        } else {
            false
        }
    }

    /// The buffer bytes the next draw pass needs: the sum over the bars of
    /// [`Bar::get_render_size`], with each bar's surface and popup sizes
    /// from `sizes`, saturating at `u128::MAX`.  Nothing is drawn when it
    /// is zero.
    pub fn render_size(&self, sizes: &Vec<(u32, u32, (u32, u32))>) -> (r: u128)
        requires
            sizes@.len() == self.bars@.len(),
        ensures
            r == crate::geom::min(total_render_size(self.bars@, sizes@, self.bars@.len() as int), u128::MAX as int),
    {
        let mut total: u128 = 0;
        let mut i: usize = 0;
        while i < self.bars.len()
            invariant
                i <= self.bars@.len(),
                sizes@.len() == self.bars@.len(),
                total == crate::geom::min(total_render_size(self.bars@, sizes@, i as int), u128::MAX as int),
                total_render_size(self.bars@, sizes@, i as int) >= 0,
            decreases self.bars@.len() - i,
        {
            let (w, h, p) = sizes[i];
            let n = self.bars[i].get_render_size(w, h, p);
            proof {
                lemma_render_size_bound(self.bars@[i as int], w, h, p);
            }
            total = if n > u128::MAX - total {
                u128::MAX
            } else {
                total + n
            };
            i = i + 1;
        }
        total
    }

    /// Puts the configured bars that go on output `o` there: for each
    /// configuration `i` (with filter `configs[i]` and settings
    /// `settings[i]`) that matches, a new bar replaces any bar of that
    /// configuration on that output.  Returns the matching indices.
    pub fn output_ready(&mut self, configs: &Vec<OutputFilter>, settings: &Vec<BarSettings>, o: &OutputInfo) -> (r: Vec<usize>)
        requires
            configs@.len() == settings@.len(),
        ensures
            forall|k: int| 0 <= k < r@.len() ==> (#[trigger] r@[k]) < configs@.len() && output_matches(configs@[r@[k] as int], *o),
            forall|i: int| 0 <= i < configs@.len() && output_matches(configs@[i], *o) ==> r@.contains(i as usize),
            forall|a: int, b: int| 0 <= a < b < r@.len() ==> (#[trigger] r@[a]) < (#[trigger] r@[b]),
            forall|j: int| 0 <= j < configs@.len() && output_matches(configs@[j], *o) ==> count_key(final(self).bars@, j, o.name@) == 1,
            forall|k: int| 0 <= k < old(self).bars@.len() && !replaced(old(self).bars@[k], configs@, *o)
                ==> #[trigger] final(self).bars@.contains(old(self).bars@[k]),
            final(self).runtime == old(self).runtime,
            final(self).draw_waiting_on_shm == old(self).draw_waiting_on_shm,
    {
        let ghost old_bars = self.bars@;
        let mut r: Vec<usize> = Vec::new();
        let mut i: usize = 0;
        while i < configs.len()
            invariant
                i <= configs@.len(),
                configs@.len() == settings@.len(),
                self.runtime == old(self).runtime,
                self.draw_waiting_on_shm == old(self).draw_waiting_on_shm,
                old_bars == old(self).bars@,
                forall|k: int| 0 <= k < r@.len() ==> (#[trigger] r@[k]) < i && output_matches(configs@[r@[k] as int], *o),
                forall|j: int| 0 <= j < i && output_matches(configs@[j], *o) ==> r@.contains(j as usize),
                forall|a: int, b: int| 0 <= a < b < r@.len() ==> (#[trigger] r@[a]) < (#[trigger] r@[b]),
                forall|j: int| 0 <= j < i && output_matches(configs@[j], *o) ==> count_key(self.bars@, j, o.name@) == 1,
                forall|k: int| 0 <= k < old_bars.len() && !replaced_below(old_bars[k], configs@, *o, i as int)
                    ==> #[trigger] self.bars@.contains(old_bars[k]),
            decreases configs@.len() - i,
        {
            if configs[i].matches(o) {
                let ghost before = r@;
                r.push(i);
                assert forall|j: int| 0 <= j < i + 1 && output_matches(configs@[j], *o) implies r@.contains(j as usize) by {
                    if j < i {
                        let k = choose|k: int| 0 <= k < before.len() && before[k] == j as usize;
                        assert(r@[k] == j as usize);
                    } else {
                        assert(r@[before.len() as int] == j as usize);
                    }
                }
                let ghost bars0 = self.bars@;
                let bar = Bar::new(settings[i], o.name.clone(), i);
                self.add_bar(bar);
                proof {
                    let w = without_key(bars0, i as int, o.name@);
                    assert(self.bars@.drop_last() =~= w);
                    assert(self.bars@.last().cfg_index == i && self.bars@.last().output@ == o.name@);
                    lemma_count_without(bars0, i as int, o.name@);
                    assert forall|j: int| 0 <= j < i + 1 && output_matches(configs@[j], *o) implies count_key(self.bars@, j, o.name@) == 1 by {
                        if j < i {
                            lemma_count_without_other(bars0, j, o.name@, i as int, o.name@);
                        }
                    }
                    assert forall|k: int| 0 <= k < old_bars.len() && !replaced_below(old_bars[k], configs@, *o, i + 1)
                        implies #[trigger] self.bars@.contains(old_bars[k]) by {
                        assert(bars0.contains(old_bars[k]));
                        lemma_without_contains(bars0, i as int, o.name@, old_bars[k]);
                        let w = without_key(bars0, i as int, o.name@);
                        let m = choose|m: int| 0 <= m < w.len() && w[m] == old_bars[k];
                        assert(self.bars@[m] == old_bars[k]);
                    }
                }
            }
            i = i + 1;
        }
        proof {
            assert forall|k: int| 0 <= k < old_bars.len() && !replaced(old_bars[k], configs@, *o)
                implies #[trigger] self.bars@.contains(old_bars[k]) by {
                assert(!replaced_below(old_bars[k], configs@, *o, configs@.len() as int));
            }
        }
        r
    }

    /// Adds `bar` after the other bars, replacing any bar of the same
    /// configuration on the same output; the other bars keep their order.
    pub fn add_bar(&mut self, bar: Bar)
        ensures
            final(self).bars@ == without_key(old(self).bars@, bar.cfg_index as int, bar.output@).push(bar),
            final(self).runtime == old(self).runtime,
            final(self).draw_waiting_on_shm == old(self).draw_waiting_on_shm,
    {
        let mut kept: Vec<Bar> = Vec::new();
        let mut rest: Vec<Bar> = Vec::new();
        std::mem::swap(&mut self.bars, &mut rest);
        let ghost all = rest@;
        let ghost n = all.len();
        assert(all.subrange(0, 0) =~= Seq::<Bar>::empty());
        assert(all.subrange(0, n as int) =~= all);
        while rest.len() > 0
            invariant
                n == all.len(),
                all == old(self).bars@,
                rest@.len() <= n,
                rest@ == all.subrange(n - rest@.len(), n as int),
                kept@ == without_key(all.subrange(0, n - rest@.len()), bar.cfg_index as int, bar.output@),
            decreases rest@.len(),
        {
            let ghost k = n - rest@.len();
            let b = rest.remove(0);
            assert(b == all[k]);
            assert(rest@ =~= all.subrange(k + 1, n as int));
            assert(all.subrange(0, k + 1).drop_last() =~= all.subrange(0, k));
            let same = b.cfg_index == bar.cfg_index && b.output == bar.output;
            if !same {
                kept.push(b);
            }
        }
        kept.push(bar);
        self.bars = kept;
    }
}

/// The bars of `bars` that are not of configuration `cfg` on output `out`,
/// in order.
pub open spec fn without_key(bars: Seq<Bar>, cfg: int, out: Seq<char>) -> Seq<Bar>
    decreases bars.len(),
{
    if bars.len() == 0 {
        bars
    } else {
        let p = without_key(bars.drop_last(), cfg, out);
        if bars.last().cfg_index == cfg && bars.last().output@ == out {
            p
        } else {
            p.push(bars.last())
        }
    }
}

/// How many bars of `bars` are of configuration `cfg` on output `out`.
pub open spec fn count_key(bars: Seq<Bar>, cfg: int, out: Seq<char>) -> nat
    decreases bars.len(),
{
    if bars.len() == 0 {
        0
    } else {
        count_key(bars.drop_last(), cfg, out) + if bars.last().cfg_index == cfg && bars.last().output@ == out {
            1nat
        } else {
            0nat
        }
    }
}

/// Whether `b` is of a configuration among the first `n` of `configs`
/// that matches output `o`, and on `o`: such a bar is replaced.
pub open spec fn replaced_below(b: Bar, configs: Seq<OutputFilter>, o: OutputInfo, n: int) -> bool {
    b.output@ == o.name@ && b.cfg_index < n && b.cfg_index < configs.len() && output_matches(configs[b.cfg_index as int], o)
}

pub open spec fn replaced(b: Bar, configs: Seq<OutputFilter>, o: OutputInfo) -> bool {
    replaced_below(b, configs, o, configs.len() as int)
}

proof fn lemma_count_without(bars: Seq<Bar>, cfg: int, out: Seq<char>)
    ensures
        count_key(without_key(bars, cfg, out), cfg, out) == 0,
    decreases bars.len(),
{
    if bars.len() > 0 {
        lemma_count_without(bars.drop_last(), cfg, out);
        let p = without_key(bars.drop_last(), cfg, out);
        if !(bars.last().cfg_index == cfg && bars.last().output@ == out) {
            assert(p.push(bars.last()).drop_last() =~= p);
        }
    }
}

proof fn lemma_count_without_other(bars: Seq<Bar>, cfg: int, out: Seq<char>, cfg2: int, out2: Seq<char>)
    requires
        cfg != cfg2,
    ensures
        count_key(without_key(bars, cfg2, out2), cfg, out) == count_key(bars, cfg, out),
    decreases bars.len(),
{
    if bars.len() > 0 {
        lemma_count_without_other(bars.drop_last(), cfg, out, cfg2, out2);
        let p = without_key(bars.drop_last(), cfg2, out2);
        if !(bars.last().cfg_index == cfg2 && bars.last().output@ == out2) {
            assert(p.push(bars.last()).drop_last() =~= p);
        }
    }
}

proof fn lemma_without_contains(bars: Seq<Bar>, cfg: int, out: Seq<char>, b: Bar)
    requires
        bars.contains(b),
        !(b.cfg_index == cfg && b.output@ == out),
    ensures
        without_key(bars, cfg, out).contains(b),
    decreases bars.len(),
{
    let p = without_key(bars.drop_last(), cfg, out);
    if bars.last() == b {
        assert(p.push(b)[p.len() as int] == b);
    } else {
        let k = choose|k: int| 0 <= k < bars.len() && bars[k] == b;
        assert(bars.drop_last()[k] == b);
        lemma_without_contains(bars.drop_last(), cfg, out, b);
        let m = choose|m: int| 0 <= m < p.len() && p[m] == b;
        if !(bars.last().cfg_index == cfg && bars.last().output@ == out) {
            assert(p.push(bars.last())[m] == b);
        }
    }
}

} // verus!
