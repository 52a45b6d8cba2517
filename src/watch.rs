//! Bookkeeping for message-bus signal watchers and message arguments.
use vstd::prelude::*;

verus! {

/// Names a registered signal watcher while it is registered.
#[derive(Clone, Copy, Debug, Default, PartialEq, Eq, Structural)]
pub struct SigWatcherToken(pub Option<u64>);

impl SigWatcherToken {
    /// Whether the token still names a watcher.
    pub fn is_active(&self) -> (r: bool)
        ensures
            r == self.0 is Some,
    {
        self.0.is_some()
    }
}

/// Signal watchers, each under a distinct id.
#[derive(Debug)]
pub struct SigWatchers<F> {
    next: u64,
    list: Vec<(u64, F)>,
}

impl<F> SigWatchers<F> {
    /// The ids of the registered watchers, in order of registration.
    pub closed spec fn ids(&self) -> Seq<u64> {
        self.list@.map_values(|e: (u64, F)| e.0)
    }

    /// How many ids were handed out.
    pub closed spec fn handed_out(&self) -> nat {
        self.next as nat
    }

    /// Ids are below the next one to hand out, in increasing order, so
    /// they are distinct.
    pub closed spec fn wf(&self) -> bool {
        &&& forall|i: int| 0 <= i < self.list@.len() ==> #[trigger] self.list@[i].0 < self.next
        &&& forall|i: int, j: int| 0 <= i < j < self.list@.len() ==> #[trigger] self.list@[i].0 < #[trigger] self.list@[j].0
    }

    pub fn new() -> (r: SigWatchers<F>)
        ensures
            r.wf(),
            r.ids().len() == 0,
            r.handed_out() == 0,
    {
        let r = SigWatchers { next: 0, list: Vec::new() };
        assert(r.ids() =~= Seq::<u64>::empty());
        r
    }

    pub fn len(&self) -> (r: usize)
        ensures
            r == self.ids().len(),
    {
        self.list.len()
    }

    /// Registers `f`.  The token names it, and `first` says whether it is
    /// the only watcher, so that the caller starts receiving signals.  Once
    /// every id is used up nothing is registered and the token is inactive.
    pub fn add_signal_watcher(&mut self, f: F) -> (r: (SigWatcherToken, bool))
        requires
            old(self).wf(),
        ensures
            final(self).wf(),
            r.0 .0 is Some <==> old(self).handed_out() < u64::MAX,
            final(self).handed_out() == if r.0 .0 is Some {
                old(self).handed_out() + 1
            } else {
                old(self).handed_out()
            },
            match r.0 .0 {
                Some(id) => {
                    &&& final(self).ids() == old(self).ids().push(id)
                    &&& !old(self).ids().contains(id)
                    &&& r.1 == (old(self).ids().len() == 0)
                },
                None => final(self).ids() == old(self).ids() && !r.1,
            },
    {
        if self.next == u64::MAX {
            return (SigWatcherToken(None), false);
        }
        let id = self.next;
        let first = self.list.len() == 0;
        let ghost before = self.ids();
        self.list.push((id, f));
        self.next = self.next + 1;
        assert(self.ids() =~= before.push(id));
        assert(!before.contains(id)) by {
            if before.contains(id) {
                let k = choose|k: int| 0 <= k < before.len() && before[k] == id;
                assert(old(self).list@[k].0 < old(self).next);
            }
        }
        (SigWatcherToken(Some(id)), first)
    }

    /// Unregisters the watcher that `t` names, if any, and makes `t`
    /// inactive.  The other watchers stay, in their order.
    pub fn stop_signal_watcher(&mut self, t: &mut SigWatcherToken)
        requires
            old(self).wf(),
        ensures
            final(self).wf(),
            *final(t) == SigWatcherToken(None),
            final(self).handed_out() == old(self).handed_out(),
            match old(t).0 {
                Some(id) => if old(self).ids().contains(id) {
                    exists|i: int|
                        0 <= i < old(self).ids().len() && old(self).ids()[i] == id && final(self).ids()
                            == old(self).ids().remove(i)
                } else {
                    final(self).ids() == old(self).ids()
                },
                None => final(self).ids() == old(self).ids(),
            },
            match old(t).0 {
                Some(id) => !final(self).ids().contains(id),
                None => true,
            },
    {
        match t.0 {
            None => {},
            Some(id) => {
                let mut i: usize = 0;
                while i < self.list.len() && self.list[i].0 != id
                    invariant
                        self.wf(),
                        i <= self.list@.len(),
                        forall|k: int| 0 <= k < i ==> #[trigger] self.list@[k].0 != id,
                    decreases self.list@.len() - i,
                {
                    i = i + 1;
                }
                let ghost before = self.list@;
                if i < self.list.len() {
                    let _ = self.list.remove(i);
                    assert(self.ids() =~= old(self).ids().remove(i as int));
                    assert forall|x: u64| x != id implies (self.ids().contains(x) == old(self).ids().contains(x)) by {
                        if old(self).ids().contains(x) {
                            let k = choose|k: int| 0 <= k < before.len() && old(self).ids()[k] == x;
                            if k < i {
                                assert(self.ids()[k] == x);
                            } else {
                                assert(k != i);
                                assert(self.ids()[k - 1] == x);
                            }
                        }
                        if self.ids().contains(x) {
                            let k = choose|k: int| 0 <= k < self.list@.len() && self.ids()[k] == x;
                            if k < i {
                                assert(old(self).ids()[k] == x);
                            } else {
                                assert(old(self).ids()[k + 1] == x);
                            }
                        }
                    }
                    assert(!self.ids().contains(id)) by {
                        if self.ids().contains(id) {
                            let k = choose|k: int| 0 <= k < self.list@.len() && self.ids()[k] == id;
                            if k < i {
                                assert(before[k].0 == id);
                            } else {
                                assert(before[k + 1].0 == id);
                                assert(before[i as int].0 < before[k + 1].0);
                            }
                        }
                    }
                } else {
                    assert(!old(self).ids().contains(id));
                    assert(!self.ids().contains(id)) by {
                        if self.ids().contains(id) {
                            let k = choose|k: int| 0 <= k < self.list@.len() && self.ids()[k] == id;
                            assert(self.list@[k].0 == id);
                        }
                    }
                }
            },
        }
        t.0 = None;
    }
}

/// The watchers of one kind, run in order of registration.
#[derive(Debug)]
pub struct WatcherList<F> {
    pub items: Vec<F>,
}

impl<F> WatcherList<F> {
    pub fn new() -> (r: WatcherList<F>)
        ensures
            r.items@.len() == 0,
    {
        WatcherList { items: Vec::new() }
    }

    /// Adds `f`; true when it is the first, so that the caller sets up the
    /// signal that feeds this list.
    pub fn push(&mut self, f: F) -> (r: bool)
        ensures
            final(self).items@ == old(self).items@.push(f),
            r == (old(self).items@.len() == 0),
    {
        let first = self.items.len() == 0;
        self.items.push(f);
        first
    }

    /// Takes the watchers out to run them; watchers added meanwhile go to
    /// the emptied list.
    pub fn take(&mut self) -> (r: Vec<F>)
        ensures
            r@ == old(self).items@,
            final(self).items@.len() == 0,
    {
        let mut r: Vec<F> = Vec::new();
        std::mem::swap(&mut self.items, &mut r);
        r
    }

    /// Puts back watchers taken out by [`WatcherList::take`], after those
    /// added meanwhile.
    pub fn restore(&mut self, watchers: Vec<F>)
        ensures
            final(self).items@ == old(self).items@ + watchers@,
    {
        let mut w = watchers;
        if self.items.len() == 0 {
            assert(w@ =~= self.items@ + w@);
            self.items = w;
        } else {
            self.items.append(&mut w);
        }
    }
}

/// One argument of a message: a string, or another value.
#[derive(Debug)]
pub enum MsgArg<V> {
    Str(String),
    Value(V),
}

/// The key/value pairs of an argument that lists keys and values in turn:
/// every key must be a string, and a key without a value spoils the list.
pub open spec fn dict_pairs<V>(items: Seq<MsgArg<V>>) -> Option<Seq<(Seq<char>, MsgArg<V>)>> {
    if items.len() % 2 == 0 && (forall|i: int| 0 <= i < items.len() && i % 2 == 0 ==> #[trigger] items[i] is Str) {
        Some(Seq::new((items.len() / 2) as nat, |k: int| (items[2 * k]->Str_0@, items[2 * k + 1])))
    } else {
        None
    }
}

/// The value that the last pair with key `key` gives it, if any.
pub open spec fn last_value<V>(p: Seq<(Seq<char>, MsgArg<V>)>, key: Seq<char>) -> Option<MsgArg<V>>
    decreases p.len(),
{
    if p.len() == 0 {
        None
    } else if p.last().0 == key {
        Some(p.last().1)
    } else {
        last_value(p.drop_last(), key)
    }
}

/// `m` is the map that the pairs `p` make: one entry per key, each with
/// the value of the last pair of that key.
pub open spec fn is_dict_of<V>(m: Seq<(String, MsgArg<V>)>, p: Seq<(Seq<char>, MsgArg<V>)>) -> bool {
    &&& forall|a: int, b: int| 0 <= a < b < m.len() ==> (#[trigger] m[a]).0@ != (#[trigger] m[b]).0@
    &&& forall|k: int| 0 <= k < m.len() ==> last_value(p, (#[trigger] m[k]).0@) == Some(m[k].1)
    &&& forall|key: Seq<char>| #[trigger] last_value(p, key) is Some ==> exists|k: int| 0 <= k < m.len() && (#[trigger] m[k]).0@ == key
}

/// Reads an argument that can be iterated (`Some`) as a dictionary, or
/// nothing when it cannot be iterated or is not such a list.  Each key
/// appears once, with the value of its last pair; keys come in the order
/// they first appear.
pub fn read_hash_map<V>(value: Option<Vec<MsgArg<V>>>) -> (r: Option<Vec<(String, MsgArg<V>)>>)
    ensures
        match value {
            None => r is None,
            Some(v) => match dict_pairs(v@) {
                None => r is None,
                Some(p) => r is Some && is_dict_of(r->Some_0@, p),
            },
        },
{
    let mut items = match value {
        Some(v) => v,
        None => return None,
    };
    let ghost all = items@;
    let n = items.len();
    if n % 2 != 0 {
        return None;
    }
    let mut i: usize = 0;
    while i < n
        invariant
            value is Some && value->Some_0@ == all,
            items@ == all,
            n == all.len(),
            n % 2 == 0,
            i <= n,
            i % 2 == 0,
            forall|j: int| 0 <= j < i && j % 2 == 0 ==> #[trigger] all[j] is Str,
        decreases n - i,
    {
        match &items[i] {
            MsgArg::Str(_) => {},
            MsgArg::Value(_) => {
                assert(!(all[i as int] is Str));
                return None;
            },
        }
        i = i + 2;
    }
    let ghost p = dict_pairs(all)->Some_0;
    // take the pairs from the back, then turn them around
    let mut rev: Vec<(String, MsgArg<V>)> = Vec::new();
    while items.len() > 0
        invariant
            items@ == all.subrange(0, items@.len() as int),
            items@.len() % 2 == 0,
            items@.len() <= all.len(),
            all.len() == n,
            n % 2 == 0,
            forall|j: int| 0 <= j < n && j % 2 == 0 ==> #[trigger] all[j] is Str,
            p == dict_pairs(all)->Some_0,
            rev@.len() == (n - items@.len()) / 2,
            forall|k: int| 0 <= k < rev@.len() ==> (#[trigger] rev@[k]).0@ == p[p.len() - 1 - k].0 && rev@[k].1 == p[p.len() - 1 - k].1,
        decreases items@.len(),
    {
        let m = items.len();
        let ghost before = items@;
        let val = items.pop().unwrap();
        let key = items.pop().unwrap();
        assert(key == before[m - 2] && val == before[m - 1]);
        assert(before[m - 2] == all[m - 2]);
        assert(all[m - 2] is Str);
        assert(items@ =~= all.subrange(0, items@.len() as int));
        match key {
            MsgArg::Str(k) => {
                rev.push((k, val));
            },
            MsgArg::Value(_) => {
                return None;
            },
        }
    }
    let mut out: Vec<(String, MsgArg<V>)> = Vec::new();
    let ghost len = rev@.len();
    assert(p.subrange(0, 0) =~= Seq::<(Seq<char>, MsgArg<V>)>::empty());
    while rev.len() > 0
        invariant
            rev@.len() <= len,
            len == p.len(),
            forall|k: int| 0 <= k < rev@.len() ==> (#[trigger] rev@[k]).0@ == p[p.len() - 1 - k].0 && rev@[k].1 == p[p.len() - 1 - k].1,
            is_dict_of(out@, p.subrange(0, len - rev@.len())),
        decreases rev@.len(),
    {
        let ghost j = len - rev@.len();
        let ghost q = p.subrange(0, j);
        let ghost q2 = p.subrange(0, j + 1);
        let e = rev.pop().unwrap();
        assert(e.0@ == p[j].0 && e.1 == p[j].1);
        assert(q2.drop_last() =~= q);
        assert(q2.last() == p[j]);
        let mut f: usize = 0;
        while f < out.len() && !(out[f].0 == e.0)
            invariant
                f <= out@.len(),
                forall|m: int| 0 <= m < f ==> (#[trigger] out@[m]).0@ != e.0@,
            decreases out@.len() - f,
        {
            f = f + 1;
        }
        let ghost old_out = out@;
        if f < out.len() {
            out.set(f, e);
            assert forall|a: int, b: int| 0 <= a < b < out@.len() implies (#[trigger] out@[a]).0@ != (#[trigger] out@[b]).0@ by {
                assert(old_out[a].0@ != old_out[b].0@);
            }
            assert forall|k: int| 0 <= k < out@.len() implies last_value(q2, (#[trigger] out@[k]).0@) == Some(out@[k].1) by {
                if k != f {
                    assert(old_out[k].0@ != old_out[f as int].0@);
                }
            }
            assert forall|key: Seq<char>| #[trigger] last_value(q2, key) is Some implies exists|k: int| 0 <= k < out@.len() && (#[trigger] out@[k]).0@ == key by {
                if key == e.0@ {
                    assert(out@[f as int].0@ == key);
                } else {
                    assert(last_value(q, key) is Some);
                    let k = choose|k: int| 0 <= k < old_out.len() && (#[trigger] old_out[k]).0@ == key;
                    assert(out@[k].0@ == key);
                }
            }
        } else {
            out.push(e);
            assert forall|a: int, b: int| 0 <= a < b < out@.len() implies (#[trigger] out@[a]).0@ != (#[trigger] out@[b]).0@ by {
                if b < old_out.len() {
                    assert(old_out[a].0@ != old_out[b].0@);
                }
            }
            assert forall|k: int| 0 <= k < out@.len() implies last_value(q2, (#[trigger] out@[k]).0@) == Some(out@[k].1) by {
                if k < old_out.len() {
                    assert(old_out[k].0@ != e.0@);
                }
            }
            assert forall|key: Seq<char>| #[trigger] last_value(q2, key) is Some implies exists|k: int| 0 <= k < out@.len() && (#[trigger] out@[k]).0@ == key by {
                if key == e.0@ {
                    assert(out@[old_out.len() as int].0@ == key);
                } else {
                    assert(last_value(q, key) is Some);
                    let k = choose|k: int| 0 <= k < old_out.len() && (#[trigger] old_out[k]).0@ == key;
                    assert(out@[k].0@ == key);
                }
            }
        }
    }
    assert(p.subrange(0, len as int) =~= p);
    Some(out)
}

} // verus!
