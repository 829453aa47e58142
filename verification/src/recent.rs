//! The ordered, deduplicated, capped list of recently opened document paths.
//! Index 0 is the most recent entry. Every mutation hands the surrounding
//! shell a fresh record to persist (see `codec`) and expects a menu rebuild
//! (see `menu`) as a follow-up.

use vstd::prelude::*;

verus! {

/// Upper bound on the number of entries the list may hold.
pub const MAX_RECENT: usize = 10;

/// No two entries are the same path.
pub open spec fn distinct(l: Seq<Seq<char>>) -> bool {
    forall|i: int, j: int| 0 <= i < j < l.len() ==> l[i] != l[j]
}

/// `l` with every occurrence of `p` removed, order kept.
pub open spec fn remove_all(l: Seq<Seq<char>>, p: Seq<char>) -> Seq<Seq<char>>
    decreases l.len(),
{
    if l.len() == 0 {
        Seq::empty()
    } else if l[0] == p {
        remove_all(l.drop_first(), p)
    } else {
        seq![l[0]] + remove_all(l.drop_first(), p)
    }
}

/// `l` truncated to the first `MAX_RECENT` entries.
pub open spec fn cap(l: Seq<Seq<char>>) -> Seq<Seq<char>> {
    if l.len() <= MAX_RECENT {
        l
    } else {
        l.take(MAX_RECENT as int)
    }
}

/// The list after `add(p)`: any old occurrence of `p` is dropped, `p` moves
/// to the front, and the result is capped.
pub open spec fn add_model(l: Seq<Seq<char>>, p: Seq<char>) -> Seq<Seq<char>> {
    cap(seq![p] + remove_all(l, p))
}

/// The entries of `l` whose flag in `alive` is set, order kept.
pub open spec fn survivors(l: Seq<Seq<char>>, alive: Seq<bool>) -> Seq<Seq<char>>
    decreases l.len(),
{
    if l.len() == 0 {
        Seq::empty()
    } else if alive[0] {
        seq![l[0]] + survivors(l.drop_first(), alive.drop_first())
    } else {
        survivors(l.drop_first(), alive.drop_first())
    }
}

proof fn lemma_remove_all_push(l: Seq<Seq<char>>, p: Seq<char>, x: Seq<char>)
    ensures
        remove_all(l.push(x), p) == remove_all(l, p) + (if x == p {
            Seq::<Seq<char>>::empty()
        } else {
            seq![x]
        }),
    decreases l.len(),
{
    let tail = (if x == p {
        Seq::<Seq<char>>::empty()
    } else {
        seq![x]
    });
    if l.len() == 0 {
        assert(l.push(x)[0] == x);
        assert(l.push(x).drop_first() =~= l);
        assert(remove_all(l, p) =~= Seq::<Seq<char>>::empty());
        assert(remove_all(l.push(x), p) =~= remove_all(l, p) + tail);
    } else {
        assert(l.push(x).drop_first() =~= l.drop_first().push(x));
        lemma_remove_all_push(l.drop_first(), p, x);
        if l[0] == p {
            assert(remove_all(l.push(x), p) =~= remove_all(l, p) + tail);
        } else {
            assert(remove_all(l.push(x), p) =~= seq![l[0]] + (remove_all(l.drop_first(), p)
                + tail));
            assert(remove_all(l.push(x), p) =~= remove_all(l, p) + tail);
        }
    }
}

proof fn lemma_survivors_push(l: Seq<Seq<char>>, alive: Seq<bool>, x: Seq<char>, b: bool)
    requires
        alive.len() == l.len(),
    ensures
        survivors(l.push(x), alive.push(b)) == survivors(l, alive) + (if b {
            seq![x]
        } else {
            Seq::<Seq<char>>::empty()
        }),
    decreases l.len(),
{
    let tail = (if b {
        seq![x]
    } else {
        Seq::<Seq<char>>::empty()
    });
    if l.len() == 0 {
        assert(l.push(x)[0] == x);
        assert(alive.push(b)[0] == b);
        assert(l.push(x).drop_first() =~= l);
        assert(alive.push(b).drop_first() =~= alive);
        assert(survivors(l, alive) =~= Seq::<Seq<char>>::empty());
        assert(survivors(l.push(x), alive.push(b)) =~= survivors(l, alive) + tail);
    } else {
        assert(l.push(x).drop_first() =~= l.drop_first().push(x));
        assert(alive.push(b).drop_first() =~= alive.drop_first().push(b));
        lemma_survivors_push(l.drop_first(), alive.drop_first(), x, b);
        if alive[0] {
            assert(survivors(l.push(x), alive.push(b)) =~= seq![l[0]] + (survivors(
                l.drop_first(),
                alive.drop_first(),
            ) + tail));
            assert(survivors(l.push(x), alive.push(b)) =~= survivors(l, alive) + tail);
        } else {
            assert(survivors(l.push(x), alive.push(b)) =~= survivors(l, alive) + tail);
        }
    }
}

/// Everything kept by `remove_all` came from `l` and differs from `p`.
proof fn lemma_remove_all_sub(l: Seq<Seq<char>>, p: Seq<char>)
    ensures
        remove_all(l, p).len() <= l.len(),
        forall|q: Seq<char>| #[trigger] remove_all(l, p).contains(q) ==> l.contains(q) && q != p,
    decreases l.len(),
{
    if l.len() == 0 {
    } else {
        lemma_remove_all_sub(l.drop_first(), p);
        assert forall|q: Seq<char>| #[trigger] remove_all(l, p).contains(q) implies l.contains(q)
            && q != p by {
            if l[0] != p && q == l[0] {
                assert(l.contains(q));
            } else {
                if remove_all(l, p).contains(q) && !(l[0] != p && q == l[0]) {
                    assert(remove_all(l.drop_first(), p).contains(q));
                    assert(l.drop_first().contains(q));
                    let k = choose|k: int|
                        0 <= k < l.drop_first().len() && l.drop_first()[k] == q;
                    assert(l[k + 1] == q);
                }
            }
        }
    }
}

/// Removing a path that does not occur changes nothing.
proof fn lemma_remove_all_absent(l: Seq<Seq<char>>, p: Seq<char>)
    requires
        !l.contains(p),
    ensures
        remove_all(l, p) == l,
    decreases l.len(),
{
    if l.len() == 0 {
        assert(remove_all(l, p) =~= l);
    } else {
        assert(l[0] != p);
        assert(forall|k: int|
            0 <= k < l.drop_first().len() ==> l.drop_first()[k] == l[k + 1]);
        assert(!l.drop_first().contains(p));
        lemma_remove_all_absent(l.drop_first(), p);
        assert(remove_all(l, p) =~= l);
    }
}

/// On a duplicate-free list that holds `p`, removal drops exactly one entry.
proof fn lemma_remove_all_present(l: Seq<Seq<char>>, p: Seq<char>)
    requires
        distinct(l),
        l.contains(p),
    ensures
        remove_all(l, p).len() == l.len() - 1,
    decreases l.len(),
{
    assert(forall|k: int| 0 <= k < l.drop_first().len() ==> l.drop_first()[k] == l[k + 1]);
    if l[0] == p {
        assert(!l.drop_first().contains(p));
        lemma_remove_all_absent(l.drop_first(), p);
    } else {
        let k = choose|k: int| 0 <= k < l.len() && l[k] == p;
        assert(k != 0);
        assert(l.drop_first()[k - 1] == p);
        assert(l.drop_first().contains(p));
        lemma_remove_all_present(l.drop_first(), p);
    }
}

/// `remove_all` keeps a duplicate-free list duplicate-free.
proof fn lemma_remove_all_distinct(l: Seq<Seq<char>>, p: Seq<char>)
    requires
        distinct(l),
    ensures
        distinct(remove_all(l, p)),
    decreases l.len(),
{
    if l.len() == 0 {
    } else {
        assert(forall|k: int| 0 <= k < l.drop_first().len() ==> l.drop_first()[k] == l[k + 1]);
        lemma_remove_all_distinct(l.drop_first(), p);
        if l[0] != p {
            lemma_remove_all_sub(l.drop_first(), p);
            let r = seq![l[0]] + remove_all(l.drop_first(), p);
            assert forall|i: int, j: int| 0 <= i < j < r.len() implies r[i] != r[j] by {
                if i == 0 {
                    assert(remove_all(l.drop_first(), p).contains(r[j]));
                    assert(l.drop_first().contains(r[j]));
                    let k = choose|k: int|
                        0 <= k < l.drop_first().len() && l.drop_first()[k] == r[j];
                    assert(l[0] != l[k + 1]);
                }
            }
        }
    }
}

/// Adding to a duplicate-free list keeps it duplicate-free, capped, and puts
/// the new path at index 0: the standing shape of any list built by `add`.
pub proof fn lemma_add_keeps_invariant(l: Seq<Seq<char>>, p: Seq<char>)
    requires
        distinct(l),
    ensures
        distinct(add_model(l, p)),
        add_model(l, p).len() <= MAX_RECENT,
        add_model(l, p).len() >= 1,
        add_model(l, p)[0] == p,
    decreases l.len(),
{
    lemma_remove_all_distinct(l, p);
    lemma_remove_all_sub(l, p);
    let full = seq![p] + remove_all(l, p);
    assert forall|i: int, j: int| 0 <= i < j < full.len() implies full[i] != full[j] by {
        if i == 0 {
            assert(remove_all(l, p).contains(full[j]));
        }
    }
    assert(distinct(full));
    if full.len() > MAX_RECENT {
        let c = full.take(MAX_RECENT as int);
        assert(forall|i: int| 0 <= i < c.len() ==> c[i] == full[i]);
        assert(distinct(c));
    }
}

/// Adding a path that is already present moves it to index 0 and leaves the
/// length unchanged.
pub proof fn lemma_add_present_keeps_len(l: Seq<Seq<char>>, p: Seq<char>)
    requires
        distinct(l),
        l.len() <= MAX_RECENT,
        l.contains(p),
    ensures
        add_model(l, p).len() == l.len(),
        add_model(l, p)[0] == p,
{
    lemma_remove_all_present(l, p);
}

/// Loading keeps the survivors' relative order: however the list is split,
/// the survivors of the front segment all come before those of the rest,
/// each group in its own original order.
pub proof fn lemma_survivors_split(l: Seq<Seq<char>>, alive: Seq<bool>, k: int)
    requires
        alive.len() == l.len(),
        0 <= k <= l.len(),
    ensures
        survivors(l, alive) == survivors(l.take(k), alive.take(k)) + survivors(
            l.skip(k),
            alive.skip(k),
        ),
    decreases k,
{
    if k == 0 {
        assert(l.take(0) =~= Seq::<Seq<char>>::empty());
        assert(alive.take(0) =~= Seq::<bool>::empty());
        assert(l.skip(0) =~= l);
        assert(alive.skip(0) =~= alive);
        assert(survivors(l.take(0), alive.take(0)) =~= Seq::<Seq<char>>::empty());
        assert(survivors(l, alive) =~= survivors(l.take(0), alive.take(0)) + survivors(
            l.skip(0),
            alive.skip(0),
        ));
    } else {
        lemma_survivors_split(l.drop_first(), alive.drop_first(), k - 1);
        assert(l.take(k).drop_first() =~= l.drop_first().take(k - 1));
        assert(alive.take(k).drop_first() =~= alive.drop_first().take(k - 1));
        assert(l.skip(k) =~= l.drop_first().skip(k - 1));
        assert(alive.skip(k) =~= alive.drop_first().skip(k - 1));
        assert(l.take(k)[0] == l[0]);
        assert(alive.take(k)[0] == alive[0]);
        if alive[0] {
            assert(survivors(l, alive) =~= seq![l[0]] + survivors(
                l.drop_first(),
                alive.drop_first(),
            ));
            assert(survivors(l.take(k), alive.take(k)) =~= seq![l[0]] + survivors(
                l.drop_first().take(k - 1),
                alive.drop_first().take(k - 1),
            ));
            assert(survivors(l, alive) =~= survivors(l.take(k), alive.take(k)) + survivors(
                l.skip(k),
                alive.skip(k),
            ));
        } else {
            assert(survivors(l, alive) =~= survivors(l.take(k), alive.take(k)) + survivors(
                l.skip(k),
                alive.skip(k),
            ));
        }
    }
}

/// The recently-opened list itself. The entries are plain path strings; the
/// view is the sequence of their character sequences, most recent first.
pub struct RecentFiles {
    entries: Vec<String>,
}

impl View for RecentFiles {
    type V = Seq<Seq<char>>;

    closed spec fn view(&self) -> Seq<Seq<char>> {
        self.entries.deep_view()
    }
}

impl RecentFiles {
    /// The length never exceeds `MAX_RECENT`.
    pub open spec fn inv(&self) -> bool {
        self@.len() <= MAX_RECENT
    }

    /// An empty list.
    pub fn new() -> (r: RecentFiles)
        ensures
            r@ == Seq::<Seq<char>>::empty(),
            r.inv(),
    {
        let r = RecentFiles { entries: Vec::new() };
        proof {
            assert(r@ =~= Seq::<Seq<char>>::empty());
        }
        r
    }

    /// How many entries the list holds.
    pub fn len(&self) -> (n: usize)
        ensures
            n == self@.len(),
    {
        self.entries.len()
    }

    /// Positional lookup, used when a recent-file menu entry is selected.
    pub fn get(&self, index: usize) -> (r: Option<&String>)
        ensures
            r is Some <==> index < self@.len(),
            r matches Some(p) ==> p@ == self@[index as int],
    {
        if index < self.entries.len() {
            Some(&self.entries[index])
        } else {
            None
        }
    }

    /// The entries in order, for building the menu or writing the record.
    pub fn entries(&self) -> (r: &Vec<String>)
        ensures
            r.deep_view() == self@,
    {
        &self.entries
    }

    /// Removes any old occurrence of `path`, inserts it at index 0 and caps
    /// the list. The caller persists the new record and rebuilds the menu.
    pub fn add(&mut self, path: String)
        requires
            old(self).inv(),
        ensures
            final(self).inv(),
            final(self)@ == add_model(old(self)@, path@),
            distinct(old(self)@) ==> distinct(final(self)@),
    {
        let ghost l = old(self)@;
        let ghost p = path@;
        let mut kept: Vec<String> = Vec::new();
        let n = self.entries.len();
        proof {
            assert(l.take(0) =~= Seq::<Seq<char>>::empty());
            assert(kept.deep_view() =~= remove_all(l.take(0), p));
        }
        let mut i: usize = 0;
        while i < n
            invariant
                n == self.entries.len(),
                self@ == l,
                i <= n,
                l.len() == n,
                p == path@,
                kept.deep_view() == remove_all(l.take(i as int), p),
            decreases n - i,
        {
            proof {
                assert(l.take(i + 1) =~= l.take(i as int).push(l[i as int]));
                lemma_remove_all_push(l.take(i as int), p, l[i as int]);
            }
            if !(self.entries[i] == path) {
                let e = self.entries[i].clone();
                kept.push(e);
                proof {
                    assert(kept.deep_view() =~= remove_all(l.take(i + 1), p));
                }
            } else {
                proof {
                    assert(kept.deep_view() =~= remove_all(l.take(i + 1), p));
                }
            }
            i += 1;
        }
        proof {
            assert(l.take(n as int) =~= l);
        }
        let mut out: Vec<String> = Vec::new();
        out.push(path);
        out.append(&mut kept);
        proof {
            assert(out.deep_view() =~= seq![p] + remove_all(l, p));
        }
        out.truncate(MAX_RECENT);
        proof {
            if (seq![p] + remove_all(l, p)).len() > MAX_RECENT {
                assert(out.deep_view() =~= add_model(l, p));
            } else {
                assert(out.deep_view() =~= add_model(l, p));
            }
            if distinct(l) {
                lemma_add_keeps_invariant(l, p);
            }
        }
        self.entries = out;
    }

    /// Empties the list. The caller persists the empty record and rebuilds
    /// the menu.
    pub fn clear(&mut self)
        ensures
            final(self).inv(),
            final(self)@ == Seq::<Seq<char>>::empty(),
    {
        self.entries.clear();
        proof {
            assert(self@ =~= Seq::<Seq<char>>::empty());
        }
    }

    /// Builds the list loaded at startup: of the decoded entries, keeps those
    /// whose flag says their target still exists, in order, capped at
    /// `MAX_RECENT`.
    pub fn from_survivors(entries: Vec<String>, alive: &Vec<bool>) -> (r: RecentFiles)
        requires
            alive@.len() == entries@.len(),
        ensures
            r.inv(),
            r@ == cap(survivors(entries.deep_view(), alive@)),
    {
        let ghost l = entries.deep_view();
        let ghost f = alive@;
        let mut out: Vec<String> = Vec::new();
        let n = entries.len();
        proof {
            assert(l.take(0) =~= Seq::<Seq<char>>::empty());
            assert(f.take(0) =~= Seq::<bool>::empty());
            assert(out.deep_view() =~= survivors(l.take(0), f.take(0)));
        }
        let mut i: usize = 0;
        while i < n
            invariant
                n == entries.len(),
                entries.deep_view() == l,
                alive@ == f,
                i <= n,
                l.len() == n,
                f.len() == n,
                out.deep_view() == survivors(l.take(i as int), f.take(i as int)),
            decreases n - i,
        {
            proof {
                assert(l.take(i + 1) =~= l.take(i as int).push(l[i as int]));
                assert(f.take(i + 1) =~= f.take(i as int).push(f[i as int]));
                lemma_survivors_push(l.take(i as int), f.take(i as int), l[i as int], f[i as int]);
            }
            if alive[i] {
                let e = entries[i].clone();
                out.push(e);
                proof {
                    assert(out.deep_view() =~= survivors(l.take(i + 1), f.take(i + 1)));
                }
            } else {
                proof {
                    assert(out.deep_view() =~= survivors(l.take(i + 1), f.take(i + 1)));
                }
            }
            i += 1;
        }
        proof {
            assert(l.take(n as int) =~= l);
            assert(f.take(n as int) =~= f);
        }
        out.truncate(MAX_RECENT);
        let r = RecentFiles { entries: out };
        proof {
            if survivors(l, f).len() > MAX_RECENT {
                assert(r@ =~= cap(survivors(l, f)));
            } else {
                assert(r@ =~= cap(survivors(l, f)));
            }
        }
        r
    }
}

} // verus!
