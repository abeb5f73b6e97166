//! Maps from names, kept in the order of the names.
use vstd::prelude::*;

use crate::text::{chars_of, str_eq};

verus! {

/// `a` comes before `b` in a dictionary.
pub open spec fn before(a: Seq<char>, b: Seq<char>) -> bool
    decreases a.len(),
{
    if b.len() == 0 {
        false
    } else if a.len() == 0 {
        true
    } else {
        a[0] < b[0] || (a[0] == b[0] && before(a.skip(1), b.skip(1)))
    }
}

proof fn lemma_before_transitive(a: Seq<char>, b: Seq<char>, c: Seq<char>)
    requires
        before(a, b),
        before(b, c),
    ensures
        before(a, c),
    decreases a.len(),
{
    if a.len() > 0 && b.len() > 0 && c.len() > 0 {
        if a[0] == b[0] && b[0] == c[0] {
            lemma_before_transitive(a.skip(1), b.skip(1), c.skip(1));
        }
    }
}

proof fn lemma_before_irreflexive(a: Seq<char>)
    ensures
        !before(a, a),
    decreases a.len(),
{
    if a.len() > 0 {
        lemma_before_irreflexive(a.skip(1));
    }
}

proof fn lemma_before_total(a: Seq<char>, b: Seq<char>)
    requires
        !before(a, b),
        a != b,
    ensures
        before(b, a),
    decreases a.len(),
{
    if a.len() == 0 {
        if b.len() == 0 {
            assert(a =~= b);
        }
    } else if b.len() > 0 && a[0] == b[0] {
        if a.skip(1) == b.skip(1) {
            assert(a =~= seq![a[0]] + a.skip(1));
            assert(b =~= seq![b[0]] + b.skip(1));
        }
        lemma_before_total(a.skip(1), b.skip(1));
    }
}

/// Whether one string comes before another in a dictionary.
fn comes_before(a: &str, b: &str) -> (r: bool)
    ensures
        r == before(a@, b@),
{
    let x = chars_of(a);
    let y = chars_of(b);
    let mut i: usize = 0;
    assert(x@.skip(0) =~= x@);
    assert(y@.skip(0) =~= y@);
    loop
        invariant
            x@ == a@,
            y@ == b@,
            i <= x@.len(),
            i <= y@.len(),
            before(a@, b@) == before(x@.skip(i as int), y@.skip(i as int)),
        decreases x@.len() - i,
    {
        if i >= y.len() {
            return false;
        }
        if i >= x.len() {
            return true;
        }
        if x[i] != y[i] {
            return x[i] < y[i];
        }
        assert(x@.skip(i as int).skip(1) =~= x@.skip(i + 1));
        assert(y@.skip(i as int).skip(1) =~= y@.skip(i + 1));
        i = i + 1;
    }
}

/// The map that some entries make up, later ones overriding earlier ones.
pub open spec fn map_of<V>(entries: Seq<(Seq<char>, V)>) -> Map<Seq<char>, V>
    decreases entries.len(),
{
    if entries.len() == 0 {
        Map::empty()
    } else {
        map_of(entries.drop_last()).insert(entries.last().0, entries.last().1)
    }
}

/// The entries are in the order of their names, each name once.
pub open spec fn in_order<V>(entries: Seq<(Seq<char>, V)>) -> bool {
    forall|i: int, j: int|
        0 <= i < j < entries.len() ==> before(#[trigger] entries[i].0, #[trigger] entries[j].0)
}

/// What a map of distinct names holds.
pub proof fn lemma_map_of<V>(entries: Seq<(Seq<char>, V)>)
    requires
        in_order(entries),
    ensures
        forall|i: int|
            0 <= i < entries.len() ==> map_of(entries).dom().contains(#[trigger] entries[i].0)
                && map_of(entries)[entries[i].0] == entries[i].1,
        forall|k: Seq<char>| #[trigger]
            map_of(entries).dom().contains(k) ==> exists|i: int|
                0 <= i < entries.len() && #[trigger] entries[i].0 == k,
    decreases entries.len(),
{
    if entries.len() > 0 {
        let init = entries.drop_last();
        assert(in_order(init)) by {
            assert forall|i: int, j: int| 0 <= i < j < init.len() implies before(
                #[trigger] init[i].0,
                #[trigger] init[j].0,
            ) by {
                assert(init[i] == entries[i] && init[j] == entries[j]);
            }
        }
        lemma_map_of(init);
        assert forall|i: int| 0 <= i < entries.len() implies map_of(entries).dom().contains(
            #[trigger] entries[i].0,
        ) && map_of(entries)[entries[i].0] == entries[i].1 by {
            if i < init.len() {
                assert(init[i] == entries[i]);
                assert(before(entries[i].0, entries[entries.len() - 1].0));
                lemma_before_irreflexive(entries[i].0);
            }
        }
        assert forall|k: Seq<char>| #[trigger] map_of(entries).dom().contains(k) implies exists|
            i: int,
        |
            0 <= i < entries.len() && #[trigger] entries[i].0 == k by {
            if k == entries.last().0 {
                assert(entries[entries.len() - 1].0 == k);
            } else {
                assert(map_of(init).dom().contains(k));
                let i = choose|i: int| 0 <= i < init.len() && #[trigger] init[i].0 == k;
                assert(entries[i].0 == k);
            }
        }
    }
}

/// A map from names to values, in the order of the names.
pub struct NameMap<V> {
    entries: Vec<(String, V)>,
}

impl<V> View for NameMap<V> {
    type V = Map<Seq<char>, V>;

    open spec fn view(&self) -> Map<Seq<char>, V> {
        map_of(self.listed())
    }
}

impl<V> NameMap<V> {
    /// The entries in order.
    pub closed spec fn listed(&self) -> Seq<(Seq<char>, V)> {
        Seq::new(self.entries@.len(), |i: int| (self.entries@[i].0@, self.entries@[i].1))
    }

    pub open spec fn wf(&self) -> bool {
        in_order(self.listed())
    }

    pub fn new() -> (r: Self)
        ensures
            r.wf(),
            r.listed() == Seq::<(Seq<char>, V)>::empty(),
            r@ == Map::<Seq<char>, V>::empty(),
    {
        let r = NameMap { entries: Vec::new() };
        assert(r.listed() =~= Seq::<(Seq<char>, V)>::empty());
        r
    }

    /// Number of names.
    pub fn len(&self) -> (n: usize)
        ensures
            n == self.listed().len(),
    {
        self.entries.len()
    }

    /// The name at a place in the order.
    pub fn name_at(&self, i: usize) -> (r: &str)
        requires
            i < self.listed().len(),
        ensures
            r@ == self.listed()[i as int].0,
    {
        self.entries[i].0.as_str()
    }

    /// The value at a place in the order.
    pub fn value_at(&self, i: usize) -> (r: &V)
        requires
            i < self.listed().len(),
        ensures
            *r == self.listed()[i as int].1,
    {
        &self.entries[i].1
    }

    /// The value under a name.
    pub fn get(&self, name: &str) -> (r: Option<&V>)
        requires
            self.wf(),
        ensures
            match r {
                Some(v) => self@.dom().contains(name@) && *v == self@[name@],
                None => !self@.dom().contains(name@),
            },
    {
        proof {
            lemma_map_of(self.listed());
        }
        let mut i: usize = 0;
        while i < self.entries.len()
            invariant
                self.wf(),
                i <= self.entries@.len(),
                forall|k: int| 0 <= k < i ==> (#[trigger] self.listed()[k]).0 != name@,
            decreases self.entries@.len() - i,
        {
            if str_eq(self.entries[i].0.as_str(), name) {
                proof {
                    assert(self.listed()[i as int].0 == name@);
                    lemma_map_of(self.listed());
                }
                return Some(&self.entries[i].1);
            }
            assert(self.listed()[i as int].0 != name@);
            i = i + 1;
        }
        None
    }

    /// Whether a name is there.
    pub fn contains_key(&self, name: &str) -> (r: bool)
        requires
            self.wf(),
        ensures
            r == self@.dom().contains(name@),
    {
        self.get(name).is_some()
    }

    /// Put a value under a name, in place of what was there.
    pub fn insert(&mut self, name: String, value: V)
        requires
            old(self).wf(),
        ensures
            final(self).wf(),
            final(self)@ == old(self)@.insert(name@, value),
    {
        let ghost before_entries = self.listed();
        let ghost key = name@;
        proof {
            lemma_map_of(before_entries);
        }
        let mut i: usize = 0;
        while i < self.entries.len() && comes_before(self.entries[i].0.as_str(), name.as_str())
            invariant
                key == name@,
                i <= self.entries@.len(),
                self.listed() == before_entries,
                forall|k: int| 0 <= k < i ==> before((#[trigger] before_entries[k]).0, key),
            decreases self.entries@.len() - i,
        {
            assert(before_entries[i as int].0 == self.entries@[i as int].0@);
            i = i + 1;
        }
        if i < self.entries.len() && str_eq(self.entries[i].0.as_str(), name.as_str()) {
            self.entries[i].1 = value;
            proof {
                assert(self.listed() =~= before_entries.update(i as int, (key, value)));
                assert(in_order(self.listed())) by {
                    assert forall|a: int, b: int|
                        0 <= a < b < self.listed().len() implies before(
                        #[trigger] self.listed()[a].0,
                        #[trigger] self.listed()[b].0,
                    ) by {
                        assert(before(before_entries[a].0, before_entries[b].0));
                    }
                }
                lemma_map_of(self.listed());
                self.lemma_inserted(before_entries, i as int, key, value);
            }
        } else {
            let ghost at = i as int;
            proof {
                if at < before_entries.len() {
                    assert(before_entries[at].0 == self.entries@[at].0@);
                    lemma_before_total(before_entries[at].0, key);
                }
            }
            self.entries.insert(i, (name, value));
            proof {
                let now = self.listed();
                assert(now =~= before_entries.insert(at, (key, value)));
                assert(in_order(now)) by {
                    assert forall|a: int, b: int| 0 <= a < b < now.len() implies before(
                        #[trigger] now[a].0,
                        #[trigger] now[b].0,
                    ) by {
                        lemma_insert_order(before_entries, at, key, value, a, b);
                    }
                }
                lemma_map_of(now);
                self.lemma_inserted(before_entries, at, key, value);
            }
        }
    }

    /// An entry for `key`, in order among the others, is what inserting it in
    /// the map gives.
    proof fn lemma_inserted(
        &self,
        entries: Seq<(Seq<char>, V)>,
        at: int,
        key: Seq<char>,
        value: V,
    )
        requires
            in_order(entries),
            in_order(self.listed()),
            0 <= at <= entries.len(),
            self.listed() == entries.insert(at, (key, value)) || (at < entries.len()
                && entries[at].0 == key && self.listed() == entries.update(at, (key, value))),
        ensures
            self@ == map_of(entries).insert(key, value),
    {
        let now = self.listed();
        lemma_map_of(entries);
        lemma_map_of(now);
        let want = map_of(entries).insert(key, value);
        assert(now[at] == (key, value));
        assert forall|k: Seq<char>| #[trigger] self@.dom().contains(k) == want.dom().contains(
            k,
        ) by {
            assert(self@ == map_of(now));
            if self@.dom().contains(k) {
                let i = choose|i: int| 0 <= i < now.len() && #[trigger] now[i].0 == k;
                if i != at && now == entries.insert(at, (key, value)) {
                    let j = if i < at {
                        i
                    } else {
                        i - 1
                    };
                    assert(entries[j] == now[i]);
                } else if i != at {
                    assert(entries[i] == now[i]);
                }
            }
            if k == key {
                assert(map_of(now).dom().contains(now[at].0));
            }
            if want.dom().contains(k) && k != key {
                assert(map_of(entries).dom().contains(k));
                let j = choose|j: int| 0 <= j < entries.len() && #[trigger] entries[j].0 == k;
                if now == entries.insert(at, (key, value)) {
                    let i = if j < at {
                        j
                    } else {
                        j + 1
                    };
                    assert(now[i] == entries[j]);
                } else {
                    assert(now[j] == entries[j]);
                }
            }
        }
        assert forall|k: Seq<char>| #[trigger] self@.dom().contains(k) implies self@[k]
            == want[k] by {
            if k == key {
                assert(self@[now[at].0] == now[at].1);
            } else {
                let i = choose|i: int| 0 <= i < now.len() && #[trigger] now[i].0 == k;
                assert(self@[now[i].0] == now[i].1);
                if now == entries.insert(at, (key, value)) {
                    let j = if i < at {
                        i
                    } else {
                        i - 1
                    };
                    assert(entries[j] == now[i]);
                    assert(map_of(entries)[entries[j].0] == entries[j].1);
                } else {
                    assert(entries[i] == now[i]);
                    assert(map_of(entries)[entries[i].0] == entries[i].1);
                }
            }
        }
        assert(self@ =~= want);
    }
}

proof fn lemma_insert_order<V>(
    entries: Seq<(Seq<char>, V)>,
    at: int,
    key: Seq<char>,
    value: V,
    a: int,
    b: int,
)
    requires
        in_order(entries),
        0 <= at <= entries.len(),
        forall|k: int| 0 <= k < at ==> before((#[trigger] entries[k]).0, key),
        at < entries.len() ==> before(key, entries[at].0),
        0 <= a < b < entries.len() + 1,
    ensures
        before(
            entries.insert(at, (key, value))[a].0,
            entries.insert(at, (key, value))[b].0,
        ),
{
    let now = entries.insert(at, (key, value));
    if b < at {
        assert(now[a] == entries[a] && now[b] == entries[b]);
    } else if b == at {
        assert(now[a] == entries[a] && now[b] == (key, value));
    } else if a == at {
        assert(now[a] == (key, value) && now[b] == entries[b - 1]);
        if b - 1 > at {
            assert(before(entries[at].0, entries[b - 1].0));
            lemma_before_transitive(key, entries[at].0, entries[b - 1].0);
        }
    } else if a > at {
        assert(now[a] == entries[a - 1] && now[b] == entries[b - 1]);
    } else {
        assert(now[a] == entries[a] && now[b] == entries[b - 1]);
    }
}

proof fn lemma_map_of_drop_last<V>(entries: Seq<(Seq<char>, V)>)
    requires
        in_order(entries),
        entries.len() > 0,
    ensures
        in_order(entries.drop_last()),
        map_of(entries.drop_last()) == map_of(entries).remove(entries.last().0),
{
    let init = entries.drop_last();
    let last = entries.last();
    assert forall|i: int, j: int| 0 <= i < j < init.len() implies before(
        #[trigger] init[i].0,
        #[trigger] init[j].0,
    ) by {
        assert(init[i] == entries[i] && init[j] == entries[j]);
    }
    lemma_map_of(init);
    assert(!map_of(init).dom().contains(last.0)) by {
        if map_of(init).dom().contains(last.0) {
            let i = choose|i: int| 0 <= i < init.len() && #[trigger] init[i].0 == last.0;
            assert(before(entries[i].0, entries[entries.len() - 1].0));
            lemma_before_irreflexive(last.0);
        }
    }
    assert(map_of(init) =~= map_of(entries).remove(last.0));
}

proof fn lemma_last_name<V>(a: Seq<(Seq<char>, V)>, b: Seq<(Seq<char>, V)>)
    requires
        in_order(a),
        in_order(b),
        map_of(a) == map_of(b),
        a.len() > 0,
    ensures
        b.len() > 0,
        a.last() == b.last(),
{
    lemma_map_of(a);
    lemma_map_of(b);
    let x = a[a.len() - 1].0;
    assert(map_of(b).dom().contains(x));
    let j = choose|j: int| 0 <= j < b.len() && #[trigger] b[j].0 == x;
    let y = b[b.len() - 1].0;
    assert(map_of(a).dom().contains(y));
    let i = choose|i: int| 0 <= i < a.len() && #[trigger] a[i].0 == y;
    if j < b.len() - 1 {
        assert(before(b[j].0, b[b.len() - 1].0));
        if i < a.len() - 1 {
            assert(before(a[i].0, a[a.len() - 1].0));
            lemma_before_transitive(x, y, x);
        }
        lemma_before_irreflexive(x);
    }
    assert(map_of(a)[a[a.len() - 1].0] == a[a.len() - 1].1);
    assert(map_of(b)[b[b.len() - 1].0] == b[b.len() - 1].1);
}

/// Entries in order are determined by the map they make up.
pub proof fn law_listing_is_determined<V>(a: Seq<(Seq<char>, V)>, b: Seq<(Seq<char>, V)>)
    requires
        in_order(a),
        in_order(b),
        map_of(a) == map_of(b),
    ensures
        a == b,
    decreases a.len(),
{
    if a.len() == 0 {
        if b.len() > 0 {
            lemma_last_name(b, a);
        }
        assert(a =~= b);
    } else {
        lemma_last_name(a, b);
        lemma_map_of_drop_last(a);
        lemma_map_of_drop_last(b);
        law_listing_is_determined(a.drop_last(), b.drop_last());
        assert(a =~= a.drop_last().push(a.last()));
        assert(b =~= b.drop_last().push(b.last()));
    }
}

} // verus!
