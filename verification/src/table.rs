//! A table from texts to values that walks its entries in the order of its
//! keys.
use vstd::prelude::*;

use crate::browser::text_views;
use crate::text::{chars_of, same_text};
use crate::ui::state::{find_text, lemma_place_of};

verus! {

/// The order of texts by their characters, the shorter first where one begins
/// with the other.
pub open spec fn text_less(a: Seq<char>, b: Seq<char>) -> bool
    decreases a.len(),
{
    if b.len() == 0 {
        false
    } else if a.len() == 0 {
        true
    } else {
        a[0] < b[0] || (a[0] == b[0] && text_less(a.drop_first(), b.drop_first()))
    }
}

pub proof fn lemma_text_less_irreflexive(a: Seq<char>)
    ensures
        !text_less(a, a),
    decreases a.len(),
{
    if a.len() > 0 {
        lemma_text_less_irreflexive(a.drop_first());
    }
}

pub proof fn lemma_text_less_transitive(a: Seq<char>, b: Seq<char>, c: Seq<char>)
    requires
        text_less(a, b),
        text_less(b, c),
    ensures
        text_less(a, c),
    decreases a.len(),
{
    if a.len() > 0 && a[0] == b[0] && b[0] == c[0] {
        lemma_text_less_transitive(a.drop_first(), b.drop_first(), c.drop_first());
    }
}

pub proof fn lemma_text_less_total(a: Seq<char>, b: Seq<char>)
    ensures
        text_less(a, b) || text_less(b, a) || a == b,
    decreases a.len(),
{
    if a.len() > 0 && b.len() > 0 {
        if a[0] == b[0] {
            lemma_text_less_total(a.drop_first(), b.drop_first());
            if a.drop_first() == b.drop_first() {
                assert(a =~= seq![a[0]] + a.drop_first());
                assert(b =~= seq![b[0]] + b.drop_first());
            }
        }
    } else {
        assert(a.len() == 0 && b.len() == 0 ==> a =~= b);
    }
}

fn chars_less(a: &Vec<char>, b: &Vec<char>) -> (r: bool)
    ensures
        r == text_less(a@, b@),
{
    let mut i: usize = 0;
    assert(a@.skip(0) =~= a@);
    assert(b@.skip(0) =~= b@);
    loop
        invariant
            i <= a@.len(),
            i <= b@.len(),
            text_less(a@, b@) == text_less(a@.skip(i as int), b@.skip(i as int)),
        decreases a@.len() - i,
    {
        if i >= b.len() {
            return false;
        }
        if i >= a.len() {
            return true;
        }
        if a[i] < b[i] {
            return true;
        }
        if a[i] != b[i] {
            return false;
        }
        assert(a@.skip(i as int).drop_first() =~= a@.skip(i + 1));
        assert(b@.skip(i as int).drop_first() =~= b@.skip(i + 1));
        i = i + 1;
    }
}

/// Whether `a` comes before `b`.
pub fn less(a: &str, b: &str) -> (r: bool)
    ensures
        r == text_less(a@, b@),
{
    let left = chars_of(a);
    let right = chars_of(b);
    chars_less(&left, &right)
}

/// Keys and values in the order of the keys, no key twice.
pub open spec fn sorted<V>(list: Seq<(Seq<char>, V)>) -> bool {
    forall|i: int, j: int| 0 <= i < j < list.len() ==> text_less(list[i].0, list[j].0)
}

/// The map that a list of keys and values writes down.
pub open spec fn list_map<V>(list: Seq<(Seq<char>, V)>) -> Map<Seq<char>, V>
    decreases list.len(),
{
    if list.len() == 0 {
        Map::empty()
    } else {
        list_map(list.drop_last()).insert(list.last().0, list.last().1)
    }
}

pub open spec fn has_key<V>(list: Seq<(Seq<char>, V)>, key: Seq<char>) -> bool {
    exists|i: int| 0 <= i < list.len() && (#[trigger] list[i]).0 == key
}

proof fn lemma_sorted_is_distinct<V>(list: Seq<(Seq<char>, V)>, i: int, j: int)
    requires
        sorted(list),
        0 <= i < list.len(),
        0 <= j < list.len(),
        list[i].0 == list[j].0,
    ensures
        i == j,
{
    if i != j {
        lemma_text_less_irreflexive(list[i].0);
        if i < j {
            assert(text_less(list[i].0, list[j].0));
        } else {
            assert(text_less(list[j].0, list[i].0));
        }
    }
}

pub proof fn lemma_list_map<V>(list: Seq<(Seq<char>, V)>)
    requires
        sorted(list),
    ensures
        forall|key: Seq<char>| #[trigger] list_map(list).contains_key(key) <==> has_key(list, key),
        forall|i: int|
            0 <= i < list.len() ==> list_map(list).contains_key((#[trigger] list[i]).0)
                && list_map(list)[list[i].0] == list[i].1,
    decreases list.len(),
{
    if list.len() > 0 {
        let rest = list.drop_last();
        assert(sorted(rest));
        lemma_list_map(rest);
        assert forall|key: Seq<char>| #[trigger]
            list_map(list).contains_key(key) <==> has_key(list, key) by {
            if list_map(list).contains_key(key) {
                if key == list.last().0 {
                    assert(list[list.len() - 1].0 == key);
                } else {
                    assert(list_map(rest).contains_key(key));
                    let i = choose|i: int| 0 <= i < rest.len() && (#[trigger] rest[i]).0 == key;
                    assert(list[i].0 == key);
                }
            }
            if has_key(list, key) && key != list.last().0 {
                let i = choose|i: int| 0 <= i < list.len() && (#[trigger] list[i]).0 == key;
                assert(rest[i].0 == key);
                assert(has_key(rest, key));
                assert(list_map(rest).contains_key(key));
            }
        }
        assert forall|i: int| 0 <= i < list.len() implies list_map(list).contains_key(
            (#[trigger] list[i]).0,
        ) && list_map(list)[list[i].0] == list[i].1 by {
            if i < rest.len() {
                assert(rest[i] == list[i]);
                if list[i].0 == list.last().0 {
                    lemma_sorted_is_distinct(list, i, list.len() - 1);
                }
            }
        }
    }
}

/// A new entry of the list is a new entry of the map.
pub proof fn lemma_list_map_insert<V>(list: Seq<(Seq<char>, V)>, i: int, key: Seq<char>, value: V)
    requires
        0 <= i <= list.len(),
        sorted(list),
        sorted(list.insert(i, (key, value))),
    ensures
        !list_map(list).contains_key(key),
        list_map(list.insert(i, (key, value))) == list_map(list).insert(key, value),
{
    let after = list.insert(i, (key, value));
    lemma_list_map(list);
    lemma_list_map(after);
    assert(after[i] == (key, value));
    if has_key(list, key) {
        let j = choose|j: int| 0 <= j < list.len() && (#[trigger] list[j]).0 == key;
        let u = if j < i {
            j
        } else {
            j + 1
        };
        assert(after[u].0 == key);
        lemma_sorted_is_distinct(after, i, u);
    }
    assert forall|k: Seq<char>| #[trigger] list_map(after).contains_key(k) == (k == key
        || list_map(list).contains_key(k)) by {
        if has_key(after, k) {
            let j = choose|j: int| 0 <= j < after.len() && (#[trigger] after[j]).0 == k;
            if j < i {
                assert(list[j].0 == k);
            } else if j > i {
                assert(list[j - 1].0 == k);
            }
        }
        if has_key(list, k) {
            let j = choose|j: int| 0 <= j < list.len() && (#[trigger] list[j]).0 == k;
            if j < i {
                assert(after[j].0 == k);
            } else {
                assert(after[j + 1].0 == k);
            }
        }
    }
    assert forall|k: Seq<char>| #[trigger] list_map(after).contains_key(k) implies list_map(after)[k]
        == list_map(list).insert(key, value)[k] by {
        let j = choose|j: int| 0 <= j < after.len() && (#[trigger] after[j]).0 == k;
        if j < i {
            assert(list[j] == after[j]);
        } else if j > i {
            assert(list[j - 1] == after[j]);
        }
        if j != i && k == key {
            lemma_sorted_is_distinct(after, i, j);
        }
    }
    assert(list_map(after) =~= list_map(list).insert(key, value));
}

/// A list without one of its entries is the map without its key.
pub proof fn lemma_list_map_remove<V>(list: Seq<(Seq<char>, V)>, i: int)
    requires
        0 <= i < list.len(),
        sorted(list),
    ensures
        sorted(list.remove(i)),
        list_map(list.remove(i)) == list_map(list).remove(list[i].0),
{
    let after = list.remove(i);
    assert forall|x: int, y: int| 0 <= x < y < after.len() implies text_less(
        after[x].0,
        after[y].0,
    ) by {
        let u = if x < i {
            x
        } else {
            x + 1
        };
        let w = if y < i {
            y
        } else {
            y + 1
        };
        assert(text_less(list[u].0, list[w].0));
    }
    assert(after.insert(i, list[i]) =~= list);
    lemma_list_map_insert(after, i, list[i].0, list[i].1);
    assert(list_map(after).insert(list[i].0, list[i].1).remove(list[i].0) =~= list_map(after));
}

/// The map fixes the list: there is one way to write it down in order.
pub proof fn law_list_is_fixed_by_its_map<V>(a: Seq<(Seq<char>, V)>, b: Seq<(Seq<char>, V)>)
    requires
        sorted(a),
        sorted(b),
        list_map(a) == list_map(b),
    ensures
        a == b,
    decreases a.len(),
{
    lemma_list_map(a);
    lemma_list_map(b);
    if a.len() == 0 {
        if b.len() > 0 {
            assert(list_map(b).contains_key(b[0].0));
            assert(has_key(a, b[0].0));
        }
        assert(a =~= b);
    } else if b.len() == 0 {
        assert(list_map(a).contains_key(a[0].0));
        assert(has_key(b, a[0].0));
    } else {
        let x = a.last();
        let y = b.last();
        assert(list_map(a).contains_key(a[a.len() - 1].0));
        assert(list_map(b).contains_key(b[b.len() - 1].0));
        assert(has_key(b, x.0));
        assert(has_key(a, y.0));
        let i = choose|i: int| 0 <= i < b.len() && (#[trigger] b[i]).0 == x.0;
        let j = choose|j: int| 0 <= j < a.len() && (#[trigger] a[j]).0 == y.0;
        if x.0 != y.0 {
            assert(text_less(b[i].0, y.0));
            assert(text_less(a[j].0, x.0));
            lemma_text_less_transitive(x.0, y.0, x.0);
            lemma_text_less_irreflexive(x.0);
        }
        assert(list_map(a)[a[a.len() - 1].0] == x.1);
        assert(list_map(b)[b[b.len() - 1].0] == y.1);
        let p = a.drop_last();
        let q = b.drop_last();
        assert(sorted(p));
        assert(sorted(q));
        lemma_list_map(p);
        lemma_list_map(q);
        assert(!has_key(p, x.0)) by {
            if has_key(p, x.0) {
                let k = choose|k: int| 0 <= k < p.len() && (#[trigger] p[k]).0 == x.0;
                lemma_sorted_is_distinct(a, k, a.len() - 1);
            }
        }
        assert(!has_key(q, x.0)) by {
            if has_key(q, x.0) {
                let k = choose|k: int| 0 <= k < q.len() && (#[trigger] q[k]).0 == x.0;
                lemma_sorted_is_distinct(b, k, b.len() - 1);
            }
        }
        assert(list_map(p) =~= list_map(a).remove(x.0));
        assert(list_map(q) =~= list_map(b).remove(x.0));
        law_list_is_fixed_by_its_map(p, q);
        assert(a =~= p.push(x));
        assert(b =~= q.push(y));
    }
}

/// A table from texts to values.
#[derive(Debug, Clone)]
pub struct TextMap<V> {
    entries: Vec<(String, V)>,
}

impl<V> View for TextMap<V> {
    type V = Map<Seq<char>, V>;

    open spec fn view(&self) -> Map<Seq<char>, V> {
        list_map(self.list())
    }
}

impl<V> TextMap<V> {
    /// The entries in the order in which they are walked.
    pub closed spec fn list(&self) -> Seq<(Seq<char>, V)> {
        self.entries@.map_values(|entry: (String, V)| (entry.0@, entry.1))
    }

    pub open spec fn wf(&self) -> bool {
        sorted(self.list())
    }

    pub fn new() -> (r: Self)
        ensures
            r.wf(),
            r.list() == Seq::<(Seq<char>, V)>::empty(),
            r@ == Map::<Seq<char>, V>::empty(),
    {
        let r = TextMap { entries: Vec::new() };
        assert(r.list() =~= Seq::empty());
        r
    }

    pub fn len(&self) -> (r: usize)
        ensures
            r == self.list().len(),
    {
        self.entries.len()
    }

    /// The entry at a place in the order of the keys.
    pub fn at(&self, i: usize) -> (r: (&String, &V))
        requires
            i < self.list().len(),
        ensures
            r.0@ == self.list()[i as int].0,
            *r.1 == self.list()[i as int].1,
    {
        let entry = &self.entries[i];
        (&entry.0, &entry.1)
    }

    /// The first place whose key does not come before `key`.
    fn place(&self, key: &str) -> (r: usize)
        requires
            self.wf(),
        ensures
            r <= self.list().len(),
            forall|i: int| 0 <= i < r ==> text_less(self.list()[i].0, key@),
            forall|i: int| r <= i < self.list().len() ==> !text_less(self.list()[i].0, key@),
    {
        let mut i: usize = 0;
        while i < self.entries.len() && less(self.entries[i].0.as_str(), key)
            invariant
                i <= self.entries@.len(),
                self.wf(),
                forall|j: int| 0 <= j < i ==> text_less(self.list()[j].0, key@),
            decreases self.entries@.len() - i,
        {
            i = i + 1;
        }
        assert forall|j: int| i <= j < self.list().len() implies !text_less(
            self.list()[j].0,
            key@,
        ) by {
            assert(!text_less(self.list()[i as int].0, key@));
            if j > i && text_less(self.list()[j].0, key@) {
                assert(text_less(self.list()[i as int].0, self.list()[j].0));
                lemma_text_less_transitive(self.list()[i as int].0, self.list()[j].0, key@);
            }
        }
        i
    }

    pub fn get(&self, key: &str) -> (r: Option<&V>)
        requires
            self.wf(),
        ensures
            r.is_some() == self@.contains_key(key@),
            r.is_some() ==> *r.unwrap() == self@[key@],
    {
        proof {
            lemma_list_map(self.list());
        }
        let i = self.place(key);
        if i < self.entries.len() && same_text(self.entries[i].0.as_str(), key) {
            assert(self.list()[i as int].0 == key@);
            Some(&self.entries[i].1)
        } else {
            proof {
                if has_key(self.list(), key@) {
                    let j = choose|j: int|
                        0 <= j < self.list().len() && (#[trigger] self.list()[j]).0 == key@;
                    lemma_text_less_irreflexive(key@);
                    assert(j >= i);
                    if j > i {
                        assert(text_less(self.list()[i as int].0, self.list()[j].0));
                    }
                    assert(false);
                }
            }
            None
        }
    }

    pub fn contains(&self, key: &str) -> (r: bool)
        requires
            self.wf(),
        ensures
            r == self@.contains_key(key@),
    {
        self.get(key).is_some()
    }

    /// Sets the value of a key.
    pub fn insert(&mut self, key: String, value: V)
        requires
            old(self).wf(),
        ensures
            final(self).wf(),
            final(self)@ == old(self)@.insert(key@, value),
            old(self)@.contains_key(key@) ==> exists|i: int|
                0 <= i < old(self).list().len() && final(self).list() == old(self).list().update(
                    i,
                    (key@, value),
                ) && old(self).list()[i].0 == key@,
            !old(self)@.contains_key(key@) ==> exists|i: int|
                0 <= i <= old(self).list().len() && final(self).list() == old(self).list().insert(
                    i,
                    (key@, value),
                ),
    {
        let ghost before = self.list();
        let i = self.place(key.as_str());
        proof {
            lemma_list_map(before);
        }
        if i < self.entries.len() && same_text(self.entries[i].0.as_str(), key.as_str()) {
            assert(before[i as int].0 == key@);
            self.entries[i] = (key, value);
            let ghost after = self.list();
            proof {
                assert(after =~= before.update(i as int, (key@, value)));
                assert(sorted(after));
                lemma_list_map(after);
                assert forall|k: Seq<char>| #[trigger] list_map(after).contains_key(k)
                    == list_map(before).contains_key(k) by {
                    if has_key(after, k) {
                        let j = choose|j: int| 0 <= j < after.len() && (#[trigger] after[j]).0 == k;
                        assert(before[j].0 == k);
                    }
                    if has_key(before, k) {
                        let j = choose|j: int|
                            0 <= j < before.len() && (#[trigger] before[j]).0 == k;
                        assert(after[j].0 == k);
                    }
                }
                assert forall|k: Seq<char>| #[trigger]
                    list_map(after).contains_key(k) implies list_map(after)[k] == list_map(
                    before,
                ).insert(key@, value)[k] by {
                    let j = choose|j: int| 0 <= j < after.len() && (#[trigger] after[j]).0 == k;
                    if j == i {
                        assert(after[i as int].1 == value);
                    } else {
                        assert(before[j] == after[j]);
                        if k == key@ {
                            lemma_sorted_is_distinct(before, i as int, j);
                        }
                    }
                }
                assert(list_map(after) =~= list_map(before).insert(key@, value));
            }
        } else {
            proof {
                assert forall|j: int| i <= j < before.len() implies text_less(
                    key@,
                    #[trigger] before[j].0,
                ) by {
                    lemma_text_less_total(key@, before[j].0);
                    if before[j].0 == key@ {
                        if j > i {
                            assert(text_less(before[i as int].0, before[j].0));
                        }
                    }
                }
                if has_key(before, key@) {
                    let j = choose|j: int|
                        0 <= j < before.len() && (#[trigger] before[j]).0 == key@;
                    lemma_text_less_irreflexive(key@);
                    assert(false);
                }
            }
            self.entries.insert(i, (key, value));
            let ghost after = self.list();
            proof {
                assert(after =~= before.insert(i as int, (key@, value)));
                assert(sorted(after)) by {
                    assert forall|x: int, y: int| 0 <= x < y < after.len() implies text_less(
                        after[x].0,
                        after[y].0,
                    ) by {
                        let u = if x < i {
                            x
                        } else {
                            x - 1
                        };
                        let w = if y < i {
                            y
                        } else {
                            y - 1
                        };
                        if x != i && y != i {
                            assert(text_less(before[u].0, before[w].0));
                        } else if x == i {
                            assert(text_less(key@, before[w].0));
                        } else {
                            assert(text_less(before[u].0, key@));
                        }
                    }
                }
                lemma_list_map_insert(before, i as int, key@, value);
            }
        }
    }

    /// Removes the entry at a place in the order of the keys.
    pub fn remove_at(&mut self, i: usize) -> (r: (String, V))
        requires
            old(self).wf(),
            i < old(self).list().len(),
        ensures
            final(self).wf(),
            final(self).list() == old(self).list().remove(i as int),
            (r.0@, r.1) == old(self).list()[i as int],
    {
        let ghost before = self.list();
        let entry = self.entries.remove(i);
        proof {
            assert(self.list() =~= before.remove(i as int));
            lemma_list_map_remove(before, i as int);
        }
        entry
    }

    /// Removes a key and hands out its value.
    pub fn remove(&mut self, key: &str) -> (r: Option<V>)
        requires
            old(self).wf(),
        ensures
            final(self).wf(),
            final(self)@ == old(self)@.remove(key@),
            r.is_some() == old(self)@.contains_key(key@),
            r.is_some() ==> r.unwrap() == old(self)@[key@],
            old(self)@.contains_key(key@) ==> exists|i: int|
                0 <= i < old(self).list().len() && final(self).list() == old(self).list().remove(i)
                    && old(self).list()[i].0 == key@,
            !old(self)@.contains_key(key@) ==> final(self).list() == old(self).list(),
    {
        let ghost before = self.list();
        let i = self.place(key);
        proof {
            lemma_list_map(before);
        }
        if i < self.entries.len() && same_text(self.entries[i].0.as_str(), key) {
            assert(before[i as int].0 == key@);
            let entry = self.entries.remove(i);
            proof {
                assert(self.list() =~= before.remove(i as int));
                lemma_list_map_remove(before, i as int);
            }
            Some(entry.1)
        } else {
            proof {
                if has_key(before, key@) {
                    let j = choose|j: int|
                        0 <= j < before.len() && (#[trigger] before[j]).0 == key@;
                    lemma_text_less_irreflexive(key@);
                    assert(j >= i);
                    if j > i {
                        assert(text_less(before[i as int].0, before[j].0));
                    }
                    assert(false);
                }
                assert(list_map(before).remove(key@) =~= list_map(before));
            }
            None
        }
    }

    /// Sets the values of all keys of another table.
    pub fn extend(&mut self, other: TextMap<V>)
        requires
            old(self).wf(),
            other.wf(),
        ensures
            final(self).wf(),
            final(self)@ == old(self)@.union_prefer_right(other@),
    {
        let ghost start = self@;
        let ghost all = other@;
        let mut rest = other;
        while rest.len() > 0
            invariant
                self.wf(),
                rest.wf(),
                forall|k: Seq<char>|
                    #[trigger] rest@.contains_key(k) ==> all.contains_key(k) && rest@[k] == all[k],
                forall|k: Seq<char>|
                    #[trigger] self@.contains_key(k) <==> start.contains_key(k) || (
                    all.contains_key(k) && !rest@.contains_key(k)),
                forall|k: Seq<char>|
                    all.contains_key(k) && !rest@.contains_key(k) ==> #[trigger] self@[k] == all[k],
                forall|k: Seq<char>|
                    start.contains_key(k) && (!all.contains_key(k) || rest@.contains_key(k))
                        ==> #[trigger] self@[k] == start[k],
            decreases rest.list().len(),
        {
            let ghost before = rest@;
            let ghost list = rest.list();
            let last: usize = rest.len() - 1;
            let (key, value) = rest.remove_at(last);
            proof {
                lemma_list_map(list);
                lemma_list_map_remove(list, last as int);
                assert(before.contains_key(list[last as int].0));
                assert(rest@ == before.remove(key@));
            }
            self.insert(key, value);
        }
        proof {
            assert(rest.list() =~= Seq::empty());
            assert(rest@ =~= Map::empty());
            assert(self@ =~= start.union_prefer_right(all));
        }
    }

    /// Keeps the entries whose keys are among some.
    pub fn retain_keys(&mut self, keys: &Vec<String>)
        requires
            old(self).wf(),
        ensures
            final(self).wf(),
            forall|k: Seq<char>| #[trigger]
                final(self)@.contains_key(k) <==> old(self)@.contains_key(k) && text_views(
                    keys@,
                ).contains(k),
            forall|k: Seq<char>| #[trigger]
                final(self)@.contains_key(k) ==> final(self)@[k] == old(self)@[k],
    {
        let ghost first = self@;
        let ghost wanted = text_views(keys@);
        let mut i: usize = 0;
        while i < self.len()
            invariant
                self.wf(),
                wanted == text_views(keys@),
                i <= self.list().len(),
                forall|k: Seq<char>| #[trigger]
                    self@.contains_key(k) ==> first.contains_key(k) && self@[k] == first[k],
                forall|k: Seq<char>| #[trigger]
                    first.contains_key(k) && wanted.contains(k) ==> self@.contains_key(k),
                forall|j: int| 0 <= j < i ==> wanted.contains((#[trigger] self.list()[j]).0),
            decreases self.list().len() - i,
        {
            let ghost list = self.list();
            let ghost before = self@;
            proof {
                lemma_place_of(wanted, list[i as int].0);
            }
            let stays = find_text(keys, self.at(i).0.as_str()) < keys.len();
            if stays {
                i = i + 1;
            } else {
                let gone = self.remove_at(i);
                proof {
                    lemma_list_map(list);
                    lemma_list_map_remove(list, i as int);
                    assert(self@ == before.remove(list[i as int].0));
                    assert forall|j: int| 0 <= j < i implies wanted.contains(
                        (#[trigger] self.list()[j]).0,
                    ) by {
                        assert(self.list()[j] == list[j]);
                    }
                }
            }
        }
        proof {
            lemma_list_map(self.list());
            assert forall|k: Seq<char>| #[trigger] self@.contains_key(k) implies wanted.contains(
                k,
            ) by {
                assert(has_key(self.list(), k));
                let j = choose|j: int|
                    0 <= j < self.list().len() && (#[trigger] self.list()[j]).0 == k;
            }
        }
    }
}

} // verus!
