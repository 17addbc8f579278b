//! Maps and sets keyed by name, kept in ascending order of the names.

use vstd::prelude::*;

use crate::text;
use crate::text::Order;

verus! {

/// Whether the names stand in strictly ascending order.
pub open spec fn ascending(names: Seq<Seq<char>>) -> bool {
    forall|i: int, j: int| 0 <= i < j < names.len() ==> text::text_lt(names[i], names[j])
}

/// Whether `names` lists the members of `set`, each once, in ascending order.
pub open spec fn lists(names: Seq<Seq<char>>, set: Set<Seq<char>>) -> bool {
    &&& ascending(names)
    &&& forall|name: Seq<char>| names.contains(name) <==> set.contains(name)
}

/// The members of a finite set of names in ascending order.
pub open spec fn listing(set: Set<Seq<char>>) -> Seq<Seq<char>> {
    choose|names: Seq<Seq<char>>| lists(names, set)
}

/// What passes a filter comes from the sequence.
pub proof fn lemma_filter_from<T>(s: Seq<T>, keep: spec_fn(T) -> bool, i: int)
    requires
        0 <= i < s.filter(keep).len(),
    ensures
        s.contains(s.filter(keep)[i]),
        keep(s.filter(keep)[i]),
    decreases s.len(),
{
    reveal(Seq::filter);
    let rest = s.drop_last();
    if i < rest.filter(keep).len() {
        lemma_filter_from(rest, keep, i);
        let k = choose|k: int| 0 <= k < rest.len() && rest[k] == rest.filter(keep)[i];
        assert(s[k] == rest[k]);
    } else {
        assert(s[s.len() - 1] == s.filter(keep)[i]);
    }
}

/// A list of the members of a set, filtered, lists the members that pass the filter.
pub proof fn lemma_filter_lists(
    names: Seq<Seq<char>>,
    set: Set<Seq<char>>,
    keep: spec_fn(Seq<char>) -> bool,
)
    requires
        lists(names, set),
    ensures
        lists(names.filter(keep), set.filter(keep)),
{
    lemma_filter_ascending(names, keep);
    let kept = names.filter(keep);
    assert forall|name: Seq<char>| kept.contains(name) <==> set.filter(keep).contains(name) by {
        if kept.contains(name) {
            let i = choose|i: int| 0 <= i < kept.len() && kept[i] == name;
            lemma_filter_from(names, keep, i);
        }
        if set.filter(keep).contains(name) {
            broadcast use vstd::seq_lib::group_filter_ensures;

            assert(names.contains(name));
            let k = choose|k: int| 0 <= k < names.len() && names[k] == name;
            assert(keep(names[k]));
        }
    }
}

proof fn lemma_filter_ascending(names: Seq<Seq<char>>, keep: spec_fn(Seq<char>) -> bool)
    requires
        ascending(names),
    ensures
        ascending(names.filter(keep)),
    decreases names.len(),
{
    reveal(Seq::filter);
    if names.len() > 0 {
        let rest = names.drop_last();
        lemma_filter_ascending(rest, keep);
        let had = rest.filter(keep);
        assert forall|i: int| 0 <= i < had.len() implies text::text_lt(
            #[trigger] had[i],
            names.last(),
        ) by {
            lemma_filter_from(rest, keep, i);
            let k = choose|k: int| 0 <= k < rest.len() && rest[k] == had[i];
            assert(names[k] == had[i]);
        }
    }
}

proof fn lemma_ascending_unique(a: Seq<Seq<char>>, b: Seq<Seq<char>>)
    requires
        ascending(a),
        ascending(b),
        forall|name: Seq<char>| a.contains(name) <==> b.contains(name),
    ensures
        a == b,
    decreases a.len(),
{
    if a.len() == 0 {
        if b.len() > 0 {
            assert(b.contains(b[0]));
        }
        assert(a =~= b);
    } else if b.len() == 0 {
        assert(a.contains(a[0]));
    } else {
        assert(a.contains(a.last()));
        assert(b.contains(b.last()));
        let i = choose|i: int| 0 <= i < a.len() && a[i] == b.last();
        let j = choose|j: int| 0 <= j < b.len() && b[j] == a.last();
        if a.last() != b.last() {
            text::lemma_text_lt_trans(a[i], a.last(), b.last());
            text::lemma_text_lt_irreflexive(b.last());
        }
        let x = a.drop_last();
        let y = b.drop_last();
        assert forall|name: Seq<char>| x.contains(name) <==> y.contains(name) by {
            if x.contains(name) {
                let k = choose|k: int| 0 <= k < x.len() && x[k] == name;
                assert(a[k] == name);
                assert(a.contains(name));
                let m = choose|m: int| 0 <= m < b.len() && b[m] == name;
                if m == b.len() - 1 {
                    text::lemma_text_lt_irreflexive(name);
                }
                assert(y[m] == name);
            }
            if y.contains(name) {
                let k = choose|k: int| 0 <= k < y.len() && y[k] == name;
                assert(b[k] == name);
                assert(b.contains(name));
                let m = choose|m: int| 0 <= m < a.len() && a[m] == name;
                if m == a.len() - 1 {
                    text::lemma_text_lt_irreflexive(name);
                }
                assert(x[m] == name);
            }
        }
        lemma_ascending_unique(x, y);
        assert(a =~= x.push(a.last()));
        assert(b =~= y.push(b.last()));
    }
}

/// A set has one listing only: any listing of it is `listing` of it.
pub proof fn lemma_listing(names: Seq<Seq<char>>, set: Set<Seq<char>>)
    requires
        lists(names, set),
    ensures
        listing(set) == names,
{
    let other = listing(set);
    assert(lists(other, set));
    lemma_ascending_unique(other, names);
}

/// Where a name that is not yet listed belongs.
proof fn lemma_place(names: Seq<Seq<char>>, name: Seq<char>) -> (at: int)
    requires
        ascending(names),
        !names.contains(name),
    ensures
        0 <= at <= names.len(),
        forall|k: int| 0 <= k < at ==> text::text_lt(#[trigger] names[k], name),
        forall|k: int| at <= k < names.len() ==> text::text_lt(name, #[trigger] names[k]),
    decreases names.len(),
{
    if names.len() == 0 {
        0
    } else {
        let last = names.last();
        assert(names.contains(last));
        text::lemma_text_lt_total(last, name);
        if text::text_lt(last, name) {
            assert forall|k: int| 0 <= k < names.len() implies text::text_lt(
                #[trigger] names[k],
                name,
            ) by {
                if k < names.len() - 1 {
                    text::lemma_text_lt_trans(names[k], last, name);
                }
            }
            names.len() as int
        } else {
            let rest = names.drop_last();
            assert forall|other: Seq<char>| rest.contains(other) implies names.contains(other) by {
                let k = choose|k: int| 0 <= k < rest.len() && rest[k] == other;
                assert(names[k] == other);
            }
            let at = lemma_place(rest, name);
            assert forall|k: int| at <= k < names.len() implies text::text_lt(
                name,
                #[trigger] names[k],
            ) by {
                if k < names.len() - 1 {
                    assert(rest[k] == names[k]);
                }
            }
            assert forall|k: int| 0 <= k < at implies text::text_lt(#[trigger] names[k], name) by {
                assert(rest[k] == names[k]);
            }
            at
        }
    }
}

/// A finite set of names has a listing.
pub proof fn lemma_listing_exists(set: Set<Seq<char>>)
    requires
        set.finite(),
    ensures
        lists(listing(set), set),
    decreases set.len(),
{
    if set.len() == 0 {
        assert(set =~= Set::empty());
        assert(lists(Seq::empty(), set));
    } else {
        let name = set.choose();
        let rest = set.remove(name);
        lemma_listing_exists(rest);
        let names = listing(rest);
        let at = lemma_place(names, name);
        let all = names.insert(at, name);
        assert forall|i: int, j: int| 0 <= i < j < all.len() implies text::text_lt(
            all[i],
            all[j],
        ) by {
            let i0 = if i <= at { i } else { i - 1 };
            let j0 = if j <= at { j } else { j - 1 };
            if i == at {
                assert(all[j] == names[j - 1]);
            } else if j == at {
                assert(all[i] == names[i]);
            } else {
                assert(all[i] == names[i0]);
                assert(all[j] == names[j0]);
            }
        }
        assert forall|other: Seq<char>| all.contains(other) <==> set.contains(other) by {
            if all.contains(other) {
                let k = choose|k: int| 0 <= k < all.len() && all[k] == other;
                if k < at {
                    assert(names[k] == other);
                } else if k > at {
                    assert(names[k - 1] == other);
                }
            }
            if set.contains(other) {
                if other == name {
                    assert(all[at] == other);
                } else {
                    assert(rest.contains(other));
                    let k = choose|k: int| 0 <= k < names.len() && names[k] == other;
                    if k < at {
                        assert(all[k] == other);
                    } else {
                        assert(all[k + 1] == other);
                    }
                }
            }
        }
        assert(lists(all, set));
    }
}

/// The keys of a sequence of entries.
spec fn keys<V>(entries: Seq<(String, V)>) -> Seq<Seq<char>> {
    entries.map_values(|entry: (String, V)| entry.0@)
}

/// The map that a sequence of entries stands for.
spec fn entry_map<V: View>(entries: Seq<(String, V)>) -> Map<Seq<char>, V::V> {
    Map::new(
        |name: Seq<char>| keys(entries).contains(name),
        |name: Seq<char>| entries[keys(entries).index_of(name)].1@,
    )
}

proof fn lemma_entry<V: View>(entries: Seq<(String, V)>, i: int)
    requires
        ascending(keys(entries)),
        0 <= i < entries.len(),
    ensures
        entry_map(entries).contains_key(entries[i].0@),
        entry_map(entries)[entries[i].0@] == entries[i].1@,
{
    let ks = keys(entries);
    let name = entries[i].0@;
    assert(ks[i] == name);
    assert(ks.contains(name));
    let j = ks.index_of(name);
    assert(0 <= j < ks.len() && ks[j] == name);
    if j != i {
        text::lemma_text_lt_irreflexive(name);
    }
}

proof fn lemma_entry_insert<V: View>(entries: Seq<(String, V)>, i: int, entry: (String, V))
    requires
        ascending(keys(entries)),
        0 <= i <= entries.len(),
        forall|k: int| 0 <= k < i ==> text::text_lt(#[trigger] entries[k].0@, entry.0@),
        forall|k: int| i <= k < entries.len() ==> text::text_lt(entry.0@, #[trigger] entries[k].0@),
    ensures
        ascending(keys(entries.insert(i, entry))),
        entry_map(entries.insert(i, entry)) == entry_map(entries).insert(entry.0@, entry.1@),
        !entry_map(entries).contains_key(entry.0@),
{
    let new = entries.insert(i, entry);
    let ks = keys(entries);
    let kn = keys(new);
    assert forall|a: int, b: int| 0 <= a < b < kn.len() implies text::text_lt(kn[a], kn[b]) by {
        let oa = if a < i { a } else { a - 1 };
        let ob = if b < i { b } else { b - 1 };
        if a != i {
            assert(kn[a] == ks[oa]);
            assert(ks[oa] == entries[oa].0@);
        }
        if b != i {
            assert(kn[b] == ks[ob]);
            assert(ks[ob] == entries[ob].0@);
        }
    }
    if ks.contains(entry.0@) {
        let k = ks.index_of(entry.0@);
        assert(ks[k] == entries[k].0@);
        text::lemma_text_lt_irreflexive(entry.0@);
    }
    let left = entry_map(new);
    let right = entry_map(entries).insert(entry.0@, entry.1@);
    lemma_entry(new, i);
    assert forall|name: Seq<char>| left.contains_key(name) == right.contains_key(name) by {
        if left.contains_key(name) {
            let k = kn.index_of(name);
            if k != i {
                let o = if k < i { k } else { k - 1 };
                assert(ks[o] == name);
            }
        }
        if ks.contains(name) {
            let o = ks.index_of(name);
            let k = if o < i { o } else { o + 1 };
            assert(kn[k] == name);
        }
    }
    assert forall|name: Seq<char>| left.contains_key(name) implies left[name] == right[name] by {
        let k = kn.index_of(name);
        if k == i {
        } else {
            let o = if k < i { k } else { k - 1 };
            assert(ks[o] == name);
            assert(entries[o] == new[k]);
            lemma_entry(entries, o);
            lemma_entry(new, k);
        }
    }
    assert(left =~= right);
}

proof fn lemma_entry_remove<V: View>(entries: Seq<(String, V)>, i: int)
    requires
        ascending(keys(entries)),
        0 <= i < entries.len(),
    ensures
        ascending(keys(entries.remove(i))),
        entry_map(entries.remove(i)) == entry_map(entries).remove(entries[i].0@),
{
    let new = entries.remove(i);
    let ks = keys(entries);
    let kn = keys(new);
    assert forall|a: int, b: int| 0 <= a < b < kn.len() implies text::text_lt(kn[a], kn[b]) by {
        let oa = if a < i { a } else { a + 1 };
        let ob = if b < i { b } else { b + 1 };
        assert(kn[a] == ks[oa]);
        assert(kn[b] == ks[ob]);
    }
    assert(kn == ks.remove(i));
    let gone = entries[i].0@;
    assert(ks[i] == gone);
    text::lemma_text_lt_irreflexive(gone);
    let left = entry_map(new);
    let right = entry_map(entries).remove(gone);
    assert forall|name: Seq<char>| left.contains_key(name) == right.contains_key(name) by {
        if left.contains_key(name) {
            let k = kn.index_of(name);
            let o = if k < i { k } else { k + 1 };
            assert(ks[o] == name);
            assert(ks.contains(name));
        }
        if ks.contains(name) && name != gone {
            let o = ks.index_of(name);
            let k = if o < i { o } else { o - 1 };
            assert(kn[k] == name);
        }
    }
    assert forall|name: Seq<char>| left.contains_key(name) implies left[name] == right[name] by {
        let k = kn.index_of(name);
        let o = if k < i { k } else { k + 1 };
        assert(ks[o] == name);
        assert(entries[o] == new[k]);
        lemma_entry(entries, o);
        lemma_entry(new, k);
    }
    assert(left =~= right);
}

/// A map from names to values.
#[derive(Debug)]
pub struct NameMap<V> {
    entries: Vec<(String, V)>,
}

impl<V: View> View for NameMap<V> {
    type V = Map<Seq<char>, V::V>;

    closed spec fn view(&self) -> Map<Seq<char>, V::V> {
        entry_map(self.entries@)
    }
}

impl<V> NameMap<V> {
    #[verifier::type_invariant]
    spec fn sorted(self) -> bool {
        ascending(keys(self.entries@))
    }
}

impl<V: View> NameMap<V> {
    /// A map without entries.
    pub fn new() -> (map: Self)
        ensures
            map@ == Map::<Seq<char>, V::V>::empty(),
    {
        let map = NameMap { entries: Vec::new() };
        assert(map@ =~= Map::<Seq<char>, V::V>::empty());
        map
    }

    /// Where a name stands, or where it would be put, and whether it is there.
    fn find(&self, name: &str) -> (found: (usize, bool))
        ensures
            found.0 <= self.entries@.len(),
            found.1 ==> found.0 < self.entries@.len() && self.entries@[found.0 as int].0@ == name@,
            found.1 == self@.contains_key(name@),
            !found.1 ==> {
                &&& forall|k: int| 0 <= k < found.0 ==> text::text_lt(
                    #[trigger] self.entries@[k].0@,
                    name@,
                )
                &&& forall|k: int| found.0 <= k < self.entries@.len() ==> text::text_lt(
                    name@,
                    #[trigger] self.entries@[k].0@,
                )
            },
    {
        proof {
            use_type_invariant(self);
        }
        let ghost ks = keys(self.entries@);
        let mut low: usize = 0;
        let mut high: usize = self.entries.len();
        while low < high
            invariant
                low <= high <= self.entries@.len(),
                ks == keys(self.entries@),
                ascending(ks),
                forall|k: int| 0 <= k < low ==> text::text_lt(#[trigger] self.entries@[k].0@, name@),
                forall|k: int|
                    high <= k < self.entries@.len() ==> text::text_lt(
                        name@,
                        #[trigger] self.entries@[k].0@,
                    ),
            decreases high - low,
        {
            let middle: usize = low + (high - low) / 2;
            let order = text::compare(self.entries[middle].0.as_str(), name);
            match order {
                Order::Same => {
                    proof {
                        lemma_entry(self.entries@, middle as int);
                    }
                    return (middle, true);
                },
                Order::Before => {
                    proof {
                        assert forall|k: int| 0 <= k < middle + 1 implies text::text_lt(
                            #[trigger] self.entries@[k].0@,
                            name@,
                        ) by {
                            assert(ks[k] == self.entries@[k].0@);
                            assert(ks[middle as int] == self.entries@[middle as int].0@);
                            if k < middle {
                                text::lemma_text_lt_trans(ks[k], ks[middle as int], name@);
                            }
                        }
                    }
                    low = middle + 1;
                },
                Order::After => {
                    proof {
                        assert forall|k: int|
                            middle <= k < self.entries@.len() implies text::text_lt(
                            name@,
                            #[trigger] self.entries@[k].0@,
                        ) by {
                            assert(ks[k] == self.entries@[k].0@);
                            assert(ks[middle as int] == self.entries@[middle as int].0@);
                            if k > middle {
                                text::lemma_text_lt_trans(name@, ks[middle as int], ks[k]);
                            }
                        }
                    }
                    high = middle;
                },
            }
        }
        proof {
            if ks.contains(name@) {
                let k = ks.index_of(name@);
                assert(ks[k] == self.entries@[k].0@);
                text::lemma_text_lt_irreflexive(name@);
            }
        }
        (low, false)
    }

    /// Whether a name is a key.
    pub fn contains(&self, name: &str) -> (found: bool)
        ensures
            found == self@.contains_key(name@),
    {
        self.find(name).1
    }

    /// The value of a name.
    pub fn get(&self, name: &str) -> (value: Option<&V>)
        ensures
            match value {
                Some(v) => self@.contains_key(name@) && v@ == self@[name@],
                None => !self@.contains_key(name@),
            },
    {
        let (at, found) = self.find(name);
        if found {
            proof {
                use_type_invariant(self);
                lemma_entry(self.entries@, at as int);
            }
            Some(&self.entries[at].1)
        } else {
            None
        }
    }

    /// Gives a name a value, in place of the one it may have.
    pub fn insert(&mut self, name: &str, value: V)
        ensures
            final(self)@ == old(self)@.insert(name@, value@),
    {
        let (at, found) = self.find(name);
        proof {
            use_type_invariant(&*self);
        }
        let mut entries: Vec<(String, V)> = Vec::new();
        std::mem::swap(&mut entries, &mut self.entries);
        if found {
            let ghost before = entries@;
            let old_entry = entries.remove(at);
            let ghost cut = entries@;
            proof {
                lemma_entry_remove(before, at as int);
                assert forall|k: int| 0 <= k < at implies text::text_lt(
                    #[trigger] cut[k].0@,
                    name@,
                ) by {
                    assert(keys(before)[k] == cut[k].0@);
                    assert(keys(before)[at as int] == name@);
                }
                assert forall|k: int| at <= k < cut.len() implies text::text_lt(
                    name@,
                    #[trigger] cut[k].0@,
                ) by {
                    assert(keys(before)[k + 1] == cut[k].0@);
                    assert(keys(before)[at as int] == name@);
                }
            }
            let entry = (old_entry.0, value);
            proof {
                lemma_entry_insert(cut, at as int, entry);
            }
            entries.insert(at, entry);
            assert(entry_map(before).remove(name@).insert(name@, value@) =~= entry_map(
                before,
            ).insert(name@, value@));
        } else {
            let entry = (name.to_owned(), value);
            proof {
                lemma_entry_insert(entries@, at as int, entry);
            }
            entries.insert(at, entry);
        }
        self.entries = entries;
    }

    /// Takes a name and its value out.
    pub fn remove(&mut self, name: &str) -> (value: Option<V>)
        ensures
            final(self)@ == old(self)@.remove(name@),
            match value {
                Some(v) => old(self)@.contains_key(name@) && v@ == old(self)@[name@],
                None => !old(self)@.contains_key(name@),
            },
    {
        let (at, found) = self.find(name);
        if found {
            proof {
                use_type_invariant(&*self);
                lemma_entry(self.entries@, at as int);
                lemma_entry_remove(self.entries@, at as int);
            }
            let mut entries: Vec<(String, V)> = Vec::new();
            std::mem::swap(&mut entries, &mut self.entries);
            let entry = entries.remove(at);
            self.entries = entries;
            Some(entry.1)
        } else {
            assert(self@.remove(name@) =~= self@);
            None
        }
    }

    /// The keys in ascending order.
    pub fn names(&self) -> (names: Vec<String>)
        ensures
            lists(text::views(names@), self@.dom()),
            text::views(names@) == listing(self@.dom()),
    {
        let mut names: Vec<String> = Vec::new();
        let mut i: usize = 0;
        while i < self.entries.len()
            invariant
                i <= self.entries@.len(),
                text::views(names@) == keys(self.entries@).take(i as int),
            decreases self.entries@.len() - i,
        {
            let name = self.entries[i].0.clone();
            names.push(name);
            proof {
                let ks = keys(self.entries@);
                assert(ks.take(i + 1) =~= ks.take(i as int).push(ks[i as int]));
                assert(text::views(names@) =~= ks.take(i + 1));
            }
            i += 1;
        }
        proof {
            use_type_invariant(self);
            let ks = keys(self.entries@);
            assert(ks.take(i as int) =~= ks);
            lemma_listing(ks, self@.dom());
        }
        names
    }

    /// The number of entries.
    pub fn len(&self) -> (n: usize)
        ensures
            n == listing(self@.dom()).len(),
    {
        proof {
            use_type_invariant(self);
            lemma_listing(keys(self.entries@), self@.dom());
        }
        self.entries.len()
    }
}

/// A set of names.
#[derive(Debug)]
pub struct NameSet {
    map: NameMap<()>,
}

impl View for NameSet {
    type V = Set<Seq<char>>;

    closed spec fn view(&self) -> Set<Seq<char>> {
        self.map@.dom()
    }
}

impl NameSet {
    /// A set without members.
    pub fn new() -> (set: Self)
        ensures
            set@ == Set::<Seq<char>>::empty(),
    {
        let set = NameSet { map: NameMap::new() };
        assert(set@ =~= Set::<Seq<char>>::empty());
        set
    }

    /// Whether a name is a member.
    pub fn contains(&self, name: &str) -> (found: bool)
        ensures
            found == self@.contains(name@),
    {
        self.map.contains(name)
    }

    /// Makes a name a member.
    pub fn insert(&mut self, name: &str)
        ensures
            final(self)@ == old(self)@.insert(name@),
    {
        self.map.insert(name, ());
        assert(self@ =~= old(self)@.insert(name@));
    }

    /// Takes a name out.
    pub fn remove(&mut self, name: &str)
        ensures
            final(self)@ == old(self)@.remove(name@),
    {
        let _ = self.map.remove(name);
        assert(self@ =~= old(self)@.remove(name@));
    }

    /// The members in ascending order.
    pub fn names(&self) -> (names: Vec<String>)
        ensures
            lists(text::views(names@), self@),
            text::views(names@) == listing(self@),
    {
        self.map.names()
    }
}

} // verus!
