//! The presence map: user name to status, each name at most once.

use vstd::prelude::*;

verus! {

/// A map from user name to status text. It stands where a hash map keyed by
/// strings would: the entries are kept in a vector in which no name occurs
/// twice, and the order of the entries means nothing.
#[derive(Debug)]
pub struct UserList {
    entries: Vec<(String, String)>,
}

/// Whether no two entries carry the same name.
pub open spec fn distinct_names(entries: Seq<(String, String)>) -> bool {
    forall|i: int, j: int|
        0 <= i < j < entries.len() ==> (#[trigger] entries[i]).0@ != (#[trigger] entries[j]).0@
}

/// Whether some entry carries this name.
pub open spec fn has_name(entries: Seq<(String, String)>, name: Seq<char>) -> bool {
    exists|i: int| 0 <= i < entries.len() && (#[trigger] entries[i]).0@ == name
}

/// The position of an entry that carries this name.
pub open spec fn position_of(entries: Seq<(String, String)>, name: Seq<char>) -> int {
    choose|i: int| 0 <= i < entries.len() && (#[trigger] entries[i]).0@ == name
}

/// The map that the entries spell.
pub open spec fn entries_map(entries: Seq<(String, String)>) -> Map<Seq<char>, Seq<char>> {
    Map::new(
        |name: Seq<char>| has_name(entries, name),
        |name: Seq<char>| entries[position_of(entries, name)].1@,
    )
}

/// The entry at `i` is found under its name.
pub proof fn lemma_entry_lookup(entries: Seq<(String, String)>, i: int)
    requires
        distinct_names(entries),
        0 <= i < entries.len(),
    ensures
        has_name(entries, entries[i].0@),
        position_of(entries, entries[i].0@) == i,
        entries_map(entries).contains_key(entries[i].0@),
        entries_map(entries)[entries[i].0@] == entries[i].1@,
{
    let name = entries[i].0@;
    assert(has_name(entries, name));
    let p = position_of(entries, name);
    assert(0 <= p < entries.len() && entries[p].0@ == name);
    if p < i {
        assert(entries[p].0@ != entries[i].0@);
    } else if i < p {
        assert(entries[i].0@ != entries[p].0@);
    }
}

/// A new name at the end adds one member to the map.
pub proof fn lemma_push_entry(entries: Seq<(String, String)>, entry: (String, String))
    requires
        distinct_names(entries),
        !has_name(entries, entry.0@),
    ensures
        distinct_names(entries.push(entry)),
        entries_map(entries.push(entry)) == entries_map(entries).insert(entry.0@, entry.1@),
{
    let after = entries.push(entry);
    assert forall|i: int, j: int| 0 <= i < j < after.len() implies (#[trigger] after[i]).0@ != (
    #[trigger] after[j]).0@ by {
        if j < entries.len() {
            assert(entries[i].0@ != entries[j].0@);
        } else {
            assert(after[i] == entries[i]);
        }
    }
    assert forall|name: Seq<char>| #[trigger]
        has_name(after, name) <==> (has_name(entries, name) || name == entry.0@) by {
        if has_name(after, name) {
            let p = position_of(after, name);
            if p < entries.len() {
                assert(entries[p].0@ == name);
            }
        }
        if has_name(entries, name) {
            let p = position_of(entries, name);
            assert(after[p].0@ == name);
        }
        if name == entry.0@ {
            assert(after[entries.len() as int].0@ == name);
        }
    }
    assert forall|name: Seq<char>| has_name(after, name) implies #[trigger] entries_map(after)[name]
        == entries_map(entries).insert(entry.0@, entry.1@)[name] by {
        let p = position_of(after, name);
        lemma_entry_lookup(after, p);
        if p < entries.len() {
            assert(after[p] == entries[p]);
            lemma_entry_lookup(entries, p);
        }
    }
    assert(entries_map(after) =~= entries_map(entries).insert(entry.0@, entry.1@));
}

/// Taking the entry at `i` away removes its name from the map and nothing else.
pub proof fn lemma_remove_entry(entries: Seq<(String, String)>, i: int)
    requires
        distinct_names(entries),
        0 <= i < entries.len(),
    ensures
        distinct_names(entries.remove(i)),
        entries_map(entries.remove(i)) == entries_map(entries).remove(entries[i].0@),
{
    let after = entries.remove(i);
    let gone = entries[i].0@;
    assert forall|a: int, b: int| 0 <= a < b < after.len() implies (#[trigger] after[a]).0@ != (
    #[trigger] after[b]).0@ by {
        let a0 = if a < i { a } else { a + 1 };
        let b0 = if b < i { b } else { b + 1 };
        assert(after[a] == entries[a0]);
        assert(after[b] == entries[b0]);
        assert(entries[a0].0@ != entries[b0].0@);
    }
    assert forall|name: Seq<char>| #[trigger]
        has_name(after, name) <==> (has_name(entries, name) && name != gone) by {
        if has_name(after, name) {
            let p = position_of(after, name);
            let shifted = if p < i { p } else { p + 1 };
            assert(after[p] == entries[shifted]);
            assert(entries[shifted].0@ == name);
            if shifted < i {
                assert(entries[shifted].0@ != entries[i].0@);
            } else {
                assert(entries[i].0@ != entries[shifted].0@);
            }
        }
        if has_name(entries, name) && name != gone {
            let p = position_of(entries, name);
            let q = if p < i { p } else { p - 1 };
            assert(after[q] == entries[p]);
            assert(after[q].0@ == name);
        }
    }
    assert forall|name: Seq<char>| has_name(after, name) implies #[trigger] entries_map(after)[name]
        == entries_map(entries).remove(gone)[name] by {
        let p = position_of(after, name);
        lemma_entry_lookup(after, p);
        let shifted = if p < i { p } else { p + 1 };
        assert(after[p] == entries[shifted]);
        lemma_entry_lookup(entries, shifted);
    }
    assert(entries_map(after) =~= entries_map(entries).remove(gone));
}

/// The names of the entries are the keys of the map, each once.
pub proof fn lemma_entries_domain(entries: Seq<(String, String)>)
    requires
        distinct_names(entries),
    ensures
        entries_map(entries).dom().finite(),
        entries_map(entries).dom().len() == entries.len(),
    decreases entries.len(),
{
    if entries.len() == 0 {
        assert(entries_map(entries).dom() =~= Set::<Seq<char>>::empty());
    } else {
        let last = entries.last();
        let front = entries.drop_last();
        assert forall|i: int, j: int| 0 <= i < j < front.len() implies (#[trigger] front[i]).0@ != (
        #[trigger] front[j]).0@ by {
            assert(entries[i].0@ != entries[j].0@);
        }
        if has_name(front, last.0@) {
            let p = position_of(front, last.0@);
            assert(entries[p].0@ != entries[entries.len() - 1].0@);
        }
        lemma_entries_domain(front);
        lemma_push_entry(front, last);
        assert(front.push(last) =~= entries);
        assert(entries_map(entries).dom() =~= entries_map(front).dom().insert(last.0@));
    }
}

/// The names of a sequence of strings, as mathematical texts.
pub open spec fn name_views(names: Seq<String>) -> Seq<Seq<char>> {
    names.map_values(|n: String| n@)
}

impl View for UserList {
    type V = Map<Seq<char>, Seq<char>>;

    closed spec fn view(&self) -> Map<Seq<char>, Seq<char>> {
        entries_map(self.entries@)
    }
}

impl UserList {
    #[verifier::type_invariant]
    spec fn well_formed(&self) -> bool {
        distinct_names(self.entries@)
    }

    /// An empty map.
    pub fn new() -> (r: Self)
        ensures
            r@ == Map::<Seq<char>, Seq<char>>::empty(),
    {
        let r = UserList { entries: Vec::new() };
        assert(r@ =~= Map::<Seq<char>, Seq<char>>::empty());
        r
    }

    /// Where the entry of this name stands, if there is one.
    fn find(&self, name: &String) -> (r: Option<usize>)
        ensures
            match r {
                Some(i) => i < self.entries@.len() && self.entries@[i as int].0@ == name@,
                None => !has_name(self.entries@, name@),
            },
    {
        let mut i: usize = 0;
        while i < self.entries.len()
            invariant
                i <= self.entries@.len(),
                forall|k: int| 0 <= k < i ==> (#[trigger] self.entries@[k]).0@ != name@,
            decreases self.entries@.len() - i,
        {
            if self.entries[i].0 == *name {
                return Some(i);
            }
            i += 1;
        }
        None
    }

    /// The number of names.
    pub fn len(&self) -> (n: usize)
        ensures
            self@.dom().finite(),
            n == self@.dom().len(),
    {
        proof {
            use_type_invariant(self);
            lemma_entries_domain(self.entries@);
        }
        self.entries.len()
    }

    /// Whether there is no name at all.
    pub fn is_empty(&self) -> (r: bool)
        ensures
            r == (self@ == Map::<Seq<char>, Seq<char>>::empty()),
    {
        proof {
            use_type_invariant(self);
            lemma_entries_domain(self.entries@);
            if self.entries@.len() == 0 {
                assert(self@ =~= Map::<Seq<char>, Seq<char>>::empty());
            }
        }
        self.entries.len() == 0
    }

    /// Whether the name is present.
    pub fn contains_key(&self, name: &str) -> (r: bool)
        ensures
            r == self@.contains_key(name@),
    {
        let key = name.to_owned();
        self.find(&key).is_some()
    }

    /// The status of a name, if it is present.
    pub fn get(&self, name: &str) -> (r: Option<&String>)
        ensures
            match r {
                Some(status) => self@.contains_key(name@) && self@[name@] == status@,
                None => !self@.contains_key(name@),
            },
    {
        let key = name.to_owned();
        match self.find(&key) {
            Some(i) => {
                proof {
                    use_type_invariant(self);
                    lemma_entry_lookup(self.entries@, i as int);
                }
                Some(&self.entries[i].1)
            },
            None => None,
        }
    }

    /// Sets the status of a name, whether it was present or not, and hands
    /// back the status that it had.
    pub fn insert(&mut self, name: String, status: String) -> (r: Option<String>)
        ensures
            final(self)@ == old(self)@.insert(name@, status@),
            match r {
                Some(before) => old(self)@.contains_key(name@) && old(self)@[name@] == before@,
                None => !old(self)@.contains_key(name@),
            },
    {
        proof {
            use_type_invariant(&*self);
        }
        match self.find(&name) {
            Some(i) => {
                proof {
                    lemma_entry_lookup(self.entries@, i as int);
                    lemma_remove_entry(self.entries@, i as int);
                    let rest = self.entries@.remove(i as int);
                    assert(!entries_map(rest).contains_key(name@));
                    lemma_push_entry(rest, (name, status));
                    assert(old(self)@.remove(name@).insert(name@, status@) =~= old(self)@.insert(
                        name@,
                        status@,
                    ));
                }
                let mut entries: Vec<(String, String)> = Vec::new();
                std::mem::swap(&mut self.entries, &mut entries);
                let entry = entries.remove(i);
                entries.push((name, status));
                self.entries = entries;
                Some(entry.1)
            },
            None => {
                proof {
                    lemma_push_entry(self.entries@, (name, status));
                }
                let mut entries: Vec<(String, String)> = Vec::new();
                std::mem::swap(&mut self.entries, &mut entries);
                entries.push((name, status));
                self.entries = entries;
                None
            },
        }
    }

    /// Takes a name out, if it is present, and hands back the status that it had.
    pub fn remove(&mut self, name: &str) -> (r: Option<String>)
        ensures
            final(self)@ == old(self)@.remove(name@),
            match r {
                Some(before) => old(self)@.contains_key(name@) && old(self)@[name@] == before@,
                None => !old(self)@.contains_key(name@),
            },
    {
        proof {
            use_type_invariant(&*self);
        }
        let key = name.to_owned();
        match self.find(&key) {
            Some(i) => {
                proof {
                    lemma_entry_lookup(self.entries@, i as int);
                    lemma_remove_entry(self.entries@, i as int);
                }
                let mut entries: Vec<(String, String)> = Vec::new();
                std::mem::swap(&mut self.entries, &mut entries);
                let entry = entries.remove(i);
                self.entries = entries;
                Some(entry.1)
            },
            None => {
                assert(self@.remove(name@) =~= self@);
                None
            },
        }
    }

    /// Every name, each once, in no particular order.
    pub fn names(&self) -> (r: Vec<String>)
        ensures
            name_views(r@).no_duplicates(),
            name_views(r@).to_set() == self@.dom(),
    {
        proof {
            use_type_invariant(self);
        }
        let mut r: Vec<String> = Vec::new();
        let mut i: usize = 0;
        while i < self.entries.len()
            invariant
                i <= self.entries@.len(),
                r@.len() == i,
                forall|k: int| 0 <= k < i ==> (#[trigger] r@[k])@ == self.entries@[k].0@,
            decreases self.entries@.len() - i,
        {
            r.push(self.entries[i].0.clone());
            i += 1;
        }
        proof {
            let views = name_views(r@);
            assert forall|a: int, b: int| 0 <= a < views.len() && 0 <= b < views.len() && a
                != b implies views[a] != views[b] by {
                assert(r@[a]@ == self.entries@[a].0@);
                assert(r@[b]@ == self.entries@[b].0@);
                if a < b {
                    assert(self.entries@[a].0@ != self.entries@[b].0@);
                } else {
                    assert(self.entries@[b].0@ != self.entries@[a].0@);
                }
            }
            assert forall|name: Seq<char>| views.to_set().contains(name) <==> self@.dom().contains(
                name,
            ) by {
                if views.to_set().contains(name) {
                    let k = choose|k: int| 0 <= k < views.len() && views[k] == name;
                    assert(r@[k]@ == self.entries@[k].0@);
                    assert(self.entries@[k].0@ == name);
                }
                if self@.dom().contains(name) {
                    let k = position_of(self.entries@, name);
                    assert(r@[k]@ == name);
                    assert(views[k] == name);
                }
            }
            assert(views.to_set() =~= self@.dom());
        }
        r
    }

    /// A copy with the same names and statuses.
    pub fn duplicate(&self) -> (r: Self)
        ensures
            r@ == self@,
    {
        proof {
            use_type_invariant(self);
        }
        let mut entries: Vec<(String, String)> = Vec::new();
        let mut i: usize = 0;
        while i < self.entries.len()
            invariant
                i <= self.entries@.len(),
                entries@.len() == i,
                forall|k: int|
                    0 <= k < i ==> (#[trigger] entries@[k]).0@ == self.entries@[k].0@
                        && entries@[k].1@ == self.entries@[k].1@,
            decreases self.entries@.len() - i,
        {
            entries.push((self.entries[i].0.clone(), self.entries[i].1.clone()));
            i += 1;
        }
        proof {
            lemma_same_texts(self.entries@, entries@);
        }
        UserList { entries }
    }
}

/// Two entry lists with the same texts at the same places spell the same map.
pub proof fn lemma_same_texts(a: Seq<(String, String)>, b: Seq<(String, String)>)
    requires
        distinct_names(a),
        a.len() == b.len(),
        forall|k: int|
            0 <= k < a.len() ==> (#[trigger] b[k]).0@ == a[k].0@ && b[k].1@ == a[k].1@,
    ensures
        distinct_names(b),
        entries_map(b) == entries_map(a),
{
    assert forall|i: int, j: int| 0 <= i < j < b.len() implies (#[trigger] b[i]).0@ != (
    #[trigger] b[j]).0@ by {
        assert(a[i].0@ != a[j].0@);
    }
    assert forall|name: Seq<char>| #[trigger] has_name(b, name) <==> has_name(a, name) by {
        if has_name(b, name) {
            let p = position_of(b, name);
            assert(a[p].0@ == name);
        }
        if has_name(a, name) {
            let p = position_of(a, name);
            assert(b[p].0@ == name);
        }
    }
    assert forall|name: Seq<char>| has_name(b, name) implies #[trigger] entries_map(b)[name]
        == entries_map(a)[name] by {
        let p = position_of(b, name);
        lemma_entry_lookup(b, p);
        lemma_entry_lookup(a, p);
    }
    assert(entries_map(b) =~= entries_map(a));
}

impl Clone for UserList {
    fn clone(&self) -> (r: Self)
        ensures
            r@ == self@,
    {
        self.duplicate()
    }
}

impl PartialEq for UserList {
    /// Two maps are equal when they hold the same names with the same
    /// statuses, in whatever order their entries stand.
    fn eq(&self, other: &Self) -> (r: bool) {
        proof {
            use_type_invariant(self);
            use_type_invariant(other);
            lemma_entries_domain(self.entries@);
            lemma_entries_domain(other.entries@);
        }
        if self.entries.len() != other.entries.len() {
            return false;
        }
        let mut i: usize = 0;
        while i < self.entries.len()
            invariant
                i <= self.entries@.len(),
                distinct_names(self.entries@),
                distinct_names(other.entries@),
                forall|k: int|
                    0 <= k < i ==> other@.contains_key((#[trigger] self.entries@[k]).0@)
                        && other@[self.entries@[k].0@] == self.entries@[k].1@,
            decreases self.entries@.len() - i,
        {
            proof {
                lemma_entry_lookup(self.entries@, i as int);
            }
            match other.find(&self.entries[i].0) {
                Some(j) => {
                    proof {
                        lemma_entry_lookup(other.entries@, j as int);
                    }
                    if other.entries[j].1 != self.entries[i].1 {
                        return false;
                    }
                },
                None => {
                    return false;
                },
            }
            i += 1;
        }
        proof {
            assert forall|name: Seq<char>| self@.dom().contains(name) implies other@.dom().contains(
                name,
            ) && other@[name] == self@[name] by {
                let k = position_of(self.entries@, name);
                lemma_entry_lookup(self.entries@, k);
            }
            assert(self@.dom().subset_of(other@.dom()));
            vstd::set_lib::lemma_subset_equality(self@.dom(), other@.dom());
            assert(self@ =~= other@);
        }
        true
    }
}

impl vstd::std_specs::cmp::PartialEqSpecImpl for UserList {
    open spec fn obeys_eq_spec() -> bool {
        true
    }

    open spec fn eq_spec(&self, other: &Self) -> bool {
        self@ == other@
    }
}

} // verus!
