//! A table of values by text key.

use vstd::prelude::*;

verus! {

/// Values by text key; each key occurs once.
#[derive(Debug)]
pub struct Table<V> {
    entries: Vec<(String, V)>,
}

/// The map that a list of entries stands for.
spec fn map_of<V>(entries: Seq<(String, V)>) -> Map<Seq<char>, V>
    decreases entries.len(),
{
    if entries.len() == 0 {
        Map::empty()
    } else {
        map_of(entries.drop_last()).insert(entries.last().0@, entries.last().1)
    }
}

/// No key occurs twice.
spec fn keys_differ<V>(entries: Seq<(String, V)>) -> bool {
    forall|i: int, j: int|
        0 <= i < j < entries.len() ==> (#[trigger] entries[i]).0@ != (#[trigger] entries[j]).0@
}

proof fn lemma_keys<V>(entries: Seq<(String, V)>)
    requires
        keys_differ(entries),
    ensures
        map_of(entries).dom().finite(),
        map_of(entries).dom().len() == entries.len(),
        forall|k: Seq<char>| #[trigger]
            map_of(entries).dom().contains(k) ==> exists|i: int|
                0 <= i < entries.len() && (#[trigger] entries[i]).0@ == k,
        forall|i: int|
            0 <= i < entries.len() ==> map_of(entries).dom().contains((#[trigger] entries[i]).0@)
                && map_of(entries)[entries[i].0@] == entries[i].1,
    decreases entries.len(),
{
    if entries.len() > 0 {
        let rest = entries.drop_last();
        lemma_keys(rest);
        let last = entries.last();
        assert(!map_of(rest).dom().contains(last.0@)) by {
            if map_of(rest).dom().contains(last.0@) {
                let i = choose|i: int| 0 <= i < rest.len() && (#[trigger] rest[i]).0@ == last.0@;
                assert(entries[i].0@ != entries[entries.len() - 1].0@);
            }
        }
        assert forall|k: Seq<char>| #[trigger] map_of(entries).dom().contains(k) implies exists|
            i: int,
        | 0 <= i < entries.len() && (#[trigger] entries[i]).0@ == k by {
            if k == last.0@ {
                assert(entries[entries.len() - 1].0@ == k);
            } else {
                assert(map_of(rest).dom().contains(k));
                let i = choose|i: int| 0 <= i < rest.len() && (#[trigger] rest[i]).0@ == k;
                assert(entries[i].0@ == k);
            }
        }
        assert forall|i: int| 0 <= i < entries.len() implies map_of(entries).dom().contains(
            (#[trigger] entries[i]).0@,
        ) && map_of(entries)[entries[i].0@] == entries[i].1 by {
            if i < rest.len() {
                assert(rest[i] == entries[i]);
                assert(entries[i].0@ != entries[entries.len() - 1].0@);
            }
        }
    }
}

proof fn lemma_remove<V>(entries: Seq<(String, V)>, i: int)
    requires
        keys_differ(entries),
        0 <= i < entries.len(),
    ensures
        keys_differ(entries.remove(i)),
        map_of(entries.remove(i)) =~= map_of(entries).remove(entries[i].0@),
    decreases entries.len(),
{
    let out = entries.remove(i);
    assert(keys_differ(out)) by {
        assert forall|a: int, b: int| 0 <= a < b < out.len() implies (#[trigger] out[a]).0@ != (
        #[trigger] out[b]).0@ by {
            let x = if a < i { a } else { a + 1 };
            let y = if b < i { b } else { b + 1 };
            assert(out[a] == entries[x] && out[b] == entries[y]);
        }
    }
    lemma_keys(entries);
    lemma_keys(out);
    assert forall|k: Seq<char>|
        map_of(out).dom().contains(k) <==> map_of(entries).remove(entries[i].0@).dom().contains(
            k,
        ) by {
        if map_of(out).dom().contains(k) {
            let a = choose|a: int| 0 <= a < out.len() && (#[trigger] out[a]).0@ == k;
            let x = if a < i { a } else { a + 1 };
            assert(out[a] == entries[x]);
            assert(entries[x].0@ != entries[i].0@);
        }
        if map_of(entries).remove(entries[i].0@).dom().contains(k) {
            let x = choose|x: int| 0 <= x < entries.len() && (#[trigger] entries[x]).0@ == k;
            let a = if x < i { x } else { x - 1 };
            assert(out[a] == entries[x]);
        }
    }
    assert forall|k: Seq<char>| map_of(out).dom().contains(k) implies map_of(out)[k] == map_of(
        entries,
    ).remove(entries[i].0@)[k] by {
        let a = choose|a: int| 0 <= a < out.len() && (#[trigger] out[a]).0@ == k;
        let x = if a < i { a } else { a + 1 };
        assert(out[a] == entries[x]);
    }
}

/// A test on values.
pub trait ValueTest<V> {
    /// Whether the arithmetic of the test stays within range.
    spec fn fits(&self, value: V) -> bool;

    /// Whether a value passes.
    spec fn passes(&self, value: V) -> bool;

    /// Whether a value passes.
    fn check(&self, value: &V) -> (r: bool)
        requires
            self.fits(*value),
        ensures
            r == self.passes(*value),
    ;
}

/// Whether the list holds just the keys for which the test is true, each once.
pub open spec fn lists<V>(ids: Seq<String>, table: Map<Seq<char>, V>, test: spec_fn(V) -> bool)
    -> bool {
    &&& forall|i: int|
        0 <= i < ids.len() ==> table.dom().contains((#[trigger] ids[i])@) && test(table[ids[i]@])
    &&& forall|i: int, j: int|
        0 <= i < j < ids.len() ==> (#[trigger] ids[i])@ != (#[trigger] ids[j])@
    &&& forall|k: Seq<char>|
        #![trigger table.dom().contains(k)]
        table.dom().contains(k) && test(table[k]) ==> exists|i: int|
            0 <= i < ids.len() && (#[trigger] ids[i])@ == k
}

impl<V> View for Table<V> {
    type V = Map<Seq<char>, V>;

    closed spec fn view(&self) -> Map<Seq<char>, V> {
        map_of(self.entries@)
    }
}

impl<V> Table<V> {
    #[verifier::type_invariant]
    spec fn unique(self) -> bool {
        keys_differ(self.entries@)
    }

    /// An empty table.
    pub fn new() -> (r: Table<V>)
        ensures
            r@ == Map::<Seq<char>, V>::empty(),
    {
        Table { entries: Vec::new() }
    }

    /// Number of keys.
    pub fn len(&self) -> (r: usize)
        ensures
            self@.dom().finite(),
            r == self@.dom().len(),
    {
        proof {
            use_type_invariant(self);
            lemma_keys(self.entries@);
        }
        self.entries.len()
    }

    /// Position of a key.
    fn position(&self, key: &str) -> (r: Option<usize>)
        ensures
            match r {
                Some(i) => i < self.entries@.len() && self.entries@[i as int].0@ == key@,
                None => !self@.dom().contains(key@),
            },
    {
        proof {
            use_type_invariant(self);
            lemma_keys(self.entries@);
        }
        let wanted = key.to_owned();
        let mut i: usize = 0;
        while i < self.entries.len()
            invariant
                wanted@ == key@,
                i <= self.entries@.len(),
                forall|j: int| 0 <= j < i ==> (#[trigger] self.entries@[j]).0@ != key@,
            decreases self.entries@.len() - i,
        {
            if self.entries[i].0 == wanted {
                return Some(i);
            }
            i = i + 1;
        }
        None
    }

    /// Whether the key is there.
    pub fn contains_key(&self, key: &str) -> (r: bool)
        ensures
            r == self@.dom().contains(key@),
    {
        proof {
            use_type_invariant(self);
            lemma_keys(self.entries@);
        }
        self.position(key).is_some()
    }

    /// The value of a key.
    pub fn get(&self, key: &str) -> (r: Option<&V>)
        ensures
            match r {
                Some(v) => self@.dom().contains(key@) && *v == self@[key@],
                None => !self@.dom().contains(key@),
            },
    {
        proof {
            use_type_invariant(self);
            lemma_keys(self.entries@);
        }
        match self.position(key) {
            Some(i) => Some(&self.entries[i].1),
            None => None,
        }
    }

    /// Sets the value of a key.
    pub fn insert(&mut self, key: String, value: V)
        ensures
            final(self)@ == old(self)@.insert(key@, value),
    {
        let dropped = self.remove(key.as_str());
        proof {
            use_type_invariant(&*self);
            lemma_keys(self.entries@);
        }
        let ghost before = self.entries@;
        let mut entries: Vec<(String, V)> = Vec::new();
        core::mem::swap(&mut entries, &mut self.entries);
        entries.push((key, value));
        proof {
            assert(entries@.drop_last() =~= before);
            assert(keys_differ(entries@));
            assert(map_of(entries@) =~= old(self)@.insert(key@, value));
        }
        self.entries = entries;
    }

    /// Takes the value of a key out of the table.
    pub fn remove(&mut self, key: &str) -> (r: Option<V>)
        ensures
            final(self)@ == old(self)@.remove(key@),
            match r {
                Some(v) => old(self)@.dom().contains(key@) && v == old(self)@[key@],
                None => !old(self)@.dom().contains(key@),
            },
    {
        proof {
            use_type_invariant(&*self);
            lemma_keys(self.entries@);
        }
        match self.position(key) {
            Some(i) => {
                let ghost before = self.entries@;
                let mut entries: Vec<(String, V)> = Vec::new();
                core::mem::swap(&mut entries, &mut self.entries);
                let (found, value) = entries.remove(i);
                proof {
                    lemma_remove(before, i as int);
                }
                self.entries = entries;
                Some(value)
            },
            None => {
                proof {
                    assert(self@.remove(key@) =~= self@);
                }
                None
            },
        }
    }

    /// Drops everything.
    pub fn clear(&mut self)
        ensures
            final(self)@ == Map::<Seq<char>, V>::empty(),
    {
        self.entries = Vec::new();
    }

    /// The keys.
    pub fn keys(&self) -> (r: Vec<String>)
        ensures
            r@.len() == self@.dom().len(),
            self@.dom().finite(),
            forall|i: int| 0 <= i < r@.len() ==> self@.dom().contains((#[trigger] r@[i])@),
            forall|i: int, j: int|
                0 <= i < j < r@.len() ==> (#[trigger] r@[i])@ != (#[trigger] r@[j])@,
            forall|k: Seq<char>| #[trigger]
                self@.dom().contains(k) ==> exists|i: int|
                    0 <= i < r@.len() && (#[trigger] r@[i])@ == k,
    {
        proof {
            use_type_invariant(self);
            lemma_keys(self.entries@);
        }
        let mut out: Vec<String> = Vec::new();
        let mut i: usize = 0;
        while i < self.entries.len()
            invariant
                i <= self.entries@.len(),
                out@.len() == i,
                forall|j: int| 0 <= j < i ==> (#[trigger] out@[j])@ == self.entries@[j].0@,
            decreases self.entries@.len() - i,
        {
            out.push(self.entries[i].0.clone());
            i = i + 1;
        }
        proof {
            assert forall|k: Seq<char>| #[trigger] self@.dom().contains(k) implies exists|i: int|
                0 <= i < out@.len() && (#[trigger] out@[i])@ == k by {
                let i = choose|i: int|
                    0 <= i < self.entries@.len() && (#[trigger] self.entries@[i]).0@ == k;
                assert(out@[i]@ == k);
            }
            assert forall|i: int| 0 <= i < out@.len() implies self@.dom().contains(
                (#[trigger] out@[i])@,
            ) by {
                assert(self.entries@[i].0@ == out@[i]@);
            }
            assert forall|i: int, j: int| 0 <= i < j < out@.len() implies (#[trigger] out@[i])@ != (
            #[trigger] out@[j])@ by {
                assert(self.entries@[i].0@ != self.entries@[j].0@);
            }
        }
        out
    }

    /// The keys whose value passes a test.
    pub(crate) fn keys_where<T: ValueTest<V>>(&self, keep: &T) -> (r: Vec<String>)
        requires
            forall|k: Seq<char>| #[trigger] self@.dom().contains(k) ==> keep.fits(self@[k]),
        ensures
            lists(r@, self@, |v: V| keep.passes(v)),
    {
        let ghost test = |v: V| keep.passes(v);
        let keys = self.keys();
        let mut out: Vec<String> = Vec::new();
        let mut i: usize = 0;
        while i < keys.len()
            invariant
                i <= keys@.len(),
                test == (|v: V| keep.passes(v)),
                forall|k: Seq<char>| #[trigger] self@.dom().contains(k) ==> keep.fits(self@[k]),
                forall|j: int| 0 <= j < keys@.len() ==> self@.dom().contains((#[trigger] keys@[j])@),
                forall|a: int, b: int|
                    0 <= a < b < keys@.len() ==> (#[trigger] keys@[a])@ != (#[trigger] keys@[b])@,
                forall|j: int|
                    0 <= j < out@.len() ==> self@.dom().contains((#[trigger] out@[j])@) && test(
                        self@[out@[j]@],
                    ) && exists|m: int| 0 <= m < i && (#[trigger] keys@[m])@ == out@[j]@,
                forall|a: int, b: int|
                    0 <= a < b < out@.len() ==> (#[trigger] out@[a])@ != (#[trigger] out@[b])@,
                forall|m: int|
                    0 <= m < i && test(self@[(#[trigger] keys@[m])@]) ==> exists|j: int|
                        0 <= j < out@.len() && (#[trigger] out@[j])@ == keys@[m]@,
            decreases keys@.len() - i,
        {
            let ghost before = out@;
            assert(self@.dom().contains(keys@[i as int]@));
            if let Some(value) = self.get(keys[i].as_str()) {
                if keep.check(value) {
                    out.push(keys[i].clone());
                    assert(test(self@[keys@[i as int]@]));
                    assert(out@[before.len() as int]@ == keys@[i as int]@);
                }
            }
            proof {
                assert forall|m: int| 0 <= m < i + 1 && test(
                    self@[(#[trigger] keys@[m])@],
                ) implies exists|j: int| 0 <= j < out@.len() && (#[trigger] out@[j])@ == keys@[m]@ by {
                    if m < i {
                        let j = choose|j: int|
                            0 <= j < before.len() && (#[trigger] before[j])@ == keys@[m]@;
                        assert(out@[j]@ == keys@[m]@);
                    }
                }
                assert forall|a: int, b: int| 0 <= a < b < out@.len() implies (#[trigger] out@[a])@
                    != (#[trigger] out@[b])@ by {
                    if b == before.len() {
                        let m = choose|m: int| 0 <= m < i && (#[trigger] keys@[m])@ == before[a]@;
                        assert(keys@[m]@ != keys@[i as int]@);
                    } else {
                        assert(before[a]@ != before[b]@);
                    }
                }
                assert forall|j: int| 0 <= j < out@.len() implies self@.dom().contains(
                    (#[trigger] out@[j])@,
                ) && test(self@[out@[j]@]) && exists|m: int|
                    0 <= m < i + 1 && (#[trigger] keys@[m])@ == out@[j]@ by {
                    if j < before.len() {
                        assert(before[j] == out@[j]);
                        let m = choose|m: int| 0 <= m < i && (#[trigger] keys@[m])@ == before[j]@;
                        assert(keys@[m]@ == out@[j]@);
                    } else {
                        assert(keys@[i as int]@ == out@[j]@);
                    }
                }
            }
            i = i + 1;
        }
        proof {
            assert forall|k: Seq<char>|
                #![trigger self@.dom().contains(k)]
                self@.dom().contains(k) && test(self@[k]) implies exists|j: int|
                0 <= j < out@.len() && (#[trigger] out@[j])@ == k by {
                let m = choose|m: int| 0 <= m < keys@.len() && (#[trigger] keys@[m])@ == k;
                assert(test(self@[keys@[m]@]));
            }
        }
        out
    }
}

} // verus!
