//! The session context: a string-keyed map of values accumulated during a
//! dialogue (the user's last input, the chosen answer, a render tag). Values
//! are the small set of scalars a dialogue records; the map is held as a
//! vector of entries with pairwise-distinct keys and viewed as a
//! `Map<Seq<char>, SpecContextValue>`.

use vstd::prelude::*;

verus! {

/// The mathematical value of one [`ContextValue`].
pub enum SpecContextValue {
    Null,
    Boolean(bool),
    Integer(i64),
    Text(Seq<char>),
}

/// A value stored in a session's context.
#[derive(Clone, Debug, PartialEq, Eq)]
pub enum ContextValue {
    Null,
    Boolean(bool),
    Integer(i64),
    Text(String),
}

impl View for ContextValue {
    type V = SpecContextValue;

    open spec fn view(&self) -> SpecContextValue {
        match self {
            ContextValue::Null => SpecContextValue::Null,
            ContextValue::Boolean(b) => SpecContextValue::Boolean(*b),
            ContextValue::Integer(i) => SpecContextValue::Integer(*i),
            ContextValue::Text(s) => SpecContextValue::Text(s@),
        }
    }
}

impl ContextValue {
    /// An owned copy, equal to `self` as a value.
    pub fn duplicate(&self) -> (r: ContextValue)
        ensures
            r == *self,
    {
        match self {
            ContextValue::Null => ContextValue::Null,
            ContextValue::Boolean(b) => ContextValue::Boolean(*b),
            ContextValue::Integer(i) => ContextValue::Integer(*i),
            ContextValue::Text(s) => ContextValue::Text(s.clone()),
        }
    }
}

/// One key/value pair of a context.
#[derive(Clone, Debug, PartialEq, Eq)]
struct ContextEntry {
    key: String,
    value: ContextValue,
}

/// A string-keyed map of context values.
#[derive(Clone, Debug, PartialEq, Eq)]
pub struct Context {
    entries: Vec<ContextEntry>,
}

/// The map that a sequence of entries denotes: later entries win.
spec fn entries_map(s: Seq<ContextEntry>) -> Map<Seq<char>, SpecContextValue>
    decreases s.len(),
{
    if s.len() == 0 {
        Map::empty()
    } else {
        entries_map(s.drop_last()).insert(s.last().key@, s.last().value@)
    }
}

/// Whether the keys of `s` are pairwise distinct.
spec fn distinct_keys(s: Seq<ContextEntry>) -> bool {
    forall|i: int, j: int| 0 <= i < j < s.len() ==> s[i].key@ != s[j].key@
}

impl View for Context {
    type V = Map<Seq<char>, SpecContextValue>;

    closed spec fn view(&self) -> Map<Seq<char>, SpecContextValue> {
        entries_map(self.entries@)
    }
}

proof fn lemma_entries_map_domain(s: Seq<ContextEntry>)
    ensures
        forall|k: Seq<char>|
            entries_map(s).dom().contains(k) <==> exists|i: int|
                0 <= i < s.len() && s[i].key@ == k,
    decreases s.len(),
{
    if s.len() > 0 {
        lemma_entries_map_domain(s.drop_last());
        assert forall|k: Seq<char>| entries_map(s).dom().contains(k) implies exists|i: int|
            0 <= i < s.len() && s[i].key@ == k by {
            if s.last().key@ == k {
                assert(s[s.len() - 1].key@ == k);
            } else {
                assert(entries_map(s.drop_last()).dom().contains(k));
                let i = choose|i: int|
                    0 <= i < s.drop_last().len() && s.drop_last()[i].key@ == k;
                assert(s.drop_last()[i] == s[i]);
                assert(s[i].key@ == k);
            }
        }
        assert forall|k: Seq<char>|
            (exists|i: int| 0 <= i < s.len() && s[i].key@ == k) implies entries_map(
            s,
        ).dom().contains(k) by {
            let i = choose|i: int| 0 <= i < s.len() && s[i].key@ == k;
            if i < s.len() - 1 {
                assert(s.drop_last()[i].key@ == k);
                assert(entries_map(s.drop_last()).dom().contains(k));
                assert(entries_map(s).dom().contains(k));
            } else {
                assert(k == s.last().key@);
                assert(entries_map(s).dom().contains(k));
            }
        }
    }
}

proof fn lemma_entries_map_at(s: Seq<ContextEntry>, i: int)
    requires
        distinct_keys(s),
        0 <= i < s.len(),
    ensures
        entries_map(s)[s[i].key@] == s[i].value@,
    decreases s.len(),
{
    if i == s.len() - 1 {
    } else {
        lemma_entries_map_at(s.drop_last(), i);
        assert(s.drop_last()[i] == s[i]);
    }
}

proof fn lemma_entries_map_update(s: Seq<ContextEntry>, i: int, e: ContextEntry)
    requires
        distinct_keys(s),
        0 <= i < s.len(),
        e.key@ == s[i].key@,
    ensures
        entries_map(s.update(i, e)) =~= entries_map(s).insert(e.key@, e.value@),
    decreases s.len(),
{
    let t = s.update(i, e);
    if i == s.len() - 1 {
        assert(t.drop_last() =~= s.drop_last());
    } else {
        lemma_entries_map_update(s.drop_last(), i, e);
        assert(t.drop_last() =~= s.drop_last().update(i, e));
        assert(t.last() == s.last());
        assert(s.last().key@ != e.key@);
    }
}

impl Context {
    /// Whether the entries hold pairwise-distinct keys; every context built
    /// by this module satisfies it.
    pub closed spec fn wf(&self) -> bool {
        distinct_keys(self.entries@)
    }

    /// The empty context.
    pub fn new() -> (r: Context)
        ensures
            r.wf(),
            r@ == Map::<Seq<char>, SpecContextValue>::empty(),
    {
        Context { entries: Vec::new() }
    }

    /// An owned copy whose view equals `self`'s.
    pub fn duplicate(&self) -> (r: Context)
        ensures
            r@ == self@,
            r.wf() == self.wf(),
    {
        let mut entries: Vec<ContextEntry> = Vec::new();
        let mut i: usize = 0;
        while i < self.entries.len()
            invariant
                i <= self.entries.len(),
                entries@.len() == i,
                forall|j: int| 0 <= j < i ==> entries@[j] == self.entries@[j],
            decreases self.entries.len() - i,
        {
            let e = &self.entries[i];
            entries.push(ContextEntry { key: e.key.clone(), value: e.value.duplicate() });
            i += 1;
        }
        assert(entries@ =~= self.entries@);
        Context { entries }
    }

    /// The number of keys in the map.
    pub fn len(&self) -> (r: usize)
        requires
            self.wf(),
        ensures
            r == self@.dom().len(),
    {
        proof {
            lemma_context_len(self.entries@);
        }
        self.entries.len()
    }

    /// The value stored under `key`, if any.
    pub fn get(&self, key: &str) -> (r: Option<ContextValue>)
        requires
            self.wf(),
        ensures
            match r {
                Some(v) => self@.dom().contains(key@) && v@ == self@[key@],
                None => !self@.dom().contains(key@),
            },
    {
        let n = self.entries.len();
        let mut i: usize = 0;
        while i < n
            invariant
                n == self.entries.len(),
                distinct_keys(self.entries@),
                i <= n,
                forall|j: int| 0 <= j < i ==> self.entries@[j].key@ != key@,
            decreases n - i,
        {
            if crate::strings::str_eq(self.entries[i].key.as_str(), key) {
                proof {
                    lemma_entries_map_at(self.entries@, i as int);
                    lemma_entries_map_domain(self.entries@);
                    assert(self.entries@[i as int].key@ == key@);
                }
                return Some(self.entries[i].value.duplicate());
            }
            i += 1;
        }
        proof {
            lemma_entries_map_domain(self.entries@);
        }
        None
    }

    /// Inserts `value` under `key`, overwriting any previous value.
    pub fn set(&mut self, key: &str, value: ContextValue)
        requires
            old(self).wf(),
        ensures
            final(self).wf(),
            final(self)@ == old(self)@.insert(key@, value@),
    {
        let n = self.entries.len();
        let mut i: usize = 0;
        while i < n
            invariant
                self.entries@ == old(self).entries@,
                n == self.entries.len(),
                distinct_keys(self.entries@),
                i <= n,
                forall|j: int| 0 <= j < i ==> self.entries@[j].key@ != key@,
            decreases n - i,
        {
            if crate::strings::str_eq(self.entries[i].key.as_str(), key) {
                let e = ContextEntry { key: String::from_str(key), value };
                let ghost s0 = self.entries@;
                proof {
                    lemma_entries_map_update(s0, i as int, e);
                }
                self.entries.set(i, e);
                proof {
                    assert(forall|a: int|
                        0 <= a < self.entries@.len() ==> self.entries@[a].key@ == s0[a].key@);
                    assert(distinct_keys(self.entries@));
                }
                return ;
            }
            i += 1;
        }
        let ghost before = self.entries@;
        self.entries.push(ContextEntry { key: String::from_str(key), value });
        proof {
            assert(self.entries@.drop_last() =~= before);
            assert(forall|a: int| 0 <= a < before.len() ==> self.entries@[a] == before[a]);
            assert(self.entries@.last().key@ == key@);
            assert(distinct_keys(self.entries@));
        }
    }
}

proof fn lemma_context_len(s: Seq<ContextEntry>)
    requires
        distinct_keys(s),
    ensures
        entries_map(s).dom().len() == s.len(),
        entries_map(s).dom().finite(),
    decreases s.len(),
{
    if s.len() > 0 {
        lemma_context_len(s.drop_last());
        lemma_entries_map_domain(s.drop_last());
        assert(!entries_map(s.drop_last()).dom().contains(s.last().key@));
    }
}

} // verus!
