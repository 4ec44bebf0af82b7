//! String-keyed tables with lexicographically sorted, duplicate-free keys.
//!
//! Map-shaped fields of the build specifications (extras groups, script
//! entry tables) always iterate and serialize in lexicographic key order,
//! whatever order their entries were found in. These tables keep that order
//! as a structural invariant: the entry sequence is strictly sorted by key.
use vstd::prelude::*;

use crate::strutil::{lemma_lex_transitive, lemma_lex_trichotomy, lex_lt};

verus! {

/// Insertion into a key-sorted entry sequence: an existing key's value is
/// replaced, a new key enters at its ordered position.
pub open spec fn spec_insert<V>(s: Seq<(Seq<char>, V)>, k: Seq<char>, v: V) -> Seq<(Seq<char>, V)>
    decreases s.len(),
{
    if s.len() == 0 {
        seq![(k, v)]
    } else if lex_lt(k, s[0].0) {
        seq![(k, v)] + s
    } else if k == s[0].0 {
        seq![(k, v)] + s.drop_first()
    } else {
        seq![s[0]] + spec_insert(s.drop_first(), k, v)
    }
}

/// Well-formedness of an entry sequence: keys strictly increase, so they are
/// unique and in lexicographic order.
pub open spec fn table_wf<V>(s: Seq<(Seq<char>, V)>) -> bool {
    forall|i: int, j: int| 0 <= i < j < s.len() ==> lex_lt(s[i].0, s[j].0)
}

/// Inserting preserves well-formedness.
pub proof fn lemma_insert_wf<V>(s: Seq<(Seq<char>, V)>, k: Seq<char>, v: V)
    requires
        table_wf(s),
    ensures
        table_wf(spec_insert(s, k, v)),
    decreases s.len(),
{
    let out = spec_insert(s, k, v);
    if s.len() == 0 {
    } else if lex_lt(k, s[0].0) {
        assert forall|i: int, j: int| 0 <= i < j < out.len() implies lex_lt(out[i].0, out[j].0) by {
            if i == 0 {
                if j == 1 {
                } else {
                    lemma_lex_transitive(k, s[0].0, s[j - 1].0);
                }
            }
        }
    } else if k == s[0].0 {
        assert forall|i: int, j: int| 0 <= i < j < out.len() implies lex_lt(out[i].0, out[j].0) by {
            if i == 0 {
                assert(out[j] == s.drop_first()[j - 1]);
                assert(lex_lt(s[0].0, s[j].0));
            } else {
                assert(out[i] == s[i]);
                assert(out[j] == s[j]);
            }
        }
    } else {
        lemma_lex_trichotomy(k, s[0].0);
        assert(lex_lt(s[0].0, k));
        assert(table_wf(s.drop_first())) by {
            assert(forall|i: int, j: int|
                0 <= i < j < s.drop_first().len() ==> s.drop_first()[i] == s[i + 1]
                    && s.drop_first()[j] == s[j + 1]);
        }
        lemma_insert_wf(s.drop_first(), k, v);
        let rest = spec_insert(s.drop_first(), k, v);
        // every key of `rest` is a key of the tail or is `k`, so it exceeds s[0].0
        lemma_insert_keys(s.drop_first(), k, v);
        assert forall|i: int, j: int| 0 <= i < j < out.len() implies lex_lt(out[i].0, out[j].0) by {
            if i == 0 {
                assert(out[j] == rest[j - 1]);
                if rest[j - 1].0 == k {
                } else {
                    let tail = s.drop_first();
                    let idx = choose|t: int| 0 <= t < tail.len() && tail[t].0 == rest[j - 1].0;
                    assert(tail[idx] == s[idx + 1]);
                    assert(lex_lt(s[0].0, s[idx + 1].0));
                }
            } else {
                assert(out[i] == rest[i - 1]);
                assert(out[j] == rest[j - 1]);
            }
        }
    }
}

/// Every key of the inserted sequence is the new key or one of the old keys.
pub proof fn lemma_insert_keys<V>(s: Seq<(Seq<char>, V)>, k: Seq<char>, v: V)
    ensures
        forall|m: int|
            0 <= m < spec_insert(s, k, v).len() ==> (spec_insert(s, k, v)[m].0 == k || exists|t: int|
                0 <= t < s.len() && s[t].0 == #[trigger] spec_insert(s, k, v)[m].0),
    decreases s.len(),
{
    let out = spec_insert(s, k, v);
    if s.len() == 0 {
    } else if lex_lt(k, s[0].0) {
        assert forall|m: int|
            0 <= m < out.len() implies (out[m].0 == k || exists|t: int|
            0 <= t < s.len() && s[t].0 == out[m].0) by {
            if m > 0 {
                assert(s[m - 1].0 == out[m].0);
            }
        }
    } else if k == s[0].0 {
        assert forall|m: int|
            0 <= m < out.len() implies (out[m].0 == k || exists|t: int|
            0 <= t < s.len() && s[t].0 == out[m].0) by {
            if m > 0 {
                assert(out[m] == s.drop_first()[m - 1]);
                assert(s[m].0 == out[m].0);
            }
        }
    } else {
        lemma_insert_keys(s.drop_first(), k, v);
        let rest = spec_insert(s.drop_first(), k, v);
        assert forall|m: int|
            0 <= m < out.len() implies (out[m].0 == k || exists|t: int|
            0 <= t < s.len() && s[t].0 == out[m].0) by {
            if m == 0 {
                assert(s[0].0 == out[0].0);
            } else {
                assert(out[m] == rest[m - 1]);
                if rest[m - 1].0 != k {
                    let idx = choose|t: int|
                        0 <= t < s.drop_first().len() && s.drop_first()[t].0 == rest[m - 1].0;
                    assert(s[idx + 1].0 == out[m].0);
                }
            }
        }
    }
}

/// Inserting a key greater than every present key appends the entry.
pub proof fn lemma_insert_append<V>(s: Seq<(Seq<char>, V)>, k: Seq<char>, v: V)
    requires
        forall|i: int| 0 <= i < s.len() ==> lex_lt(s[i].0, k),
    ensures
        spec_insert(s, k, v) == s.push((k, v)),
    decreases s.len(),
{
    if s.len() == 0 {
        assert(spec_insert(s, k, v) =~= s.push((k, v)));
    } else {
        lemma_lex_trichotomy(k, s[0].0);
        lemma_insert_append(s.drop_first(), k, v);
        assert(seq![s[0]] + s.drop_first().push((k, v)) =~= s.push((k, v)));
    }
}

/// The table model of a requirement-group entry vector, elementwise.
pub open spec fn entries_model(entries: Seq<(String, Vec<String>)>) -> Seq<
    (Seq<char>, Seq<Seq<char>>),
> {
    Seq::new(entries.len(), |i: int| (entries[i].0@, entries[i].1.deep_view()))
}

/// The table model of a script-entry vector, elementwise.
pub open spec fn scripts_model(entries: Seq<(String, String)>) -> Seq<(Seq<char>, Seq<char>)> {
    Seq::new(entries.len(), |i: int| (entries[i].0@, entries[i].1@))
}

/// A string-keyed table of requirement groups, sorted by key.
#[derive(Debug, PartialEq, Eq, Clone)]
pub struct RequiresTable {
    entries: Vec<(String, Vec<String>)>,
}

impl View for RequiresTable {
    type V = Seq<(Seq<char>, Seq<Seq<char>>)>;

    closed spec fn view(&self) -> Seq<(Seq<char>, Seq<Seq<char>>)> {
        Seq::new(
            self.entries@.len(),
            |i: int| (self.entries@[i].0@, self.entries@[i].1.deep_view()),
        )
    }
}

impl DeepView for RequiresTable {
    type V = Seq<(Seq<char>, Seq<Seq<char>>)>;

    open spec fn deep_view(&self) -> Seq<(Seq<char>, Seq<Seq<char>>)> {
        self.view()
    }
}

impl RequiresTable {
    /// Well-formedness: keys strictly sorted, hence unique.
    pub open spec fn wf(&self) -> bool {
        table_wf(self@)
    }

    /// The empty table.
    pub fn new() -> (r: Self)
        ensures
            r@ == Seq::<(Seq<char>, Seq<Seq<char>>)>::empty(),
            r.wf(),
    {
        let r = RequiresTable { entries: Vec::new() };
        proof {
            assert(r@ =~= Seq::<(Seq<char>, Seq<Seq<char>>)>::empty());
        }
        r
    }

    /// The number of entries.
    pub fn len(&self) -> (r: usize)
        ensures
            r == self@.len(),
    {
        self.entries.len()
    }

    /// The entry at position `i`, in key order.
    pub fn entry_at(&self, i: usize) -> (r: &(String, Vec<String>))
        requires
            i < self@.len(),
        ensures
            (r.0@, r.1.deep_view()) == self@[i as int],
    {
        &self.entries[i]
    }

    /// Surrenders the entries, in key order.
    pub fn into_entries(self) -> (r: Vec<(String, Vec<String>)>)
        ensures
            entries_model(r@) == self@,
    {
        proof {
            assert(entries_model(self.entries@) =~= self@);
        }
        self.entries
    }

    /// Binds `key` to `value`, replacing any previous binding and keeping the
    /// entries sorted.
    pub fn insert(&mut self, key: String, value: Vec<String>)
        requires
            old(self).wf(),
        ensures
            final(self).wf(),
            final(self)@ == spec_insert(old(self)@, key@, value.deep_view()),
    {
        let ghost olds = self@;
        let ghost kview = key@;
        let ghost vview = value.deep_view();
        let mut i: usize = 0;
        while i < self.entries.len() && crate::strutil::str_lt(self.entries[i].0.as_str(), key.as_str())
            invariant
                0 <= i <= self.entries@.len(),
                forall|j: int| 0 <= j < i ==> lex_lt(self@[j].0, kview),
                *self == *old(self),
                kview == key@,
            decreases self.entries@.len() - i,
        {
            i = i + 1;
        }
        if i < self.entries.len() && crate::strutil::str_eq(self.entries[i].0.as_str(), key.as_str()) {
            self.entries[i] = (key, value);
            proof {
                assert(self@ =~= olds.update(i as int, (kview, vview)));
                lemma_insert_at_update(olds, kview, vview, i as int);
            }
        } else {
            proof {
                if i < self.entries@.len() {
                    lemma_lex_trichotomy(olds[i as int].0, kview);
                }
            }
            self.entries.insert(i, (key, value));
            proof {
                assert(self@ =~= olds.insert(i as int, (kview, vview)));
                lemma_insert_at_position(olds, kview, vview, i as int);
            }
        }
        proof {
            lemma_insert_wf(olds, kview, vview);
        }
    }
}

/// When the key sits at position `i`, ordered insertion is an update there.
proof fn lemma_insert_at_update<V>(s: Seq<(Seq<char>, V)>, k: Seq<char>, v: V, i: int)
    requires
        table_wf(s),
        0 <= i < s.len(),
        s[i].0 == k,
        forall|j: int| 0 <= j < i ==> lex_lt(s[j].0, k),
    ensures
        spec_insert(s, k, v) == s.update(i, (k, v)),
    decreases i,
{
    lemma_lex_trichotomy(k, s[0].0);
    if i == 0 {
        assert(spec_insert(s, k, v) == seq![(k, v)] + s.drop_first());
        assert(seq![(k, v)] + s.drop_first() =~= s.update(0, (k, v)));
    } else {
        assert(lex_lt(s[0].0, k));
        assert(table_wf(s.drop_first())) by {
            assert(forall|a: int, b: int|
                0 <= a < b < s.drop_first().len() ==> s.drop_first()[a] == s[a + 1]
                    && s.drop_first()[b] == s[b + 1]);
        }
        assert(forall|j: int| 0 <= j < i - 1 ==> s.drop_first()[j] == s[j + 1]);
        assert(s.drop_first()[i - 1] == s[i]);
        lemma_insert_at_update(s.drop_first(), k, v, i - 1);
        assert(seq![s[0]] + s.drop_first().update(i - 1, (k, v)) =~= s.update(i, (k, v)));
    }
}

/// When every earlier key is smaller and the key at `i` (if any) is greater,
/// ordered insertion places the new entry at position `i`.
proof fn lemma_insert_at_position<V>(s: Seq<(Seq<char>, V)>, k: Seq<char>, v: V, i: int)
    requires
        table_wf(s),
        0 <= i <= s.len(),
        forall|j: int| 0 <= j < i ==> lex_lt(s[j].0, k),
        i < s.len() ==> lex_lt(k, s[i].0),
    ensures
        spec_insert(s, k, v) == s.insert(i, (k, v)),
    decreases i,
{
    if s.len() == 0 {
        assert(spec_insert(s, k, v) =~= s.insert(0, (k, v)));
    } else if i == 0 {
        lemma_lex_trichotomy(k, s[0].0);
        assert(seq![(k, v)] + s =~= s.insert(0, (k, v)));
    } else {
        lemma_lex_trichotomy(k, s[0].0);
        assert(lex_lt(s[0].0, k));
        assert(table_wf(s.drop_first())) by {
            assert(forall|a: int, b: int|
                0 <= a < b < s.drop_first().len() ==> s.drop_first()[a] == s[a + 1]
                    && s.drop_first()[b] == s[b + 1]);
        }
        assert(forall|j: int| 0 <= j < i - 1 ==> s.drop_first()[j] == s[j + 1]);
        assert(i - 1 < s.drop_first().len() ==> s.drop_first()[i - 1] == s[i]);
        lemma_insert_at_position(s.drop_first(), k, v, i - 1);
        assert(seq![s[0]] + s.drop_first().insert(i - 1, (k, v)) =~= s.insert(i, (k, v)));
    }
}

/// A string-keyed table of script targets, sorted by key.
#[derive(Debug, PartialEq, Eq, Clone)]
pub struct ScriptsTable {
    entries: Vec<(String, String)>,
}

impl View for ScriptsTable {
    type V = Seq<(Seq<char>, Seq<char>)>;

    closed spec fn view(&self) -> Seq<(Seq<char>, Seq<char>)> {
        Seq::new(self.entries@.len(), |i: int| (self.entries@[i].0@, self.entries@[i].1@))
    }
}

impl DeepView for ScriptsTable {
    type V = Seq<(Seq<char>, Seq<char>)>;

    open spec fn deep_view(&self) -> Seq<(Seq<char>, Seq<char>)> {
        self.view()
    }
}

impl ScriptsTable {
    /// Well-formedness: keys strictly sorted, hence unique.
    pub open spec fn wf(&self) -> bool {
        table_wf(self@)
    }

    /// The empty table.
    pub fn new() -> (r: Self)
        ensures
            r@ == Seq::<(Seq<char>, Seq<char>)>::empty(),
            r.wf(),
    {
        let r = ScriptsTable { entries: Vec::new() };
        proof {
            assert(r@ =~= Seq::<(Seq<char>, Seq<char>)>::empty());
        }
        r
    }

    /// The number of entries.
    pub fn len(&self) -> (r: usize)
        ensures
            r == self@.len(),
    {
        self.entries.len()
    }

    /// The entry at position `i`, in key order.
    pub fn entry_at(&self, i: usize) -> (r: &(String, String))
        requires
            i < self@.len(),
        ensures
            (r.0@, r.1@) == self@[i as int],
    {
        &self.entries[i]
    }

    /// Surrenders the entries, in key order.
    pub fn into_entries(self) -> (r: Vec<(String, String)>)
        ensures
            scripts_model(r@) == self@,
    {
        proof {
            assert(scripts_model(self.entries@) =~= self@);
        }
        self.entries
    }

    /// Binds `key` to `value`, replacing any previous binding and keeping the
    /// entries sorted.
    pub fn insert(&mut self, key: String, value: String)
        requires
            old(self).wf(),
        ensures
            final(self).wf(),
            final(self)@ == spec_insert(old(self)@, key@, value@),
    {
        let ghost olds = self@;
        let ghost kview = key@;
        let ghost vview = value@;
        let mut i: usize = 0;
        while i < self.entries.len() && crate::strutil::str_lt(self.entries[i].0.as_str(), key.as_str())
            invariant
                0 <= i <= self.entries@.len(),
                forall|j: int| 0 <= j < i ==> lex_lt(self@[j].0, kview),
                *self == *old(self),
                kview == key@,
            decreases self.entries@.len() - i,
        {
            i = i + 1;
        }
        if i < self.entries.len() && crate::strutil::str_eq(self.entries[i].0.as_str(), key.as_str()) {
            self.entries[i] = (key, value);
            proof {
                assert(self@ =~= olds.update(i as int, (kview, vview)));
                lemma_insert_at_update(olds, kview, vview, i as int);
            }
        } else {
            proof {
                if i < self.entries@.len() {
                    lemma_lex_trichotomy(olds[i as int].0, kview);
                }
            }
            self.entries.insert(i, (key, value));
            proof {
                assert(self@ =~= olds.insert(i as int, (kview, vview)));
                lemma_insert_at_position(olds, kview, vview, i as int);
            }
        }
        proof {
            lemma_insert_wf(olds, kview, vview);
        }
    }
}

} // verus!
