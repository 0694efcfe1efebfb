//! The usage ledger: how many times each command has completed.
use vstd::prelude::*;

verus! {

/// One ledger entry: a command name and its invocation count.
pub struct Entry {
    pub name: String,
    pub count: u64,
}

/// The entries as (name, count) pairs, in the order their names were first recorded.
pub type EntriesView = Seq<(Seq<char>, u64)>;

/// The abstract contents of a list of entries.
pub open spec fn entries_view(v: Seq<Entry>) -> EntriesView {
    Seq::new(v.len(), |i: int| (v[i].name@, v[i].count))
}

/// No name occurs twice.
pub open spec fn names_unique(s: EntriesView) -> bool {
    forall|i: int, j: int| 0 <= i < j < s.len() ==> s[i].0 != s[j].0
}

/// `name` has an entry.
pub open spec fn has_name(s: EntriesView, name: Seq<char>) -> bool {
    exists|i: int| 0 <= i < s.len() && s[i].0 == name
}

/// The position of `name`'s entry, where it has one.
pub open spec fn index_of(s: EntriesView, name: Seq<char>) -> int
    recommends
        has_name(s, name),
{
    choose|i: int| 0 <= i < s.len() && s[i].0 == name
}

/// The count recorded for `name`, zero where it has no entry.
pub open spec fn count_in(s: EntriesView, name: Seq<char>) -> nat {
    if has_name(s, name) { s[index_of(s, name)].1 as nat } else { 0 }
}

/// The sum of all counts.
pub open spec fn total_of(s: EntriesView) -> nat
    decreases s.len(),
{
    if s.len() == 0 { 0 } else { total_of(s.drop_last()) + s.last().1 as nat }
}

/// One more invocation of `name`: its entry grows by one (held at the largest
/// `u64`), or a new entry with count one is appended.
pub open spec fn incremented(s: EntriesView, name: Seq<char>) -> EntriesView {
    if has_name(s, name) {
        let i = index_of(s, name);
        let c = s[i].1;
        s.update(i, (name, if c < u64::MAX { (c + 1) as u64 } else { c }))
    } else {
        s.push((name, 1u64))
    }
}

/// The contents after recording each name of `names` in turn.
pub open spec fn incremented_all(s: EntriesView, names: Seq<Seq<char>>) -> EntriesView
    decreases names.len(),
{
    if names.len() == 0 {
        s
    } else {
        incremented(incremented_all(s, names.drop_last()), names.last())
    }
}

/// How many times `name` occurs in `names`.
pub open spec fn occurrences(names: Seq<Seq<char>>, name: Seq<char>) -> nat
    decreases names.len(),
{
    if names.len() == 0 {
        0
    } else {
        occurrences(names.drop_last(), name) + if names.last() == name { 1nat } else { 0nat }
    }
}

/// Recording `name` once adds exactly one to its count, unless the count is
/// already the largest `u64`, and leaves every other name's count as it was;
/// names stay unique.
pub proof fn lemma_increment_counts(s: EntriesView, name: Seq<char>, other: Seq<char>)
    requires
        names_unique(s),
    ensures
        names_unique(incremented(s, name)),
        count_in(s, name) < u64::MAX ==> count_in(incremented(s, name), name) == count_in(s, name) + 1,
        other != name ==> count_in(incremented(s, name), other) == count_in(s, other),
{
    let t = incremented(s, name);
    if has_name(s, name) {
        let i = index_of(s, name);
        assert(t[i].0 == name);
        if has_name(t, name) {
            let j = index_of(t, name);
            if j != i {
                assert(s[j].0 == name);
                if j < i { assert(s[j].0 != s[i].0); } else { assert(s[i].0 != s[j].0); }
            }
        }
        if has_name(s, other) && other != name {
            let k = index_of(s, other);
            assert(t[k].0 == other);
            let k2 = index_of(t, other);
            if k2 != k {
                assert(s[k2].0 == other);
                if k2 < k { assert(s[k2].0 != s[k].0); } else { assert(s[k].0 != s[k2].0); }
            }
        }
        if !has_name(s, other) && other != name {
            assert forall|k: int| 0 <= k < t.len() implies t[k].0 != other by {
                assert(s[k].0 != other);
            }
        }
    } else {
        let n = s.len() as int;
        assert(t[n].0 == name);
        if has_name(t, name) {
            let j = index_of(t, name);
            if j != n {
                assert(s[j].0 == name);
            }
        }
        if has_name(s, other) && other != name {
            let k = index_of(s, other);
            assert(t[k].0 == other);
            let k2 = index_of(t, other);
            if k2 != k {
                if k2 < n {
                    assert(s[k2].0 == other);
                    if k2 < k { assert(s[k2].0 != s[k].0); } else { assert(s[k].0 != s[k2].0); }
                }
            }
        }
        if !has_name(s, other) && other != name {
            assert forall|k: int| 0 <= k < t.len() implies t[k].0 != other by {
                if k < n { assert(s[k].0 != other); }
            }
        }
    }
}

/// Recording the same name `n` times, with no other writer in between, adds
/// exactly `n` to its count, where that stays within `u64`: no update is lost.
pub proof fn lemma_repeated_increments(s: EntriesView, name: Seq<char>, n: nat)
    requires
        names_unique(s),
        count_in(s, name) + n <= u64::MAX,
    ensures
        names_unique(incremented_all(s, Seq::new(n, |i: int| name))),
        count_in(incremented_all(s, Seq::new(n, |i: int| name)), name) == count_in(s, name) + n,
    decreases n,
{
    if n > 0 {
        let names = Seq::new(n, |i: int| name);
        assert(names.drop_last() =~= Seq::new((n - 1) as nat, |i: int| name));
        lemma_repeated_increments(s, name, (n - 1) as nat);
        lemma_increment_counts(incremented_all(s, names.drop_last()), name, name);
    }
}

/// Starting from an empty ledger and recording `names` in turn, each name's
/// count is the number of times it was recorded.
pub proof fn lemma_counts_from_empty(names: Seq<Seq<char>>, name: Seq<char>)
    requires
        names.len() <= u64::MAX,
    ensures
        names_unique(incremented_all(Seq::empty(), names)),
        count_in(incremented_all(Seq::empty(), names), name) == occurrences(names, name),
    decreases names.len(),
{
    if names.len() == 0 {
        assert(!has_name(Seq::<(Seq<char>, u64)>::empty(), name));
    } else {
        let prev = incremented_all(Seq::empty(), names.drop_last());
        lemma_counts_from_empty(names.drop_last(), name);
        lemma_counts_from_empty(names.drop_last(), names.last());
        lemma_occurrences_bound(names.drop_last(), names.last());
        lemma_increment_counts(prev, names.last(), name);
    }
}

proof fn lemma_total_update(s: EntriesView, i: int, e: (Seq<char>, u64))
    requires
        0 <= i < s.len(),
    ensures
        total_of(s.update(i, e)) == total_of(s) - s[i].1 + e.1,
    decreases s.len(),
{
    let t = s.update(i, e);
    if i == s.len() - 1 {
        assert(t.drop_last() =~= s.drop_last());
    } else {
        assert(t.drop_last() =~= s.drop_last().update(i, e));
        lemma_total_update(s.drop_last(), i, e);
    }
}

/// Recording `name` once adds exactly one to the sum of all counts, unless its
/// count is already the largest `u64`.
pub proof fn lemma_increment_total(s: EntriesView, name: Seq<char>)
    requires
        count_in(s, name) < u64::MAX,
    ensures
        total_of(incremented(s, name)) == total_of(s) + 1,
{
    if has_name(s, name) {
        lemma_total_update(s, index_of(s, name), (name, (s[index_of(s, name)].1 + 1) as u64));
    } else {
        assert(s.push((name, 1u64)).drop_last() =~= s);
    }
}

/// Starting from an empty ledger and recording `names` in turn, the sum of all
/// counts is the number of recordings.
pub proof fn lemma_total_from_empty(names: Seq<Seq<char>>)
    requires
        names.len() <= u64::MAX,
    ensures
        total_of(incremented_all(Seq::empty(), names)) == names.len(),
    decreases names.len(),
{
    if names.len() > 0 {
        lemma_total_from_empty(names.drop_last());
        lemma_counts_from_empty(names.drop_last(), names.last());
        lemma_occurrences_bound(names.drop_last(), names.last());
        lemma_increment_total(incremented_all(Seq::empty(), names.drop_last()), names.last());
    }
}

proof fn lemma_occurrences_bound(names: Seq<Seq<char>>, name: Seq<char>)
    ensures
        occurrences(names, name) <= names.len(),
    decreases names.len(),
{
    if names.len() > 0 {
        lemma_occurrences_bound(names.drop_last(), name);
    }
}

/// Per-command invocation counts, kept in the order names were first recorded.
pub struct UsageLedger {
    entries: Vec<Entry>,
}

impl View for UsageLedger {
    type V = EntriesView;

    closed spec fn view(&self) -> EntriesView {
        entries_view(self.entries@)
    }
}

impl UsageLedger {
    /// Each name has at most one entry.
    pub open spec fn wf(&self) -> bool {
        names_unique(self@)
    }

    /// The count recorded for `name`.
    pub open spec fn count_spec(&self, name: Seq<char>) -> nat {
        count_in(self@, name)
    }

    /// An empty ledger.
    pub fn new() -> (r: UsageLedger)
        ensures
            r.wf(),
            r@ == Seq::<(Seq<char>, u64)>::empty(),
    {
        let r = UsageLedger { entries: Vec::new() };
        assert(r@ =~= Seq::<(Seq<char>, u64)>::empty());
        r
    }

    /// Where `name` has an entry, its position.
    fn find(&self, name: &String) -> (r: Option<usize>)
        requires
            self.wf(),
        ensures
            r is Some <==> has_name(self@, name@),
            r is Some ==> r->0 == index_of(self@, name@),
    {
        let mut i: usize = 0;
        while i < self.entries.len()
            invariant
                i <= self.entries.len(),
                self.wf(),
                forall|j: int| 0 <= j < i ==> self@[j].0 != name@,
            decreases self.entries.len() - i,
        {
            if self.entries[i].name == *name {
                assert(self@[i as int].0 == name@);
                proof {
                    assert(has_name(self@, name@));
                    let j = index_of(self@, name@);
                    assert(self@[j].0 == name@);
                    if j < i {
                        assert(self@[j].0 != self@[i as int].0);
                    } else if j > i {
                        assert(self@[i as int].0 != self@[j].0);
                    }
                }
                return Some(i);
            }
            i = i + 1;
        }
        None
    }

    /// The count recorded for `name`, zero where it has none.
    pub fn count(&self, name: &String) -> (r: u64)
        requires
            self.wf(),
        ensures
            r as nat == self.count_spec(name@),
    {
        match self.find(name) {
            Some(i) => self.entries[i].count,
            None => 0,
        }
    }

    /// Adds one to the count of `name`, creating its entry with count one.
    /// A count that has reached the largest `u64` stays there.
    pub fn increment(&mut self, name: &String)
        requires
            old(self).wf(),
        ensures
            final(self).wf(),
            final(self)@ == incremented(old(self)@, name@),
    {
        match self.find(name) {
            Some(i) => {
                let c = self.entries[i].count;
                let next: u64 = if c < u64::MAX { c + 1 } else { c };
                let ghost before = self@;
                self.entries.set(i, Entry { name: name.clone(), count: next });
                assert(self@ =~= incremented(before, name@));
            },
            None => {
                let ghost before = self@;
                self.entries.push(Entry { name: name.clone(), count: 1 });
                assert(self@ =~= incremented(before, name@));
            },
        }
    }

    /// A copy of every entry, in the ledger's order.
    pub fn snapshot(&self) -> (r: Vec<Entry>)
        ensures
            entries_view(r@) == self@,
    {
        let mut out: Vec<Entry> = Vec::new();
        let mut i: usize = 0;
        while i < self.entries.len()
            invariant
                i <= self.entries.len(),
                out@.len() == i,
                forall|j: int| 0 <= j < i ==> out@[j].name@ == self.entries@[j].name@ && out@[j].count == self.entries@[j].count,
            decreases self.entries.len() - i,
        {
            let e = &self.entries[i];
            out.push(Entry { name: e.name.clone(), count: e.count });
            i = i + 1;
        }
        assert(entries_view(out@) =~= self@);
        out
    }
}

} // verus!
