//! A table keyed by account.

use vstd::prelude::*;
use crate::account::AccountId;

verus! {

/// `rows` lists `table`: every account of the table has one row, which holds
/// its value, and there are no other rows.
pub open spec fn is_listing<V>(rows: Seq<(Seq<char>, V)>, table: Map<Seq<char>, V>) -> bool {
    &&& forall|i: int, j: int| 0 <= i < j < rows.len() ==> rows[i].0 != rows[j].0
    &&& forall|i: int|
        0 <= i < rows.len() ==> table.contains_key(#[trigger] rows[i].0) && table[rows[i].0] == rows[i].1
    &&& forall|key: Seq<char>| #[trigger]
        table.contains_key(key) ==> exists|i: int| 0 <= i < rows.len() && rows[i].0 == key
}

/// A table has one listing only, up to the order of the rows: two tables with
/// the same listing are the same table.
pub proof fn lemma_listing_determines_table<V>(
    rows: Seq<(Seq<char>, V)>,
    first: Map<Seq<char>, V>,
    second: Map<Seq<char>, V>,
)
    requires
        is_listing(rows, first),
        is_listing(rows, second),
    ensures
        first == second,
{
    assert forall|key: Seq<char>| first.contains_key(key) implies second.contains_key(key) && second[key]
        == first[key] by {
        let i = choose|i: int| 0 <= i < rows.len() && rows[i].0 == key;
        assert(second.contains_key(rows[i].0));
    }
    assert forall|key: Seq<char>| second.contains_key(key) implies first.contains_key(key) by {
        let i = choose|i: int| 0 <= i < rows.len() && rows[i].0 == key;
        assert(first.contains_key(rows[i].0));
    }
    assert(first =~= second);
}

/// A table has as many accounts as its listing has rows.
pub proof fn lemma_listing_counts_table<V>(rows: Seq<(Seq<char>, V)>, table: Map<Seq<char>, V>)
    requires
        is_listing(rows, table),
    ensures
        table.dom().finite(),
        table.len() == rows.len(),
    decreases rows.len(),
{
    if rows.len() == 0 {
        assert(table.dom() =~= Set::<Seq<char>>::empty());
    } else {
        let last = rows.len() - 1;
        let rest = rows.drop_last();
        let smaller = table.remove(rows[last].0);
        assert forall|i: int| 0 <= i < rest.len() implies smaller.contains_key(#[trigger] rest[i].0)
            && smaller[rest[i].0] == rest[i].1 by {
            assert(rest[i] == rows[i]);
            assert(table.contains_key(rows[i].0));
        }
        assert forall|key: Seq<char>| #[trigger] smaller.contains_key(key) implies exists|i: int|
            0 <= i < rest.len() && rest[i].0 == key by {
            assert(table.contains_key(key));
            let i = choose|i: int| 0 <= i < rows.len() && rows[i].0 == key;
            assert(rest[i] == rows[i]);
        }
        assert(is_listing(rest, smaller));
        lemma_listing_counts_table(rest, smaller);
        assert(table.contains_key(rows[last].0));
        assert(table.dom() =~= smaller.dom().insert(rows[last].0));
    }
}

/// A finite map from accounts to values, kept as a list of entries in which
/// no account occurs twice.
#[derive(Debug)]
pub struct Table<V> {
    entries: Vec<(AccountId, V)>,
}

impl<V> View for Table<V> {
    type V = Map<Seq<char>, V>;

    closed spec fn view(&self) -> Map<Seq<char>, V> {
        Map::new(
            |key: Seq<char>| exists|i: int| self.holds_at(key, i),
            |key: Seq<char>| self.entries@[choose|i: int| self.holds_at(key, i)].1,
        )
    }
}

impl<V> Table<V> {
    /// The entry at index `i` is the one of `key`.
    spec fn holds_at(self, key: Seq<char>, i: int) -> bool {
        0 <= i < self.entries@.len() && self.entries@[i].0@ == key
    }

    /// No account has two entries.
    #[verifier::type_invariant]
    spec fn keys_distinct(self) -> bool {
        forall|i: int, j: int|
            0 <= i < j < self.entries@.len() ==> self.entries@[i].0@ != self.entries@[j].0@
    }

    /// An entry's value is what the table maps the entry's account to.
    proof fn lemma_entry(self, key: Seq<char>, i: int)
        requires
            self.keys_distinct(),
            self.holds_at(key, i),
        ensures
            self@.contains_key(key),
            self@[key] == self.entries@[i].1,
    {
        let chosen = choose|j: int| self.holds_at(key, j);
        assert(self.holds_at(key, chosen));
        assert(chosen == i);
    }

    /// A table without entries.
    pub fn new() -> (table: Table<V>)
        ensures
            table@ == Map::<Seq<char>, V>::empty(),
    {
        let table = Table { entries: Vec::new() };
        assert(table@ =~= Map::<Seq<char>, V>::empty());
        table
    }

    /// The rows of the table, in the order in which their accounts came in.
    pub closed spec fn rows(self) -> Seq<(Seq<char>, V)> {
        Seq::new(self.entries@.len(), |i: int| (self.entries@[i].0@, self.entries@[i].1))
    }

    /// The rows list the table.
    proof fn lemma_rows(self)
        requires
            self.keys_distinct(),
        ensures
            is_listing(self.rows(), self@),
    {
        let rows = self.rows();
        assert forall|i: int| 0 <= i < rows.len() implies self@.contains_key(#[trigger] rows[i].0)
            && self@[rows[i].0] == rows[i].1 by {
            assert(self.holds_at(rows[i].0, i));
            self.lemma_entry(rows[i].0, i);
        }
        assert forall|key: Seq<char>| #[trigger] self@.contains_key(key) implies exists|i: int|
            0 <= i < rows.len() && rows[i].0 == key by {
            let i = choose|i: int| self.holds_at(key, i);
            assert(0 <= i < rows.len() && rows[i].0 == key);
        }
    }

    /// The number of accounts in the table.
    pub fn len(&self) -> (count: usize)
        ensures
            count == self@.len(),
            count == self.rows().len(),
            is_listing(self.rows(), self@),
    {
        proof {
            use_type_invariant(self);
            self.lemma_rows();
            lemma_listing_counts_table(self.rows(), self@);
        }
        self.entries.len()
    }

    /// The index of the entry of `key`, if it has one.
    fn find(&self, key: &AccountId) -> (found: Option<usize>)
        ensures
            match found {
                Some(i) => self.holds_at(key@, i as int),
                None => forall|i: int| !self.holds_at(key@, i),
            },
    {
        let mut i: usize = 0;
        while i < self.entries.len()
            invariant
                i <= self.entries@.len(),
                forall|j: int| 0 <= j < i ==> !self.holds_at(key@, j),
            decreases self.entries@.len() - i,
        {
            if self.entries[i].0.eq(key) {
                return Some(i);
            }
            i += 1;
        }
        None
    }

    /// Whether `key` is in the table.
    pub fn contains_key(&self, key: &AccountId) -> (found: bool)
        ensures
            found == self@.contains_key(key@),
    {
        proof {
            use_type_invariant(self);
        }
        match self.find(key) {
            Some(i) => {
                proof {
                    self.lemma_entry(key@, i as int);
                }
                true
            },
            None => false,
        }
    }
}

impl<V: Copy> Table<V> {
    /// The account and the value of row `index`, if the table has so many
    /// rows.
    pub fn row(&self, index: usize) -> (row: Option<(&AccountId, V)>)
        ensures
            row is Some <==> index < self.rows().len(),
            row matches Some(r) ==> (r.0@, r.1) == self.rows()[index as int],
    {
        if index < self.entries.len() {
            Some((&self.entries[index].0, self.entries[index].1))
        } else {
            None
        }
    }

    /// The value of `key`, if it is in the table.
    pub fn get(&self, key: &AccountId) -> (value: Option<V>)
        ensures
            value == self@.get(key@),
    {
        proof {
            use_type_invariant(self);
        }
        match self.find(key) {
            Some(i) => {
                proof {
                    self.lemma_entry(key@, i as int);
                }
                Some(self.entries[i].1)
            },
            None => None,
        }
    }

    /// Maps `key` to `value`, whether or not it was in the table, and returns
    /// the value that it had before.
    pub fn insert(&mut self, key: AccountId, value: V) -> (previous: Option<V>)
        ensures
            final(self)@ == old(self)@.insert(key@, value),
            previous == old(self)@.get(key@),
    {
        proof {
            use_type_invariant(&*self);
        }
        let ghost before = *self;
        let ghost name = key@;
        let found = self.find(&key);
        let mut entries: Vec<(AccountId, V)> = Vec::new();
        std::mem::swap(&mut entries, &mut self.entries);
        let previous = match found {
            Some(i) => {
                proof {
                    before.lemma_entry(name, i as int);
                }
                let previous = entries[i].1;
                entries[i] = (key, value);
                Some(previous)
            },
            None => {
                entries.push((key, value));
                None
            },
        };
        let ghost at = match found {
            Some(i) => i as int,
            None => before.entries@.len() as int,
        };
        assert(entries@[at].0@ == name && entries@[at].1 == value);
        assert forall|j: int| 0 <= j < entries@.len() && j != at implies entries@[j]
            == before.entries@[j] && before.entries@[j].0@ != name by {
            assert(before.holds_at(before.entries@[j].0@, j));
            if found is Some {
                assert(before.holds_at(name, at));
            }
        }
        assert forall|i: int, j: int| 0 <= i < j < entries@.len() implies entries@[i].0@
            != entries@[j].0@ by {
            if i != at && j != at {
                assert(before.entries@[i].0@ != before.entries@[j].0@);
            }
        }
        self.entries = entries;
        proof {
            assert(self.holds_at(name, at));
            self.lemma_entry(name, at);
            assert forall|k: Seq<char>| k != name implies (self@.contains_key(k)
                == before@.contains_key(k)) by {
                if self@.contains_key(k) {
                    let j = choose|j: int| self.holds_at(k, j);
                    assert(before.holds_at(k, j));
                }
                if before@.contains_key(k) {
                    let j = choose|j: int| before.holds_at(k, j);
                    assert(self.holds_at(k, j));
                }
            }
            assert forall|k: Seq<char>| k != name && self@.contains_key(k) implies self@[k]
                == before@[k] by {
                let j = choose|j: int| self.holds_at(k, j);
                assert(before.holds_at(k, j));
                self.lemma_entry(k, j);
                before.lemma_entry(k, j);
            }
            assert(self@ =~= before@.insert(name, value));
        }
        previous
    }
}

} // verus!
