//! Small tables from byte strings to optional byte strings.

use crate::pending;
use crate::session;
use vstd::prelude::*;

verus! {

/// An optional byte string.
pub open spec fn optional_bytes(value: Option<Vec<u8>>) -> Option<Seq<u8>> {
    match value {
        Some(bytes) => Some(bytes@),
        None => None,
    }
}

/// Keys with their values.
pub struct Table {
    /// The rows; no key occurs twice.
    pub rows: Vec<(Vec<u8>, Option<Vec<u8>>)>,
}

/// Whether two values are equal.
pub fn same_value(a: &Option<Vec<u8>>, b: &Option<Vec<u8>>) -> (same: bool)
    ensures
        same == (optional_bytes(*a) == optional_bytes(*b)),
{
    match a {
        Some(x) => match b {
            Some(y) => session::same_bytes(x.as_slice(), y.as_slice()),
            None => false,
        },
        None => b.is_none(),
    }
}

fn copy_value(value: &Option<Vec<u8>>) -> (copy: Option<Vec<u8>>)
    ensures
        optional_bytes(copy) == optional_bytes(*value),
{
    match value {
        Some(bytes) => {
            let copy: Vec<u8> = bytes.clone();
            assert(copy@ =~= bytes@);
            Some(copy)
        },
        None => None,
    }
}

impl Table {
    /// No key occurs twice.
    pub open spec fn wf(self) -> bool {
        forall|i: int, j: int|
            0 <= i < j < self.rows@.len() ==> (#[trigger] self.rows@[i]).0@ != (
            #[trigger] self.rows@[j]).0@
    }

    /// The values by their keys.
    pub open spec fn values(self) -> Map<Seq<u8>, Option<Seq<u8>>> {
        Map::new(
            |key: Seq<u8>|
                exists|i: int| 0 <= i < self.rows@.len() && (#[trigger] self.rows@[i]).0@ == key,
            |key: Seq<u8>|
                optional_bytes(
                    self.rows@[choose|i: int|
                        0 <= i < self.rows@.len() && (#[trigger] self.rows@[i]).0@ == key].1,
                ),
        )
    }

    /// No rows.
    pub fn new() -> (table: Self)
        ensures
            table.wf(),
            table.values() == Map::<Seq<u8>, Option<Seq<u8>>>::empty(),
    {
        let table = Table { rows: Vec::new() };
        proof {
            assert(table.values() =~= Map::<Seq<u8>, Option<Seq<u8>>>::empty());
        }
        table
    }

    proof fn lemma_at(self, i: int)
        requires
            self.wf(),
            0 <= i < self.rows@.len(),
        ensures
            self.values().contains_key(self.rows@[i].0@),
            self.values()[self.rows@[i].0@] == optional_bytes(self.rows@[i].1),
    {
        let key = self.rows@[i].0@;
        let j = choose|j: int| 0 <= j < self.rows@.len() && (#[trigger] self.rows@[j]).0@ == key;
        assert(self.rows@[i].0@ == key);
        assert(self.rows@[j].0@ == key);
        if i < j {
            assert(self.rows@[i].0@ != self.rows@[j].0@);
        } else if j < i {
            assert(self.rows@[j].0@ != self.rows@[i].0@);
        }
    }

    fn find(&self, key: &[u8]) -> (index: Option<usize>)
        ensures
            match index {
                Some(i) => i < self.rows@.len() && self.rows@[i as int].0@ == key@,
                None => forall|i: int|
                    0 <= i < self.rows@.len() ==> (#[trigger] self.rows@[i]).0@ != key@,
            },
    {
        let mut i: usize = 0;
        while i < self.rows.len()
            invariant
                i <= self.rows@.len(),
                forall|j: int| 0 <= j < i ==> (#[trigger] self.rows@[j]).0@ != key@,
            decreases self.rows@.len() - i,
        {
            if session::same_bytes(self.rows[i].0.as_slice(), key) {
                return Some(i);
            }
            i = i + 1;
        }
        None
    }

    /// Gives a key a value.
    pub fn put(&mut self, key: Vec<u8>, value: Option<Vec<u8>>)
        requires
            old(self).wf(),
        ensures
            final(self).wf(),
            final(self).values() == old(self).values().insert(key@, optional_bytes(value)),
    {
        let ghost name = key@;
        let ghost shown = optional_bytes(value);
        let at: usize = match self.find(key.as_slice()) {
            Some(i) => {
                self.rows.set(i, (key, value));
                i
            },
            None => {
                let end: usize = self.rows.len();
                self.rows.push((key, value));
                end
            },
        };
        proof {
            let before = *old(self);
            let after = *self;
            assert(after.rows@[at as int].0@ == name);
            assert(after.wf());
            assert forall|other: Seq<u8>| after.values().contains_key(other) == before.values().insert(name, shown).contains_key(other) by {
                if before.values().contains_key(other) {
                    let i = choose|i: int|
                        0 <= i < before.rows@.len() && (#[trigger] before.rows@[i]).0@ == other;
                    assert(after.rows@[i].0@ == other);
                }
                if other == name {
                    assert(after.rows@[at as int].0@ == other);
                }
                if after.values().contains_key(other) && other != name {
                    let i = choose|i: int|
                        0 <= i < after.rows@.len() && (#[trigger] after.rows@[i]).0@ == other;
                    assert(before.rows@[i].0@ == other);
                }
            }
            assert forall|other: Seq<u8>| after.values().contains_key(other) implies #[trigger] after.values()[other] == before.values().insert(name, shown)[other] by {
                let i = choose|i: int|
                    0 <= i < after.rows@.len() && (#[trigger] after.rows@[i]).0@ == other;
                after.lemma_at(i);
                if other != name {
                    assert(before.rows@[i].0@ == other);
                    before.lemma_at(i);
                } else {
                    after.lemma_at(at as int);
                }
            }
            assert(after.values() =~= before.values().insert(name, shown));
        }
    }

    /// Takes a key out.
    pub fn take_out(&mut self, key: &[u8])
        requires
            old(self).wf(),
        ensures
            final(self).wf(),
            final(self).values() == old(self).values().remove(key@),
    {
        match self.find(key) {
            Some(at) => {
                self.rows.remove(at);
                proof {
                    let before = *old(self);
                    let after = *self;
                    assert forall|i: int, j: int| 0 <= i < j < after.rows@.len() implies (
                    #[trigger] after.rows@[i]).0@ != (#[trigger] after.rows@[j]).0@ by {
                        let i0 = if i < at {
                            i
                        } else {
                            i + 1
                        };
                        let j0 = if j < at {
                            j
                        } else {
                            j + 1
                        };
                        assert(before.rows@[i0].0@ != before.rows@[j0].0@);
                    }
                    assert forall|other: Seq<u8>| after.values().contains_key(other) == before.values().remove(key@).contains_key(other) by {
                        if after.values().contains_key(other) {
                            let i = choose|i: int|
                                0 <= i < after.rows@.len() && (#[trigger] after.rows@[i]).0@
                                    == other;
                            let i0 = if i < at {
                                i
                            } else {
                                i + 1
                            };
                            assert(before.rows@[i0].0@ == other);
                            if i0 < at {
                                assert(before.rows@[i0].0@ != before.rows@[at as int].0@);
                            } else {
                                assert(before.rows@[at as int].0@ != before.rows@[i0].0@);
                            }
                        }
                        if before.values().contains_key(other) && other != key@ {
                            let i = choose|i: int|
                                0 <= i < before.rows@.len() && (#[trigger] before.rows@[i]).0@
                                    == other;
                            let i1 = if i < at {
                                i
                            } else {
                                i - 1
                            };
                            assert(after.rows@[i1].0@ == other);
                        }
                    }
                    assert forall|other: Seq<u8>| after.values().contains_key(other) implies #[trigger] after.values()[other] == before.values().remove(key@)[other] by {
                        let i = choose|i: int|
                            0 <= i < after.rows@.len() && (#[trigger] after.rows@[i]).0@ == other;
                        after.lemma_at(i);
                        let i0 = if i < at {
                            i
                        } else {
                            i + 1
                        };
                        before.lemma_at(i0);
                    }
                    assert(after.values() =~= before.values().remove(key@));
                }
            },
            None => {
                proof {
                    assert(self.values() =~= old(self).values().remove(key@));
                }
            },
        }
    }

    /// Whether every row of this table is in the other.
    fn within(&self, other: &Table) -> (included: bool)
        requires
            self.wf(),
            other.wf(),
        ensures
            included == (forall|key: Seq<u8>|
                self.values().contains_key(key) ==> other.values().contains_key(key)
                    && #[trigger] other.values()[key] == self.values()[key]),
    {
        let mut i: usize = 0;
        while i < self.rows.len()
            invariant
                i <= self.rows@.len(),
                self.wf(),
                other.wf(),
                forall|j: int|
                    0 <= j < i ==> other.values().contains_key((#[trigger] self.rows@[j]).0@)
                        && other.values()[self.rows@[j].0@] == optional_bytes(self.rows@[j].1),
            decreases self.rows@.len() - i,
        {
            proof {
                self.lemma_at(i as int);
            }
            match other.find(self.rows[i].0.as_slice()) {
                None => {
                    proof {
                        let key = self.rows@[i as int].0@;
                        let absent = other.values()[key];
                        assert(!other.values().contains_key(key));
                    }
                    return false;
                },
                Some(at) => {
                    proof {
                        other.lemma_at(at as int);
                    }
                    if !same_value(&self.rows[i].1, &other.rows[at].1) {
                        assert(other.values()[self.rows@[i as int].0@]
                            != self.values()[self.rows@[i as int].0@]);
                        return false;
                    }
                },
            }
            i = i + 1;
        }
        proof {
            assert forall|key: Seq<u8>| self.values().contains_key(key) implies other.values().contains_key(key)
                && #[trigger] other.values()[key] == self.values()[key] by {
                let j = choose|j: int|
                    0 <= j < self.rows@.len() && (#[trigger] self.rows@[j]).0@ == key;
                self.lemma_at(j);
            }
        }
        true
    }

    /// Whether two tables give the same keys the same values.
    pub fn same(&self, other: &Table) -> (same: bool)
        requires
            self.wf(),
            other.wf(),
        ensures
            same == (self.values() == other.values()),
    {
        let same: bool = self.within(other) && other.within(self);
        proof {
            if same {
                assert forall|key: Seq<u8>| self.values().contains_key(key) == other.values().contains_key(key) by {
                    let a = self.values()[key];
                    let b = other.values()[key];
                }
                assert(self.values() =~= other.values());
            }
        }
        same
    }

    /// The value of a key.
    pub fn get(&self, key: &[u8]) -> (value: Option<&Option<Vec<u8>>>)
        requires
            self.wf(),
        ensures
            match value {
                Some(found) => self.values().contains_key(key@) && self.values()[key@]
                    == optional_bytes(*found),
                None => !self.values().contains_key(key@),
            },
    {
        match self.find(key) {
            Some(i) => {
                proof {
                    self.lemma_at(i as int);
                }
                Some(&self.rows[i].1)
            },
            None => None,
        }
    }

    /// The keys from `low` on and below `high`.
    pub open spec fn key_range(low: Seq<u8>, high: Seq<u8>) -> Set<Seq<u8>> {
        Set::new(
            |key: Seq<u8>| !pending::bytes_before(key, low) && pending::bytes_before(key, high),
        )
    }

    /// The rows whose keys lie from `low` on and below `high`.
    pub fn between(&self, low: &[u8], high: &[u8]) -> (part: Table)
        requires
            self.wf(),
        ensures
            part.wf(),
            part.values() == self.values().restrict(Self::key_range(low@, high@)),
    {
        let mut part = Table::new();
        let ghost range = Self::key_range(low@, high@);
        let mut i: usize = 0;
        while i < self.rows.len()
            invariant
                i <= self.rows@.len(),
                self.wf(),
                part.wf(),
                range == Self::key_range(low@, high@),
                forall|key: Seq<u8>| #[trigger]
                    part.values().contains_key(key) ==> range.contains(key)
                        && self.values().contains_key(key) && part.values()[key]
                        == self.values()[key],
                forall|j: int|
                    0 <= j < i && range.contains((#[trigger] self.rows@[j]).0@)
                        ==> part.values().contains_key(self.rows@[j].0@),
            decreases self.rows@.len() - i,
        {
            proof {
                self.lemma_at(i as int);
            }
            let row = &self.rows[i];
            if !pending::comes_before(row.0.as_slice(), low) && pending::comes_before(
                row.0.as_slice(),
                high,
            ) {
                let key: Vec<u8> = row.0.clone();
                assert(key@ =~= row.0@);
                part.put(key, copy_value(&row.1));
            }
            i = i + 1;
        }
        proof {
            let wanted = self.values().restrict(range);
            assert forall|key: Seq<u8>| wanted.contains_key(key) implies part.values().contains_key(
                key,
            ) by {
                let j = choose|j: int|
                    0 <= j < self.rows@.len() && (#[trigger] self.rows@[j]).0@ == key;
                assert(range.contains(self.rows@[j].0@));
            }
            assert(part.values() =~= wanted);
        }
        part
    }
}

/// Whether a row gives this key this value.
pub open spec fn has_row(
    rows: Seq<(Vec<u8>, Option<Vec<u8>>)>,
    key: Seq<u8>,
    value: Option<Seq<u8>>,
) -> bool {
    exists|i: int|
        {
            &&& 0 <= i < rows.len()
            &&& (#[trigger] rows[i]).0@ == key
            &&& rows[i].1 is Some == value is Some
            &&& rows[i].1 is Some ==> rows[i].1->0@ == value->0
        }
}

/// A row is found in the values by its key.
pub proof fn lemma_has_row(table: Table, key: Seq<u8>, value: Option<Seq<u8>>)
    requires
        table.wf(),
    ensures
        has_row(table.rows@, key, value) == (table.values().contains_key(key)
            && table.values()[key] == value),
{
    if has_row(table.rows@, key, value) {
        let i = choose|i: int|
            {
                &&& 0 <= i < table.rows@.len()
                &&& (#[trigger] table.rows@[i]).0@ == key
                &&& table.rows@[i].1 is Some == value is Some
                &&& table.rows@[i].1 is Some ==> table.rows@[i].1->0@ == value->0
            };
        table.lemma_at(i);
    }
    if table.values().contains_key(key) {
        let i = choose|i: int|
            0 <= i < table.rows@.len() && (#[trigger] table.rows@[i]).0@ == key;
        table.lemma_at(i);
    }
}

/// A new table has no row.
pub proof fn law_new_table_is_empty(table: Table, key: Seq<u8>, value: Option<Seq<u8>>)
    requires
        call_ensures(Table::new, (), table),
    ensures
        !has_row(table.rows@, key, value),
{
    lemma_has_row(table, key, value);
}

/// A key that is put has the value it was put with, and no other; all other
/// keys keep theirs.
pub proof fn law_put_values_are_found(
    table: &mut Table,
    key: Vec<u8>,
    value: Option<Vec<u8>>,
    asked: Seq<u8>,
    answer: Option<Seq<u8>>,
)
    requires
        old(table).wf(),
        call_ensures(Table::put, (table, key, value), ()),
    ensures
        asked == key@ ==> has_row(final(table).rows@, asked, answer) == (value is Some
            == answer is Some && (value is Some ==> value->0@ == answer->0)),
        asked != key@ ==> has_row(final(table).rows@, asked, answer) == has_row(
            old(table).rows@,
            asked,
            answer,
        ),
{
    lemma_has_row(*final(table), asked, answer);
    lemma_has_row(*old(table), asked, answer);
}

/// A key that is taken out has no value any more; all other keys keep theirs.
pub proof fn law_keys_taken_out_are_gone(
    table: &mut Table,
    key: &[u8],
    asked: Seq<u8>,
    answer: Option<Seq<u8>>,
)
    requires
        old(table).wf(),
        call_ensures(Table::take_out, (table, key), ()),
    ensures
        has_row(final(table).rows@, asked, answer) == (asked != key@ && has_row(
            old(table).rows@,
            asked,
            answer,
        )),
{
    lemma_has_row(*final(table), asked, answer);
    lemma_has_row(*old(table), asked, answer);
}

/// A lookup gives the value in the key's row, and nothing only where the key
/// has no row.
pub proof fn law_lookups_find_the_row(
    table: &Table,
    key: &[u8],
    found: Option<&Option<Vec<u8>>>,
    answer: Option<Seq<u8>>,
)
    requires
        table.wf(),
        call_ensures(Table::get, (table, key), found),
    ensures
        has_row(table.rows@, key@, answer) == (found is Some && (*found->0) is Some
            == answer is Some && ((*found->0) is Some ==> (*found->0)->0@ == answer->0)),
{
    lemma_has_row(*table, key@, answer);
}

/// Equal values mean equal rows.
pub proof fn lemma_same_rows(a: Table, b: Table)
    requires
        a.wf(),
        b.wf(),
    ensures
        (a.values() == b.values()) == (forall|key: Seq<u8>, value: Option<Seq<u8>>| #[trigger]
            has_row(a.rows@, key, value) == has_row(b.rows@, key, value)),
{
    assert forall|key: Seq<u8>, value: Option<Seq<u8>>| a.values() == b.values() implies #[trigger] has_row(
        a.rows@,
        key,
        value,
    ) == has_row(b.rows@, key, value) by {
        lemma_has_row(a, key, value);
        lemma_has_row(b, key, value);
    }
    if forall|key: Seq<u8>, value: Option<Seq<u8>>| #[trigger]
        has_row(a.rows@, key, value) == has_row(b.rows@, key, value) {
        assert forall|key: Seq<u8>| #[trigger]
            a.values().contains_key(key) == b.values().contains_key(key) && (a.values().contains_key(
                key,
            ) ==> a.values()[key] == b.values()[key]) by {
            lemma_has_row(a, key, a.values()[key]);
            lemma_has_row(b, key, a.values()[key]);
            lemma_has_row(a, key, b.values()[key]);
            lemma_has_row(b, key, b.values()[key]);
            assert(has_row(a.rows@, key, a.values()[key]) == has_row(
                b.rows@,
                key,
                a.values()[key],
            ));
            assert(has_row(a.rows@, key, b.values()[key]) == has_row(
                b.rows@,
                key,
                b.values()[key],
            ));
        }
        assert(a.values() =~= b.values());
    }
}

/// Two tables are the same if and only if each has the rows of the other.
pub proof fn law_same_tables_have_the_same_rows(a: &Table, b: &Table, same: bool)
    requires
        a.wf(),
        b.wf(),
        call_ensures(Table::same, (a, b), same),
    ensures
        same == (forall|key: Seq<u8>, value: Option<Seq<u8>>| #[trigger]
            has_row(a.rows@, key, value) == has_row(b.rows@, key, value)),
{
    lemma_same_rows(*a, *b);
}

/// A range holds the rows whose keys are not before its low end and are before
/// its high end, and no others.
pub proof fn law_ranges_hold_the_rows_between(
    table: &Table,
    low: &[u8],
    high: &[u8],
    part: Table,
    key: Seq<u8>,
    value: Option<Seq<u8>>,
)
    requires
        table.wf(),
        call_ensures(Table::between, (table, low, high), part),
    ensures
        has_row(part.rows@, key, value) == (has_row(table.rows@, key, value)
            && !pending::bytes_before(key, low@) && pending::bytes_before(key, high@)),
{
    lemma_has_row(part, key, value);
    lemma_has_row(*table, key, value);
    if has_row(part.rows@, key, value) {
        assert(part.values().contains_key(key));
        assert(Table::key_range(low@, high@).contains(key));
    }
}

/// Two values are the same if both are missing, or both are there with the
/// same bytes.
pub proof fn law_same_values_have_the_same_bytes(
    a: &Option<Vec<u8>>,
    b: &Option<Vec<u8>>,
    same: bool,
)
    requires
        call_ensures(same_value, (a, b), same),
    ensures
        same == (*a is Some == *b is Some && (*a is Some ==> a->0@ == b->0@)),
{
}

} // verus!
