//! The workload of the live database suite, and what its readers must see.

use crate::table;
use crate::table::Table;
use crate::text;
use vstd::prelude::*;

verus! {

/// Keys that the workload cycles through.
pub const KEYS: u64 = 63;

/// Bytes of a value.
pub const VALUE_BYTES: usize = 16384;

/// Prefix that every scratch namespace of the suite begins with.
pub const SCRATCH_PREFIX: &'static str = "chorus-experiments/slatedb-readers-20260904-";

/// Whether two dots follow each other.
pub open spec fn leads_upwards(root: Seq<char>) -> bool {
    exists|i: int| 0 <= i < root.len() - 1 && #[trigger] root[i] == '.' && root[i + 1] == '.'
}

/// Whether a namespace may be used, and emptied, by the suite.
pub fn valid_scratch(root: &str) -> (valid: bool)
    ensures
        valid == (text::has_prefix(root@, SCRATCH_PREFIX@) && text::has_suffix(root@, "/"@)
            && !leads_upwards(root@)),
{
    if !text::starts_with(root, SCRATCH_PREFIX) || !text::ends_with(root, "/") {
        return false;
    }
    let n: usize = root.unicode_len();
    let mut i: usize = 0;
    while n - i > 1
        invariant
            n == root@.len(),
            i <= n,
            forall|j: int|
                0 <= j < i && j < n - 1 ==> !(#[trigger] root@[j] == '.' && root@[j + 1] == '.'),
        decreases n - i,
    {
        if root.get_char(i) == '.' && root.get_char(i + 1) == '.' {
            assert(root@[i as int] == '.');
            return false;
        }
        i = i + 1;
    }
    true
}

/// The digits of a number as bytes.
pub open spec fn digits(n: nat) -> Seq<u8>
    decreases n,
{
    if n < 10 {
        seq![(48 + n) as u8]
    } else {
        digits(n / 10).push((48 + n % 10) as u8)
    }
}

/// The key of a number: three digits at least.
pub open spec fn key_of(n: nat) -> Seq<u8> {
    seq![107u8, 101, 121, 47] + (if n < 10 {
        seq![48u8, 48]
    } else if n < 100 {
        seq![48u8]
    } else {
        Seq::empty()
    }) + digits(n)
}

fn push_digits(out: &mut Vec<u8>, n: u64)
    ensures
        final(out)@ == old(out)@ + digits(n as nat),
    decreases n,
{
    if n >= 10 {
        push_digits(out, n / 10);
    }
    out.push((48 + n % 10) as u8);
    proof {
        assert(out@ =~= old(out)@ + digits(n as nat));
    }
}

/// The key of a number, such as `key/007`.
pub fn key(n: u64) -> (bytes: Vec<u8>)
    ensures
        bytes@ == key_of(n as nat),
{
    let mut bytes: Vec<u8> = Vec::new();
    bytes.push(107);
    bytes.push(101);
    bytes.push(121);
    bytes.push(47);
    if n < 100 {
        bytes.push(48);
    }
    if n < 10 {
        bytes.push(48);
    }
    let ghost front = bytes@;
    push_digits(&mut bytes, n);
    proof {
        if n < 10 {
            assert(front =~= seq![107u8, 101, 121, 47] + seq![48u8, 48]);
        } else if n < 100 {
            assert(front =~= seq![107u8, 101, 121, 47] + seq![48u8]);
        } else {
            assert(front =~= seq![107u8, 101, 121, 47] + Seq::<u8>::empty());
        }
    }
    bytes
}

/// The low `count` bytes of a number, most significant first.
pub open spec fn low_bytes(n: nat, count: nat) -> Seq<u8>
    decreases count,
{
    if count == 0 {
        Seq::empty()
    } else {
        low_bytes(n / 256, (count - 1) as nat).push((n % 256) as u8)
    }
}

fn push_low_bytes(out: &mut Vec<u8>, n: u64, count: u8)
    ensures
        final(out)@ == old(out)@ + low_bytes(n as nat, count as nat),
    decreases count,
{
    if count > 0 {
        push_low_bytes(out, n / 256, count - 1);
        out.push((n % 256) as u8);
    }
    proof {
        assert(out@ =~= old(out)@ + low_bytes(n as nat, count as nat));
    }
}

/// The value that batch `n` writes: the number in eight bytes, then its low
/// byte over and over.
pub open spec fn value_of(n: nat) -> Seq<u8> {
    low_bytes(n, 8) + Seq::new((VALUE_BYTES - 8) as nat, |i: int| (n % 256) as u8)
}

fn value(n: u64) -> (bytes: Vec<u8>)
    ensures
        bytes@ == value_of(n as nat),
{
    let mut bytes: Vec<u8> = Vec::new();
    push_low_bytes(&mut bytes, n, 8);
    let ghost head = low_bytes(n as nat, 8);
    let fill: u8 = (n % 256) as u8;
    let mut i: usize = 0;
    proof {
        assert(bytes@ =~= head + Seq::new(0, |j: int| fill));
    }
    while i < VALUE_BYTES - 8
        invariant
            i <= VALUE_BYTES - 8,
            bytes@ == head + Seq::new(i as nat, |j: int| fill),
        decreases VALUE_BYTES - 8 - i,
    {
        bytes.push(fill);
        i = i + 1;
        proof {
            assert(bytes@ =~= head + Seq::new(i as nat, |j: int| fill));
        }
    }
    proof {
        assert(bytes@ =~= value_of(n as nat));
    }
    bytes
}

/// The key under which the last batch is found.
pub open spec fn last_batch_key() -> Seq<u8> {
    seq![108u8, 97, 115, 116, 45, 98, 97, 116, 99, 104]
}

/// One change: the value that a key gets, or `None` where it is deleted.
pub struct Change {
    /// The key.
    pub key: Vec<u8>,
    /// Its value.
    pub value: Option<Vec<u8>>,
}

/// A change as plain values.
pub open spec fn change_of(change: Change) -> (Seq<u8>, Option<Seq<u8>>) {
    (change.key@, table::optional_bytes(change.value))
}

/// The changes of batch `n`.
pub open spec fn changes_of(n: nat) -> Seq<(Seq<u8>, Option<Seq<u8>>)> {
    seq![
        (key_of(n % (KEYS as nat)), Some(value_of(n))),
        (key_of((n + 17) % (KEYS as nat)), None),
        (last_batch_key(), Some(low_bytes(n, 8))),
    ]
}

/// The changes of batch `n`: one key is written, another deleted, and the
/// batch's own number noted, all at once.
pub fn changes(n: u64) -> (all: Vec<Change>)
    requires
        n + 17 <= u64::MAX,
    ensures
        all@.map_values(|change: Change| change_of(change)) == changes_of(n as nat),
{
    let mut all: Vec<Change> = Vec::new();
    all.push(Change { key: key(n % KEYS), value: Some(value(n)) });
    all.push(Change { key: key((n + 17) % KEYS), value: None });
    let mut name: Vec<u8> = Vec::new();
    name.push(108);
    name.push(97);
    name.push(115);
    name.push(116);
    name.push(45);
    name.push(98);
    name.push(97);
    name.push(116);
    name.push(99);
    name.push(104);
    let mut number: Vec<u8> = Vec::new();
    push_low_bytes(&mut number, n, 8);
    proof {
        assert(name@ =~= last_batch_key());
        assert(number@ =~= low_bytes(n as nat, 8));
    }
    all.push(Change { key: name, value: Some(number) });
    proof {
        assert(all@.map_values(|change: Change| change_of(change)) =~= changes_of(n as nat));
    }
    all
}

/// The contents after one more change.
pub open spec fn changed(
    before: Map<Seq<u8>, Option<Seq<u8>>>,
    change: (Seq<u8>, Option<Seq<u8>>),
) -> Map<Seq<u8>, Option<Seq<u8>>> {
    match change.1 {
        Some(_) => before.insert(change.0, change.1),
        None => before.remove(change.0),
    }
}

/// The contents after more changes.
pub open spec fn all_changed(
    before: Map<Seq<u8>, Option<Seq<u8>>>,
    changes: Seq<(Seq<u8>, Option<Seq<u8>>)>,
) -> Map<Seq<u8>, Option<Seq<u8>>>
    decreases changes.len(),
{
    if changes.len() == 0 {
        before
    } else {
        changed(all_changed(before, changes.drop_last()), changes.last())
    }
}

/// The contents after the batches up to `n`.
pub open spec fn contents(n: nat) -> Map<Seq<u8>, Option<Seq<u8>>>
    decreases n,
{
    if n == 0 {
        Map::empty()
    } else {
        all_changed(contents((n - 1) as nat), changes_of(n))
    }
}

fn apply(model: &mut Table, change: Change)
    requires
        old(model).wf(),
    ensures
        final(model).wf(),
        final(model).values() == changed(old(model).values(), change_of(change)),
{
    if change.value.is_some() {
        model.put(change.key, change.value);
    } else {
        model.take_out(change.key.as_slice());
    }
}

/// The contents that the database must have after the batches up to `n`.
pub fn model(n: u64) -> (contained: Table)
    requires
        n + 17 <= u64::MAX,
    ensures
        contained.wf(),
        contained.values() == contents(n as nat),
{
    let mut contained = Table::new();
    let mut done: u64 = 0;
    while done < n
        invariant
            done <= n,
            n + 17 <= u64::MAX,
            contained.wf(),
            contained.values() == contents(done as nat),
        decreases n - done,
    {
        let batch: u64 = done + 1;
        let mut pending: Vec<Change> = changes(batch);
        let ghost all = changes_of(batch as nat);
        let ghost start = contained.values();
        proof {
            assert(pending@.map_values(|change: Change| change_of(change)).len() == 3);
        }
        let third = pending.pop();
        let second = pending.pop();
        let first = pending.pop();
        if let Some(one) = first {
            if let Some(two) = second {
                if let Some(three) = third {
                    proof {
                        assert(change_of(one) == all[0]);
                        assert(change_of(two) == all[1]);
                        assert(change_of(three) == all[2]);
                        assert(all.drop_last().drop_last().drop_last() =~= Seq::<
                            (Seq<u8>, Option<Seq<u8>>),
                        >::empty());
                        reveal_with_fuel(all_changed, 4);
                    }
                    apply(&mut contained, one);
                    apply(&mut contained, two);
                    apply(&mut contained, three);
                }
            }
        }
        proof {
            assert(contained.values() == all_changed(start, all));
        }
        done = done + 1;
    }
    contained
}

/// One row of a log file.
pub struct LogRow {
    /// Sequence number of the row.
    pub seq: u64,
    /// Key of the row.
    pub key: Vec<u8>,
    /// Value of the row; `None` for a deletion.
    pub value: Option<Vec<u8>>,
}

/// The rows of a batch as the log gives them.
pub struct LogRows {
    /// Number of the last file that was consumed.
    pub last_consumed_file: u64,
    /// The rows.
    pub rows: Vec<LogRow>,
}

/// Rows or changes by their keys; of several under one key the last counts.
pub open spec fn by_key(rows: Seq<(Seq<u8>, Option<Seq<u8>>)>) -> Map<Seq<u8>, Option<Seq<u8>>>
    decreases rows.len(),
{
    if rows.len() == 0 {
        Map::empty()
    } else {
        by_key(rows.drop_last()).insert(rows.last().0, rows.last().1)
    }
}

/// A row's key and value.
pub open spec fn row_of(row: LogRow) -> (Seq<u8>, Option<Seq<u8>>) {
    (row.key@, table::optional_bytes(row.value))
}

/// The rows' keys and values.
pub open spec fn rows_of(rows: Seq<LogRow>) -> Seq<(Seq<u8>, Option<Seq<u8>>)> {
    rows.map_values(|row: LogRow| row_of(row))
}

/// Whether all rows have this sequence number.
pub open spec fn one_sequence(rows: Seq<LogRow>, seq: u64) -> bool {
    forall|i: int| 0 <= i < rows.len() ==> (#[trigger] rows[i]).seq == seq
}

fn numbered(prefix: &str, n: u64) -> (message: String)
    ensures
        message@ == prefix@ + text::decimal(n as nat),
{
    let mut message = prefix.to_owned();
    text::push_decimal(&mut message, n);
    message
}

fn collect(rows: Vec<LogRow>) -> (found: Table)
    ensures
        found.wf(),
        found.values() == by_key(rows_of(rows@)),
{
    let mut found = Table::new();
    let ghost all = rows_of(rows@);
    let mut left: Vec<LogRow> = rows;
    let mut reversed: Vec<LogRow> = Vec::new();
    let ghost given = left@;
    while left.len() > 0
        invariant
            given.len() == left@.len() + reversed@.len(),
            forall|i: int| 0 <= i < left@.len() ==> left@[i] == given[i],
            forall|i: int|
                0 <= i < reversed@.len() ==> reversed@[i] == given[given.len() - 1 - i],
        decreases left@.len(),
    {
        if let Some(row) = left.pop() {
            reversed.push(row);
        }
    }
    proof {
        assert(all.take(0) =~= Seq::<(Seq<u8>, Option<Seq<u8>>)>::empty());
    }
    while reversed.len() > 0
        invariant
            all == rows_of(given),
            reversed@.len() <= given.len(),
            found.wf(),
            forall|i: int|
                0 <= i < reversed@.len() ==> reversed@[i] == given[given.len() - 1 - i],
            found.values() == by_key(all.take(given.len() - reversed@.len())),
        decreases reversed@.len(),
    {
        let ghost done = given.len() - reversed@.len();
        if let Some(row) = reversed.pop() {
            proof {
                assert(row == given[done]);
                assert(all.take(done + 1).drop_last() =~= all.take(done));
                assert(all.take(done + 1).last() == row_of(row));
            }
            found.put(row.key, row.value);
        }
    }
    proof {
        assert(all.take(given.len() as int) =~= all);
    }
    found
}

fn expected_rows(n: u64) -> (expected: Table)
    requires
        n + 17 <= u64::MAX,
    ensures
        expected.wf(),
        expected.values() == by_key(changes_of(n as nat)),
{
    let mut pending: Vec<Change> = changes(n);
    let mut rows: Vec<LogRow> = Vec::new();
    let ghost all = pending@;
    for change in iter: pending
        invariant
            iter.seq() == all,
            rows@.len() == iter.index(),
            forall|i: int|
                0 <= i < rows@.len() ==> row_of(#[trigger] rows@[i]) == change_of(all[i]),
    {
        rows.push(LogRow { seq: 0, key: change.key, value: change.value });
    }
    proof {
        let plain = all.map_values(|change: Change| change_of(change));
        assert forall|i: int| 0 <= i < plain.len() implies rows_of(rows@)[i] == plain[i] by {
            assert(row_of(rows@[i]) == change_of(all[i]));
        }
        assert(rows_of(rows@) =~= changes_of(n as nat));
    }
    collect(rows)
}

/// Checks the rows that a raw reader got for batch `n`: the next file, the
/// whole batch under one new sequence number, with the batch's own contents.
/// Gives that sequence number.
pub fn check_rows(batch: LogRows, n: u64, previous_seq: u64) -> (result: Result<u64, String>)
    requires
        n + 17 <= u64::MAX,
    ensures
        if batch.last_consumed_file != n {
            result matches Err(message) && message@ == "WAL gap: expected "@ + text::decimal(
                n as nat,
            ) + ", got "@ + text::decimal(batch.last_consumed_file as nat)
        } else if batch.rows@.len() != 3 {
            result matches Err(message) && message@ == "partial atomic batch "@ + text::decimal(
                n as nat,
            )
        } else if batch.rows@[0].seq <= previous_seq || !one_sequence(
            batch.rows@,
            batch.rows@[0].seq,
        ) {
            result matches Err(message) && message@ == "invalid batch sequence "@ + text::decimal(
                n as nat,
            )
        } else if by_key(rows_of(batch.rows@)) != by_key(changes_of(n as nat)) {
            result matches Err(message) && message@ == "WAL contents differ in batch "@
                + text::decimal(n as nat)
        } else {
            result matches Ok(seq) && seq == batch.rows@[0].seq
        },
{
    if batch.last_consumed_file != n {
        let mut message = numbered("WAL gap: expected ", n);
        message.append(", got ");
        text::push_decimal(&mut message, batch.last_consumed_file);
        return Err(message);
    }
    if batch.rows.len() != 3 {
        return Err(numbered("partial atomic batch ", n));
    }
    let seq: u64 = batch.rows[0].seq;
    if seq <= previous_seq || batch.rows[1].seq != seq || batch.rows[2].seq != seq {
        proof {
            if seq > previous_seq {
                if batch.rows@[1].seq != seq {
                    assert(!one_sequence(batch.rows@, seq));
                } else {
                    assert(batch.rows@[2].seq != seq);
                    assert(!one_sequence(batch.rows@, seq));
                }
            }
        }
        return Err(numbered("invalid batch sequence ", n));
    }
    proof {
        assert forall|i: int| 0 <= i < batch.rows@.len() implies (#[trigger] batch.rows@[i]).seq
            == seq by {
            assert(i == 0 || i == 1 || i == 2);
        }
    }
    let actual = collect(batch.rows);
    let expected = expected_rows(n);
    if !actual.same(&expected) {
        return Err(numbered("WAL contents differ in batch ", n));
    }
    Ok(seq)
}

/// The keys that one batch writes and deletes are different, so its changes do
/// not depend on their order.
pub proof fn law_batch_changes_distinct_keys(n: nat)
    ensures
        n % (KEYS as nat) != (n + 17) % (KEYS as nat),
{
}

/// After every batch the database knows its number.
pub proof fn law_contents_name_the_last_batch(n: nat)
    requires
        n > 0,
    ensures
        contents(n).contains_key(last_batch_key()),
        contents(n)[last_batch_key()] == Some(low_bytes(n, 8)),
{
    let all = changes_of(n);
    assert(all.last() == (last_batch_key(), Some(low_bytes(n, 8))));
}

/// A scratch namespace lies below the suite's own prefix, ends in a slash and
/// never leads upwards.
pub proof fn law_scratch_stays_below_its_prefix(root: &str, valid: bool)
    requires
        call_ensures(valid_scratch, (root,), valid),
    ensures
        valid == ("chorus-experiments/slatedb-readers-20260904-"@.is_prefix_of(root@)
            && root@.last() == '/' && forall|i: int|
            0 <= i && i + 1 < root@.len() && #[trigger] root@[i] == '.' ==> root@[i + 1] != '.'),
{
    reveal_strlit("chorus-experiments/slatedb-readers-20260904-");
    reveal_strlit("/");
    let prefix = "chorus-experiments/slatedb-readers-20260904-"@;
    if prefix.is_prefix_of(root@) {
        assert(root@.take(prefix.len() as int) =~= prefix);
        assert(root@.skip(root@.len() - 1) =~= seq![root@.last()]);
        assert("/"@ =~= seq!['/']);
        if root@.last() == '/' {
            assert(text::has_suffix(root@, "/"@));
        }
    }
    if valid {
        assert(prefix =~= root@.subrange(0, prefix.len() as int));
        assert(root@.skip(root@.len() - 1)[0] == '/');
    }
}

/// The keys of numbers below a thousand have three digits behind `key/`.
pub proof fn law_keys_have_three_digits(n: u64, bytes: Vec<u8>)
    requires
        n < 1000,
        call_ensures(key, (n,), bytes),
    ensures
        bytes@.len() == 7,
        bytes@[0] == 'k' as u8 && bytes@[1] == 'e' as u8 && bytes@[2] == 'y' as u8 && bytes@[3]
            == '/' as u8,
        bytes@[4] == '0' as u8 + n / 100,
        bytes@[5] == '0' as u8 + n / 10 % 10,
        bytes@[6] == '0' as u8 + n % 10,
{
    reveal_with_fuel(digits, 4);
    let m = n as nat;
    assert(m / 10 / 10 == m / 100);
    if m < 10 {
        assert(bytes@ =~= seq![107u8, 101, 121, 47, 48, 48, (48 + m) as u8]);
    } else if m < 100 {
        assert(bytes@ =~= seq![107u8, 101, 121, 47, 48, (48 + m / 10) as u8, (48 + m % 10) as u8]);
    } else {
        assert(bytes@ =~= seq![
            107u8,
            101,
            121,
            47,
            (48 + m / 100) as u8,
            (48 + m / 10 % 10) as u8,
            (48 + m % 10) as u8,
        ]);
    }
}

/// The key of a longer number has one digit more than that of its tenth part.
pub proof fn law_longer_keys_have_more_digits(n: u64, bytes: Vec<u8>, shorter: Vec<u8>)
    requires
        n >= 1000,
        call_ensures(key, (n,), bytes),
        call_ensures(key, ((n / 10) as u64,), shorter),
    ensures
        bytes@ == shorter@.push(('0' as u8 + n % 10) as u8),
{
    assert(bytes@ =~= shorter@.push((48 + n % 10) as u8));
}

proof fn lemma_low_bytes(n: nat)
    requires
        n <= u64::MAX,
    ensures
        low_bytes(n, 8).len() == 8,
        n == low_bytes(n, 8)[0] * 0x100_0000_0000_0000 + low_bytes(n, 8)[1] * 0x1_0000_0000_0000
            + low_bytes(n, 8)[2] * 0x100_0000_0000 + low_bytes(n, 8)[3] * 0x1_0000_0000
            + low_bytes(n, 8)[4] * 0x100_0000 + low_bytes(n, 8)[5] * 0x1_0000 + low_bytes(n, 8)[6]
            * 0x100 + low_bytes(n, 8)[7],
{
    reveal_with_fuel(low_bytes, 9);
    let a = n / 256;
    let b = a / 256;
    let c = b / 256;
    let d = c / 256;
    let e = d / 256;
    let f = e / 256;
    let g = f / 256;
    assert(low_bytes(n, 8) =~= seq![
        (g % 256) as u8,
        (f % 256) as u8,
        (e % 256) as u8,
        (d % 256) as u8,
        (c % 256) as u8,
        (b % 256) as u8,
        (a % 256) as u8,
        (n % 256) as u8,
    ]);
}

/// A batch writes one key, deletes the key seventeen further round the circle
/// of sixty-three, and notes its own number. The value written begins with the
/// number, most significant byte first, and is filled up with its low byte.
pub proof fn law_batches_write_delete_and_count(
    n: u64,
    all: Vec<Change>,
    written: Vec<u8>,
    deleted: Vec<u8>,
)
    requires
        n + 17 <= u64::MAX,
        call_ensures(changes, (n,), all),
        call_ensures(key, ((n % 63) as u64,), written),
        call_ensures(key, (((n + 17) % 63) as u64,), deleted),
    ensures
        all@.len() == 3,
        all@[0].key@ == written@,
        all@[0].value matches Some(value) && {
            &&& value@.len() == 16384
            &&& n == value@[0] * 0x100_0000_0000_0000 + value@[1] * 0x1_0000_0000_0000 + value@[2]
                * 0x100_0000_0000 + value@[3] * 0x1_0000_0000 + value@[4] * 0x100_0000 + value@[5]
                * 0x1_0000 + value@[6] * 0x100 + value@[7]
            &&& forall|i: int| 8 <= i < 16384 ==> #[trigger] value@[i] == n % 256
        },
        all@[1].key@ == deleted@,
        all@[1].value is None,
        all@[2].key@ == seq![
            'l' as u8,
            'a' as u8,
            's' as u8,
            't' as u8,
            '-' as u8,
            'b' as u8,
            'a' as u8,
            't' as u8,
            'c' as u8,
            'h' as u8,
        ],
        all@[2].value matches Some(value) && value@ == all@[0].value->0@.take(8),
{
    let plain = all@.map_values(|change: Change| change_of(change));
    assert(plain.len() == 3);
    assert(plain[0] == change_of(all@[0]));
    assert(plain[1] == change_of(all@[1]));
    assert(plain[2] == change_of(all@[2]));
    lemma_low_bytes(n as nat);
    let head = low_bytes(n as nat, 8);
    assert(value_of(n as nat).take(8) =~= head);
    assert(forall|i: int| 0 <= i < 8 ==> #[trigger] value_of(n as nat)[i] == head[i]);
}

/// The expected contents before the first batch are empty.
pub proof fn law_model_begins_empty(
    contained: Table,
    asked: Seq<u8>,
    answer: Option<Seq<u8>>,
)
    requires
        call_ensures(model, (0u64,), contained),
    ensures
        !table::has_row(contained.rows@, asked, answer),
{
    table::lemma_has_row(contained, asked, answer);
}

/// The expected contents after one more batch are those before it with the
/// batch's changes made: its values replace what was there, what it deletes is
/// gone, and everything else stays.
pub proof fn law_model_takes_batches_in(
    n: u64,
    before: Table,
    after: Table,
    all: Vec<Change>,
    asked: Seq<u8>,
    answer: Option<Seq<u8>>,
)
    requires
        n + 18 <= u64::MAX,
        call_ensures(model, (n,), before),
        call_ensures(model, ((n + 1) as u64,), after),
        call_ensures(changes, ((n + 1) as u64,), all),
    ensures
        all@.len() == 3,
        asked == all@[0].key@ ==> table::has_row(after.rows@, asked, answer) == (answer
            == Some(all@[0].value->0@)),
        asked == all@[1].key@ ==> !table::has_row(after.rows@, asked, answer),
        asked == all@[2].key@ ==> table::has_row(after.rows@, asked, answer) == (answer
            == Some(all@[2].value->0@)),
        asked != all@[0].key@ && asked != all@[1].key@ && asked != all@[2].key@
            ==> table::has_row(after.rows@, asked, answer) == table::has_row(
            before.rows@,
            asked,
            answer,
        ),
{
    table::lemma_has_row(before, asked, answer);
    table::lemma_has_row(after, asked, answer);
    let m = (n + 1) as nat;
    let plain = all@.map_values(|change: Change| change_of(change));
    assert(plain.len() == 3);
    assert(plain[0] == change_of(all@[0]));
    assert(plain[1] == change_of(all@[1]));
    assert(plain[2] == change_of(all@[2]));
    lemma_changed_keys_differ(m);
    reveal_with_fuel(all_changed, 4);
    let changes = changes_of(m);
    assert(changes.drop_last().drop_last().drop_last() =~= Seq::<
        (Seq<u8>, Option<Seq<u8>>),
    >::empty());
    assert(contents(m) == all_changed(contents(n as nat), changes));
}

proof fn lemma_key_digits(n: nat)
    requires
        n < 100,
    ensures
        key_of(n).len() == 7,
        key_of(n)[5] == 48 + n / 10,
        key_of(n)[6] == 48 + n % 10,
{
    reveal_with_fuel(digits, 3);
    if n < 10 {
        assert(key_of(n) =~= seq![107u8, 101, 121, 47, 48, 48, (48 + n) as u8]);
    } else {
        assert(key_of(n) =~= seq![
            107u8,
            101,
            121,
            47,
            48,
            (48 + n / 10) as u8,
            (48 + n % 10) as u8,
        ]);
    }
}

proof fn lemma_changed_keys_differ(n: nat)
    ensures
        changes_of(n)[0].0 != changes_of(n)[1].0,
        changes_of(n)[0].0 != changes_of(n)[2].0,
        changes_of(n)[1].0 != changes_of(n)[2].0,
{
    lemma_key_digits(n % (KEYS as nat));
    lemma_key_digits((n + 17) % (KEYS as nat));
    assert(last_batch_key().len() == 10);
}

/// Rows are accepted only as the next file, whole, under one sequence number
/// that is new, and with every change of the batch among them.
pub proof fn law_accepted_rows_are_the_batch(
    batch: LogRows,
    n: u64,
    previous_seq: u64,
    result: Result<u64, String>,
    all: Vec<Change>,
    i: int,
)
    requires
        n + 17 <= u64::MAX,
        call_ensures(check_rows, (batch, n, previous_seq), result),
        call_ensures(changes, (n,), all),
        result is Ok,
        0 <= i < 3,
    ensures
        batch.last_consumed_file == n,
        batch.rows@.len() == 3,
        result->Ok_0 > previous_seq,
        forall|j: int| 0 <= j < 3 ==> (#[trigger] batch.rows@[j]).seq == result->Ok_0,
        exists|j: int|
            {
                &&& 0 <= j < 3
                &&& (#[trigger] batch.rows@[j]).key@ == all@[i].key@
                &&& batch.rows@[j].value is Some == all@[i].value is Some
                &&& batch.rows@[j].value is Some ==> batch.rows@[j].value->0@ == all@[i].value->0@
            },
{
    let plain = all@.map_values(|change: Change| change_of(change));
    assert(plain.len() == 3);
    assert(plain[i] == change_of(all@[i]));
    let rows = rows_of(batch.rows@);
    lemma_changed_keys_differ(n as nat);
    lemma_by_key_of_three(changes_of(n as nat));
    lemma_by_key_of_three(rows);
    let wanted = changes_of(n as nat)[i];
    assert(wanted == plain[i]);
    assert(by_key(rows).contains_key(wanted.0));
    assert(by_key(rows)[wanted.0] == wanted.1);
    let j = if rows[2].0 == wanted.0 {
        2int
    } else if rows[1].0 == wanted.0 {
        1int
    } else {
        0int
    };
    assert(rows[j] == wanted);
    assert(rows[j] == row_of(batch.rows@[j]));
}

proof fn lemma_by_key_of_three(rows: Seq<(Seq<u8>, Option<Seq<u8>>)>)
    requires
        rows.len() == 3,
    ensures
        by_key(rows) == Map::<Seq<u8>, Option<Seq<u8>>>::empty().insert(
            rows[0].0,
            rows[0].1,
        ).insert(rows[1].0, rows[1].1).insert(rows[2].0, rows[2].1),
{
    reveal_with_fuel(by_key, 4);
}

/// The batch itself is accepted: the next file with its three changes in
/// order, under one new sequence number, which is given back.
pub proof fn law_the_batch_is_accepted(
    batch: LogRows,
    n: u64,
    previous_seq: u64,
    result: Result<u64, String>,
    all: Vec<Change>,
)
    requires
        n + 17 <= u64::MAX,
        call_ensures(check_rows, (batch, n, previous_seq), result),
        call_ensures(changes, (n,), all),
        batch.last_consumed_file == n,
        batch.rows@.len() == 3,
        forall|j: int|
            0 <= j < 3 ==> {
                &&& (#[trigger] batch.rows@[j]).seq == batch.rows@[0].seq
                &&& batch.rows@[j].key@ == all@[j].key@
                &&& batch.rows@[j].value is Some == all@[j].value is Some
                &&& batch.rows@[j].value is Some ==> batch.rows@[j].value->0@ == all@[j].value->0@
            },
    ensures
        result is Ok <==> batch.rows@[0].seq > previous_seq,
        result is Ok ==> result->Ok_0 == batch.rows@[0].seq,
{
    let plain = all@.map_values(|change: Change| change_of(change));
    assert(plain.len() == 3);
    assert forall|j: int| 0 <= j < 3 implies rows_of(batch.rows@)[j] == changes_of(n as nat)[j] by {
        assert(plain[j] == change_of(all@[j]));
        assert(row_of(batch.rows@[j]) == change_of(all@[j]));
    }
    assert(rows_of(batch.rows@) =~= changes_of(n as nat));
}

} // verus!
