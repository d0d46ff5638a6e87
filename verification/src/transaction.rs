//! A length-prefixed envelope for the operations of one transaction.

use vstd::prelude::*;

verus! {

/// The four bytes of a number, most significant first.
pub open spec fn big_endian(n: u32) -> Seq<u8> {
    seq![
        (n / 0x1000000) as u8,
        ((n / 0x10000) % 256) as u8,
        ((n / 256) % 256) as u8,
        (n % 256) as u8,
    ]
}

/// The number of four bytes, most significant first.
pub open spec fn number(bytes: Seq<u8>) -> int {
    bytes[0] * 0x1000000 + bytes[1] * 0x10000 + bytes[2] * 256 + bytes[3]
}

fn push_u32(out: &mut Vec<u8>, n: u32)
    ensures
        final(out)@ == old(out)@ + big_endian(n),
{
    out.push((n / 0x1000000) as u8);
    out.push(((n / 0x10000) % 256) as u8);
    out.push(((n / 256) % 256) as u8);
    out.push((n % 256) as u8);
    proof {
        assert(out@ =~= old(out)@ + big_endian(n));
    }
}

/// The operations as byte strings.
pub open spec fn operation_bytes(operations: Seq<Vec<u8>>) -> Seq<Seq<u8>> {
    operations.map_values(|operation: Vec<u8>| operation@)
}

/// The operations, each behind its length.
pub open spec fn framed(operations: Seq<Seq<u8>>) -> Seq<u8>
    decreases operations.len(),
{
    if operations.len() == 0 {
        Seq::empty()
    } else {
        framed(operations.drop_last()) + big_endian(operations.last().len() as u32)
            + operations.last()
    }
}

/// The envelope: the number of operations, then each behind its length.
pub open spec fn envelope(operations: Seq<Seq<u8>>) -> Seq<u8> {
    big_endian(operations.len() as u32) + framed(operations)
}

/// Encodes the operations of one transaction into one record. A count or a
/// length is written with its low 32 bits.
pub fn encode_transaction(operations: &Vec<Vec<u8>>) -> (encoded: Vec<u8>)
    ensures
        encoded@ == envelope(operation_bytes(operations@)),
{
    let mut encoded: Vec<u8> = Vec::new();
    push_u32(&mut encoded, operations.len() as u32);
    let ghost all = operation_bytes(operations@);
    let ghost count = big_endian(all.len() as u32);
    let mut i: usize = 0;
    proof {
        assert(encoded@ =~= count + framed(all.take(0)));
    }
    while i < operations.len()
        invariant
            i <= operations@.len(),
            all == operation_bytes(operations@),
            encoded@ == count + framed(all.take(i as int)),
        decreases operations@.len() - i,
    {
        let operation = &operations[i];
        push_u32(&mut encoded, operation.len() as u32);
        encoded.extend_from_slice(operation.as_slice());
        proof {
            assert(all.take(i + 1).drop_last() =~= all.take(i as int));
            assert(all.take(i + 1).last() == operation@);
            assert(encoded@ =~= count + framed(all.take(i + 1)));
        }
        i = i + 1;
    }
    proof {
        assert(all.take(i as int) =~= all);
    }
    encoded
}

/// Four bytes give the number back that they were made of.
pub proof fn law_big_endian_is_read_back(n: u32)
    ensures
        big_endian(n).len() == 4,
        number(big_endian(n)) == n,
{
}

/// Operations whose count and lengths fit their fields can be told apart in
/// the envelope: two different transactions never have the same encoding.
pub proof fn law_envelopes_are_distinct(a: Seq<Seq<u8>>, b: Seq<Seq<u8>>)
    requires
        a.len() <= u32::MAX,
        b.len() <= u32::MAX,
        forall|i: int| 0 <= i < a.len() ==> (#[trigger] a[i]).len() <= u32::MAX,
        forall|i: int| 0 <= i < b.len() ==> (#[trigger] b[i]).len() <= u32::MAX,
        envelope(a) == envelope(b),
    ensures
        a == b,
{
    law_big_endian_is_read_back(a.len() as u32);
    law_big_endian_is_read_back(b.len() as u32);
    let head_a = big_endian(a.len() as u32);
    let head_b = big_endian(b.len() as u32);
    assert(envelope(a).take(4) =~= head_a);
    assert(envelope(b).take(4) =~= head_b);
    assert(a.len() == b.len());
    assert(envelope(a).skip(4) =~= framed(a));
    assert(envelope(b).skip(4) =~= framed(b));
    lemma_framed_distinct(a, b);
}

proof fn lemma_framed_front(s: Seq<Seq<u8>>)
    requires
        s.len() > 0,
    ensures
        framed(s) == big_endian(s[0].len() as u32) + s[0] + framed(s.drop_first()),
    decreases s.len(),
{
    if s.len() == 1 {
        assert(s.drop_first() =~= Seq::<Seq<u8>>::empty());
        assert(s.drop_last() =~= Seq::<Seq<u8>>::empty());
        assert(framed(s) =~= big_endian(s[0].len() as u32) + s[0] + framed(s.drop_first()));
    } else {
        lemma_framed_front(s.drop_last());
        assert(s.drop_last()[0] == s[0]);
        assert(s.drop_last().drop_first() =~= s.drop_first().drop_last());
        assert(s.drop_first().last() == s.last());
        assert(framed(s) =~= big_endian(s[0].len() as u32) + s[0] + framed(s.drop_first()));
    }
}

proof fn lemma_framed_distinct(a: Seq<Seq<u8>>, b: Seq<Seq<u8>>)
    requires
        a.len() == b.len(),
        forall|i: int| 0 <= i < a.len() ==> (#[trigger] a[i]).len() <= u32::MAX,
        forall|i: int| 0 <= i < b.len() ==> (#[trigger] b[i]).len() <= u32::MAX,
        framed(a) == framed(b),
    ensures
        a == b,
    decreases a.len(),
{
    if a.len() == 0 {
        assert(a =~= b);
    } else {
        lemma_framed_front(a);
        lemma_framed_front(b);
        law_big_endian_is_read_back(a[0].len() as u32);
        law_big_endian_is_read_back(b[0].len() as u32);
        let whole = framed(a);
        assert(whole.take(4) =~= big_endian(a[0].len() as u32));
        assert(whole.take(4) =~= big_endian(b[0].len() as u32));
        let n = a[0].len();
        assert(b[0].len() == n);
        assert(whole.subrange(4, (4 + n) as int) =~= a[0]);
        assert(whole.subrange(4, (4 + n) as int) =~= b[0]);
        assert(whole.skip((4 + n) as int) =~= framed(a.drop_first()));
        assert(whole.skip((4 + n) as int) =~= framed(b.drop_first()));
        assert forall|i: int| 0 <= i < a.drop_first().len() implies (#[trigger] a.drop_first()[i]).len() <= u32::MAX by {
            assert(a[i + 1].len() <= u32::MAX);
        }
        assert forall|i: int| 0 <= i < b.drop_first().len() implies (#[trigger] b.drop_first()[i]).len() <= u32::MAX by {
            assert(b[i + 1].len() <= u32::MAX);
        }
        lemma_framed_distinct(a.drop_first(), b.drop_first());
        assert(a =~= seq![a[0]] + a.drop_first());
        assert(b =~= seq![b[0]] + b.drop_first());
    }
}

/// An encoded transaction begins with the number of its operations, in four
/// bytes with the most significant first. One operation more adds its length, in
/// four bytes as well, and then its bytes, behind everything else.
pub proof fn law_operations_are_framed_in_order(
    fewer: &Vec<Vec<u8>>,
    before: Vec<u8>,
    operations: &Vec<Vec<u8>>,
    after: Vec<u8>,
    operation: Vec<u8>,
)
    requires
        call_ensures(encode_transaction, (fewer,), before),
        call_ensures(encode_transaction, (operations,), after),
        operations@ == fewer@.push(operation),
        operations@.len() <= u32::MAX,
        operation@.len() <= u32::MAX,
    ensures
        fewer@.len() == 0 ==> before@.len() == 4,
        before@.len() >= 4,
        before@[0] * 0x1000000 + before@[1] * 0x10000 + before@[2] * 256 + before@[3]
            == fewer@.len(),
        ({
            let added = after@.skip(before@.len() as int);
            &&& after@.len() == before@.len() + 4 + operation@.len()
            &&& after@.subrange(4, before@.len() as int) == before@.skip(4)
            &&& added[0] * 0x1000000 + added[1] * 0x10000 + added[2] * 256 + added[3]
                == operation@.len()
            &&& added.skip(4) == operation@
        }),
{
    let (a, b) = (operation_bytes(fewer@), operation_bytes(operations@));
    assert(b =~= a.push(operation@));
    assert(b.drop_last() =~= a);
    law_big_endian_is_read_back(a.len() as u32);
    law_big_endian_is_read_back(operation@.len() as u32);
    assert(before@ == big_endian(a.len() as u32) + framed(a));
    assert(before@.skip(4) =~= framed(a));
    assert(after@ =~= big_endian(b.len() as u32) + framed(a) + big_endian(
        operation@.len() as u32,
    ) + operation@);
    assert(after@.subrange(4, before@.len() as int) =~= framed(a));
    let added = after@.skip(before@.len() as int);
    assert(added =~= big_endian(operation@.len() as u32) + operation@);
    assert(added.skip(4) =~= operation@);
}

} // verus!
