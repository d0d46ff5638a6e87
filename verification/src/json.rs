//! JSON texts: objects of strings, and single members of a document.

use crate::archive;
use crate::transport;
use crate::transport::MetadataEntry;
use vstd::prelude::*;

verus! {

/// The fields of a body that holds a JSON object of strings, as
/// `serde_json::from_slice` reads them into a map, or the text of its error.
pub uninterp spec fn json_fields(body: Seq<u8>) -> Result<Set<(Seq<char>, Seq<char>)>, Seq<char>>;

/// Why `serde_json::from_str` cannot read a text as a document; `None` where it
/// can.
pub uninterp spec fn json_error(text: Seq<char>) -> Option<Seq<char>>;

/// The string at a JSON pointer into a document, as `serde_json::Value::pointer`
/// and `as_str` find it; `None` where there is no string.
pub uninterp spec fn json_string_at(text: Seq<char>, pointer: Seq<char>) -> Option<Seq<char>>;

/// The unsigned number at a JSON pointer into a document, as
/// `serde_json::Value::pointer` and `as_u64` find it; `None` where there is none.
pub uninterp spec fn json_number_at(text: Seq<char>, pointer: Seq<char>) -> Option<u64>;

/// Keys and values as pairs of texts.
pub open spec fn pairs_of(pairs: Seq<(String, String)>) -> Set<(Seq<char>, Seq<char>)> {
    Set::new(
        |pair: (Seq<char>, Seq<char>)|
            exists|i: int|
                0 <= i < pairs.len() && (#[trigger] pairs[i]).0@ == pair.0 && pairs[i].1@
                    == pair.1,
    )
}

/// Keys and values as texts, in order.
pub open spec fn pair_texts(pairs: Seq<(String, String)>) -> Seq<(Seq<char>, Seq<char>)> {
    Seq::new(pairs.len(), |i: int| (pairs[i].0@, pairs[i].1@))
}

/// Names and values as texts, in order.
pub open spec fn field_texts(fields: Seq<MetadataEntry>) -> Seq<(Seq<char>, Seq<char>)> {
    Seq::new(fields.len(), |i: int| (fields[i].key@, fields[i].value@))
}

/// Bytes of the members of a compact JSON object of these strings: each is a
/// key, a colon and a value, and a comma stands between two.
pub open spec fn member_bytes(pairs: Seq<(Seq<char>, Seq<char>)>) -> nat
    decreases pairs.len(),
{
    if pairs.len() == 0 {
        0
    } else {
        let last = pairs.last();
        let member = archive::json_string_bytes(last.0) + 1 + archive::json_string_bytes(last.1);
        let comma: nat = if pairs.len() == 1 {
            0
        } else {
            1
        };
        member_bytes(pairs.drop_last()) + comma + member
    }
}

/// Bytes of a compact JSON object of these strings, braces included. They do not
/// depend on the order of the members.
pub open spec fn object_bytes(pairs: Seq<(Seq<char>, Seq<char>)>) -> nat {
    2 + member_bytes(pairs)
}

/// The body is read as these fields.
pub open spec fn holds_fields(body: Seq<u8>, fields: Set<(Seq<char>, Seq<char>)>) -> bool {
    json_fields(body) matches Ok(read) && read == fields
}

/// No key occurs twice.
pub open spec fn distinct(pairs: Seq<(String, String)>) -> bool {
    forall|i: int, j: int|
        0 <= i < j < pairs.len() ==> (#[trigger] pairs[i]).0@ != (#[trigger] pairs[j]).0@
}

/// No field occurs twice.
pub open spec fn distinct_fields(fields: Seq<MetadataEntry>) -> bool {
    forall|i: int, j: int|
        0 <= i < j < fields.len() ==> (#[trigger] fields[i]).key@ != (#[trigger] fields[j]).key@
}

/// `serde_json::from_slice` into a map of strings: it gives every field of the
/// object once, in no particular order, or an error whose text depends on the
/// body alone.
#[verifier::external_body]
fn parse_object(body: &[u8]) -> (result: Result<Vec<(String, String)>, String>)
    ensures
        match json_fields(body@) {
            Ok(fields) => result matches Ok(pairs) && pairs_of(pairs@) == fields && distinct(
                pairs@,
            ),
            Err(text) => result matches Err(message) && message@ == text,
        },
{
    match serde_json::from_slice::<std::collections::HashMap<String, String>>(body) {
        Ok(fields) => Ok(fields.into_iter().collect()),
        Err(error) => Err(error.to_string()),
    }
}

/// `serde_json::to_vec` on a map of strings, which never fails: a compact object
/// whose members stand in no particular order. Reading the bytes gives the same
/// fields again.
#[verifier::external_body]
fn write_object(pairs: Vec<(String, String)>) -> (result: Result<Vec<u8>, String>)
    requires
        distinct(pairs@),
    ensures
        result is Ok,
        holds_fields(result->Ok_0@, pairs_of(pairs@)),
        result->Ok_0@.len() == object_bytes(pair_texts(pairs@)),
{
    let fields: std::collections::HashMap<String, String> = pairs.into_iter().collect();
    serde_json::to_vec(&fields).map_err(|error| error.to_string())
}

/// `serde_json::from_str` on a document, then `Value::pointer` and
/// `Value::as_str`.
#[verifier::external_body]
pub(crate) fn string_at(text: &str, pointer: &str) -> (result: Result<Option<String>, String>)
    ensures
        match json_error(text@) {
            Some(reason) => result matches Err(message) && message@ == reason,
            None => result matches Ok(found) && match json_string_at(text@, pointer@) {
                Some(value) => found matches Some(string) && string@ == value,
                None => found is None,
            },
        },
{
    match serde_json::from_str::<serde_json::Value>(text) {
        Ok(value) => Ok(value.pointer(pointer).and_then(|at| at.as_str()).map(str::to_owned)),
        Err(error) => Err(error.to_string()),
    }
}

/// `serde_json::from_str` on a document, then `Value::pointer` and
/// `Value::as_u64`.
#[verifier::external_body]
pub(crate) fn number_at(text: &str, pointer: &str) -> (result: Result<Option<u64>, String>)
    ensures
        match json_error(text@) {
            Some(reason) => result matches Err(message) && message@ == reason,
            None => result matches Ok(found) && found == json_number_at(text@, pointer@),
        },
{
    match serde_json::from_str::<serde_json::Value>(text) {
        Ok(value) => Ok(value.pointer(pointer).and_then(|at| at.as_u64())),
        Err(error) => Err(error.to_string()),
    }
}

proof fn lemma_same_pairs(pairs: Seq<(String, String)>, fields: Seq<MetadataEntry>)
    requires
        pairs.len() == fields.len(),
        forall|i: int|
            0 <= i < pairs.len() ==> (#[trigger] pairs[i]).0@ == fields[i].key@ && pairs[i].1@
                == fields[i].value@,
    ensures
        pairs_of(pairs) == transport::metadata_pairs(fields),
        pair_texts(pairs) == field_texts(fields),
        distinct(pairs) <==> distinct_fields(fields),
{
    assert forall|pair: (Seq<char>, Seq<char>)|
        pairs_of(pairs).contains(pair) <==> transport::metadata_pairs(fields).contains(pair) by {
        if pairs_of(pairs).contains(pair) {
            let i = choose|i: int|
                0 <= i < pairs.len() && (#[trigger] pairs[i]).0@ == pair.0 && pairs[i].1@
                    == pair.1;
            assert(fields[i].key@ == pair.0);
        }
        if transport::metadata_pairs(fields).contains(pair) {
            let i = choose|i: int|
                0 <= i < fields.len() && (#[trigger] fields[i]).key@ == pair.0
                    && fields[i].value@ == pair.1;
            assert(pairs[i].0@ == pair.0);
        }
    }
    assert(pairs_of(pairs) =~= transport::metadata_pairs(fields));
    assert(pair_texts(pairs) =~= field_texts(fields));
    if distinct_fields(fields) {
        assert forall|i: int, j: int| 0 <= i < j < pairs.len() implies (
        #[trigger] pairs[i]).0@ != (#[trigger] pairs[j]).0@ by {
            assert(fields[i].key@ != fields[j].key@);
        }
    }
    if distinct(pairs) {
        assert forall|i: int, j: int| 0 <= i < j < fields.len() implies (
        #[trigger] fields[i]).key@ != (#[trigger] fields[j]).key@ by {
            assert(pairs[i].0@ != pairs[j].0@);
        }
    }
}

/// The fields of a JSON object of strings, each once.
pub fn read_fields(body: &[u8]) -> (result: Result<Vec<MetadataEntry>, String>)
    ensures
        match json_fields(body@) {
            Ok(pairs) => result matches Ok(fields) && transport::metadata_pairs(fields@) == pairs
                && distinct_fields(fields@),
            Err(text) => result matches Err(message) && message@ == text,
        },
{
    match parse_object(body) {
        Ok(pairs) => {
            let ghost all = pairs@;
            let mut fields: Vec<MetadataEntry> = Vec::new();
            let mut i: usize = 0;
            while i < pairs.len()
                invariant
                    i <= pairs@.len(),
                    pairs@ == all,
                    fields@.len() == i,
                    forall|k: int|
                        0 <= k < i ==> (#[trigger] all[k]).0@ == fields@[k].key@ && all[k].1@
                            == fields@[k].value@,
                decreases pairs@.len() - i,
            {
                let key: String = pairs[i].0.clone();
                let value: String = pairs[i].1.clone();
                fields.push(MetadataEntry { key, value });
                i = i + 1;
            }
            proof {
                lemma_same_pairs(all, fields@);
            }
            Ok(fields)
        },
        Err(message) => Err(message),
    }
}

/// A JSON object of these fields.
pub fn write_fields(fields: &Vec<MetadataEntry>) -> (result: Result<Vec<u8>, String>)
    requires
        distinct_fields(fields@),
    ensures
        result matches Ok(body) && holds_fields(body@, transport::metadata_pairs(fields@))
            && body@.len() == object_bytes(field_texts(fields@)),
{
    let mut pairs: Vec<(String, String)> = Vec::new();
    let mut i: usize = 0;
    while i < fields.len()
        invariant
            i <= fields@.len(),
            pairs@.len() == i,
            forall|k: int|
                0 <= k < i ==> (#[trigger] pairs@[k]).0@ == fields@[k].key@ && pairs@[k].1@
                    == fields@[k].value@,
        decreases fields@.len() - i,
    {
        let key: String = fields[i].key.clone();
        let value: String = fields[i].value.clone();
        pairs.push((key, value));
        i = i + 1;
    }
    proof {
        lemma_same_pairs(pairs@, fields@);
    }
    write_object(pairs)
}

/// Fields that are written as a JSON object are read back as they were, each
/// once.
pub proof fn law_fields_are_read_back(
    fields: &Vec<MetadataEntry>,
    written: Result<Vec<u8>, String>,
    body: &[u8],
    read: Result<Vec<MetadataEntry>, String>,
    same: bool,
)
    requires
        distinct_fields(fields@),
        call_ensures(write_fields, (fields,), written),
        written is Ok ==> body@ == written->Ok_0@,
        call_ensures(read_fields, (body,), read),
        read is Ok ==> call_ensures(transport::same_metadata, (&read->Ok_0, fields), same),
    ensures
        written is Ok,
        read is Ok,
        same,
        forall|i: int, j: int|
            0 <= i < j < read->Ok_0@.len() ==> (#[trigger] read->Ok_0@[i]).key@ != (
            #[trigger] read->Ok_0@[j]).key@,
{
}

} // verus!
