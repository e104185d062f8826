use vstd::prelude::*;

verus! {

/// The two physical wire encodings that share one logical data model.
#[derive(Debug, Clone, Copy, PartialEq, Eq, Structural)]
pub enum Backend {
    /// A text tree without byte strings or tags (JSON).
    Text,
    /// A binary tagged form with byte strings and semantic tags (CBOR).
    Binary,
}

/// A document value, in the data model common to both backends.
///
/// A floating-point number is held as its IEEE 754 binary64 bit pattern, so
/// that it passes through unchanged.
#[derive(Debug, PartialEq)]
pub enum Value {
    Null,
    Bool(bool),
    Integer(i128),
    Float(u64),
    Text(String),
    Bytes(Vec<u8>),
    Tag(u64, Box<Value>),
    Array(Vec<Value>),
    Object(Vec<(String, Value)>),
}

/// The value of the last entry under `key`, if any.
pub open spec fn lookup(fields: Seq<(String, Value)>, key: Seq<char>) -> Option<Value>
    decreases fields.len(),
{
    if fields.len() == 0 {
        None
    } else if fields.last().0@ == key {
        Some(fields.last().1)
    } else {
        lookup(fields.drop_last(), key)
    }
}

/// In a list of two entries under distinct keys, each key finds its entry.
pub proof fn lemma_lookup_pair(fields: Seq<(String, Value)>)
    requires
        fields.len() == 2,
        fields[0].0@ != fields[1].0@,
    ensures
        lookup(fields, fields[0].0@) == Some(fields[0].1),
        lookup(fields, fields[1].0@) == Some(fields[1].1),
{
    assert(fields.drop_last().last() == fields[0]);
    assert(fields.drop_last().drop_last().len() == 0);
    assert(lookup(fields.drop_last(), fields[0].0@) == Some(fields[0].1));
}

/// Whether every key of `fields` is one of `known`.
pub open spec fn keys_within(fields: Seq<(String, Value)>, known: Seq<Seq<char>>) -> bool {
    forall|i: int| 0 <= i < fields.len() ==> known.contains(#[trigger] fields[i].0@)
}

/// An entry whose key no later entry has is what its key finds.
pub proof fn lemma_lookup_at(fields: Seq<(String, Value)>, i: int)
    requires
        0 <= i < fields.len(),
        forall|j: int| i < j < fields.len() ==> #[trigger] fields[j].0@ != fields[i].0@,
    ensures
        lookup(fields, fields[i].0@) == Some(fields[i].1),
    decreases fields.len(),
{
    if i < fields.len() - 1 {
        let d = fields.drop_last();
        assert(fields[fields.len() - 1].0@ != fields[i].0@);
        assert forall|j: int| i < j < d.len() implies #[trigger] d[j].0@ != d[i].0@ by {
            assert(d[j] == fields[j]);
        }
        lemma_lookup_at(d, i);
    }
}

/// A key that no entry has finds nothing.
pub proof fn lemma_lookup_absent(fields: Seq<(String, Value)>, k: Seq<char>)
    requires
        forall|j: int| 0 <= j < fields.len() ==> #[trigger] fields[j].0@ != k,
    ensures
        lookup(fields, k) is None,
    decreases fields.len(),
{
    if fields.len() > 0 {
        let d = fields.drop_last();
        assert(fields[fields.len() - 1].0@ != k);
        assert forall|j: int| 0 <= j < d.len() implies #[trigger] d[j].0@ != k by {
            assert(d[j] == fields[j]);
        }
        lemma_lookup_absent(d, k);
    }
}

/// Keys within `a` are within any `b` that holds every key of `a`.
pub proof fn lemma_keys_within_subset(fields: Seq<(String, Value)>, a: Seq<Seq<char>>, b: Seq<Seq<char>>)
    requires
        keys_within(fields, a),
        forall|i: int| 0 <= i < a.len() ==> b.contains(#[trigger] a[i]),
    ensures
        keys_within(fields, b),
{
    assert forall|i: int| 0 <= i < fields.len() implies b.contains(#[trigger] fields[i].0@) by {
        let j = choose|j: int| 0 <= j < a.len() && a[j] == fields[i].0@;
        assert(b.contains(a[j]));
    }
}

/// The keys of a field list, in order.
pub open spec fn keys(fields: Seq<(String, Value)>) -> Seq<Seq<char>> {
    fields.map_values(|e: (String, Value)| e.0@)
}

/// Whether `k` equals `lit`.
pub fn key_is(k: &String, lit: &str) -> (r: bool)
    ensures
        r == (k@ == lit@),
{
    let l = lit.to_owned();
    *k == l
}

/// Whether two strings hold the same characters.
pub fn text_is(s: &str, lit: &str) -> (r: bool)
    ensures
        r == (s@ == lit@),
{
    let a = s.to_owned();
    let b = lit.to_owned();
    a == b
}

/// The value of the last entry of `fields` under `key`.
pub fn field<'a>(fields: &'a Vec<(String, Value)>, key: &str) -> (r: Option<&'a Value>)
    ensures
        match r {
            Some(v) => lookup(fields@, key@) == Some(*v),
            None => lookup(fields@, key@) is None,
        },
{
    let mut found: Option<&Value> = None;
    let mut i: usize = 0;
    while i < fields.len()
        invariant
            i <= fields@.len(),
            match found {
                Some(v) => lookup(fields@.subrange(0, i as int), key@) == Some(*v),
                None => lookup(fields@.subrange(0, i as int), key@) is None,
            },
        decreases fields@.len() - i,
    {
        assert(fields@.subrange(0, i + 1).drop_last() == fields@.subrange(0, i as int));
        if key_is(&fields[i].0, key) {
            found = Some(&fields[i].1);
        }
        i = i + 1;
    }
    assert(fields@.subrange(0, fields@.len() as int) == fields@);
    found
}

} // verus!
