use vstd::prelude::*;

use crate::error::DecodeError;
use crate::extension::{names, unclaimed};
use crate::value::{field, key_is, keys_within, lookup, Value};

verus! {

/// The optional text of a field: absent, or text.
pub open spec fn optional_text(v: Option<Value>) -> Result<Option<Seq<char>>, DecodeError> {
    match v {
        None => Ok(None),
        Some(Value::Text(t)) => Ok(Some(t@)),
        Some(_) => Err(DecodeError::InvalidType),
    }
}

/// The optional text of the field `key` of `fields`.
pub fn decode_optional_text(fields: &Vec<(String, Value)>, key: &str) -> (r: Result<
    Option<String>,
    DecodeError,
>)
    ensures
        match r {
            Ok(Some(t)) => optional_text(lookup(fields@, key@)) == Ok::<_, DecodeError>(Some(t@)),
            Ok(None) => optional_text(lookup(fields@, key@)) == Ok::<Option<Seq<char>>, DecodeError>(None),
            Err(e) => optional_text(lookup(fields@, key@)) == Err::<Option<Seq<char>>, _>(e),
        },
{
    match field(fields, key) {
        None => Ok(None),
        Some(Value::Text(t)) => Ok(Some(t.clone())),
        Some(_) => Err(DecodeError::InvalidType),
    }
}

/// Appends the field `key` with text `v`, if there is one.
pub fn push_optional_text(fields: &mut Vec<(String, Value)>, key: &str, v: &Option<String>)
    ensures
        match v {
            None => final(fields)@ == old(fields)@,
            Some(t) => {
                &&& final(fields)@.len() == old(fields)@.len() + 1
                &&& final(fields)@.drop_last() == old(fields)@
                &&& final(fields)@.last().0@ == key@
                &&& final(fields)@.last().1 matches Value::Text(s) && s@ == t@
            },
        },
{
    match v {
        None => {},
        Some(t) => {
            fields.push((key.to_owned(), Value::Text(t.clone())));
        },
    }
}


/// The optional texts of the fields `keys`, in order; the first field that is
/// present and not text is the error.
pub open spec fn optional_texts(fields: Seq<(String, Value)>, keys: Seq<Seq<char>>) -> Result<
    Seq<Option<Seq<char>>>,
    DecodeError,
>
    decreases keys.len(),
{
    if keys.len() == 0 {
        Ok(Seq::empty())
    } else {
        match optional_texts(fields, keys.drop_last()) {
            Err(e) => Err(e),
            Ok(prev) => match optional_text(lookup(fields, keys.last())) {
                Err(e) => Err(e),
                Ok(t) => Ok(prev.push(t)),
            },
        }
    }
}

/// The optional texts of `keys` are one for each key.
pub proof fn lemma_optional_texts_len(fields: Seq<(String, Value)>, keys: Seq<Seq<char>>)
    ensures
        optional_texts(fields, keys) matches Ok(v) ==> v.len() == keys.len(),
    decreases keys.len(),
{
    if keys.len() > 0 {
        lemma_optional_texts_len(fields, keys.drop_last());
    }
}

/// Takes the first of a list of optional texts.
pub fn take_first(v: &mut Vec<Option<String>>) -> (r: Option<String>)
    requires
        old(v)@.len() > 0,
    ensures
        r == old(v)@[0],
        final(v)@ == old(v)@.drop_first(),
{
    v.remove(0)
}

pub open spec fn opt_view(s: Option<String>) -> Option<Seq<char>> {
    match s {
        Some(t) => Some(t@),
        None => None,
    }
}

pub open spec fn opt_views(v: Seq<Option<String>>) -> Seq<Option<Seq<char>>> {
    v.map_values(|s: Option<String>| opt_view(s))
}

/// The optional texts of the fields `keys`, in order.
pub fn decode_optional_texts(fields: &Vec<(String, Value)>, keys: &[&str]) -> (r: Result<
    Vec<Option<String>>,
    DecodeError,
>)
    ensures
        match r {
            Ok(v) => optional_texts(fields@, names(keys@)) == Ok::<_, DecodeError>(opt_views(v@)),
            Err(e) => optional_texts(fields@, names(keys@)) == Err::<Seq<Option<Seq<char>>>, _>(e),
        },
{
    let mut out: Vec<Option<String>> = Vec::new();
    let mut i: usize = 0;
    assert(opt_views(out@) =~= Seq::<Option<Seq<char>>>::empty());
    assert(names(keys@).subrange(0, 0) =~= Seq::<Seq<char>>::empty());
    while i < keys.len()
        invariant
            i <= keys@.len(),
            optional_texts(fields@, names(keys@).subrange(0, i as int)) == Ok::<_, DecodeError>(
                opt_views(out@),
            ),
        decreases keys@.len() - i,
    {
        let ghost ks = names(keys@).subrange(0, i + 1);
        assert(ks.drop_last() == names(keys@).subrange(0, i as int));
        assert(ks.last() == keys@[i as int]@);
        match decode_optional_text(fields, keys[i]) {
            Err(e) => {
                proof {
                    lemma_optional_texts_error(fields@, names(keys@), i as int + 1);
                }
                return Err(e);
            },
            Ok(t) => {
                let ghost before = out@;
                let ghost tv = opt_view(t);
                assert(optional_text(lookup(fields@, ks.last())) == Ok::<_, DecodeError>(tv));
                out.push(t);
                assert(out@.drop_last() == before);
                assert(opt_views(out@) =~= opt_views(before).push(tv));
            },
        }
        i = i + 1;
    }
    assert(names(keys@).subrange(0, keys@.len() as int) == names(keys@));
    Ok(out)
}

/// An error on a prefix of the keys is the error on all of them.
pub proof fn lemma_optional_texts_error(fields: Seq<(String, Value)>, keys: Seq<Seq<char>>, n: int)
    requires
        0 <= n <= keys.len(),
        optional_texts(fields, keys.subrange(0, n)) is Err,
    ensures
        optional_texts(fields, keys) == optional_texts(fields, keys.subrange(0, n)),
    decreases keys.len() - n,
{
    if n < keys.len() {
        let next = keys.subrange(0, n + 1);
        assert(next.drop_last() == keys.subrange(0, n));
        lemma_optional_texts_error(fields, keys, n + 1);
    } else {
        assert(keys.subrange(0, n) == keys);
    }
}

/// Whether entry `e` is the field `key` with text `t`.
pub open spec fn text_entry(e: (String, Value), key: Seq<char>, t: Seq<char>) -> bool {
    &&& e.0@ == key
    &&& e.1 matches Value::Text(s) && s@ == t
}

/// Whether entry `e` is the field `key` with integer `n`.
pub open spec fn int_entry(e: (String, Value), key: Seq<char>, n: int) -> bool {
    e.0@ == key && e.1 == Value::Integer(n as i128)
}

/// Whether `f` holds, in order, the field of each key whose text is present,
/// and nothing else.
pub open spec fn optional_text_fields(
    f: Seq<(String, Value)>,
    keys: Seq<Seq<char>>,
    vals: Seq<Option<Seq<char>>>,
) -> bool
    decreases keys.len(),
{
    if keys.len() == 0 || vals.len() == 0 {
        f.len() == 0
    } else {
        match vals.last() {
            None => optional_text_fields(f, keys.drop_last(), vals.drop_last()),
            Some(t) => {
                &&& f.len() > 0
                &&& text_entry(f.last(), keys.last(), t)
                &&& optional_text_fields(f.drop_last(), keys.drop_last(), vals.drop_last())
            },
        }
    }
}

/// Appends each field of `keys` with its text, where there is one.
pub fn push_optional_texts(fields: &mut Vec<(String, Value)>, keys: &[&str], values: &Vec<Option<String>>)
    requires
        keys@.len() == values@.len(),
    ensures
        final(fields)@.len() >= old(fields)@.len(),
        final(fields)@.subrange(0, old(fields)@.len() as int) == old(fields)@,
        forall|i: int|
            old(fields)@.len() <= i < final(fields)@.len() ==> names(keys@).contains(
                #[trigger] final(fields)@[i].0@,
            ),
        optional_text_fields(
            final(fields)@.subrange(old(fields)@.len() as int, final(fields)@.len() as int),
            names(keys@),
            opt_views(values@),
        ),
{
    let ghost start = fields@;
    assert(fields@.subrange(start.len() as int, fields@.len() as int).len() == 0);
    let mut i: usize = 0;
    while i < keys.len()
        invariant
            i <= keys@.len(),
            keys@.len() == values@.len(),
            fields@.len() >= start.len(),
            fields@.subrange(0, start.len() as int) == start,
            forall|j: int| start.len() <= j < fields@.len() ==> names(keys@).contains(#[trigger] fields@[j].0@),
            optional_text_fields(
                fields@.subrange(start.len() as int, fields@.len() as int),
                names(keys@).subrange(0, i as int),
                opt_views(values@).subrange(0, i as int),
            ),
        decreases keys@.len() - i,
    {
        let ghost before = fields@;
        push_optional_text(fields, keys[i], &values[i]);
        proof {
            let ks = names(keys@).subrange(0, i + 1);
            let vs = opt_views(values@).subrange(0, i + 1);
            assert(ks.drop_last() == names(keys@).subrange(0, i as int));
            assert(vs.drop_last() == opt_views(values@).subrange(0, i as int));
            assert(ks.last() == keys@[i as int]@);
            assert(vs.last() == opt_view(values@[i as int]));
            let seg = fields@.subrange(start.len() as int, fields@.len() as int);
            let old_seg = before.subrange(start.len() as int, before.len() as int);
            if values@[i as int] is Some {
                assert(seg.drop_last() =~= old_seg);
                assert(seg.last() == fields@.last());
            } else {
                assert(seg =~= old_seg);
            }
            assert(names(keys@)[i as int] == keys@[i as int]@);
            assert forall|j: int| start.len() <= j < fields@.len() implies names(keys@).contains(
                #[trigger] fields@[j].0@,
            ) by {
                if j < before.len() {
                    assert(fields@[j] == before[j]);
                }
            }
            assert(fields@.subrange(0, start.len() as int) =~= start);
        }
        i = i + 1;
    }
    assert(names(keys@).subrange(0, keys@.len() as int) == names(keys@));
    assert(opt_views(values@).subrange(0, keys@.len() as int) == opt_views(values@));
}

/// The lookups of keys that `known` does not hold are not changed by taking
/// out the entries of `known` keys.
pub proof fn lemma_lookup_unclaimed(fields: Seq<(String, Value)>, known: Seq<Seq<char>>, k: Seq<char>)
    requires
        !known.contains(k),
    ensures
        lookup(unclaimed(fields, known), k) == lookup(fields, k),
    decreases fields.len(),
{
    if fields.len() > 0 {
        lemma_lookup_unclaimed(fields.drop_last(), known, k);
        let rest = unclaimed(fields.drop_last(), known);
        if !known.contains(fields.last().0@) {
            assert(rest.push(fields.last()).drop_last() == rest);
        }
    }
}

/// Taking out the entries of keys `a`, then those of keys `b`, takes out the
/// entries of `b` alone where `b` holds every key of `a`.
pub proof fn lemma_unclaimed_twice(fields: Seq<(String, Value)>, a: Seq<Seq<char>>, b: Seq<Seq<char>>)
    requires
        forall|i: int| 0 <= i < a.len() ==> b.contains(#[trigger] a[i]),
    ensures
        unclaimed(unclaimed(fields, a), b) == unclaimed(fields, b),
    decreases fields.len(),
{
    if fields.len() > 0 {
        lemma_unclaimed_twice(fields.drop_last(), a, b);
        let rest = unclaimed(fields.drop_last(), a);
        if !a.contains(fields.last().0@) {
            assert(rest.push(fields.last()).drop_last() == rest);
        } else {
            let j = choose|j: int| 0 <= j < a.len() && a[j] == fields.last().0@;
            assert(b.contains(a[j]));
        }
    }
}

/// Lists that agree on the lookups of `keys` give the same optional texts.
pub proof fn lemma_optional_texts_same(f1: Seq<(String, Value)>, f2: Seq<(String, Value)>, keys: Seq<Seq<char>>)
    requires
        forall|i: int| 0 <= i < keys.len() ==> lookup(f1, #[trigger] keys[i]) == lookup(f2, keys[i]),
    ensures
        optional_texts(f1, keys) == optional_texts(f2, keys),
    decreases keys.len(),
{
    if keys.len() > 0 {
        assert forall|i: int| 0 <= i < keys.drop_last().len() implies lookup(
            f1,
            #[trigger] keys.drop_last()[i],
        ) == lookup(f2, keys.drop_last()[i]) by {
            assert(keys.drop_last()[i] == keys[i]);
        }
        lemma_optional_texts_same(f1, f2, keys.drop_last());
        assert(lookup(f1, keys[keys.len() - 1]) == lookup(f2, keys[keys.len() - 1]));
    }
}

/// The value of the last entry under `key`, taken out together with every
/// other entry under it; the other entries stay, in order.
pub fn take_field(fields: Vec<(String, Value)>, key: &str) -> (r: (Option<Value>, Vec<(String, Value)>))
    ensures
        r.0 == lookup(fields@, key@),
        r.1@ == unclaimed(fields@, seq![key@]),
{
    let ghost all = fields@;
    let ghost k = seq![key@];
    let mut rest = fields;
    let n = rest.len();
    let mut found: Option<Value> = None;
    let mut kept: Vec<(String, Value)> = Vec::new();
    let mut i: usize = 0;
    while rest.len() > 0
        invariant
            all.len() == n,
            k == seq![key@],
            i + rest@.len() == all.len(),
            rest@ == all.subrange(i as int, all.len() as int),
            found == lookup(all.subrange(0, i as int), key@),
            kept@ == unclaimed(all.subrange(0, i as int), k),
        decreases rest@.len(),
    {
        let e = rest.remove(0);
        assert(all.subrange(0, i + 1).drop_last() == all.subrange(0, i as int));
        assert(all.subrange(0, i + 1).last() == e);
        if key_is(&e.0, key) {
            assert(k.contains(e.0@)) by {
                assert(k[0] == e.0@);
            }
            found = Some(e.1);
        } else {
            assert(!k.contains(e.0@)) by {
                if k.contains(e.0@) {
                    let j = choose|j: int| 0 <= j < k.len() && k[j] == e.0@;
                    assert(j == 0);
                }
            }
            kept.push(e);
        }
        i = i + 1;
    }
    assert(all.subrange(0, all.len() as int) == all);
    (found, kept)
}

/// The text of a required field.
pub open spec fn required_text(v: Option<Value>) -> Result<Seq<char>, DecodeError> {
    match v {
        None => Err(DecodeError::MissingField),
        Some(Value::Text(t)) => Ok(t@),
        Some(_) => Err(DecodeError::InvalidType),
    }
}

/// The index held by a required field: an integer that fits in 32 bits.
pub open spec fn required_index(v: Option<Value>) -> Result<u32, DecodeError> {
    match v {
        None => Err(DecodeError::MissingField),
        Some(Value::Integer(n)) => if 0 <= n <= u32::MAX {
            Ok(n as u32)
        } else {
            Err(DecodeError::InvalidType)
        },
        Some(_) => Err(DecodeError::InvalidType),
    }
}

/// The text of a required field.
pub fn decode_required_text(fields: &Vec<(String, Value)>, key: &str) -> (r: Result<String, DecodeError>)
    ensures
        match r {
            Ok(t) => required_text(lookup(fields@, key@)) == Ok::<_, DecodeError>(t@),
            Err(e) => required_text(lookup(fields@, key@)) == Err::<Seq<char>, _>(e),
        },
{
    match field(fields, key) {
        None => Err(DecodeError::MissingField),
        Some(Value::Text(t)) => Ok(t.clone()),
        Some(_) => Err(DecodeError::InvalidType),
    }
}

/// The index held by a required field.
pub fn decode_required_index(fields: &Vec<(String, Value)>, key: &str) -> (r: Result<u32, DecodeError>)
    ensures
        r == required_index(lookup(fields@, key@)),
{
    match field(fields, key) {
        None => Err(DecodeError::MissingField),
        Some(Value::Integer(n)) => if 0 <= *n && *n <= 0xffff_ffff {
            Ok(*n as u32)
        } else {
            Err(DecodeError::InvalidType)
        },
        Some(_) => Err(DecodeError::InvalidType),
    }
}

/// Appends the field `key`, one of `known`, with value `v`.
pub fn push_known(
    fields: &mut Vec<(String, Value)>,
    key: &str,
    v: Value,
    known: Ghost<Seq<Seq<char>>>,
)
    requires
        keys_within(old(fields)@, known@),
        known@.contains(key@),
    ensures
        keys_within(final(fields)@, known@),
        final(fields)@.len() == old(fields)@.len() + 1,
        final(fields)@.drop_last() == old(fields)@,
        final(fields)@.last().0@ == key@,
        final(fields)@.last().1 == v,
{
    let ghost before = fields@;
    fields.push((key.to_owned(), v));
    assert forall|i: int| 0 <= i < fields@.len() implies known@.contains(#[trigger] fields@[i].0@) by {
        if i < before.len() {
            assert(fields@[i] == before[i]);
        }
    }
    assert(fields@.drop_last() =~= before);
}

/// Appends fields whose keys are all among `known`.
pub fn append_known(
    fields: &mut Vec<(String, Value)>,
    more: Vec<(String, Value)>,
    known: Ghost<Seq<Seq<char>>>,
)
    requires
        keys_within(old(fields)@, known@),
        keys_within(more@, known@),
    ensures
        keys_within(final(fields)@, known@),
        final(fields)@ == old(fields)@ + more@,
{
    let ghost before = fields@;
    let ghost m = more@;
    let mut more = more;
    fields.append(&mut more);
    assert forall|i: int| 0 <= i < fields@.len() implies known@.contains(#[trigger] fields@[i].0@) by {
        if i < before.len() {
            assert(fields@[i] == before[i]);
        } else {
            assert(fields@[i] == m[i - before.len()]);
        }
    }
    assert(fields@ =~= before + m);
}

} // verus!
