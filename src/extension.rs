use vstd::prelude::*;

use crate::value::{key_is, keys, keys_within, Value};

verus! {

/// The fields of an entity that its fixed schema does not name, kept verbatim
/// and in order.
#[derive(Debug, PartialEq, Default)]
pub struct ExtensionObject {
    pub fields: Vec<(String, Value)>,
}

/// The names of a list of string slices.
pub open spec fn names(known: Seq<&str>) -> Seq<Seq<char>> {
    known.map_values(|s: &str| s@)
}

/// The entries of `fields` whose key is not in `known`, in order.
pub open spec fn unclaimed(fields: Seq<(String, Value)>, known: Seq<Seq<char>>) -> Seq<(String, Value)>
    decreases fields.len(),
{
    if fields.len() == 0 {
        Seq::empty()
    } else {
        let rest = unclaimed(fields.drop_last(), known);
        if known.contains(fields.last().0@) {
            rest
        } else {
            rest.push(fields.last())
        }
    }
}

/// The wire form of an entity: its named fields first, then each extension
/// entry whose key no named field has.
pub open spec fn merged(named: Seq<(String, Value)>, ext: Seq<(String, Value)>) -> Seq<(String, Value)> {
    named + unclaimed(ext, keys(named))
}

/// Taking the unclaimed entries distributes over concatenation.
pub proof fn lemma_unclaimed_concat(a: Seq<(String, Value)>, b: Seq<(String, Value)>, known: Seq<Seq<char>>)
    ensures
        unclaimed(a + b, known) == unclaimed(a, known) + unclaimed(b, known),
    decreases b.len(),
{
    if b.len() == 0 {
        assert(a + b == a);
        assert(unclaimed(b, known) == Seq::<(String, Value)>::empty());
        assert(unclaimed(a, known) + Seq::<(String, Value)>::empty() == unclaimed(a, known));
    } else {
        assert((a + b).drop_last() == a + b.drop_last());
        assert((a + b).last() == b.last());
        lemma_unclaimed_concat(a, b.drop_last(), known);
        if !known.contains(b.last().0@) {
            assert(unclaimed(a, known) + unclaimed(b.drop_last(), known).push(b.last())
                == (unclaimed(a, known) + unclaimed(b.drop_last(), known)).push(b.last()));
        }
    }
}

/// Where no key of `fields` is in `known`, nothing is taken out.
pub proof fn lemma_unclaimed_all(fields: Seq<(String, Value)>, known: Seq<Seq<char>>)
    requires
        forall|i: int| 0 <= i < fields.len() ==> !known.contains(#[trigger] fields[i].0@),
    ensures
        unclaimed(fields, known) == fields,
    decreases fields.len(),
{
    if fields.len() > 0 {
        lemma_unclaimed_all(fields.drop_last(), known);
        assert(fields.drop_last().push(fields.last()) == fields);
    }
}

/// Where every key of `fields` is in `known`, everything is taken out.
pub proof fn lemma_unclaimed_none(fields: Seq<(String, Value)>, known: Seq<Seq<char>>)
    requires
        forall|i: int| 0 <= i < fields.len() ==> known.contains(#[trigger] fields[i].0@),
    ensures
        unclaimed(fields, known) == Seq::<(String, Value)>::empty(),
    decreases fields.len(),
{
    if fields.len() > 0 {
        lemma_unclaimed_none(fields.drop_last(), known);
    }
}

/// No key of the unclaimed entries is in `known`.
pub proof fn lemma_unclaimed_keys(fields: Seq<(String, Value)>, known: Seq<Seq<char>>)
    ensures
        forall|i: int|
            0 <= i < unclaimed(fields, known).len() ==> !known.contains(
                #[trigger] unclaimed(fields, known)[i].0@,
            ),
    decreases fields.len(),
{
    if fields.len() > 0 {
        let rest = unclaimed(fields.drop_last(), known);
        lemma_unclaimed_keys(fields.drop_last(), known);
        if !known.contains(fields.last().0@) {
            let all = rest.push(fields.last());
            assert forall|i: int| 0 <= i < all.len() implies !known.contains(#[trigger] all[i].0@) by {
                if i < rest.len() {
                    assert(all[i] == rest[i]);
                }
            }
        }
    }
}

/// Extension fields survive a decode and encode cycle: the entries that an
/// entity captures as extensions (those of no `known` key), written after its
/// named fields (all under `known` keys), are all written, unchanged and in
/// order, and are captured again as they were.
pub proof fn lemma_extensions_survive(
    fields: Seq<(String, Value)>,
    known: Seq<Seq<char>>,
    named: Seq<(String, Value)>,
)
    requires
        forall|i: int| 0 <= i < named.len() ==> known.contains(#[trigger] named[i].0@),
    ensures
        merged(named, unclaimed(fields, known)) == named + unclaimed(fields, known),
        unclaimed(merged(named, unclaimed(fields, known)), known) == unclaimed(fields, known),
{
    let ext = unclaimed(fields, known);
    lemma_unclaimed_keys(fields, known);
    assert forall|i: int| 0 <= i < ext.len() implies !keys(named).contains(#[trigger] ext[i].0@) by {
        if keys(named).contains(ext[i].0@) {
            let j = choose|j: int| 0 <= j < keys(named).len() && keys(named)[j] == ext[i].0@;
            assert(known.contains(named[j].0@));
        }
    }
    lemma_unclaimed_all(ext, keys(named));
    lemma_unclaimed_concat(named, ext, known);
    lemma_unclaimed_none(named, known);
    lemma_unclaimed_all(ext, known);
    assert(Seq::<(String, Value)>::empty() + ext == ext);
}

/// An entity's extensions survive its encoding: where the named fields all
/// have `known` keys and no extension has one, the extensions come out of the
/// encoded fields again, unchanged.
pub proof fn lemma_entity_extensions(
    named: Seq<(String, Value)>,
    ext: Seq<(String, Value)>,
    known: Seq<Seq<char>>,
)
    requires
        keys_within(named, known),
        forall|i: int| 0 <= i < ext.len() ==> !known.contains(#[trigger] ext[i].0@),
    ensures
        unclaimed(merged(named, ext), known) == ext,
{
    lemma_unclaimed_all(ext, known);
    lemma_extensions_survive(ext, known, named);
}

/// Whether `k` is one of `known`.
fn is_known(k: &String, known: &[&str]) -> (r: bool)
    ensures
        r == names(known@).contains(k@),
{
    let mut i: usize = 0;
    while i < known.len()
        invariant
            i <= known@.len(),
            forall|j: int| 0 <= j < i ==> known@[j]@ != k@,
        decreases known@.len() - i,
    {
        if key_is(k, known[i]) {
            assert(names(known@)[i as int] == k@);
            return true;
        }
        i = i + 1;
    }
    assert forall|j: int| 0 <= j < names(known@).len() implies names(known@)[j] != k@ by {
        assert(names(known@)[j] == known@[j]@);
    }
    false
}

/// Whether `k` is a key of `fields`.
fn has_key(fields: &Vec<(String, Value)>, k: &String) -> (r: bool)
    ensures
        r == keys(fields@).contains(k@),
{
    let mut i: usize = 0;
    while i < fields.len()
        invariant
            i <= fields@.len(),
            forall|j: int| 0 <= j < i ==> fields@[j].0@ != k@,
        decreases fields@.len() - i,
    {
        if fields[i].0 == *k {
            assert(keys(fields@)[i as int] == k@);
            return true;
        }
        i = i + 1;
    }
    assert forall|j: int| 0 <= j < keys(fields@).len() implies keys(fields@)[j] != k@ by {
        assert(keys(fields@)[j] == fields@[j].0@);
    }
    false
}

impl ExtensionObject {
    /// The entries of `fields` whose key is not one of `known`, in order:
    /// what an entity with those named fields captures on decoding.
    pub fn capture(fields: Vec<(String, Value)>, known: &[&str]) -> (r: ExtensionObject)
        ensures
            r.fields@ == unclaimed(fields@, names(known@)),
    {
        let ghost all = fields@;
        let mut rest = fields;
        let n = rest.len();
        let mut out: Vec<(String, Value)> = Vec::new();
        let mut i: usize = 0;
        while rest.len() > 0
            invariant
                all.len() == n,
                i + rest@.len() == all.len(),
                rest@ == all.subrange(i as int, all.len() as int),
                out@ == unclaimed(all.subrange(0, i as int), names(known@)),
            decreases rest@.len(),
        {
            let e = rest.remove(0);
            assert(all.subrange(0, i + 1).drop_last() == all.subrange(0, i as int));
            assert(all.subrange(0, i + 1).last() == e);
            if !is_known(&e.0, known) {
                out.push(e);
            }
            i = i + 1;
        }
        assert(all.subrange(0, all.len() as int) == all);
        ExtensionObject { fields: out }
    }

    /// The wire form of an entity: its named fields, then each extension entry
    /// whose key is not among them (a named field wins over an extension entry
    /// of the same key).
    pub fn merge(named: Vec<(String, Value)>, ext: ExtensionObject) -> (r: Vec<(String, Value)>)
        ensures
            r@ == merged(named@, ext.fields@),
    {
        let ghost all = ext.fields@;
        let mut rest = ext.fields;
        let n = rest.len();
        let mut extra: Vec<(String, Value)> = Vec::new();
        let mut i: usize = 0;
        while rest.len() > 0
            invariant
                all.len() == n,
                i + rest@.len() == all.len(),
                rest@ == all.subrange(i as int, all.len() as int),
                extra@ == unclaimed(all.subrange(0, i as int), keys(named@)),
            decreases rest@.len(),
        {
            let e = rest.remove(0);
            assert(all.subrange(0, i + 1).drop_last() == all.subrange(0, i as int));
            assert(all.subrange(0, i + 1).last() == e);
            if !has_key(&named, &e.0) {
                extra.push(e);
            }
            i = i + 1;
        }
        assert(all.subrange(0, all.len() as int) == all);
        let mut out = named;
        out.append(&mut extra);
        out
    }
}

} // verus!
