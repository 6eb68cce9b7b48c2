//! Lexicographic order on byte strings and on sequences of byte strings.
//!
//! This is the order of Rust's `Ord` for `[u8]` (and for fixed-size arrays, `String` and
//! `Vec<u8>`, which compare their bytes the same way), lifted to field lists as `#[derive(Ord)]`
//! lifts it to structs: the first differing field decides, and a proper prefix comes first.

use vstd::prelude::*;

verus! {

/// Result of a three-way comparison.
#[derive(Clone, Copy, Debug, PartialEq, Eq, Structural)]
pub enum Cmp3 {
    Less,
    Equal,
    Greater,
}

/// `a` precedes `b` in lexicographic byte order.
pub open spec fn bytes_lt(a: Seq<u8>, b: Seq<u8>) -> bool
    decreases a.len(),
{
    if a.len() == 0 {
        b.len() > 0
    } else if b.len() == 0 {
        false
    } else if a[0] < b[0] {
        true
    } else if a[0] > b[0] {
        false
    } else {
        bytes_lt(a.drop_first(), b.drop_first())
    }
}

/// `a` precedes `b` in lexicographic order of fields, each field compared by `bytes_lt`.
pub open spec fn fields_lt(a: Seq<Seq<u8>>, b: Seq<Seq<u8>>) -> bool
    decreases a.len(),
{
    if a.len() == 0 {
        b.len() > 0
    } else if b.len() == 0 {
        false
    } else if bytes_lt(a[0], b[0]) {
        true
    } else if a[0] != b[0] {
        false
    } else {
        fields_lt(a.drop_first(), b.drop_first())
    }
}

/// `bytes_lt` is irreflexive.
pub proof fn lemma_bytes_lt_irreflexive(a: Seq<u8>)
    ensures
        !bytes_lt(a, a),
    decreases a.len(),
{
    if a.len() > 0 {
        lemma_bytes_lt_irreflexive(a.drop_first());
    }
}

/// `bytes_lt` is transitive.
pub proof fn lemma_bytes_lt_transitive(a: Seq<u8>, b: Seq<u8>, c: Seq<u8>)
    requires
        bytes_lt(a, b),
        bytes_lt(b, c),
    ensures
        bytes_lt(a, c),
    decreases a.len(),
{
    if a.len() > 0 && b.len() > 0 && c.len() > 0 && a[0] == b[0] && b[0] == c[0] {
        lemma_bytes_lt_transitive(a.drop_first(), b.drop_first(), c.drop_first());
    }
}

/// Two different byte strings are ordered one way or the other.
pub proof fn lemma_bytes_lt_total(a: Seq<u8>, b: Seq<u8>)
    ensures
        a == b || bytes_lt(a, b) || bytes_lt(b, a),
    decreases a.len(),
{
    if a.len() > 0 && b.len() > 0 && a[0] == b[0] {
        let a1 = a.drop_first();
        let b1 = b.drop_first();
        lemma_bytes_lt_total(a1, b1);
        if a1 == b1 {
            assert forall|i: int| 0 <= i < a.len() implies a[i] == b[i] by {
                if i > 0 {
                    assert(a[i] == a1[i - 1]);
                    assert(b[i] == b1[i - 1]);
                }
            }
            assert(a =~= b);
        }
    } else if a.len() == 0 && b.len() == 0 {
        assert(a =~= b);
    }
}

/// `bytes_lt` is asymmetric.
pub proof fn lemma_bytes_lt_asymmetric(a: Seq<u8>, b: Seq<u8>)
    requires
        bytes_lt(a, b),
    ensures
        !bytes_lt(b, a),
{
    if bytes_lt(b, a) {
        lemma_bytes_lt_transitive(a, b, a);
        lemma_bytes_lt_irreflexive(a);
    }
}

/// `fields_lt` is irreflexive.
pub proof fn lemma_fields_lt_irreflexive(a: Seq<Seq<u8>>)
    ensures
        !fields_lt(a, a),
    decreases a.len(),
{
    if a.len() > 0 {
        lemma_bytes_lt_irreflexive(a[0]);
        lemma_fields_lt_irreflexive(a.drop_first());
    }
}

/// `fields_lt` is transitive.
pub proof fn lemma_fields_lt_transitive(a: Seq<Seq<u8>>, b: Seq<Seq<u8>>, c: Seq<Seq<u8>>)
    requires
        fields_lt(a, b),
        fields_lt(b, c),
    ensures
        fields_lt(a, c),
    decreases a.len(),
{
    if a.len() > 0 && b.len() > 0 && c.len() > 0 {
        if bytes_lt(a[0], b[0]) && bytes_lt(b[0], c[0]) {
            lemma_bytes_lt_transitive(a[0], b[0], c[0]);
        } else if a[0] == b[0] && b[0] == c[0] {
            lemma_fields_lt_transitive(a.drop_first(), b.drop_first(), c.drop_first());
        }
    }
}

/// Two different field lists are ordered one way or the other.
pub proof fn lemma_fields_lt_total(a: Seq<Seq<u8>>, b: Seq<Seq<u8>>)
    ensures
        a == b || fields_lt(a, b) || fields_lt(b, a),
    decreases a.len(),
{
    if a.len() > 0 && b.len() > 0 {
        lemma_bytes_lt_total(a[0], b[0]);
        if a[0] == b[0] {
            let a1 = a.drop_first();
            let b1 = b.drop_first();
            lemma_fields_lt_total(a1, b1);
            if a1 == b1 {
                assert forall|i: int| 0 <= i < a.len() implies a[i] == b[i] by {
                    if i > 0 {
                        assert(a[i] == a1[i - 1]);
                        assert(b[i] == b1[i - 1]);
                    }
                }
                assert(a =~= b);
            }
        }
    } else if a.len() == 0 && b.len() == 0 {
        assert(a =~= b);
    }
}

/// `fields_lt` is asymmetric.
pub proof fn lemma_fields_lt_asymmetric(a: Seq<Seq<u8>>, b: Seq<Seq<u8>>)
    requires
        fields_lt(a, b),
    ensures
        !fields_lt(b, a),
{
    if fields_lt(b, a) {
        lemma_fields_lt_transitive(a, b, a);
        lemma_fields_lt_irreflexive(a);
    }
}

/// Three-way comparison of byte strings in lexicographic order.
pub fn compare_bytes(a: &[u8], b: &[u8]) -> (r: Cmp3)
    ensures
        (r == Cmp3::Less) == bytes_lt(a@, b@),
        (r == Cmp3::Equal) == (a@ == b@),
        (r == Cmp3::Greater) == bytes_lt(b@, a@),
{
    let mut i: usize = 0;
    assert(a@.skip(0) =~= a@);
    assert(b@.skip(0) =~= b@);
    while i < a.len() && i < b.len()
        invariant
            i <= a@.len(),
            i <= b@.len(),
            a@.take(i as int) == b@.take(i as int),
            bytes_lt(a@, b@) == bytes_lt(a@.skip(i as int), b@.skip(i as int)),
            bytes_lt(b@, a@) == bytes_lt(b@.skip(i as int), a@.skip(i as int)),
        decreases a@.len() - i,
    {
        if a[i] < b[i] {
            proof { lemma_bytes_lt_asymmetric(a@, b@); }
            assert(a@[i as int] == a@.skip(i as int)[0]);
            return Cmp3::Less;
        }
        if a[i] > b[i] {
            proof { lemma_bytes_lt_asymmetric(b@, a@); }
            assert(a@[i as int] == a@.skip(i as int)[0]);
            return Cmp3::Greater;
        }
        assert(a@.skip(i as int).drop_first() =~= a@.skip(i + 1));
        assert(b@.skip(i as int).drop_first() =~= b@.skip(i + 1));
        assert(a@.take(i + 1) =~= a@.take(i as int).push(a@[i as int]));
        assert(b@.take(i + 1) =~= b@.take(i as int).push(b@[i as int]));
        i = i + 1;
    }
    if a.len() == b.len() {
        assert(a@ =~= a@.take(i as int));
        assert(b@ =~= b@.take(i as int));
        proof { lemma_bytes_lt_irreflexive(a@); }
        Cmp3::Equal
    } else if a.len() < b.len() {
        assert(a@ != b@);
        proof { lemma_bytes_lt_asymmetric(a@, b@); }
        Cmp3::Less
    } else {
        assert(a@ != b@);
        proof { lemma_bytes_lt_asymmetric(b@, a@); }
        Cmp3::Greater
    }
}


/// A list of byte-string fields, compared field by field.
#[derive(Clone, Debug)]
pub struct OrderKey {
    pub fields: Vec<Vec<u8>>,
}

impl View for OrderKey {
    type V = Seq<Seq<u8>>;

    open spec fn view(&self) -> Seq<Seq<u8>> {
        self.fields@.map_values(|f: Vec<u8>| f@)
    }
}

/// Three-way comparison of field lists in lexicographic order.
pub fn compare_keys(a: &OrderKey, b: &OrderKey) -> (r: Cmp3)
    ensures
        (r == Cmp3::Less) == fields_lt(a@, b@),
        (r == Cmp3::Equal) == (a@ == b@),
        (r == Cmp3::Greater) == fields_lt(b@, a@),
{
    let mut i: usize = 0;
    assert(a@.skip(0) =~= a@);
    assert(b@.skip(0) =~= b@);
    while i < a.fields.len() && i < b.fields.len()
        invariant
            i <= a@.len(),
            i <= b@.len(),
            a@.len() == a.fields@.len(),
            b@.len() == b.fields@.len(),
            a@.take(i as int) == b@.take(i as int),
            fields_lt(a@, b@) == fields_lt(a@.skip(i as int), b@.skip(i as int)),
            fields_lt(b@, a@) == fields_lt(b@.skip(i as int), a@.skip(i as int)),
        decreases a@.len() - i,
    {
        let c = compare_bytes(a.fields[i].as_slice(), b.fields[i].as_slice());
        assert(a@[i as int] == a.fields@[i as int]@);
        assert(b@[i as int] == b.fields@[i as int]@);
        assert(a@[i as int] == a@.skip(i as int)[0]);
        assert(b@[i as int] == b@.skip(i as int)[0]);
        match c {
            Cmp3::Less => {
                proof { lemma_fields_lt_asymmetric(a@, b@); }
                return Cmp3::Less;
            },
            Cmp3::Greater => {
                proof { lemma_fields_lt_asymmetric(b@, a@); }
                return Cmp3::Greater;
            },
            Cmp3::Equal => {},
        }
        assert(a@.skip(i as int).drop_first() =~= a@.skip(i + 1));
        assert(b@.skip(i as int).drop_first() =~= b@.skip(i + 1));
        assert(a@.take(i + 1) =~= a@.take(i as int).push(a@[i as int]));
        assert(b@.take(i + 1) =~= b@.take(i as int).push(b@[i as int]));
        i = i + 1;
    }
    if a.fields.len() == b.fields.len() {
        assert(a@ =~= a@.take(i as int));
        assert(b@ =~= b@.take(i as int));
        proof { lemma_fields_lt_irreflexive(a@); }
        Cmp3::Equal
    } else if a.fields.len() < b.fields.len() {
        assert(a@.len() != b@.len());
        proof { lemma_fields_lt_asymmetric(a@, b@); }
        Cmp3::Less
    } else {
        assert(a@.len() != b@.len());
        proof { lemma_fields_lt_asymmetric(b@, a@); }
        Cmp3::Greater
    }
}

} // verus!
