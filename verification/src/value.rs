//! Decoded record values and their mathematical model.
//!
//! The decoder produces a [`Value`] tree: scalars, records (ordered field
//! values), tables of records, resolved resource payloads, opaque resources
//! for unrecognized discriminants, and an explicit absent marker for null
//! pointers. The ghost mirror [`SVal`] abstracts vectors to sequences; all
//! contracts speak of values through the view [`vval`].

use vstd::prelude::*;

verus! {

/// A decoded value.
#[derive(Debug, PartialEq)]
pub enum Value {
    /// A byte scalar.
    U8(u8),
    /// A 16-bit scalar.
    U16(u16),
    /// A 32-bit scalar.
    U32(u32),
    /// A 64-bit scalar.
    U64(u64),
    /// A decoded record: its field values in field order.
    Record(Vec<Value>),
    /// A decoded table: one record per element, in element order.
    Table(Vec<Value>),
    /// A recognized resource payload: discriminant and the payload record's
    /// field values.
    Resource(u32, Vec<Value>),
    /// A resource whose discriminant is outside the dispatch table; carries
    /// the raw discriminant. Decoding it is a success, never an error.
    Opaque(u32),
    /// A null pointer or null resource pointer.
    Absent,
}

/// The mathematical model of a decoded value.
pub enum SVal {
    /// A byte scalar.
    U8(u8),
    /// A 16-bit scalar.
    U16(u16),
    /// A 32-bit scalar.
    U32(u32),
    /// A 64-bit scalar.
    U64(u64),
    /// A record's field values in field order.
    Record(Seq<SVal>),
    /// A table's element records in element order.
    Table(Seq<SVal>),
    /// A recognized resource payload.
    Resource(u32, Seq<SVal>),
    /// An unrecognized resource discriminant.
    Opaque(u32),
    /// A null pointer.
    Absent,
}

/// The model of a decoded value.
pub open spec fn vval(v: Value) -> SVal
    decreases v,
{
    match v {
        Value::U8(x) => SVal::U8(x),
        Value::U16(x) => SVal::U16(x),
        Value::U32(x) => SVal::U32(x),
        Value::U64(x) => SVal::U64(x),
        Value::Record(fs) => SVal::Record(vvals(fs@)),
        Value::Table(es) => SVal::Table(vvals(es@)),
        Value::Resource(d, fs) => SVal::Resource(d, vvals(fs@)),
        Value::Opaque(d) => SVal::Opaque(d),
        Value::Absent => SVal::Absent,
    }
}

/// The model of a sequence of decoded values, element-wise.
pub open spec fn vvals(s: Seq<Value>) -> Seq<SVal>
    decreases s,
{
    if s.len() == 0 {
        Seq::empty()
    } else {
        seq![vval(s[0])].add(vvals(s.drop_first()))
    }
}

/// `vvals` maps element-wise: same length, and index `i` is the view of the
/// element at `i`.
pub proof fn lemma_vvals_index(s: Seq<Value>)
    ensures
        vvals(s).len() == s.len(),
        forall|i: int| 0 <= i < s.len() ==> vvals(s)[i] == vval(#[trigger] s[i]),
    decreases s.len(),
{
    if s.len() > 0 {
        lemma_vvals_index(s.drop_first());
        assert forall|i: int| 0 <= i < s.len() implies vvals(s)[i] == vval(#[trigger] s[i]) by {
            if i == 0 {
                assert(vvals(s)[0] == vval(s[0]));
            } else {
                assert(vvals(s.drop_first())[i - 1] == vval(s.drop_first()[i - 1]));
                assert(s.drop_first()[i - 1] == s[i]);
            }
        }
    }
}

/// Appending one value appends its view.
pub proof fn lemma_vvals_push(s: Seq<Value>, v: Value)
    ensures
        vvals(s.push(v)) == vvals(s).push(vval(v)),
    decreases s.len(),
{
    if s.len() == 0 {
        assert(s.push(v).drop_first() =~= Seq::<Value>::empty());
        assert(s.push(v)[0] == v);
        assert(vvals(s.push(v)) == seq![vval(v)].add(vvals(Seq::<Value>::empty())));
        assert(vvals(s.push(v)) =~= vvals(s).push(vval(v)));
    } else {
        lemma_vvals_push(s.drop_first(), v);
        assert(s.push(v).drop_first() =~= s.drop_first().push(v));
        assert(s.push(v)[0] == s[0]);
        assert(vvals(s.push(v)) =~= vvals(s).push(vval(v)));
    }
}

impl Clone for Value {
    /// A deep, structure-preserving copy.
    fn clone(&self) -> (res: Self)
        ensures
            vval(res) == vval(*self),
        decreases *self,
    {
        match self {
            Value::U8(x) => Value::U8(*x),
            Value::U16(x) => Value::U16(*x),
            Value::U32(x) => Value::U32(*x),
            Value::U64(x) => Value::U64(*x),
            Value::Record(fs) => Value::Record(clone_values(fs)),
            Value::Table(es) => Value::Table(clone_values(es)),
            Value::Resource(d, fs) => Value::Resource(*d, clone_values(fs)),
            Value::Opaque(d) => Value::Opaque(*d),
            Value::Absent => Value::Absent,
        }
    }
}

/// Deep-copies a vector of values.
fn clone_values(vs: &Vec<Value>) -> (res: Vec<Value>)
    ensures
        vvals(res@) == vvals(vs@),
    decreases *vs,
{
    let mut out: Vec<Value> = Vec::new();
    let mut i: usize = 0;
    proof {
        lemma_vvals_index(vs@);
    }
    while i < vs.len()
        invariant
            i <= vs@.len(),
            vvals(out@).len() == i,
            vvals(vs@).len() == vs@.len(),
            forall|j: int| 0 <= j < i ==> vvals(out@)[j] == vvals(vs@)[j],
            forall|j: int| 0 <= j < vs@.len() ==> vvals(vs@)[j] == vval(#[trigger] vs@[j]),
        decreases vs@.len() - i,
    {
        let v = vs[i].clone();
        proof {
            lemma_vvals_push(out@, v);
        }
        out.push(v);
        i = i + 1;
    }
    proof {
        lemma_vvals_index(out@);
        assert(vvals(out@) =~= vvals(vs@));
    }
    out
}

} // verus!
