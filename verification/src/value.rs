use vstd::prelude::*;
use vstd::string::*;
use crate::hexcode::{nibble_char, nibble_str};

verus! {

/// Mathematical model of a value decoded by the permissive general-purpose
/// codec.  Maps are sequences of key/value pairs in decoding order; keys of
/// any shape are allowed.  A float is modelled by its IEEE 754 bit pattern,
/// since the harness never computes with it.  `Other` stands for any variant
/// the permissive codec may add beyond the ones named here.
pub ghost enum GenericModel {
    Integer(int),
    Bytes(Seq<u8>),
    Float(u64),
    Text(Seq<char>),
    Bool(bool),
    Null,
    Tag(u64, Box<GenericModel>),
    Array(Seq<GenericModel>),
    Mapping(Seq<(GenericModel, GenericModel)>),
    Other,
}

/// Mathematical model of a value of the canonical data model: maps carry
/// text keys only, unique and in insertion order.
pub ghost enum CanonicalModel {
    Integer(int),
    Bytes(Seq<u8>),
    Float(u64),
    Text(Seq<char>),
    Bool(bool),
    Null,
    List(Seq<CanonicalModel>),
    Mapping(Seq<(Seq<char>, CanonicalModel)>),
}

/// A value of the permissive general-purpose codec, as the harness holds it:
/// every field a plain value.  A float is held as its IEEE 754 bit pattern.
#[derive(Debug)]
pub enum GenericValue {
    Integer(i128),
    Bytes(Vec<u8>),
    Float(u64),
    Text(String),
    Bool(bool),
    Null,
    Tag(u64, Box<GenericValue>),
    Array(Vec<GenericValue>),
    Mapping(Vec<(GenericValue, GenericValue)>),
    Other,
}

/// A value of the canonical data model.  Map entries keep insertion order;
/// well-formedness (unique keys) is stated by `canonical_wf`.
#[derive(Debug)]
pub enum CanonicalValue {
    Integer(i128),
    Bytes(Vec<u8>),
    Float(u64),
    Text(String),
    Bool(bool),
    Null,
    List(Vec<CanonicalValue>),
    Mapping(Vec<(String, CanonicalValue)>),
}

pub open spec fn generic_model_of(v: GenericValue) -> GenericModel
    decreases v,
{
    match v {
        GenericValue::Integer(i) => GenericModel::Integer(i as int),
        GenericValue::Bytes(b) => GenericModel::Bytes(b@),
        GenericValue::Float(bits) => GenericModel::Float(bits),
        GenericValue::Text(s) => GenericModel::Text(s@),
        GenericValue::Bool(b) => GenericModel::Bool(b),
        GenericValue::Null => GenericModel::Null,
        GenericValue::Tag(t, inner) => GenericModel::Tag(t, Box::new(generic_model_of(*inner))),
        GenericValue::Array(vs) => GenericModel::Array(generic_models_of(vs@)),
        GenericValue::Mapping(es) => GenericModel::Mapping(generic_entry_models_of(es@)),
        GenericValue::Other => GenericModel::Other,
    }
}

pub open spec fn generic_models_of(s: Seq<GenericValue>) -> Seq<GenericModel>
    decreases s,
{
    if s.len() == 0 {
        Seq::empty()
    } else {
        generic_models_of(s.subrange(0, s.len() - 1)).push(generic_model_of(s[s.len() - 1]))
    }
}

pub open spec fn generic_entry_models_of(s: Seq<(GenericValue, GenericValue)>) -> Seq<
    (GenericModel, GenericModel),
>
    decreases s,
{
    if s.len() == 0 {
        Seq::empty()
    } else {
        generic_entry_models_of(s.subrange(0, s.len() - 1)).push(
            (generic_model_of(s[s.len() - 1].0), generic_model_of(s[s.len() - 1].1)),
        )
    }
}

impl View for GenericValue {
    type V = GenericModel;

    open spec fn view(&self) -> GenericModel {
        generic_model_of(*self)
    }
}

pub open spec fn canonical_model_of(v: CanonicalValue) -> CanonicalModel
    decreases v,
{
    match v {
        CanonicalValue::Integer(i) => CanonicalModel::Integer(i as int),
        CanonicalValue::Bytes(b) => CanonicalModel::Bytes(b@),
        CanonicalValue::Float(bits) => CanonicalModel::Float(bits),
        CanonicalValue::Text(s) => CanonicalModel::Text(s@),
        CanonicalValue::Bool(b) => CanonicalModel::Bool(b),
        CanonicalValue::Null => CanonicalModel::Null,
        CanonicalValue::List(vs) => CanonicalModel::List(canonical_models_of(vs@)),
        CanonicalValue::Mapping(es) => CanonicalModel::Mapping(canonical_entry_models_of(es@)),
    }
}

pub open spec fn canonical_models_of(s: Seq<CanonicalValue>) -> Seq<CanonicalModel>
    decreases s,
{
    if s.len() == 0 {
        Seq::empty()
    } else {
        canonical_models_of(s.subrange(0, s.len() - 1)).push(canonical_model_of(s[s.len() - 1]))
    }
}

pub open spec fn canonical_entry_models_of(s: Seq<(String, CanonicalValue)>) -> Seq<
    (Seq<char>, CanonicalModel),
>
    decreases s,
{
    if s.len() == 0 {
        Seq::empty()
    } else {
        canonical_entry_models_of(s.subrange(0, s.len() - 1)).push(
            (s[s.len() - 1].0@, canonical_model_of(s[s.len() - 1].1)),
        )
    }
}

impl View for CanonicalValue {
    type V = CanonicalModel;

    open spec fn view(&self) -> CanonicalModel {
        canonical_model_of(*self)
    }
}

/// Whether a generic value is expressible in the canonical data model:
/// no tags, no variants beyond the named ones, and text keys in every map,
/// recursively.
pub open spec fn representable(g: GenericModel) -> bool
    decreases g,
{
    match g {
        GenericModel::Integer(_) => true,
        GenericModel::Bytes(_) => true,
        GenericModel::Float(_) => true,
        GenericModel::Text(_) => true,
        GenericModel::Bool(_) => true,
        GenericModel::Null => true,
        GenericModel::Tag(_, _) => false,
        GenericModel::Array(s) => all_representable(s),
        GenericModel::Mapping(es) => entries_representable(es),
        GenericModel::Other => false,
    }
}

pub open spec fn all_representable(s: Seq<GenericModel>) -> bool
    decreases s,
{
    if s.len() == 0 {
        true
    } else {
        all_representable(s.subrange(0, s.len() - 1)) && representable(s[s.len() - 1])
    }
}

pub open spec fn entries_representable(es: Seq<(GenericModel, GenericModel)>) -> bool
    decreases es,
{
    if es.len() == 0 {
        true
    } else {
        entries_representable(es.subrange(0, es.len() - 1)) && es[es.len() - 1].0 is Text
            && representable(es[es.len() - 1].1)
    }
}

/// Insertion into a canonical map model: a fresh key is appended; a key
/// already present keeps its position and takes the new value.
pub open spec fn map_put(
    m: Seq<(Seq<char>, CanonicalModel)>,
    k: Seq<char>,
    v: CanonicalModel,
) -> Seq<(Seq<char>, CanonicalModel)>
    decreases m,
{
    if m.len() == 0 {
        seq![(k, v)]
    } else if m[0].0 == k {
        seq![(k, v)] + m.subrange(1, m.len() as int)
    } else {
        seq![m[0]] + map_put(m.subrange(1, m.len() as int), k, v)
    }
}

/// The conversion of a representable generic value into the canonical data
/// model: leaves map one to one, lists element by element in order, and map
/// entries are inserted in decoding order.
pub open spec fn bridged(g: GenericModel) -> CanonicalModel
    decreases g,
{
    match g {
        GenericModel::Integer(i) => CanonicalModel::Integer(i),
        GenericModel::Bytes(b) => CanonicalModel::Bytes(b),
        GenericModel::Float(bits) => CanonicalModel::Float(bits),
        GenericModel::Text(s) => CanonicalModel::Text(s),
        GenericModel::Bool(b) => CanonicalModel::Bool(b),
        GenericModel::Null => CanonicalModel::Null,
        GenericModel::Array(s) => CanonicalModel::List(bridged_seq(s)),
        GenericModel::Mapping(es) => CanonicalModel::Mapping(bridged_entries(es)),
        _ => CanonicalModel::Null,
    }
}

pub open spec fn bridged_seq(s: Seq<GenericModel>) -> Seq<CanonicalModel>
    decreases s,
{
    if s.len() == 0 {
        Seq::empty()
    } else {
        bridged_seq(s.subrange(0, s.len() - 1)).push(bridged(s[s.len() - 1]))
    }
}

pub open spec fn bridged_entries(es: Seq<(GenericModel, GenericModel)>) -> Seq<
    (Seq<char>, CanonicalModel),
>
    decreases es,
{
    if es.len() == 0 {
        Seq::empty()
    } else {
        map_put(
            bridged_entries(es.subrange(0, es.len() - 1)),
            es[es.len() - 1].0->Text_0,
            bridged(es[es.len() - 1].1),
        )
    }
}

/// Keys of a canonical map model are pairwise distinct.
pub open spec fn keys_unique(m: Seq<(Seq<char>, CanonicalModel)>) -> bool {
    forall|i: int, j: int| 0 <= i < j < m.len() ==> m[i].0 != m[j].0
}

/// Well-formedness of a canonical value: every map in it has unique keys.
pub open spec fn canonical_wf(c: CanonicalModel) -> bool
    decreases c,
{
    match c {
        CanonicalModel::List(s) => all_canonical_wf(s),
        CanonicalModel::Mapping(es) => keys_unique(es) && entries_canonical_wf(es),
        _ => true,
    }
}

pub open spec fn all_canonical_wf(s: Seq<CanonicalModel>) -> bool
    decreases s,
{
    if s.len() == 0 {
        true
    } else {
        all_canonical_wf(s.subrange(0, s.len() - 1)) && canonical_wf(s[s.len() - 1])
    }
}

pub open spec fn entries_canonical_wf(es: Seq<(Seq<char>, CanonicalModel)>) -> bool
    decreases es,
{
    if es.len() == 0 {
        true
    } else {
        entries_canonical_wf(es.subrange(0, es.len() - 1)) && canonical_wf(es[es.len() - 1].1)
    }
}

/// The sequence models are pointwise: index `i` of the model is the model of
/// index `i` of the sequence.
pub proof fn lemma_generic_models_of(s: Seq<GenericValue>)
    ensures
        generic_models_of(s).len() == s.len(),
        forall|i: int| 0 <= i < s.len() ==> generic_models_of(s)[i] == generic_model_of(s[i]),
    decreases s,
{
    if s.len() > 0 {
        lemma_generic_models_of(s.subrange(0, s.len() - 1));
        assert forall|i: int| 0 <= i < s.len() implies generic_models_of(s)[i]
            == generic_model_of(s[i]) by {
            if i < s.len() - 1 {
                assert(s.subrange(0, s.len() - 1)[i] == s[i]);
            }
        }
    }
}

pub proof fn lemma_generic_entry_models_of(s: Seq<(GenericValue, GenericValue)>)
    ensures
        generic_entry_models_of(s).len() == s.len(),
        forall|i: int|
            0 <= i < s.len() ==> generic_entry_models_of(s)[i] == (
                generic_model_of(s[i].0),
                generic_model_of(s[i].1),
            ),
    decreases s,
{
    if s.len() > 0 {
        lemma_generic_entry_models_of(s.subrange(0, s.len() - 1));
        assert forall|i: int| 0 <= i < s.len() implies generic_entry_models_of(s)[i] == (
            generic_model_of(s[i].0),
            generic_model_of(s[i].1),
        ) by {
            if i < s.len() - 1 {
                assert(s.subrange(0, s.len() - 1)[i] == s[i]);
            }
        }
    }
}

pub proof fn lemma_canonical_models_of(s: Seq<CanonicalValue>)
    ensures
        canonical_models_of(s).len() == s.len(),
        forall|i: int| 0 <= i < s.len() ==> canonical_models_of(s)[i] == canonical_model_of(s[i]),
    decreases s,
{
    if s.len() > 0 {
        lemma_canonical_models_of(s.subrange(0, s.len() - 1));
        assert forall|i: int| 0 <= i < s.len() implies canonical_models_of(s)[i]
            == canonical_model_of(s[i]) by {
            if i < s.len() - 1 {
                assert(s.subrange(0, s.len() - 1)[i] == s[i]);
            }
        }
    }
}

pub proof fn lemma_canonical_entry_models_of(s: Seq<(String, CanonicalValue)>)
    ensures
        canonical_entry_models_of(s).len() == s.len(),
        forall|i: int|
            0 <= i < s.len() ==> canonical_entry_models_of(s)[i] == (
                s[i].0@,
                canonical_model_of(s[i].1),
            ),
    decreases s,
{
    if s.len() > 0 {
        lemma_canonical_entry_models_of(s.subrange(0, s.len() - 1));
        assert forall|i: int| 0 <= i < s.len() implies canonical_entry_models_of(s)[i] == (
            s[i].0@,
            canonical_model_of(s[i].1),
        ) by {
            if i < s.len() - 1 {
                assert(s.subrange(0, s.len() - 1)[i] == s[i]);
            }
        }
    }
}

} // verus!

verus! {

pub proof fn lemma_all_representable(s: Seq<GenericModel>)
    ensures
        all_representable(s) <==> (forall|i: int| 0 <= i < s.len() ==> representable(s[i])),
    decreases s,
{
    if s.len() > 0 {
        lemma_all_representable(s.subrange(0, s.len() - 1));
        assert(forall|i: int|
            0 <= i < s.len() - 1 ==> s.subrange(0, s.len() - 1)[i] == s[i]);
    }
}

pub proof fn lemma_entries_representable(es: Seq<(GenericModel, GenericModel)>)
    ensures
        entries_representable(es) <==> (forall|i: int|
            0 <= i < es.len() ==> es[i].0 is Text && representable(es[i].1)),
    decreases es,
{
    if es.len() > 0 {
        lemma_entries_representable(es.subrange(0, es.len() - 1));
        assert(forall|i: int|
            0 <= i < es.len() - 1 ==> es.subrange(0, es.len() - 1)[i] == es[i]);
    }
}

pub proof fn lemma_bridged_seq(s: Seq<GenericModel>)
    ensures
        bridged_seq(s).len() == s.len(),
        forall|i: int| 0 <= i < s.len() ==> bridged_seq(s)[i] == bridged(s[i]),
    decreases s,
{
    if s.len() > 0 {
        lemma_bridged_seq(s.subrange(0, s.len() - 1));
        assert forall|i: int| 0 <= i < s.len() implies bridged_seq(s)[i] == bridged(s[i]) by {
            if i < s.len() - 1 {
                assert(s.subrange(0, s.len() - 1)[i] == s[i]);
            }
        }
    }
}

pub proof fn lemma_bridged_entries_push(
    es: Seq<(GenericModel, GenericModel)>,
    e: (GenericModel, GenericModel),
)
    ensures
        bridged_entries(es.push(e)) == map_put(bridged_entries(es), e.0->Text_0, bridged(e.1)),
        entries_representable(es.push(e)) <==> (entries_representable(es) && e.0 is Text
            && representable(e.1)),
{
    let s = es.push(e);
    assert(s.subrange(0, s.len() - 1) =~= es);
    assert(s[s.len() - 1] == e);
}

/// `map_put` of a key that is not yet present appends the entry.
pub proof fn lemma_map_put_absent(m: Seq<(Seq<char>, CanonicalModel)>, k: Seq<char>, v: CanonicalModel)
    requires
        forall|j: int| 0 <= j < m.len() ==> m[j].0 != k,
    ensures
        map_put(m, k, v) == m.push((k, v)),
    decreases m,
{
    if m.len() == 0 {
        assert(map_put(m, k, v) =~= m.push((k, v)));
    } else {
        let rest = m.subrange(1, m.len() as int);
        assert(forall|j: int| 0 <= j < rest.len() ==> rest[j] == m[j + 1]);
        lemma_map_put_absent(rest, k, v);
        assert(map_put(m, k, v) =~= m.push((k, v)));
    }
}

/// `map_put` of a key whose first occurrence is at `i` replaces that entry.
pub proof fn lemma_map_put_found(
    m: Seq<(Seq<char>, CanonicalModel)>,
    k: Seq<char>,
    v: CanonicalModel,
    i: int,
)
    requires
        0 <= i < m.len(),
        m[i].0 == k,
        forall|j: int| 0 <= j < i ==> m[j].0 != k,
    ensures
        map_put(m, k, v) == m.update(i, (k, v)),
    decreases m,
{
    if i == 0 {
        assert(map_put(m, k, v) =~= m.update(0, (k, v)));
    } else {
        let rest = m.subrange(1, m.len() as int);
        assert(forall|j: int| 0 <= j < rest.len() ==> rest[j] == m[j + 1]);
        lemma_map_put_found(rest, k, v, i - 1);
        assert(map_put(m, k, v) =~= m.update(i, (k, v)));
    }
}

/// Insert into a canonical map held as a vector of entries: the first entry
/// with an equal key (by text) is replaced in place; otherwise the entry is
/// appended.
#[verifier::loop_isolation(false)]
pub fn canonical_map_put(m: &mut Vec<(String, CanonicalValue)>, k: String, v: CanonicalValue)
    ensures
        canonical_entry_models_of(final(m)@) == map_put(
            canonical_entry_models_of(old(m)@),
            k@,
            canonical_model_of(v),
        ),
{
    let ghost m0 = m@;
    let ghost ms = canonical_entry_models_of(m@);
    proof {
        lemma_canonical_entry_models_of(m@);
    }
    let mut i: usize = 0;
    while i < m.len()
        invariant
            m@ == m0,
            ms == canonical_entry_models_of(m0),
            ms.len() == m0.len(),
            forall|j: int| 0 <= j < m0.len() ==> ms[j] == (m0[j].0@, canonical_model_of(m0[j].1)),
            0 <= i <= m0.len(),
            forall|j: int| 0 <= j < i ==> m0[j].0@ != k@,
        decreases m0.len() - i,
    {
        if m[i].0.eq(&k) {
            let ghost ii = i as int;
            m.remove(i);
            m.insert(i, (k, v));
            proof {
                assert(m@ =~= m0.update(ii, (k, v)));
                lemma_map_put_found(ms, k@, canonical_model_of(v), ii);
                lemma_canonical_entry_models_of(m@);
                assert(canonical_entry_models_of(m@) =~= map_put(ms, k@, canonical_model_of(v)));
            }
            return;
        }
        i = i + 1;
    }
    m.push((k, v));
    proof {
        assert(m@ =~= m0.push((k, v)));
        lemma_map_put_absent(ms, k@, canonical_model_of(v));
        lemma_canonical_entry_models_of(m@);
        assert(canonical_entry_models_of(m@) =~= map_put(ms, k@, canonical_model_of(v)));
    }
}

} // verus!

verus! {

/// Whether `p` is a prefix of `s`.
pub open spec fn has_prefix(s: Seq<char>, p: Seq<char>) -> bool {
    p.len() <= s.len() && s.subrange(0, p.len() as int) == p
}

/// Every diagnostic the bridge can produce starts with one of its two
/// messages: a refused map key, or an unsupported variant.
pub open spec fn bridge_diag_shape(e: Seq<char>) -> bool {
    has_prefix(e, "Map keys must be strings, found: "@) || has_prefix(
        e,
        "Unsupported CBOR type: "@,
    )
}

/// The decimal digits of a natural number, most significant first.
pub open spec fn decimal_digits(n: nat) -> Seq<char>
    decreases n,
{
    if n < 10 {
        seq![nibble_char(n as u8)]
    } else {
        decimal_digits(n / 10).push(nibble_char((n % 10) as u8))
    }
}

/// The decimal rendering of an integer, with a leading minus sign when it
/// is negative.
pub open spec fn decimal_of_int(i: int) -> Seq<char> {
    if i >= 0 {
        decimal_digits(i as nat)
    } else {
        seq!['-'] + decimal_digits((-i) as nat)
    }
}

#[verifier::loop_isolation(false)]
fn push_decimal_digits(n: u128, s: &mut String)
    ensures
        final(s)@ == old(s)@ + decimal_digits(n as nat),
    decreases n,
{
    if n < 10 {
        s.append(nibble_str(n as u8));
        proof {
            assert(final(s)@ =~= old(s)@ + decimal_digits(n as nat));
        }
    } else {
        push_decimal_digits(n / 10, s);
        s.append(nibble_str((n % 10) as u8));
        proof {
            assert(final(s)@ =~= old(s)@ + decimal_digits(n as nat));
        }
    }
}

/// Render an integer in decimal, exactly as `decimal_of_int` states it.
pub fn int_to_decimal(i: i128) -> (r: String)
    ensures
        r@ == decimal_of_int(i as int),
{
    let mut s = String::new();
    if i >= 0 {
        push_decimal_digits(i as u128, &mut s);
    } else {
        proof {
            reveal_strlit("-");
        }
        s.append("-");
        let mag: u128 = ((-(i + 1)) as u128) + 1;
        proof {
            assert(mag as int == -(i as int));
            assert("-"@ =~= seq!['-']);
        }
        push_decimal_digits(mag, &mut s);
    }
    proof {
        assert(s@ =~= decimal_of_int(i as int));
    }
    s
}

/// The label a diagnostic gives the shape of a generic value.
pub open spec fn kind_label_model(g: GenericModel) -> Seq<char> {
    match g {
        GenericModel::Integer(_) => "integer"@,
        GenericModel::Bytes(_) => "bytes"@,
        GenericModel::Float(_) => "float"@,
        GenericModel::Text(_) => "text"@,
        GenericModel::Bool(_) => "boolean"@,
        GenericModel::Null => "null"@,
        GenericModel::Tag(_, _) => "tag"@,
        GenericModel::Array(_) => "array"@,
        GenericModel::Mapping(_) => "map"@,
        GenericModel::Other => "unrecognized value"@,
    }
}

/// The text a map-key failure names the offending key with: an integer key
/// by its value, any other key by its shape.
pub open spec fn key_text(g: GenericModel) -> Seq<char> {
    match g {
        GenericModel::Integer(i) => "integer "@ + decimal_of_int(i),
        _ => kind_label_model(g),
    }
}

/// The diagnostic the bridge produces for an unrepresentable value: the
/// message of the first unrepresentable construct met in conversion order.
pub open spec fn bridge_err(g: GenericModel) -> Seq<char>
    decreases g,
{
    match g {
        GenericModel::Tag(_, _) => "Unsupported CBOR type: "@ + "tag"@,
        GenericModel::Other => "Unsupported CBOR type: "@ + "unrecognized value"@,
        GenericModel::Array(s) => bridge_err_seq(s),
        GenericModel::Mapping(es) => bridge_err_entries(es),
        _ => Seq::empty(),
    }
}

pub open spec fn bridge_err_seq(s: Seq<GenericModel>) -> Seq<char>
    decreases s,
{
    if s.len() == 0 {
        Seq::empty()
    } else if !representable(s[0]) {
        bridge_err(s[0])
    } else {
        bridge_err_seq(s.subrange(1, s.len() as int))
    }
}

pub open spec fn bridge_err_entries(es: Seq<(GenericModel, GenericModel)>) -> Seq<char>
    decreases es,
{
    if es.len() == 0 {
        Seq::empty()
    } else if !(es[0].0 is Text) {
        "Map keys must be strings, found: "@ + key_text(es[0].0)
    } else if !representable(es[0].1) {
        bridge_err(es[0].1)
    } else {
        bridge_err_entries(es.subrange(1, es.len() as int))
    }
}

/// In a list whose first unrepresentable element stands at `k`, the
/// diagnostic is that element's own.
proof fn lemma_bridge_err_seq_first(s: Seq<GenericModel>, k: int)
    requires
        0 <= k < s.len(),
        !representable(s[k]),
        forall|j: int| 0 <= j < k ==> representable(s[j]),
    ensures
        bridge_err_seq(s) == bridge_err(s[k]),
    decreases s,
{
    if k > 0 {
        let rest = s.subrange(1, s.len() as int);
        assert(forall|j: int| 0 <= j < rest.len() ==> rest[j] == s[j + 1]);
        lemma_bridge_err_seq_first(rest, k - 1);
    }
}

/// In a map whose first failing entry stands at `k`, the diagnostic names
/// that entry's key when the key is not text, else is the value's own.
proof fn lemma_bridge_err_entries_first(es: Seq<(GenericModel, GenericModel)>, k: int)
    requires
        0 <= k < es.len(),
        !(es[k].0 is Text) || !representable(es[k].1),
        forall|j: int| 0 <= j < k ==> es[j].0 is Text && representable(es[j].1),
    ensures
        bridge_err_entries(es) == (if !(es[k].0 is Text) {
            "Map keys must be strings, found: "@ + key_text(es[k].0)
        } else {
            bridge_err(es[k].1)
        }),
    decreases es,
{
    if k > 0 {
        let rest = es.subrange(1, es.len() as int);
        assert(forall|j: int| 0 <= j < rest.len() ==> rest[j] == es[j + 1]);
        lemma_bridge_err_entries_first(rest, k - 1);
    }
}

/// A short name for the shape of a generic value, used in diagnostics.
pub fn kind_label(v: &GenericValue) -> (r: &'static str)
    ensures
        r@ == kind_label_model(v@),
{
    match v {
        GenericValue::Integer(_) => "integer",
        GenericValue::Bytes(_) => "bytes",
        GenericValue::Float(_) => "float",
        GenericValue::Text(_) => "text",
        GenericValue::Bool(_) => "boolean",
        GenericValue::Null => "null",
        GenericValue::Tag(_, _) => "tag",
        GenericValue::Array(_) => "array",
        GenericValue::Mapping(_) => "map",
        GenericValue::Other => "unrecognized value",
    }
}

fn unsupported_diag(label: &str) -> (r: String)
    ensures
        r@ == "Unsupported CBOR type: "@ + label@,
        r@.len() > 0,
        bridge_diag_shape(r@),
{
    proof {
        reveal_strlit("Unsupported CBOR type: ");
    }
    let mut s = "Unsupported CBOR type: ".to_owned();
    s.append(label);
    proof {
        assert(s@.subrange(0, "Unsupported CBOR type: "@.len() as int) =~= "Unsupported CBOR type: "@);
    }
    s
}

fn map_key_diag(label: &str) -> (r: String)
    ensures
        r@ == "Map keys must be strings, found: "@ + label@,
        r@.len() > 0,
        bridge_diag_shape(r@),
{
    proof {
        reveal_strlit("Map keys must be strings, found: ");
    }
    let mut s = "Map keys must be strings, found: ".to_owned();
    s.append(label);
    proof {
        assert(s@.subrange(0, "Map keys must be strings, found: "@.len() as int)
            =~= "Map keys must be strings, found: "@);
    }
    s
}

/// Conversion of a generic decoded value into the canonical data model.
/// It succeeds exactly on representable values, and then yields the bridged
/// value; the first unrepresentable construct found stops the conversion
/// with a diagnostic.
#[verifier::loop_isolation(false)]
pub fn generic_to_canonical(v: GenericValue) -> (r: Result<CanonicalValue, String>)
    ensures
        r is Ok <==> representable(v@),
        r matches Ok(c) ==> c@ == bridged(v@) && canonical_wf(c@),
        r matches Err(e) ==> e@.len() > 0 && bridge_diag_shape(e@) && e@ == bridge_err(v@),
    decreases v,
{
    proof {
        if representable(generic_model_of(v)) {
            lemma_bridged_wf(generic_model_of(v));
        }
    }
    let ghost v0 = v;
    match v {
        GenericValue::Integer(i) => Ok(CanonicalValue::Integer(i)),
        GenericValue::Bytes(b) => Ok(CanonicalValue::Bytes(b)),
        GenericValue::Float(bits) => Ok(CanonicalValue::Float(bits)),
        GenericValue::Text(s) => Ok(CanonicalValue::Text(s)),
        GenericValue::Bool(b) => Ok(CanonicalValue::Bool(b)),
        GenericValue::Null => Ok(CanonicalValue::Null),
        GenericValue::Tag(_, _) => Err(unsupported_diag("tag")),
        GenericValue::Other => Err(unsupported_diag("unrecognized value")),
        GenericValue::Array(mut vs) => {
            let ghost vs0 = vs;
            let ghost orig = vs@;
            let mut out: Vec<CanonicalValue> = Vec::new();
            proof {
                lemma_generic_models_of(orig);
            }
            while vs.len() > 0
                invariant
                    out@.len() + vs@.len() == orig.len(),
                    vs@ =~= orig.subrange(out@.len() as int, orig.len() as int),
                    forall|j: int|
                        0 <= j < out@.len() ==> representable(generic_model_of(orig[j])),
                    forall|j: int|
                        0 <= j < out@.len() ==> canonical_model_of(out@[j]) == bridged(
                            generic_model_of(orig[j]),
                        ),
                decreases vs@.len(),
            {
                let ghost k = out@.len() as int;
                let x = vs.remove(0);
                proof {
                    assert(x == orig[k]);
                    assert(decreases_to!(v0 => vs0));
                    assert(decreases_to!(vs0 => vs0@));
                    assert(decreases_to!(vs0@ => vs0@[k]));
                }
                match generic_to_canonical(x) {
                    Ok(c) => out.push(c),
                    Err(e) => {
                        proof {
                            lemma_all_representable(generic_models_of(orig));
                            assert(generic_models_of(orig)[k] == generic_model_of(orig[k]));
                            assert(forall|j: int|
                                0 <= j < k ==> generic_models_of(orig)[j] == generic_model_of(
                                    orig[j],
                                ));
                            lemma_bridge_err_seq_first(generic_models_of(orig), k);
                        }
                        return Err(e);
                    },
                }
            }
            proof {
                lemma_all_representable(generic_models_of(orig));
                lemma_bridged_seq(generic_models_of(orig));
                lemma_canonical_models_of(out@);
                assert(canonical_models_of(out@) =~= bridged_seq(generic_models_of(orig)));
            }
            Ok(CanonicalValue::List(out))
        },
        GenericValue::Mapping(mut es) => {
            let ghost es0 = es;
            let ghost orig = es@;
            let mut out: Vec<(String, CanonicalValue)> = Vec::new();
            proof {
                lemma_generic_entry_models_of(orig);
            }
            while es.len() > 0
                invariant
                    es@.len() <= orig.len(),
                    es@ =~= orig.subrange(orig.len() - es@.len(), orig.len() as int),
                    entries_representable(
                        generic_entry_models_of(orig.subrange(0, orig.len() - es@.len())),
                    ),
                    canonical_entry_models_of(out@) == bridged_entries(
                        generic_entry_models_of(orig.subrange(0, orig.len() - es@.len())),
                    ),
                decreases es@.len(),
            {
                let ghost k = orig.len() - es@.len();
                let ghost prefix = orig.subrange(0, k);
                let e = es.remove(0);
                proof {
                    assert(e == orig[k]);
                    assert(decreases_to!(v0 => es0));
                    assert(decreases_to!(es0 => es0@));
                    assert(decreases_to!(es0@ => es0@[k]));
                    assert(decreases_to!(es0@[k] => es0@[k].1));
                }
                let (key_v, val) = e;
                match key_v {
                    GenericValue::Text(key) => {
                        let ghost key_snap = key;
                        match generic_to_canonical(val) {
                            Ok(c) => {
                                proof {
                                    assert(orig.subrange(0, k + 1).subrange(0, k) =~= prefix);
                                    assert(orig.subrange(0, k + 1)[k] == orig[k]);
                                    lemma_generic_entry_models_of(orig.subrange(0, k + 1));
                                    lemma_generic_entry_models_of(prefix);
                                    assert(generic_entry_models_of(orig.subrange(0, k + 1)) =~=
                                        generic_entry_models_of(prefix).push(
                                            (
                                                generic_model_of(orig[k].0),
                                                generic_model_of(orig[k].1),
                                            ),
                                        ));
                                    lemma_bridged_entries_push(
                                        generic_entry_models_of(prefix),
                                        (generic_model_of(orig[k].0), generic_model_of(orig[k].1)),
                                    );
                                }
                                canonical_map_put(&mut out, key, c);
                                proof {
                                    assert(generic_model_of(orig[k].0)->Text_0 == key_snap@);
                                }
                            },
                            Err(er) => {
                                proof {
                                    lemma_entries_representable(generic_entry_models_of(orig));
                                    assert(generic_entry_models_of(orig)[k] == (
                                        generic_model_of(orig[k].0),
                                        generic_model_of(orig[k].1),
                                    ));
                                    lemma_generic_entry_models_of(prefix);
                                    lemma_entries_representable(
                                        generic_entry_models_of(prefix),
                                    );
                                    assert forall|j: int| 0 <= j < k implies {
                                        &&& #[trigger] generic_entry_models_of(orig)[j].0
                                            is Text
                                        &&& representable(generic_entry_models_of(orig)[j].1)
                                    } by {
                                        assert(prefix[j] == orig[j]);
                                        assert(generic_entry_models_of(prefix)[j] == (
                                            generic_model_of(prefix[j].0),
                                            generic_model_of(prefix[j].1),
                                        ));
                                    }
                                    lemma_bridge_err_entries_first(
                                        generic_entry_models_of(orig),
                                        k,
                                    );
                                }
                                return Err(er);
                            },
                        }
                    },
                    other => {
                        proof {
                            lemma_entries_representable(generic_entry_models_of(orig));
                            assert(generic_entry_models_of(orig)[k] == (
                                generic_model_of(orig[k].0),
                                generic_model_of(orig[k].1),
                            ));
                            assert(!(generic_model_of(orig[k].0) is Text));
                            lemma_generic_entry_models_of(prefix);
                            lemma_entries_representable(generic_entry_models_of(prefix));
                            assert forall|j: int| 0 <= j < k implies {
                                &&& #[trigger] generic_entry_models_of(orig)[j].0 is Text
                                &&& representable(generic_entry_models_of(orig)[j].1)
                            } by {
                                assert(prefix[j] == orig[j]);
                                assert(generic_entry_models_of(prefix)[j] == (
                                    generic_model_of(prefix[j].0),
                                    generic_model_of(prefix[j].1),
                                ));
                            }
                            lemma_bridge_err_entries_first(generic_entry_models_of(orig), k);
                        }
                        let label = match &other {
                            GenericValue::Integer(i) => {
                                let d = int_to_decimal(*i);
                                let mut t = "integer ".to_owned();
                                t.append(d.as_str());
                                t
                            },
                            _ => kind_label(&other).to_owned(),
                        };
                        proof {
                            assert(label@ == key_text(generic_model_of(other)));
                        }
                        return Err(map_key_diag(label.as_str()));
                    },
                }
            }
            proof {
                assert(orig.subrange(0, orig.len() as int) =~= orig);
                lemma_entries_representable(generic_entry_models_of(orig));
            }
            Ok(CanonicalValue::Mapping(out))
        },
    }
}

} // verus!

verus! {

/// Whether some entry of `m` carries the key `k`.
pub open spec fn has_key(m: Seq<(Seq<char>, CanonicalModel)>, k: Seq<char>) -> bool {
    exists|i: int| 0 <= i < m.len() && m[i].0 == k
}

pub proof fn lemma_map_put_wf(m: Seq<(Seq<char>, CanonicalModel)>, k: Seq<char>, v: CanonicalModel)
    ensures
        keys_unique(m) ==> keys_unique(map_put(m, k, v)),
        forall|j: int|
            0 <= j < map_put(m, k, v).len() ==> (map_put(m, k, v)[j].0 == k || has_key(
                m,
                map_put(m, k, v)[j].0,
            )),
        entries_canonical_wf(m) && canonical_wf(v) ==> entries_canonical_wf(map_put(m, k, v)),
    decreases m,
{
    let r = map_put(m, k, v);
    lemma_entries_wf_pointwise(m);
    if m.len() == 0 {
        lemma_entries_wf_pointwise(r);
    } else if m[0].0 == k {
        assert(forall|j: int| 1 <= j < r.len() ==> r[j] == m[j]);
        lemma_entries_wf_pointwise(r);
    } else {
        let rest = m.subrange(1, m.len() as int);
        assert(forall|j: int| 0 <= j < rest.len() ==> rest[j] == m[j + 1]);
        lemma_map_put_wf(rest, k, v);
        assert(forall|j: int| 1 <= j < r.len() ==> r[j] == map_put(rest, k, v)[j - 1]);
        lemma_entries_wf_pointwise(rest);
        lemma_entries_wf_pointwise(map_put(rest, k, v));
        lemma_entries_wf_pointwise(r);
    }
}

/// `entries_canonical_wf` is the pointwise well-formedness of the values.
pub proof fn lemma_entries_wf_pointwise(es: Seq<(Seq<char>, CanonicalModel)>)
    ensures
        entries_canonical_wf(es) <==> (forall|i: int|
            0 <= i < es.len() ==> canonical_wf(es[i].1)),
    decreases es,
{
    if es.len() > 0 {
        lemma_entries_wf_pointwise(es.subrange(0, es.len() - 1));
        assert(forall|i: int|
            0 <= i < es.len() - 1 ==> es.subrange(0, es.len() - 1)[i] == es[i]);
    }
}

/// Every value bridged from a representable generic value is well-formed:
/// all of its maps carry unique keys.
pub proof fn lemma_bridged_wf(g: GenericModel)
    requires
        representable(g),
    ensures
        canonical_wf(bridged(g)),
    decreases g,
{
    match g {
        GenericModel::Array(s) => {
            lemma_bridged_seq_wf(s);
        },
        GenericModel::Mapping(es) => {
            lemma_bridged_entries_wf(es);
        },
        _ => {},
    }
}

pub proof fn lemma_bridged_seq_wf(s: Seq<GenericModel>)
    requires
        all_representable(s),
    ensures
        all_canonical_wf(bridged_seq(s)),
    decreases s,
{
    if s.len() > 0 {
        let butlast = s.subrange(0, s.len() - 1);
        lemma_bridged_seq_wf(butlast);
        lemma_bridged_wf(s[s.len() - 1]);
        let r = bridged_seq(s);
        assert(r == bridged_seq(butlast).push(bridged(s[s.len() - 1])));
        assert(r.subrange(0, r.len() - 1) =~= bridged_seq(butlast));
        assert(r[r.len() - 1] == bridged(s[s.len() - 1]));
    }
}

pub proof fn lemma_bridged_entries_wf(es: Seq<(GenericModel, GenericModel)>)
    requires
        entries_representable(es),
    ensures
        keys_unique(bridged_entries(es)),
        entries_canonical_wf(bridged_entries(es)),
    decreases es,
{
    if es.len() > 0 {
        let butlast = es.subrange(0, es.len() - 1);
        lemma_bridged_entries_wf(butlast);
        lemma_bridged_wf(es[es.len() - 1].1);
        lemma_map_put_wf(
            bridged_entries(butlast),
            es[es.len() - 1].0->Text_0,
            bridged(es[es.len() - 1].1),
        );
    }
}

} // verus!
