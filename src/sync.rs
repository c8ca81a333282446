use vstd::prelude::*;
use crate::compile::{
    compile_contract, contract_json, derive_required, derived_required, doc_json, lemma_required_sync,
    prop_json,
    props_map_prefix,
};
use crate::json::{json_text, write_json};
use crate::model::{
    docs_view, lemma_nested_view, props_view, strings_view, DataType, DocumentType, DocumentTypeV,
    Property, PropertyV,
};

verus! {

/// A property whose object children, at every depth, have their required
/// lists set to the names of their required children.
pub open spec fn synced_prop(p: PropertyV) -> PropertyV
    decreases p, 1int,
{
    if p.data_type == DataType::Object {
        match p.properties {
            Some(c) => PropertyV {
                properties: Some(synced_props_prefix(c, c.len() as int)),
                rec_required: Some(derived_required(c)),
                ..p
            },
            None => PropertyV { rec_required: Some(Seq::empty()), ..p },
        }
    } else {
        p
    }
}

/// The first `n` properties of a list, each synced.
pub open spec fn synced_props_prefix(c: Seq<PropertyV>, n: int) -> Seq<PropertyV>
    decreases c, n,
{
    if n <= 0 || n > c.len() {
        Seq::empty()
    } else {
        synced_props_prefix(c, n - 1).push(synced_prop(c[n - 1]))
    }
}

/// A list of properties, each synced.
pub open spec fn synced_props(c: Seq<PropertyV>) -> Seq<PropertyV> {
    synced_props_prefix(c, c.len() as int)
}

/// A document type whose required list, and those of its object properties,
/// name exactly the required properties.
pub open spec fn synced_doc(d: DocumentTypeV) -> DocumentTypeV {
    DocumentTypeV { properties: synced_props(d.properties), required: derived_required(d.properties), ..d }
}

pub open spec fn synced_docs(ds: Seq<DocumentTypeV>) -> Seq<DocumentTypeV> {
    ds.map_values(|d: DocumentTypeV| synced_doc(d))
}

pub proof fn lemma_synced_prefix_len(c: Seq<PropertyV>, n: int)
    requires
        0 <= n <= c.len(),
    ensures
        synced_props_prefix(c, n).len() == n,
        forall|i: int| 0 <= i < n ==> #[trigger] synced_props_prefix(c, n)[i] == synced_prop(c[i]),
    decreases n,
{
    if n > 0 {
        lemma_synced_prefix_len(c, n - 1);
    }
}

/// Two lists that agree on every name and flag derive the same required list.
pub proof fn lemma_derived_same_flags(a: Seq<PropertyV>, b: Seq<PropertyV>)
    requires
        a.len() == b.len(),
        forall|i: int| 0 <= i < a.len() ==> a[i].name == b[i].name && a[i].required == b[i].required,
    ensures
        derived_required(a) == derived_required(b),
    decreases a.len(),
{
    if a.len() > 0 {
        lemma_derived_same_flags(a.drop_last(), b.drop_last());
    }
}

pub proof fn lemma_derived_synced(c: Seq<PropertyV>)
    ensures
        derived_required(synced_props(c)) == derived_required(c),
{
    lemma_synced_prefix_len(c, c.len() as int);
    lemma_derived_same_flags(synced_props(c), c);
}

/// Syncing leaves a property's canonical object unchanged.
pub proof fn lemma_synced_prop_json(p: PropertyV)
    ensures
        prop_json(synced_prop(p)) == prop_json(p),
    decreases p, 1int,
{
    if p.data_type == DataType::Object {
        if let Some(c) = p.properties {
            lemma_synced_prefix_len(c, c.len() as int);
            lemma_synced_map(c, c.len() as int);
            lemma_derived_synced(c);
        }
    }
}

pub proof fn lemma_synced_map(c: Seq<PropertyV>, n: int)
    requires
        0 <= n <= c.len(),
    ensures
        props_map_prefix(synced_props_prefix(c, n), n) == props_map_prefix(c, n),
    decreases c, n,
{
    lemma_synced_prefix_len(c, n);
    if n > 0 {
        let s = synced_props_prefix(c, n);
        lemma_synced_map(c, n - 1);
        lemma_synced_prop_json(c[n - 1]);
        lemma_prefix_map_agrees(s, synced_props_prefix(c, n - 1), n - 1);
    }
}

/// The map of the first `n` properties depends on those properties alone.
pub proof fn lemma_prefix_map_agrees(a: Seq<PropertyV>, b: Seq<PropertyV>, n: int)
    requires
        0 <= n <= a.len(),
        n <= b.len(),
        forall|i: int| 0 <= i < n ==> a[i] == b[i],
    ensures
        props_map_prefix(a, n) == props_map_prefix(b, n),
    decreases n,
{
    if n > 0 {
        lemma_prefix_map_agrees(a, b, n - 1);
    }
}

/// Syncing a synced property changes nothing.
pub proof fn lemma_synced_prop_idempotent(p: PropertyV)
    ensures
        synced_prop(synced_prop(p)) == synced_prop(p),
    decreases p, 1int,
{
    if p.data_type == DataType::Object {
        if let Some(c) = p.properties {
            lemma_synced_prefix_len(c, c.len() as int);
            lemma_synced_props_idempotent(c, c.len() as int);
            lemma_derived_synced(c);
        }
    }
}

pub proof fn lemma_synced_props_idempotent(c: Seq<PropertyV>, n: int)
    requires
        0 <= n <= c.len(),
    ensures
        synced_props_prefix(synced_props_prefix(c, n), n) == synced_props_prefix(c, n),
    decreases c, n,
{
    lemma_synced_prefix_len(c, n);
    let s = synced_props_prefix(c, n);
    lemma_synced_prefix_len(s, n);
    assert forall|i: int| 0 <= i < n implies #[trigger] synced_props_prefix(s, n)[i] == s[i] by {
        lemma_synced_prop_idempotent(c[i]);
    }
    assert(synced_props_prefix(s, n) =~= s);
}

/// Sets the required list of a property, and of its object children at every
/// depth, to the names of the required children.
pub fn sync_property(p: Property) -> (r: Property)
    ensures
        r@ == synced_prop(p@),
    decreases p, 1int,
{
    proof {
        lemma_nested_view(p);
    }
    if p.data_type == DataType::Object {
        let ghost p0 = p;
        let mut p = p;
        match p.properties.take() {
            Some(c) => {
                let req = derive_required(&c);
                let c2 = sync_properties(c);
                p.properties = Some(c2);
                p.rec_required = Some(req);
            },
            None => {
                p.rec_required = Some(Vec::new());
                assert(strings_view(Seq::<String>::empty()) =~= Seq::empty());
            },
        }
        proof {
            lemma_nested_view(p);
            lemma_nested_view(p0);
        }
        p
    } else {
        p
    }
}

/// Syncs each property of a list.
pub fn sync_properties(c: Vec<Property>) -> (r: Vec<Property>)
    ensures
        props_view(r@) == synced_props(props_view(c@)),
    decreases c, 0int,
{
    let ghost cv = props_view(c@);
    let ghost c0 = c;
    let mut rest = c;
    let mut out: Vec<Property> = Vec::new();
    proof {
        lemma_synced_prefix_len(cv, cv.len() as int);
    }
    while rest.len() > 0
        invariant
            c0 == c,
            cv == props_view(c0@),
            out.len() + rest.len() == c0.len(),
            rest@ == c0@.subrange(out.len() as int, c0.len() as int),
            props_view(out@) == synced_props_prefix(cv, out.len() as int),
        decreases rest.len(),
    {
        let ghost k = out.len() as int;
        let x = rest.remove(0);
        assert(x == c0@[k]);
        let y = sync_property(x);
        let ghost o0 = props_view(out@);
        out.push(y);
        assert(props_view(out@) =~= o0.push(y@));
        assert(rest@ =~= c0@.subrange(k + 1, c0.len() as int));
    }
    out
}

/// Sets the required list of each document type, and of its object
/// properties at every depth, to the names of the required properties.
pub fn sync_required(docs: &mut Vec<DocumentType>)
    ensures
        docs_view(final(docs)@) == synced_docs(docs_view(old(docs)@)),
{
    let mut rest: Vec<DocumentType> = Vec::new();
    std::mem::swap(docs, &mut rest);
    let ghost r0 = rest@;
    let mut out: Vec<DocumentType> = Vec::new();
    while rest.len() > 0
        invariant
            out.len() + rest.len() == r0.len(),
            rest@ == r0.subrange(out.len() as int, r0.len() as int),
            forall|j: int| 0 <= j < out.len() ==> #[trigger] out@[j]@ == synced_doc(r0[j]@),
        decreases rest.len(),
    {
        let ghost k = out.len() as int;
        let mut d = rest.remove(0);
        assert(d == r0[k]);
        let mut props: Vec<Property> = Vec::new();
        std::mem::swap(&mut d.properties, &mut props);
        d.required = derive_required(&props);
        d.properties = sync_properties(props);
        out.push(d);
        assert(rest@ =~= r0.subrange(k + 1, r0.len() as int));
    }
    assert(docs_view(out@) =~= synced_docs(docs_view(r0)));
    *docs = out;
}

/// Syncing leaves a document type's canonical object unchanged.
pub proof fn lemma_synced_doc_json(d: DocumentTypeV)
    ensures
        doc_json(synced_doc(d)) == doc_json(d),
{
    let c = d.properties;
    lemma_synced_map(c, c.len() as int);
    lemma_synced_prefix_len(c, c.len() as int);
    lemma_derived_synced(c);
}

/// Compiling is unaffected by syncing, and syncing twice is syncing once: so
/// compiling an unchanged contract again, after the first compile synced it,
/// gives the same text.
pub proof fn lemma_compile_idempotent(ds: Seq<DocumentTypeV>)
    ensures
        json_text(contract_json(synced_docs(ds))) == json_text(contract_json(ds)),
        synced_docs(synced_docs(ds)) == synced_docs(ds),
{
    assert forall|i: int| 0 <= i < ds.len() implies #[trigger] synced_docs(ds)[i].name == ds[i].name
        && doc_json(synced_docs(ds)[i]) == doc_json(ds[i]) by {
        lemma_synced_doc_json(ds[i]);
    }
    if let (crate::json::JsonV::Object(a), crate::json::JsonV::Object(b)) = (
        contract_json(synced_docs(ds)),
        contract_json(ds),
    ) {
        assert(a =~= b);
    }
    assert forall|i: int| 0 <= i < ds.len() implies #[trigger] synced_docs(synced_docs(ds))[i]
        == synced_docs(ds)[i] by {
        let d = ds[i];
        let c = d.properties;
        lemma_synced_prefix_len(c, c.len() as int);
        lemma_synced_props_idempotent(c, c.len() as int);
        lemma_derived_synced(c);
    }
    assert(synced_docs(synced_docs(ds)) =~= synced_docs(ds));
}

/// Syncs the required lists of the contract, then compiles it to compact
/// JSON text. The text is that of the contract as it was: syncing does not
/// change what compiles.
pub fn generate_json_object(docs: &mut Vec<DocumentType>) -> (r: String)
    ensures
        docs_view(final(docs)@) == synced_docs(docs_view(old(docs)@)),
        r@ == json_text(contract_json(docs_view(old(docs)@))),
{
    sync_required(docs);
    let j = compile_contract(docs);
    proof {
        lemma_compile_idempotent(docs_view(old(docs)@));
    }
    write_json(&j)
}

/// After syncing, whatever the flags and the stored lists were, each document
/// type's required list names exactly its required properties, each once.
pub proof fn lemma_synced_required_exact(ds: Seq<DocumentTypeV>, i: int)
    requires
        0 <= i < ds.len(),
    ensures
        synced_docs(ds)[i].required.no_duplicates(),
        forall|n: Seq<char>|
            #[trigger] synced_docs(ds)[i].required.contains(n) <==> exists|j: int|
                0 <= j < ds[i].properties.len() && ds[i].properties[j].required
                    && ds[i].properties[j].name == n,
{
    lemma_required_sync(ds[i].properties);
}

/// Compiled lists that agree on every name, flag and compiled object.
pub open spec fn same_compiled(a: Seq<PropertyV>, b: Seq<PropertyV>) -> bool {
    a.len() == b.len() && forall|i: int|
        0 <= i < a.len() ==> (#[trigger] a[i]).name == b[i].name && a[i].required == b[i].required
            && prop_json(a[i]) == prop_json(b[i])
}

pub proof fn lemma_same_compiled_map(a: Seq<PropertyV>, b: Seq<PropertyV>, n: int)
    requires
        same_compiled(a, b),
        0 <= n <= a.len(),
    ensures
        props_map_prefix(a, n) == props_map_prefix(b, n),
    decreases n,
{
    if n > 0 {
        lemma_same_compiled_map(a, b, n - 1);
        assert(a[n - 1].name == b[n - 1].name);
    }
}

/// Lists that compile alike give the same properties map and required list.
pub proof fn lemma_same_compiled(a: Seq<PropertyV>, b: Seq<PropertyV>)
    requires
        same_compiled(a, b),
    ensures
        props_map_prefix(a, a.len() as int) == props_map_prefix(b, b.len() as int),
        derived_required(a) == derived_required(b),
{
    lemma_same_compiled_map(a, b, a.len() as int);
    lemma_derived_same_flags(a, b);
}

/// An object property whose nested list compiles alike compiles alike.
pub proof fn lemma_same_compiled_nested(p: PropertyV, a: Seq<PropertyV>, b: Seq<PropertyV>)
    requires
        same_compiled(a, b),
    ensures
        prop_json(PropertyV { properties: Some(a), ..p }) == prop_json(PropertyV { properties: Some(b), ..p }),
{
    lemma_same_compiled(a, b);
}

/// Setting a zero `min_length` of one property of a list to unset leaves
/// the list compiling alike.
pub proof fn lemma_zero_min_length_in_list(a: Seq<PropertyV>, j: int)
    requires
        0 <= j < a.len(),
        a[j].min_length == Some(0u32),
    ensures
        same_compiled(a, a.update(j, PropertyV { min_length: None, ..a[j] })),
{
    crate::compile::lemma_zero_min_length_omitted(a[j]);
    assert(PropertyV { min_length: Some(0u32), ..a[j] } == a[j]);
}

/// A contract in which one property of one document type has a zero
/// `min_length` compiles to the same document as the contract with that
/// `min_length` unset. Deeper properties follow by
/// `lemma_zero_min_length_in_list` and `lemma_same_compiled_nested`.
pub proof fn lemma_contract_zero_min_length(ds: Seq<DocumentTypeV>, i: int, j: int)
    requires
        0 <= i < ds.len(),
        0 <= j < ds[i].properties.len(),
        ds[i].properties[j].min_length == Some(0u32),
    ensures
        contract_json(ds) == contract_json(
            ds.update(
                i,
                DocumentTypeV {
                    properties: ds[i].properties.update(
                        j,
                        PropertyV { min_length: None, ..ds[i].properties[j] },
                    ),
                    ..ds[i]
                },
            ),
        ),
{
    let a = ds[i].properties;
    let b = a.update(j, PropertyV { min_length: None, ..a[j] });
    let e = DocumentTypeV { properties: b, ..ds[i] };
    let es = ds.update(i, e);
    lemma_zero_min_length_in_list(a, j);
    lemma_same_compiled(a, b);
    assert(doc_json(e) == doc_json(ds[i]));
    if let (crate::json::JsonV::Object(x), crate::json::JsonV::Object(y)) = (contract_json(ds), contract_json(es)) {
        assert(x =~= y);
    }
}

} // verus!
