use vstd::prelude::*;
use crate::compile::{
    bool_field, children, contract_json, data_type_name, derived_required, doc_json, field_if,
    i32_field, i32_json, index_json, lemma_required_sync, names_json, prop_json, props_map,
    props_map_prefix, str_field, u32_field,
};
use crate::import::{
    data_type_of, i32_at, import_contract, str_at, u32_at, import_doc, import_docs_prefix, import_prop,
    import_props_prefix, index_of, index_pair, index_pairs, indices_of, listed, ImportErrorV,
};
use crate::json::{insert_entry, key_index, lemma_key_index_bounds, lookup, JsonV};
use crate::model::{DataType, DocumentTypeV, IndexV, PropertyV};

verus! {

/// The entries that one field contributes: none where it is not written.
pub open spec fn seg(k: Seq<char>, o: Option<JsonV>) -> Seq<(Seq<char>, JsonV)> {
    match o {
        Some(v) => seq![(k, v)],
        None => Seq::empty(),
    }
}

/// The entries of an object whose fields are listed with their values where
/// they are written, taking the first `n` fields.
pub open spec fn compact_prefix(fs: Seq<(Seq<char>, Option<JsonV>)>, n: int) -> Seq<(Seq<char>, JsonV)>
    decreases n,
{
    if n <= 0 || n > fs.len() {
        Seq::empty()
    } else {
        compact_prefix(fs, n - 1) + seg(fs[n - 1].0, fs[n - 1].1)
    }
}

/// No two fields share a key.
pub open spec fn distinct_keys(fs: Seq<(Seq<char>, Option<JsonV>)>) -> bool {
    forall|i: int, j: int| 0 <= i < fs.len() && 0 <= j < fs.len() && i != j ==> fs[i].0 != fs[j].0
}

pub proof fn lemma_key_index_absent(m: Seq<(Seq<char>, JsonV)>, k: Seq<char>)
    requires
        forall|j: int| 0 <= j < m.len() ==> m[j].0 != k,
    ensures
        key_index(m, k) == -1,
    decreases m.len(),
{
    if m.len() > 0 {
        lemma_key_index_absent(m.drop_last(), k);
    }
}

pub proof fn lemma_lookup_push(a: Seq<(Seq<char>, JsonV)>, k2: Seq<char>, v: JsonV, k: Seq<char>)
    ensures
        lookup(a + seq![(k2, v)], k) == (if k2 == k { Some(v) } else { lookup(a, k) }),
        key_index(a + seq![(k2, v)], k) == (if k2 == k { a.len() as int } else { key_index(a, k) }),
{
    assert((a + seq![(k2, v)]).drop_last() =~= a);
    lemma_key_index_bounds(a, k);
}

pub proof fn lemma_lookup_empty(a: Seq<(Seq<char>, JsonV)>, k: Seq<char>)
    ensures
        lookup(a + Seq::<(Seq<char>, JsonV)>::empty(), k) == lookup(a, k),
{
    assert(a + Seq::<(Seq<char>, JsonV)>::empty() =~= a);
}

/// In an object built from fields with distinct keys, each key finds its
/// own field's value, and is absent where that field is not written.
pub proof fn lemma_compact_lookup(fs: Seq<(Seq<char>, Option<JsonV>)>, n: int, j: int)
    requires
        0 <= n <= fs.len(),
        distinct_keys(fs),
        0 <= j < fs.len(),
    ensures
        lookup(compact_prefix(fs, n), fs[j].0) == (if j < n { fs[j].1 } else { None::<JsonV> }),
    decreases n,
{
    if n == 0 {
    } else {
        lemma_compact_lookup(fs, n - 1, j);
        let a = compact_prefix(fs, n - 1);
        match fs[n - 1].1 {
            Some(v) => lemma_lookup_push(a, fs[n - 1].0, v, fs[j].0),
            None => lemma_lookup_empty(a, fs[j].0),
        }
    }
}

pub open spec fn str_val(o: Option<Seq<char>>) -> Option<JsonV> {
    match o {
        Some(s) => if s.len() > 0 {
            Some(JsonV::Str(s))
        } else {
            None
        },
        None => None,
    }
}

pub open spec fn u32_val(o: Option<u32>) -> Option<JsonV> {
    match o {
        Some(n) => if n != 0 {
            Some(JsonV::UInt(n as u64))
        } else {
            None
        },
        None => None,
    }
}

pub open spec fn i32_val(o: Option<i32>) -> Option<JsonV> {
    match o {
        Some(n) => if n != 0 {
            Some(i32_json(n))
        } else {
            None
        },
        None => None,
    }
}

pub open spec fn bool_val(o: Option<bool>) -> Option<JsonV> {
    match o {
        Some(b) => Some(JsonV::Bool(b)),
        None => None,
    }
}

pub open spec fn when_val(c: bool, v: JsonV) -> Option<JsonV> {
    if c {
        Some(v)
    } else {
        None
    }
}

/// The fields of a property's canonical object, in order.
pub open spec fn prop_fields(p: PropertyV) -> Seq<(Seq<char>, Option<JsonV>)> {
    let is_object = p.data_type == DataType::Object;
    let req = derived_required(children(p));
    let nested = match p.properties {
        Some(c) => props_map_prefix(c, c.len() as int),
        None => Seq::empty(),
    };
    seq![
        ("type"@, Some(JsonV::Str(data_type_name(p.data_type)))),
        ("description"@, str_val(p.description)),
        ("minLength"@, u32_val(p.min_length)),
        ("maxLength"@, u32_val(p.max_length)),
        ("pattern"@, str_val(p.pattern)),
        ("format"@, str_val(p.format)),
        ("minimum"@, i32_val(p.minimum)),
        ("maximum"@, i32_val(p.maximum)),
        ("byteArray"@, bool_val(p.byte_array)),
        ("minItems"@, u32_val(p.min_items)),
        ("maxItems"@, u32_val(p.max_items)),
        ("properties"@, when_val(is_object, JsonV::Object(nested))),
        ("minProperties"@, u32_val(p.min_properties)),
        ("maxProperties"@, u32_val(p.max_properties)),
        ("required"@, when_val(is_object && req.len() > 0, names_json(req))),
        ("additionalProperties"@, when_val(is_object, JsonV::Bool(false))),
        ("$comment"@, str_val(p.comment)),
    ]
}

pub proof fn lemma_prop_json_fields(p: PropertyV)
    ensures
        prop_json(p) == JsonV::Object(compact_prefix(prop_fields(p), 17)),
{
    let fs = prop_fields(p);
    reveal_with_fuel(compact_prefix, 18);
    assert(compact_prefix(fs, 1) =~= seq![("type"@, JsonV::Str(data_type_name(p.data_type)))]);
    assert(str_field("description"@, p.description) == seg("description"@, str_val(p.description)));
    assert(str_field("pattern"@, p.pattern) == seg("pattern"@, str_val(p.pattern)));
    assert(str_field("format"@, p.format) == seg("format"@, str_val(p.format)));
    assert(str_field("$comment"@, p.comment) == seg("$comment"@, str_val(p.comment)));
    assert(u32_field("minLength"@, p.min_length) == seg("minLength"@, u32_val(p.min_length)));
    assert(u32_field("maxLength"@, p.max_length) == seg("maxLength"@, u32_val(p.max_length)));
    assert(u32_field("minItems"@, p.min_items) == seg("minItems"@, u32_val(p.min_items)));
    assert(u32_field("maxItems"@, p.max_items) == seg("maxItems"@, u32_val(p.max_items)));
    assert(u32_field("minProperties"@, p.min_properties) == seg("minProperties"@, u32_val(p.min_properties)));
    assert(u32_field("maxProperties"@, p.max_properties) == seg("maxProperties"@, u32_val(p.max_properties)));
    assert(i32_field("minimum"@, p.minimum) == seg("minimum"@, i32_val(p.minimum)));
    assert(i32_field("maximum"@, p.maximum) == seg("maximum"@, i32_val(p.maximum)));
    assert(bool_field("byteArray"@, p.byte_array) == seg("byteArray"@, bool_val(p.byte_array)));
}

/// The keys of a property's canonical object are pairwise distinct.
pub proof fn lemma_prop_keys_distinct(p: PropertyV)
    ensures
        distinct_keys(prop_fields(p)),
{
    reveal_strlit("type");
    reveal_strlit("description");
    reveal_strlit("minLength");
    reveal_strlit("maxLength");
    reveal_strlit("pattern");
    reveal_strlit("format");
    reveal_strlit("minimum");
    reveal_strlit("maximum");
    reveal_strlit("byteArray");
    reveal_strlit("minItems");
    reveal_strlit("maxItems");
    reveal_strlit("properties");
    reveal_strlit("minProperties");
    reveal_strlit("maxProperties");
    reveal_strlit("required");
    reveal_strlit("additionalProperties");
    reveal_strlit("$comment");
    assert("type"@.len() == 4);
    assert("description"@.len() == 11);
    assert("minLength"@.len() == 9);
    assert("maxLength"@.len() == 9);
    assert("pattern"@.len() == 7);
    assert("format"@.len() == 6);
    assert("minimum"@.len() == 7);
    assert("maximum"@.len() == 7);
    assert("byteArray"@.len() == 9);
    assert("minItems"@.len() == 8);
    assert("maxItems"@.len() == 8);
    assert("properties"@.len() == 10);
    assert("minProperties"@.len() == 13);
    assert("maxProperties"@.len() == 13);
    assert("required"@.len() == 8);
    assert("additionalProperties"@.len() == 20);
    assert("$comment"@.len() == 8);
    assert("minLength"@[1] != "maxLength"@[1]);
    assert("minLength"@[0] != "byteArray"@[0]);
    assert("maxLength"@[0] != "byteArray"@[0]);
    assert("pattern"@[0] != "minimum"@[0]);
    assert("pattern"@[0] != "maximum"@[0]);
    assert("minimum"@[1] != "maximum"@[1]);
    assert("minItems"@[1] != "maxItems"@[1]);
    assert("minItems"@[0] != "required"@[0]);
    assert("minItems"@[0] != "$comment"@[0]);
    assert("maxItems"@[0] != "required"@[0]);
    assert("maxItems"@[0] != "$comment"@[0]);
    assert("minProperties"@[1] != "maxProperties"@[1]);
    assert("required"@[0] != "$comment"@[0]);
    let fs = prop_fields(p);
    assert forall|i: int, j: int| 0 <= i < fs.len() && 0 <= j < fs.len() && i != j implies fs[i].0 != fs[j].0 by {
        if fs[i].0.len() == fs[j].0.len() {
            assert(fs[i].0 != fs[j].0);
        }
    }
}

pub open spec fn str_ok(o: Option<Seq<char>>) -> bool {
    match o {
        Some(s) => s.len() > 0,
        None => true,
    }
}

/// No two properties of a list share a name.
pub open spec fn unique_names(c: Seq<PropertyV>) -> bool {
    forall|i: int, j: int| 0 <= i < c.len() && 0 <= j < c.len() && i != j ==> c[i].name != c[j].name
}

/// A property that uses only what its canonical form can carry: every
/// optional field unset or non-default, the constraint groups of other types
/// empty, and, for an object, uniquely named canonical children whose
/// required list is in sync with their flags.
pub open spec fn canonical_prop(p: PropertyV) -> bool
    decreases p, 1int,
{
    str_ok(p.description) && str_ok(p.comment) && str_ok(p.pattern) && str_ok(p.format)
        && p.min_length != Some(0u32) && p.max_length != Some(0u32) && p.min_items != Some(0u32)
        && p.max_items != Some(0u32) && p.min_properties != Some(0u32) && p.max_properties != Some(
        0u32,
    ) && p.minimum != Some(0i32) && p.maximum != Some(0i32) && p.additional_properties is None && if p.data_type
        == DataType::Object {
        match p.properties {
            Some(c) => unique_names(c) && p.rec_required == Some(derived_required(c))
                && canonical_props_prefix(c, c.len() as int),
            None => false,
        }
    } else {
        p.properties is None && p.rec_required is None
    }
}

/// The first `n` properties of a list are canonical.
pub open spec fn canonical_props_prefix(c: Seq<PropertyV>, n: int) -> bool
    decreases c, n,
{
    if n <= 0 || n > c.len() {
        true
    } else {
        canonical_props_prefix(c, n - 1) && canonical_prop(c[n - 1])
    }
}

pub proof fn lemma_canonical_index(c: Seq<PropertyV>, n: int, i: int)
    requires
        0 <= i < n <= c.len(),
        canonical_props_prefix(c, n),
    ensures
        canonical_prop(c[i]),
    decreases n,
{
    if i < n - 1 {
        lemma_canonical_index(c, n - 1, i);
    }
}

/// The `required` value written beside a list of properties.
pub open spec fn required_value(c: Seq<PropertyV>) -> Option<JsonV> {
    let req = derived_required(c);
    if req.len() > 0 {
        Some(names_json(req))
    } else {
        None
    }
}

/// With unique names, each property's name is listed exactly when it is required.
pub proof fn lemma_listed_required(c: Seq<PropertyV>, i: int)
    requires
        unique_names(c),
        0 <= i < c.len(),
    ensures
        listed(required_value(c), c[i].name) == c[i].required,
{
    lemma_required_sync(c);
    let d = derived_required(c);
    let name = c[i].name;
    if c[i].required {
        assert(d.contains(name));
        let k = choose|k: int| 0 <= k < d.len() && d[k] == name;
        assert(d.map_values(|n: Seq<char>| JsonV::Str(n))[k] == JsonV::Str(name));
    } else if d.len() > 0 {
        let ds = d.map_values(|n: Seq<char>| JsonV::Str(n));
        if ds.contains(JsonV::Str(name)) {
            let k = choose|k: int| 0 <= k < ds.len() && #[trigger] ds[k] == JsonV::Str(name);
            assert(d[k] == name);
            assert(d.contains(name));
        }
    }
}

/// With unique names, the properties map lists each property once, in order.
pub proof fn lemma_map_unique(c: Seq<PropertyV>, n: int)
    requires
        unique_names(c),
        0 <= n <= c.len(),
    ensures
        props_map_prefix(c, n) == c.subrange(0, n).map_values(|q: PropertyV| (q.name, prop_json(q))),
    decreases n,
{
    if n > 0 {
        lemma_map_unique(c, n - 1);
        let a = props_map_prefix(c, n - 1);
        assert forall|j: int| 0 <= j < a.len() implies a[j].0 != c[n - 1].name by {
            assert(a[j].0 == c[j].name);
        }
        lemma_key_index_absent(a, c[n - 1].name);
        assert(insert_entry(a, c[n - 1].name, prop_json(c[n - 1])) == a.push((c[n - 1].name, prop_json(c[n - 1]))));
        assert(a.push((c[n - 1].name, prop_json(c[n - 1]))) =~= c.subrange(0, n).map_values(|q: PropertyV| (q.name, prop_json(q))));
    } else {
        assert(props_map_prefix(c, n) =~= c.subrange(0, n).map_values(|q: PropertyV| (q.name, prop_json(q))));
    }
}

pub proof fn lemma_type_names(t: DataType)
    ensures
        data_type_of(data_type_name(t)) == Some(t),
{
    reveal_strlit("string");
    reveal_strlit("integer");
    reveal_strlit("array");
    reveal_strlit("object");
    reveal_strlit("number");
    reveal_strlit("boolean");
    assert("string"@.len() == 6);
    assert("integer"@.len() == 7);
    assert("array"@.len() == 5);
    assert("object"@.len() == 6);
    assert("number"@.len() == 6);
    assert("boolean"@.len() == 7);
    assert("string"@[0] != "object"@[0]);
    assert("string"@[0] != "number"@[0]);
    assert("object"@[0] != "number"@[0]);
    assert("integer"@[0] != "boolean"@[0]);
}

/// A written count reads back as itself.
pub proof fn lemma_u32_back(m: Seq<(Seq<char>, JsonV)>, k: Seq<char>, o: Option<u32>)
    requires
        lookup(m, k) == u32_val(o),
        o != Some(0u32),
    ensures
        u32_at(m, k) == o,
{
}

/// A written bound reads back as itself.
pub proof fn lemma_i32_back(m: Seq<(Seq<char>, JsonV)>, k: Seq<char>, o: Option<i32>)
    requires
        lookup(m, k) == i32_val(o),
        o != Some(0i32),
    ensures
        i32_at(m, k) == o,
{
}

/// A written string reads back as itself.
pub proof fn lemma_str_back(m: Seq<(Seq<char>, JsonV)>, k: Seq<char>, o: Option<Seq<char>>)
    requires
        lookup(m, k) == str_val(o),
        str_ok(o),
    ensures
        str_at(m, k) == o,
{
}

/// A canonical property imports from its canonical object as itself.
#[verifier::rlimit(60)]
pub proof fn lemma_prop_round_trip(p: PropertyV)
    requires
        canonical_prop(p),
    ensures
        import_prop(p.name, prop_json(p), p.required) == Ok::<PropertyV, Seq<Seq<char>>>(p),
    decreases p, 1int,
{
    let fs = prop_fields(p);
    lemma_prop_json_fields(p);
    lemma_prop_keys_distinct(p);
    let m = compact_prefix(fs, 17);
    assert forall|j: int| 0 <= j < 17 implies lookup(m, #[trigger] fs[j].0) == fs[j].1 by {
        lemma_compact_lookup(fs, 17, j);
    }
    assert(lookup(m, "type"@) == fs[0].1);
    assert(lookup(m, "description"@) == fs[1].1);
    assert(lookup(m, "minLength"@) == fs[2].1);
    assert(lookup(m, "maxLength"@) == fs[3].1);
    assert(lookup(m, "pattern"@) == fs[4].1);
    assert(lookup(m, "format"@) == fs[5].1);
    assert(lookup(m, "minimum"@) == fs[6].1);
    assert(lookup(m, "maximum"@) == fs[7].1);
    assert(lookup(m, "byteArray"@) == fs[8].1);
    assert(lookup(m, "minItems"@) == fs[9].1);
    assert(lookup(m, "maxItems"@) == fs[10].1);
    assert(lookup(m, "properties"@) == fs[11].1);
    assert(lookup(m, "minProperties"@) == fs[12].1);
    assert(lookup(m, "maxProperties"@) == fs[13].1);
    assert(lookup(m, "required"@) == fs[14].1);
    assert(lookup(m, "$comment"@) == fs[16].1);
    lemma_str_back(m, "description"@, p.description);
    lemma_str_back(m, "pattern"@, p.pattern);
    lemma_str_back(m, "format"@, p.format);
    lemma_str_back(m, "$comment"@, p.comment);
    lemma_u32_back(m, "minLength"@, p.min_length);
    lemma_u32_back(m, "maxLength"@, p.max_length);
    lemma_u32_back(m, "minItems"@, p.min_items);
    lemma_u32_back(m, "maxItems"@, p.max_items);
    lemma_u32_back(m, "minProperties"@, p.min_properties);
    lemma_u32_back(m, "maxProperties"@, p.max_properties);
    lemma_i32_back(m, "minimum"@, p.minimum);
    lemma_i32_back(m, "maximum"@, p.maximum);
    lemma_type_names(p.data_type);
    lemma_key_index_bounds(m, "properties"@);
    if p.data_type == DataType::Object {
        let c = p.properties->Some_0;
        lemma_map_unique(c, c.len() as int);
        let nested = props_map_prefix(c, c.len() as int);
        assert(lookup(m, "required"@) == required_value(c));
        lemma_props_round_trip(c, c.len() as int);
        assert(c.subrange(0, c.len() as int) =~= c);
    }
}

/// The canonical, uniquely named properties of a list import from their map
/// as themselves, each flag read back from the `required` value.
pub proof fn lemma_props_round_trip(c: Seq<PropertyV>, n: int)
    requires
        unique_names(c),
        canonical_props_prefix(c, c.len() as int),
        0 <= n <= c.len(),
    ensures
        import_props_prefix(props_map_prefix(c, c.len() as int), required_value(c), n) == Ok::<
            Seq<PropertyV>,
            Seq<Seq<char>>,
        >(c.subrange(0, n)),
    decreases c, n,
{
    lemma_map_unique(c, c.len() as int);
    let e = props_map_prefix(c, c.len() as int);
    if n > 0 {
        lemma_props_round_trip(c, n - 1);
        lemma_canonical_index(c, c.len() as int, n - 1);
        lemma_listed_required(c, n - 1);
        assert(e[n - 1] == (c[n - 1].name, prop_json(c[n - 1])));
        lemma_prop_round_trip(c[n - 1]);
        assert(c.subrange(0, n - 1).push(c[n - 1]) =~= c.subrange(0, n));
    } else {
        assert(c.subrange(0, 0) =~= Seq::<PropertyV>::empty());
    }
}

/// The canonical form of an index's pairs.
pub open spec fn pairs_json(ps: Seq<(Seq<char>, Seq<char>)>) -> Seq<JsonV> {
    ps.map_values(|pp: (Seq<char>, Seq<char>)| JsonV::Object(seq![(pp.0, JsonV::Str(pp.1))]))
}

pub proof fn lemma_pairs_round_trip(ps: Seq<(Seq<char>, Seq<char>)>)
    ensures
        index_pairs(pairs_json(ps)) == ps,
    decreases ps.len(),
{
    if ps.len() > 0 {
        let t = ps.drop_last();
        lemma_pairs_round_trip(t);
        assert(pairs_json(ps).drop_last() =~= pairs_json(t));
        let pp = ps.last();
        let e = seq![(pp.0, JsonV::Str(pp.1))];
        assert(e.drop_last() =~= Seq::<(Seq<char>, JsonV)>::empty());
        assert(index_pair(e) == pp);
        assert(t.push(pp) =~= ps);
    } else {
        assert(ps =~= Seq::<(Seq<char>, Seq<char>)>::empty());
    }
}

/// The fields of an index's canonical object.
pub open spec fn index_fields(ix: IndexV) -> Seq<(Seq<char>, Option<JsonV>)> {
    seq![
        ("name"@, Some(JsonV::Str(ix.name))),
        ("properties"@, Some(JsonV::Array(pairs_json(ix.properties)))),
        ("unique"@, when_val(ix.unique, JsonV::Bool(true))),
    ]
}

/// An index imports from its canonical object as itself.
pub proof fn lemma_index_round_trip(ix: IndexV)
    ensures
        index_json(ix) == JsonV::Object(compact_prefix(index_fields(ix), 3)),
        index_of(compact_prefix(index_fields(ix), 3)) == ix,
{
    let fs = index_fields(ix);
    reveal_with_fuel(compact_prefix, 4);
    assert(compact_prefix(fs, 2) =~= seq![("name"@, JsonV::Str(ix.name)), ("properties"@, JsonV::Array(pairs_json(ix.properties)))]);
    assert(field_if(ix.unique, "unique"@, JsonV::Bool(true)) == seg("unique"@, when_val(ix.unique, JsonV::Bool(true))));
    reveal_strlit("name");
    reveal_strlit("properties");
    reveal_strlit("unique");
    assert("name"@.len() == 4);
    assert("properties"@.len() == 10);
    assert("unique"@.len() == 6);
    assert(distinct_keys(fs));
    let m = compact_prefix(fs, 3);
    lemma_compact_lookup(fs, 3, 0);
    lemma_compact_lookup(fs, 3, 1);
    lemma_compact_lookup(fs, 3, 2);
    lemma_pairs_round_trip(ix.properties);
}

pub proof fn lemma_indices_round_trip(ixs: Seq<IndexV>)
    ensures
        indices_of(ixs.map_values(|ix: IndexV| index_json(ix))) == ixs,
    decreases ixs.len(),
{
    if ixs.len() > 0 {
        let t = ixs.drop_last();
        lemma_indices_round_trip(t);
        assert(ixs.map_values(|ix: IndexV| index_json(ix)).drop_last() =~= t.map_values(|ix: IndexV| index_json(ix)));
        lemma_index_round_trip(ixs.last());
        assert(t.push(ixs.last()) =~= ixs);
    } else {
        assert(ixs =~= Seq::<IndexV>::empty());
    }
}

/// A document type that uses only what its canonical form can carry:
/// uniquely named canonical properties, a required list in sync with their
/// flags, and no additional properties.
pub open spec fn canonical_doc(d: DocumentTypeV) -> bool {
    unique_names(d.properties) && canonical_props_prefix(d.properties, d.properties.len() as int)
        && d.required == derived_required(d.properties) && !d.additional_properties
}

/// The fields of a document type's canonical object.
pub open spec fn doc_fields(d: DocumentTypeV) -> Seq<(Seq<char>, Option<JsonV>)> {
    let req = derived_required(d.properties);
    seq![
        ("type"@, Some(JsonV::Str("object"@))),
        ("properties"@, Some(JsonV::Object(props_map(d.properties)))),
        ("indices"@, when_val(d.indices.len() > 0, JsonV::Array(d.indices.map_values(|ix: IndexV| index_json(ix))))),
        ("required"@, when_val(req.len() > 0, names_json(req))),
        ("additionalProperties"@, Some(JsonV::Bool(false))),
        ("$comment"@, when_val(d.comment.len() > 0, JsonV::Str(d.comment))),
    ]
}

/// A document type's canonical object is built from its fields, whose keys
/// are distinct.
pub proof fn lemma_doc_json_fields(d: DocumentTypeV)
    ensures
        doc_json(d) == JsonV::Object(compact_prefix(doc_fields(d), 6)),
        distinct_keys(doc_fields(d)),
{
    let fs = doc_fields(d);
    let req = derived_required(d.properties);
    reveal_with_fuel(compact_prefix, 7);
    assert(compact_prefix(fs, 2) =~= seq![("type"@, JsonV::Str("object"@)), ("properties"@, JsonV::Object(props_map(d.properties)))]);
    assert(field_if(d.indices.len() > 0, "indices"@, JsonV::Array(d.indices.map_values(|ix: IndexV| index_json(ix))))
        == seg("indices"@, fs[2].1));
    assert(field_if(req.len() > 0, "required"@, names_json(req)) == seg("required"@, fs[3].1));
    assert(seq![("additionalProperties"@, JsonV::Bool(false))] == seg("additionalProperties"@, fs[4].1));
    assert(field_if(d.comment.len() > 0, "$comment"@, JsonV::Str(d.comment)) == seg("$comment"@, fs[5].1));
    assert(doc_json(d) == JsonV::Object(compact_prefix(fs, 6)));
    reveal_strlit("type");
    reveal_strlit("properties");
    reveal_strlit("indices");
    reveal_strlit("required");
    reveal_strlit("additionalProperties");
    reveal_strlit("$comment");
    assert("type"@.len() == 4);
    assert("properties"@.len() == 10);
    assert("indices"@.len() == 7);
    assert("required"@.len() == 8);
    assert("additionalProperties"@.len() == 20);
    assert("$comment"@.len() == 8);
    assert("required"@[0] != "$comment"@[0]);
    assert(distinct_keys(fs));
}

/// A canonical document type imports from its canonical object as itself.
#[verifier::rlimit(40)]
pub proof fn lemma_doc_round_trip(d: DocumentTypeV)
    requires
        canonical_doc(d),
    ensures
        import_doc(d.name, doc_json(d)) == Ok::<DocumentTypeV, Seq<Seq<char>>>(d),
{
    let fs = doc_fields(d);
    lemma_doc_json_fields(d);
    let m = compact_prefix(fs, 6);
    lemma_compact_lookup(fs, 6, 1);
    lemma_compact_lookup(fs, 6, 2);
    lemma_compact_lookup(fs, 6, 3);
    lemma_compact_lookup(fs, 6, 5);
    let c = d.properties;
    assert(lookup(m, "required"@) == required_value(c));
    lemma_map_unique(c, c.len() as int);
    assert(props_map(c).len() == c.len());
    lemma_props_round_trip(c, c.len() as int);
    assert(c.subrange(0, c.len() as int) =~= c);
    lemma_indices_round_trip(d.indices);
    if d.indices.len() == 0 {
        assert(d.indices =~= Seq::<IndexV>::empty());
    }
    if d.comment.len() == 0 {
        assert(d.comment =~= Seq::<char>::empty());
    }
}

/// Compiling a contract of canonical document types and importing the
/// compiled document gives the contract back. This speaks of the document as
/// a JSON value; writing it as text and reading it back is serde_json's part.
pub proof fn lemma_round_trip(ds: Seq<DocumentTypeV>)
    requires
        forall|i: int| 0 <= i < ds.len() ==> canonical_doc(#[trigger] ds[i]),
    ensures
        import_contract(contract_json(ds)) == Ok::<Seq<DocumentTypeV>, ImportErrorV>(ds),
{
    let m = ds.map_values(|d: DocumentTypeV| (d.name, doc_json(d)));
    lemma_docs_round_trip(ds, m, ds.len() as int);
    assert(ds.subrange(0, ds.len() as int) =~= ds);
}

pub proof fn lemma_docs_round_trip(ds: Seq<DocumentTypeV>, m: Seq<(Seq<char>, JsonV)>, n: int)
    requires
        forall|i: int| 0 <= i < ds.len() ==> canonical_doc(#[trigger] ds[i]),
        m == ds.map_values(|d: DocumentTypeV| (d.name, doc_json(d))),
        0 <= n <= ds.len(),
    ensures
        import_docs_prefix(m, n) == Ok::<Seq<DocumentTypeV>, Seq<Seq<char>>>(ds.subrange(0, n)),
    decreases n,
{
    if n > 0 {
        lemma_docs_round_trip(ds, m, n - 1);
        lemma_doc_round_trip(ds[n - 1]);
        assert(ds.subrange(0, n - 1).push(ds[n - 1]) =~= ds.subrange(0, n));
    } else {
        assert(ds.subrange(0, 0) =~= Seq::<DocumentTypeV>::empty());
    }
}

/// The compiled object of a document type has a `required` entry exactly when
/// some property is required, and that entry names exactly the required
/// properties, each once, whatever the flags and the stored required list.
pub proof fn lemma_compiled_required(d: DocumentTypeV)
    ensures
        doc_json(d) is Object,
        lookup(doc_json(d)->Object_0, "required"@) == required_value(d.properties),
        required_value(d.properties) is Some <==> exists|i: int|
            0 <= i < d.properties.len() && (#[trigger] d.properties[i]).required,
        derived_required(d.properties).no_duplicates(),
        forall|n: Seq<char>|
            #[trigger] derived_required(d.properties).contains(n) <==> exists|i: int|
                0 <= i < d.properties.len() && d.properties[i].required && d.properties[i].name == n,
{
    lemma_doc_json_fields(d);
    lemma_compact_lookup(doc_fields(d), 6, 3);
    let ps = d.properties;
    lemma_required_sync(ps);
    if exists|i: int| 0 <= i < ps.len() && (#[trigger] ps[i]).required {
        let i = choose|i: int| 0 <= i < ps.len() && (#[trigger] ps[i]).required;
        assert(derived_required(ps).contains(ps[i].name));
    }
    if derived_required(ps).len() > 0 {
        assert(derived_required(ps).contains(derived_required(ps)[0]));
    }
}

} // verus!
