use vstd::prelude::*;
use crate::json::{lemma_array_view, lemma_object_view, entries_view, insert_entry, insert_entry_exec, write_json, json_text, Json, JsonV};
use crate::model::{lemma_nested_view, props_view, docs_view, opt_str_view, strings_view, DataType, DocumentType, DocumentTypeV, Index, IndexV, Property, PropertyV};

verus! {

/// The canonical name of a data type.
pub open spec fn data_type_name(t: DataType) -> Seq<char> {
    match t {
        DataType::String => "string"@,
        DataType::Integer => "integer"@,
        DataType::Array => "array"@,
        DataType::Object => "object"@,
        DataType::Number => "number"@,
        DataType::Boolean => "boolean"@,
    }
}

/// How serde_json holds a 32-bit signed integer.
pub open spec fn i32_json(n: i32) -> JsonV {
    if n >= 0 {
        JsonV::UInt(n as u64)
    } else {
        JsonV::NegInt(n as i64)
    }
}

/// The entry for an optional string field: none when unset or empty.
pub open spec fn str_field(key: Seq<char>, o: Option<Seq<char>>) -> Seq<(Seq<char>, JsonV)> {
    match o {
        Some(s) => if s.len() > 0 {
            seq![(key, JsonV::Str(s))]
        } else {
            Seq::empty()
        },
        None => Seq::empty(),
    }
}

/// The entry for an optional count: none when unset or zero.
pub open spec fn u32_field(key: Seq<char>, o: Option<u32>) -> Seq<(Seq<char>, JsonV)> {
    match o {
        Some(n) => if n != 0 {
            seq![(key, JsonV::UInt(n as u64))]
        } else {
            Seq::empty()
        },
        None => Seq::empty(),
    }
}

/// The entry for an optional bound: none when unset or zero.
pub open spec fn i32_field(key: Seq<char>, o: Option<i32>) -> Seq<(Seq<char>, JsonV)> {
    match o {
        Some(n) => if n != 0 {
            seq![(key, i32_json(n))]
        } else {
            Seq::empty()
        },
        None => Seq::empty(),
    }
}

/// The entry for an optional flag: present whenever the flag is set, `false` included.
pub open spec fn bool_field(key: Seq<char>, o: Option<bool>) -> Seq<(Seq<char>, JsonV)> {
    match o {
        Some(b) => seq![(key, JsonV::Bool(b))],
        None => Seq::empty(),
    }
}

/// The entry `key: value` where `cond` holds, none otherwise.
pub open spec fn field_if(cond: bool, key: Seq<char>, value: JsonV) -> Seq<(Seq<char>, JsonV)> {
    if cond {
        seq![(key, value)]
    } else {
        Seq::empty()
    }
}

/// The nested properties of a property, empty where it has none.
pub open spec fn children(p: PropertyV) -> Seq<PropertyV> {
    match p.properties {
        Some(c) => c,
        None => Seq::empty(),
    }
}

/// The names of the properties whose `required` flag is set, in order, each once.
pub open spec fn derived_required(ps: Seq<PropertyV>) -> Seq<Seq<char>>
    decreases ps.len(),
{
    if ps.len() == 0 {
        Seq::empty()
    } else {
        let r = derived_required(ps.drop_last());
        let q = ps.last();
        if q.required && !r.contains(q.name) {
            r.push(q.name)
        } else {
            r
        }
    }
}

/// The required list derived from a list of properties, which a compiled
/// `required` array holds, names exactly the properties whose flag is set,
/// each once, whatever the flags are.
pub proof fn lemma_required_sync(ps: Seq<PropertyV>)
    ensures
        derived_required(ps).no_duplicates(),
        forall|n: Seq<char>|
            #[trigger] derived_required(ps).contains(n) <==> exists|i: int|
                0 <= i < ps.len() && ps[i].required && ps[i].name == n,
    decreases ps.len(),
{
    if ps.len() > 0 {
        let t = ps.drop_last();
        lemma_required_sync(t);
        let r = derived_required(t);
        let d = derived_required(ps);
        let q = ps.last();
        assert forall|n: Seq<char>| #[trigger] d.contains(n) <==> exists|i: int|
            0 <= i < ps.len() && ps[i].required && ps[i].name == n by {
            if exists|i: int| 0 <= i < ps.len() && ps[i].required && ps[i].name == n {
                let i = choose|i: int| 0 <= i < ps.len() && ps[i].required && ps[i].name == n;
                if i < ps.len() - 1 {
                    assert(t[i] == ps[i]);
                    assert(r.contains(n));
                    let k = choose|k: int| 0 <= k < r.len() && r[k] == n;
                    assert(d[k] == n);
                } else if !r.contains(n) {
                    assert(d[r.len() as int] == n);
                }
            }
            if d.contains(n) {
                let k = choose|k: int| 0 <= k < d.len() && d[k] == n;
                if k < r.len() {
                    assert(r[k] == n);
                    assert(r.contains(n));
                    let i = choose|i: int| 0 <= i < t.len() && t[i].required && t[i].name == n;
                    assert(ps[i] == t[i]);
                } else {
                    assert(ps[ps.len() - 1].required && ps[ps.len() - 1].name == n);
                }
            }
        }
    }
}

/// A zero `min_length` compiles exactly as an unset one: the canonical form
/// cannot tell them apart.
pub proof fn lemma_zero_min_length_omitted(p: PropertyV)
    ensures
        prop_json(PropertyV { min_length: Some(0u32), ..p }) == prop_json(PropertyV { min_length: None, ..p }),
{
    assert(u32_field("minLength"@, Some(0u32)) =~= u32_field("minLength"@, None));
}

/// An array of strings.
pub open spec fn names_json(ns: Seq<Seq<char>>) -> JsonV {
    JsonV::Array(ns.map_values(|n: Seq<char>| JsonV::Str(n)))
}

/// The canonical object of a property.
pub open spec fn prop_json(p: PropertyV) -> JsonV
    decreases p, 1int,
{
    let is_object = p.data_type == DataType::Object;
    let req = derived_required(children(p));
    let nested = match p.properties {
        Some(c) => props_map_prefix(c, c.len() as int),
        None => Seq::empty(),
    };
    JsonV::Object(
        seq![("type"@, JsonV::Str(data_type_name(p.data_type)))]
            + str_field("description"@, p.description)
            + u32_field("minLength"@, p.min_length)
            + u32_field("maxLength"@, p.max_length)
            + str_field("pattern"@, p.pattern)
            + str_field("format"@, p.format)
            + i32_field("minimum"@, p.minimum)
            + i32_field("maximum"@, p.maximum)
            + bool_field("byteArray"@, p.byte_array)
            + u32_field("minItems"@, p.min_items)
            + u32_field("maxItems"@, p.max_items)
            + field_if(is_object, "properties"@, JsonV::Object(nested))
            + u32_field("minProperties"@, p.min_properties)
            + u32_field("maxProperties"@, p.max_properties)
            + field_if(is_object && req.len() > 0, "required"@, names_json(req))
            + field_if(is_object, "additionalProperties"@, JsonV::Bool(false))
            + str_field("$comment"@, p.comment),
    )
}

/// The canonical properties map of a list of properties: each name maps to
/// the property's object, a repeated name keeping its first place and its last
/// object.
pub open spec fn props_map(ps: Seq<PropertyV>) -> Seq<(Seq<char>, JsonV)> {
    props_map_prefix(ps, ps.len() as int)
}

/// The canonical properties map of the first `n` properties.
pub open spec fn props_map_prefix(ps: Seq<PropertyV>, n: int) -> Seq<(Seq<char>, JsonV)>
    decreases ps, n,
{
    if n <= 0 || n > ps.len() {
        Seq::empty()
    } else {
        insert_entry(props_map_prefix(ps, n - 1), ps[n - 1].name, prop_json(ps[n - 1]))
    }
}

/// The canonical object of an index: `unique` only where it is set.
pub open spec fn index_json(ix: IndexV) -> JsonV {
    JsonV::Object(
        seq![
            ("name"@, JsonV::Str(ix.name)),
            ("properties"@, JsonV::Array(ix.properties.map_values(|pp: (Seq<char>, Seq<char>)|
                JsonV::Object(seq![(pp.0, JsonV::Str(pp.1))])))),
        ] + field_if(ix.unique, "unique"@, JsonV::Bool(true)),
    )
}

/// The canonical object of a document type. Its `required` array is derived
/// from the flags of its properties.
pub open spec fn doc_json(d: DocumentTypeV) -> JsonV {
    let req = derived_required(d.properties);
    JsonV::Object(
        seq![("type"@, JsonV::Str("object"@)), ("properties"@, JsonV::Object(props_map(d.properties)))]
            + field_if(d.indices.len() > 0, "indices"@, JsonV::Array(d.indices.map_values(|ix: IndexV| index_json(ix))))
            + field_if(req.len() > 0, "required"@, names_json(req))
            + seq![("additionalProperties"@, JsonV::Bool(false))]
            + field_if(d.comment.len() > 0, "$comment"@, JsonV::Str(d.comment)),
    )
}

/// The canonical document of a contract: each document type's name with its
/// object, in order.
pub open spec fn contract_json(ds: Seq<DocumentTypeV>) -> JsonV {
    JsonV::Object(ds.map_values(|d: DocumentTypeV| (d.name, doc_json(d))))
}

/// The canonical name of a data type.
pub fn data_type_str(t: DataType) -> (r: String)
    ensures
        r@ == data_type_name(t),
{
    match t {
        DataType::String => "string".to_string(),
        DataType::Integer => "integer".to_string(),
        DataType::Array => "array".to_string(),
        DataType::Object => "object".to_string(),
        DataType::Number => "number".to_string(),
        DataType::Boolean => "boolean".to_string(),
    }
}

fn push_str_field(m: &mut Vec<(String, Json)>, key: &str, o: &Option<String>)
    ensures
        entries_view(final(m)@) == entries_view(old(m)@) + str_field(key@, opt_str_view(*o)),
{
    let ghost m0 = entries_view(m@);
    if let Some(s) = o {
        if !s.as_str().is_empty() {
            m.push((key.to_string(), Json::Str(s.clone())));
        }
    }
    assert(entries_view(m@) =~= m0 + str_field(key@, opt_str_view(*o)));
}

fn push_u32_field(m: &mut Vec<(String, Json)>, key: &str, o: Option<u32>)
    ensures
        entries_view(final(m)@) == entries_view(old(m)@) + u32_field(key@, o),
{
    let ghost m0 = entries_view(m@);
    if let Some(n) = o {
        if n != 0 {
            m.push((key.to_string(), Json::UInt(n as u64)));
        }
    }
    assert(entries_view(m@) =~= m0 + u32_field(key@, o));
}

fn i32_value(n: i32) -> (r: Json)
    ensures
        r@ == i32_json(n),
{
    if n >= 0 {
        Json::UInt(n as u64)
    } else {
        Json::NegInt(n as i64)
    }
}

fn push_i32_field(m: &mut Vec<(String, Json)>, key: &str, o: Option<i32>)
    ensures
        entries_view(final(m)@) == entries_view(old(m)@) + i32_field(key@, o),
{
    let ghost m0 = entries_view(m@);
    if let Some(n) = o {
        if n != 0 {
            m.push((key.to_string(), i32_value(n)));
        }
    }
    assert(entries_view(m@) =~= m0 + i32_field(key@, o));
}

fn push_field_if(m: &mut Vec<(String, Json)>, cond: bool, key: &str, value: Json)
    ensures
        entries_view(final(m)@) == entries_view(old(m)@) + field_if(cond, key@, value@),
{
    let ghost m0 = entries_view(m@);
    if cond {
        m.push((key.to_string(), value));
    }
    assert(entries_view(m@) =~= m0 + field_if(cond, key@, value@));
}

/// An array of the given names.
pub fn names_value(names: &Vec<String>) -> (r: Json)
    ensures
        r@ == names_json(strings_view(names@)),
{
    let mut a: Vec<Json> = Vec::new();
    let mut i: usize = 0;
    while i < names.len()
        invariant
            i <= names.len(),
            a@.len() == i,
            forall|j: int| 0 <= j < i ==> #[trigger] a@[j]@ == JsonV::Str(names@[j]@),
        decreases names.len() - i,
    {
        a.push(Json::Str(names[i].clone()));
        i = i + 1;
    }
    proof {
        lemma_array_view(a);
        assert(a@.map_values(|j: Json| j@) =~= strings_view(names@).map_values(|n: Seq<char>| JsonV::Str(n)));
    }
    Json::Array(a)
}

/// The names of the properties whose `required` flag is set, in order, each once.
pub fn derive_required(props: &Vec<Property>) -> (r: Vec<String>)
    ensures
        strings_view(r@) == derived_required(props_view(props@)),
{
    let mut r: Vec<String> = Vec::new();
    let mut i: usize = 0;
    while i < props.len()
        invariant
            i <= props.len(),
            strings_view(r@) == derived_required(props_view(props@).subrange(0, i as int)),
        decreases props.len() - i,
    {
        let ghost pv = props_view(props@);
        assert(pv.subrange(0, i + 1).drop_last() =~= pv.subrange(0, i as int));
        let p = &props[i];
        if p.required {
            let mut found = false;
            let mut j: usize = 0;
            while j < r.len()
                invariant
                    j <= r.len(),
                    found == exists|k: int| 0 <= k < j && r@[k]@ == p.name@,
                decreases r.len() - j,
            {
                if r[j] == p.name {
                    found = true;
                }
                j = j + 1;
            }
            assert(found == strings_view(r@).contains(p.name@)) by {
                if strings_view(r@).contains(p.name@) {
                    let k = choose|k: int| 0 <= k < strings_view(r@).len() && strings_view(r@)[k] == p.name@;
                    assert(r@[k]@ == p.name@);
                }
                if found {
                    let k = choose|k: int| 0 <= k < r.len() && r@[k]@ == p.name@;
                    assert(strings_view(r@)[k] == p.name@);
                }
            }
            if !found {
                r.push(p.name.clone());
                assert(strings_view(r@) =~= derived_required(pv.subrange(0, i as int)).push(p.name@));
            }
        }
        i = i + 1;
    }
    assert(props_view(props@).subrange(0, props.len() as int) =~= props_view(props@));
    r
}

fn push_bool_field(m: &mut Vec<(String, Json)>, key: &str, o: Option<bool>)
    ensures
        entries_view(final(m)@) == entries_view(old(m)@) + bool_field(key@, o),
{
    let ghost m0 = entries_view(m@);
    if let Some(b) = o {
        m.push((key.to_string(), Json::Bool(b)));
    }
    assert(entries_view(m@) =~= m0 + bool_field(key@, o));
}

/// The canonical object of a property; an object property's nested list is
/// compiled by the same rules.
pub fn compile_property(p: &Property) -> (r: Json)
    ensures
        r@ == prop_json(p@),
    decreases p, 1int,
{
    proof {
        lemma_nested_view(*p);
    }
    let is_object = p.data_type == DataType::Object;
    let mut m: Vec<(String, Json)> = Vec::new();
    m.push(("type".to_string(), Json::Str(data_type_str(p.data_type))));
    proof {
        assert(entries_view(m@) =~= seq![("type"@, JsonV::Str(data_type_name(p@.data_type)))]);
    }
    push_str_field(&mut m, "description", &p.description);
    push_u32_field(&mut m, "minLength", p.min_length);
    push_u32_field(&mut m, "maxLength", p.max_length);
    push_str_field(&mut m, "pattern", &p.pattern);
    push_str_field(&mut m, "format", &p.format);
    push_i32_field(&mut m, "minimum", p.minimum);
    push_i32_field(&mut m, "maximum", p.maximum);
    push_bool_field(&mut m, "byteArray", p.byte_array);
    push_u32_field(&mut m, "minItems", p.min_items);
    push_u32_field(&mut m, "maxItems", p.max_items);
    let nested = match &p.properties {
        Some(c) => compile_properties(c),
        None => Vec::new(),
    };
    proof {
        lemma_object_view(nested);
        if p.properties is None {
            assert(entries_view(nested@) =~= Seq::empty());
        }
    }
    push_field_if(&mut m, is_object, "properties", Json::Object(nested));
    push_u32_field(&mut m, "minProperties", p.min_properties);
    push_u32_field(&mut m, "maxProperties", p.max_properties);
    let req = match &p.properties {
        Some(c) => derive_required(c),
        None => Vec::new(),
    };
    proof {
        if p.properties is None {
            assert(strings_view(req@) =~= Seq::empty());
        }
    }
    push_field_if(&mut m, is_object && req.len() > 0, "required", names_value(&req));
    push_field_if(&mut m, is_object, "additionalProperties", Json::Bool(false));
    push_str_field(&mut m, "$comment", &p.comment);
    proof {
        lemma_object_view(m);
        let pv = p@;
        assert(entries_view(m@) == seq![("type"@, JsonV::Str(data_type_name(pv.data_type)))]
            + str_field("description"@, pv.description)
            + u32_field("minLength"@, pv.min_length)
            + u32_field("maxLength"@, pv.max_length)
            + str_field("pattern"@, pv.pattern)
            + str_field("format"@, pv.format)
            + i32_field("minimum"@, pv.minimum)
            + i32_field("maximum"@, pv.maximum)
            + bool_field("byteArray"@, pv.byte_array)
            + u32_field("minItems"@, pv.min_items)
            + u32_field("maxItems"@, pv.max_items)
            + field_if(is_object, "properties"@, JsonV::Object(entries_view(nested@)))
            + u32_field("minProperties"@, pv.min_properties)
            + u32_field("maxProperties"@, pv.max_properties)
            + field_if(is_object && req@.len() > 0, "required"@, names_json(strings_view(req@)))
            + field_if(is_object, "additionalProperties"@, JsonV::Bool(false))
            + str_field("$comment"@, pv.comment));
    }
    Json::Object(m)
}

/// The canonical properties map of a list of properties.
pub fn compile_properties(ps: &Vec<Property>) -> (r: Vec<(String, Json)>)
    ensures
        entries_view(r@) == props_map(props_view(ps@)),
    decreases ps, 0int,
{
    let ghost pv = props_view(ps@);
    let mut m: Vec<(String, Json)> = Vec::new();
    let mut i: usize = 0;
    while i < ps.len()
        invariant
            i <= ps.len(),
            pv == props_view(ps@),
            entries_view(m@) == props_map_prefix(pv, i as int),
        decreases ps.len() - i,
    {
        let v = compile_property(&ps[i]);
        insert_entry_exec(&mut m, ps[i].name.clone(), v);
        i = i + 1;
    }
    m
}

/// The canonical object of an index.
pub fn compile_index(ix: &Index) -> (r: Json)
    ensures
        r@ == index_json(ix@),
{
    let ghost target = ix@.properties.map_values(|pp: (Seq<char>, Seq<char>)| JsonV::Object(seq![(pp.0, JsonV::Str(pp.1))]));
    let mut a: Vec<Json> = Vec::new();
    let mut i: usize = 0;
    while i < ix.properties.len()
        invariant
            i <= ix.properties.len(),
            target == ix@.properties.map_values(|pp: (Seq<char>, Seq<char>)| JsonV::Object(seq![(pp.0, JsonV::Str(pp.1))])),
            a@.len() == i,
            forall|j: int| 0 <= j < i ==> #[trigger] a@[j]@ == target[j],
        decreases ix.properties.len() - i,
    {
        let pp = &ix.properties[i];
        let mut entry: Vec<(String, Json)> = Vec::new();
        entry.push((pp.0.clone(), Json::Str(pp.1.clone())));
        proof {
            lemma_object_view(entry);
            assert(entries_view(entry@) =~= seq![(pp.0@, JsonV::Str(pp.1@))]);
        }
        a.push(Json::Object(entry));
        i = i + 1;
    }
    proof {
        lemma_array_view(a);
        assert(a@.map_values(|j: Json| j@) =~= target);
    }
    let mut m: Vec<(String, Json)> = Vec::new();
    m.push(("name".to_string(), Json::Str(ix.name.clone())));
    m.push(("properties".to_string(), Json::Array(a)));
    let ghost m0 = entries_view(m@);
    push_field_if(&mut m, ix.unique, "unique", Json::Bool(true));
    proof {
        lemma_object_view(m);
        assert(m0 =~= seq![("name"@, JsonV::Str(ix@.name)), ("properties"@, JsonV::Array(target))]);
    }
    Json::Object(m)
}

/// The canonical object of a document type.
pub fn compile_document_type(d: &DocumentType) -> (r: Json)
    ensures
        r@ == doc_json(d@),
{
    let ghost target = d@.indices.map_values(|ix: IndexV| index_json(ix));
    let mut a: Vec<Json> = Vec::new();
    let mut i: usize = 0;
    while i < d.indices.len()
        invariant
            i <= d.indices.len(),
            target == d@.indices.map_values(|ix: IndexV| index_json(ix)),
            a@.len() == i,
            forall|j: int| 0 <= j < i ==> #[trigger] a@[j]@ == target[j],
        decreases d.indices.len() - i,
    {
        a.push(compile_index(&d.indices[i]));
        i = i + 1;
    }
    proof {
        lemma_array_view(a);
        assert(a@.map_values(|j: Json| j@) =~= target);
    }
    let props = compile_properties(&d.properties);
    proof {
        lemma_object_view(props);
    }
    let req = derive_required(&d.properties);
    let mut m: Vec<(String, Json)> = Vec::new();
    m.push(("type".to_string(), Json::Str("object".to_string())));
    m.push(("properties".to_string(), Json::Object(props)));
    let ghost m0 = entries_view(m@);
    push_field_if(&mut m, d.indices.len() > 0, "indices", Json::Array(a));
    push_field_if(&mut m, req.len() > 0, "required", names_value(&req));
    let ghost m1 = entries_view(m@);
    m.push(("additionalProperties".to_string(), Json::Bool(false)));
    let ghost m2 = entries_view(m@);
    push_field_if(&mut m, !d.comment.as_str().is_empty(), "$comment", Json::Str(d.comment.clone()));
    proof {
        lemma_object_view(m);
        assert(m0 =~= seq![("type"@, JsonV::Str("object"@)), ("properties"@, JsonV::Object(props_map(d@.properties)))]);
        assert(m2 =~= m1 + seq![("additionalProperties"@, JsonV::Bool(false))]);
    }
    Json::Object(m)
}

/// The canonical document of a contract, as a value.
pub fn compile_contract(docs: &Vec<DocumentType>) -> (r: Json)
    ensures
        r@ == contract_json(docs_view(docs@)),
{
    let ghost target = docs_view(docs@).map_values(|d: DocumentTypeV| (d.name, doc_json(d)));
    let mut m: Vec<(String, Json)> = Vec::new();
    let mut i: usize = 0;
    while i < docs.len()
        invariant
            i <= docs.len(),
            target == docs_view(docs@).map_values(|d: DocumentTypeV| (d.name, doc_json(d))),
            m@.len() == i,
            forall|j: int| 0 <= j < i ==> (#[trigger] m@[j].0@, m@[j].1@) == target[j],
        decreases docs.len() - i,
    {
        let v = compile_document_type(&docs[i]);
        m.push((docs[i].name.clone(), v));
        i = i + 1;
    }
    proof {
        lemma_object_view(m);
        assert(entries_view(m@) =~= target);
    }
    Json::Object(m)
}

/// The canonical document of a contract, as compact JSON text.
pub fn compile(docs: &Vec<DocumentType>) -> (r: String)
    ensures
        r@ == json_text(contract_json(docs_view(docs@))),
{
    let j = compile_contract(docs);
    write_json(&j)
}

} // verus!
