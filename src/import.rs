use vstd::prelude::*;
use crate::compile::derived_required;
use crate::json::{
    entries_view, json_parse, key_index, lemma_array_view,
    lemma_object_view, lookup, lookup_exec, read_json, Json, JsonV,
};
use crate::model::{
    default_additional_properties, docs_view, lemma_nested_view, opt_str_view, props_view,
    strings_view, DataType, DocumentType, DocumentTypeV, Index, IndexProperties, IndexV, Property,
    PropertyV,
};
use crate::compile::derive_required;

verus! {

/// Why a document could not be imported.
#[derive(Debug)]
pub enum ImportError {
    /// The text is not JSON, or not a JSON object.
    Malformed,
    /// A property's `type` is not one of the six type names; the path names
    /// the document type and the properties down to the offending one.
    UnknownType(Vec<String>),
}

/// The mathematical form of an `ImportError`.
pub enum ImportErrorV {
    Malformed,
    UnknownType(Seq<Seq<char>>),
}

impl View for ImportError {
    type V = ImportErrorV;

    open spec fn view(&self) -> ImportErrorV {
        match self {
            ImportError::Malformed => ImportErrorV::Malformed,
            ImportError::UnknownType(p) => ImportErrorV::UnknownType(strings_view(p@)),
        }
    }
}

/// The data type that a canonical type name stands for.
pub open spec fn data_type_of(s: Seq<char>) -> Option<DataType> {
    if s == "string"@ {
        Some(DataType::String)
    } else if s == "integer"@ {
        Some(DataType::Integer)
    } else if s == "array"@ {
        Some(DataType::Array)
    } else if s == "object"@ {
        Some(DataType::Object)
    } else if s == "number"@ {
        Some(DataType::Number)
    } else if s == "boolean"@ {
        Some(DataType::Boolean)
    } else {
        None
    }
}

/// A string field of an object: unset where absent or not a string.
pub open spec fn str_at(m: Seq<(Seq<char>, JsonV)>, k: Seq<char>) -> Option<Seq<char>> {
    match lookup(m, k) {
        Some(JsonV::Str(s)) => Some(s),
        _ => None,
    }
}

/// A count field: a non-negative integer that fits in 32 bits; unset where
/// absent, not such an integer, or out of range.
pub open spec fn u32_at(m: Seq<(Seq<char>, JsonV)>, k: Seq<char>) -> Option<u32> {
    match lookup(m, k) {
        Some(JsonV::UInt(n)) => if n <= u32::MAX as u64 {
            Some(n as u32)
        } else {
            None
        },
        _ => None,
    }
}

/// A bound field: an integer that fits in 32 signed bits; unset where
/// absent, not an integer, or out of range.
pub open spec fn i32_at(m: Seq<(Seq<char>, JsonV)>, k: Seq<char>) -> Option<i32> {
    match lookup(m, k) {
        Some(JsonV::UInt(n)) => if n <= i32::MAX as u64 {
            Some(n as i32)
        } else {
            None
        },
        Some(JsonV::NegInt(n)) => if n >= i32::MIN as i64 {
            Some(n as i32)
        } else {
            None
        },
        _ => None,
    }
}

/// A flag field: unset where absent or not a boolean.
pub open spec fn bool_at(m: Seq<(Seq<char>, JsonV)>, k: Seq<char>) -> Option<bool> {
    match lookup(m, k) {
        Some(JsonV::Bool(b)) => Some(b),
        _ => None,
    }
}

/// Whether `name` stands in a `required` array.
pub open spec fn listed(req: Option<JsonV>, name: Seq<char>) -> bool {
    match req {
        Some(JsonV::Array(a)) => a.contains(JsonV::Str(name)),
        _ => false,
    }
}

/// A property with only its name and its `required` flag set.
pub open spec fn bare_property(name: Seq<char>, required: bool) -> PropertyV {
    PropertyV {
        name,
        data_type: DataType::String,
        required,
        description: None,
        comment: None,
        min_length: None,
        max_length: None,
        pattern: None,
        format: None,
        minimum: None,
        maximum: None,
        byte_array: None,
        min_items: None,
        max_items: None,
        properties: None,
        min_properties: None,
        max_properties: None,
        rec_required: None,
        additional_properties: None,
    }
}

/// The type of a property object: `string` where `type` is absent.
pub open spec fn type_at(m: Seq<(Seq<char>, JsonV)>) -> Option<DataType> {
    match lookup(m, "type"@) {
        None => Some(DataType::String),
        Some(JsonV::Str(s)) => data_type_of(s),
        Some(_) => None,
    }
}

/// The property that a canonical property object stands for, or the path to
/// the first property whose type is unknown.
pub open spec fn import_prop(name: Seq<char>, v: JsonV, required: bool) -> Result<PropertyV, Seq<Seq<char>>>
    decreases v, 1int,
{
    match v {
        JsonV::Object(m) => {
            let idx = key_index(m, "properties"@);
            let nested = if 0 <= idx < m.len() {
                match m[idx].1 {
                    JsonV::Object(c) => Some(import_props_prefix(c, lookup(m, "required"@), c.len() as int)),
                    _ => None,
                }
            } else {
                None
            };
            if type_at(m) is None {
                Err(seq![name])
            } else if nested is Some && nested->Some_0 is Err {
                Err(seq![name] + nested->Some_0->Err_0)
            } else {
                let kids = match nested {
                    Some(Ok(k)) => Some(k),
                    _ => None,
                };
                Ok(PropertyV {
                    name,
                    data_type: type_at(m)->Some_0,
                    required,
                    description: str_at(m, "description"@),
                    comment: str_at(m, "$comment"@),
                    min_length: u32_at(m, "minLength"@),
                    max_length: u32_at(m, "maxLength"@),
                    pattern: str_at(m, "pattern"@),
                    format: str_at(m, "format"@),
                    minimum: i32_at(m, "minimum"@),
                    maximum: i32_at(m, "maximum"@),
                    byte_array: bool_at(m, "byteArray"@),
                    min_items: u32_at(m, "minItems"@),
                    max_items: u32_at(m, "maxItems"@),
                    properties: kids,
                    min_properties: u32_at(m, "minProperties"@),
                    max_properties: u32_at(m, "maxProperties"@),
                    rec_required: match kids {
                        Some(k) => Some(derived_required(k)),
                        None => None,
                    },
                    additional_properties: None,
                })
            }
        },
        _ => Ok(bare_property(name, required)),
    }
}

/// The properties of the first `n` entries of a properties map, each
/// required where `req` lists it; or the path to the first unknown type.
pub open spec fn import_props_prefix(c: Seq<(Seq<char>, JsonV)>, req: Option<JsonV>, n: int) -> Result<
    Seq<PropertyV>,
    Seq<Seq<char>>,
>
    decreases c, n,
{
    if n <= 0 || n > c.len() {
        Ok(Seq::empty())
    } else {
        match import_props_prefix(c, req, n - 1) {
            Err(at) => Err(at),
            Ok(ps) => match import_prop(c[n - 1].0, c[n - 1].1, listed(req, c[n - 1].0)) {
                Err(at) => Err(at),
                Ok(p) => Ok(ps.push(p)),
            },
        }
    }
}

/// The properties of a properties map.
pub open spec fn import_props(c: Seq<(Seq<char>, JsonV)>, req: Option<JsonV>) -> Result<Seq<PropertyV>, Seq<Seq<char>>> {
    import_props_prefix(c, req, c.len() as int)
}

/// The (path, direction) pair of an index-properties object: the last entry
/// gives the path, and its value the direction where that value is a string,
/// `asc` where it is not.
pub open spec fn index_pair(e: Seq<(Seq<char>, JsonV)>) -> (Seq<char>, Seq<char>) {
    if e.len() == 0 {
        (Seq::empty(), "asc"@)
    } else {
        (
            e.last().0,
            match e.last().1 {
                JsonV::Str(s) => s,
                _ => "asc"@,
            },
        )
    }
}

/// The pairs of an index's `properties` array; entries that are not objects are skipped.
pub open spec fn index_pairs(a: Seq<JsonV>) -> Seq<(Seq<char>, Seq<char>)>
    decreases a.len(),
{
    if a.len() == 0 {
        Seq::empty()
    } else {
        let r = index_pairs(a.drop_last());
        match a.last() {
            JsonV::Object(e) => r.push(index_pair(e)),
            _ => r,
        }
    }
}

/// The index that a canonical index object stands for.
pub open spec fn index_of(m: Seq<(Seq<char>, JsonV)>) -> IndexV {
    IndexV {
        name: match str_at(m, "name"@) {
            Some(s) => s,
            None => Seq::empty(),
        },
        properties: match lookup(m, "properties"@) {
            Some(JsonV::Array(a)) => index_pairs(a),
            _ => Seq::empty(),
        },
        unique: bool_at(m, "unique"@) == Some(true),
    }
}

/// The indices of an `indices` array; entries that are not objects are skipped.
pub open spec fn indices_of(a: Seq<JsonV>) -> Seq<IndexV>
    decreases a.len(),
{
    if a.len() == 0 {
        Seq::empty()
    } else {
        let r = indices_of(a.drop_last());
        match a.last() {
            JsonV::Object(m) => r.push(index_of(m)),
            _ => r,
        }
    }
}

/// The document type that a canonical document-type object stands for.
pub open spec fn import_doc(name: Seq<char>, v: JsonV) -> Result<DocumentTypeV, Seq<Seq<char>>> {
    match v {
        JsonV::Object(m) => {
            let props = match lookup(m, "properties"@) {
                Some(JsonV::Object(c)) => import_props(c, lookup(m, "required"@)),
                _ => Ok(Seq::empty()),
            };
            match props {
                Err(at) => Err(seq![name] + at),
                Ok(ps) => Ok(DocumentTypeV {
                    name,
                    properties: ps,
                    indices: match lookup(m, "indices"@) {
                        Some(JsonV::Array(a)) => indices_of(a),
                        _ => Seq::empty(),
                    },
                    required: derived_required(ps),
                    additional_properties: false,
                    comment: match str_at(m, "$comment"@) {
                        Some(s) => s,
                        None => Seq::empty(),
                    },
                }),
            }
        },
        _ => Ok(
            DocumentTypeV {
                name,
                properties: Seq::empty(),
                indices: Seq::empty(),
                required: Seq::empty(),
                additional_properties: false,
                comment: Seq::empty(),
            },
        ),
    }
}

/// The document types of the first `n` entries of a contract.
pub open spec fn import_docs_prefix(m: Seq<(Seq<char>, JsonV)>, n: int) -> Result<Seq<DocumentTypeV>, Seq<Seq<char>>>
    decreases n,
{
    if n <= 0 || n > m.len() {
        Ok(Seq::empty())
    } else {
        match import_docs_prefix(m, n - 1) {
            Err(at) => Err(at),
            Ok(ds) => match import_doc(m[n - 1].0, m[n - 1].1) {
                Err(at) => Err(at),
                Ok(d) => Ok(ds.push(d)),
            },
        }
    }
}

/// The document types of a canonical contract document, one per key, in order.
pub open spec fn import_contract(v: JsonV) -> Result<Seq<DocumentTypeV>, ImportErrorV> {
    match v {
        JsonV::Object(m) => match import_docs_prefix(m, m.len() as int) {
            Ok(ds) => Ok(ds),
            Err(at) => Err(ImportErrorV::UnknownType(at)),
        },
        _ => Err(ImportErrorV::Malformed),
    }
}

/// Once a prefix of a properties map fails, every longer prefix fails the same way.
pub proof fn lemma_props_prefix_err(c: Seq<(Seq<char>, JsonV)>, req: Option<JsonV>, n: int, k: int)
    requires
        0 < n <= k <= c.len(),
        import_props_prefix(c, req, n) is Err,
    ensures
        import_props_prefix(c, req, k) == import_props_prefix(c, req, n),
    decreases k - n,
{
    if k > n {
        lemma_props_prefix_err(c, req, n, k - 1);
    }
}

/// Once a prefix of a contract fails, every longer prefix fails the same way.
pub proof fn lemma_docs_prefix_err(m: Seq<(Seq<char>, JsonV)>, n: int, k: int)
    requires
        0 < n <= k <= m.len(),
        import_docs_prefix(m, n) is Err,
    ensures
        import_docs_prefix(m, k) == import_docs_prefix(m, n),
    decreases k - n,
{
    if k > n {
        lemma_docs_prefix_err(m, n, k - 1);
    }
}

/// The view of an optional borrowed value.
pub open spec fn opt_json_view(o: Option<&Json>) -> Option<JsonV> {
    match o {
        Some(j) => Some(j@),
        None => None,
    }
}

pub open spec fn prop_result_view(r: Result<Property, Vec<String>>) -> Result<PropertyV, Seq<Seq<char>>> {
    match r {
        Ok(p) => Ok(p@),
        Err(e) => Err(strings_view(e@)),
    }
}

pub open spec fn props_result_view(r: Result<Vec<Property>, Vec<String>>) -> Result<Seq<PropertyV>, Seq<Seq<char>>> {
    match r {
        Ok(ps) => Ok(props_view(ps@)),
        Err(e) => Err(strings_view(e@)),
    }
}

pub open spec fn doc_result_view(r: Result<DocumentType, Vec<String>>) -> Result<DocumentTypeV, Seq<Seq<char>>> {
    match r {
        Ok(d) => Ok(d@),
        Err(e) => Err(strings_view(e@)),
    }
}

pub open spec fn docs_result_view(r: Result<Vec<DocumentType>, ImportError>) -> Result<Seq<DocumentTypeV>, ImportErrorV> {
    match r {
        Ok(ds) => Ok(docs_view(ds@)),
        Err(e) => Err(e@),
    }
}

/// The position of the last entry with key `k`.
fn key_position(m: &Vec<(String, Json)>, k: &String) -> (r: Option<usize>)
    ensures
        match r {
            Some(i) => i < m.len() && i == key_index(entries_view(m@), k@),
            None => key_index(entries_view(m@), k@) < 0,
        },
{
    let ghost mv = entries_view(m@);
    let mut i: usize = m.len();
    assert(mv.subrange(0, i as int) =~= mv);
    while i > 0
        invariant
            i <= m.len(),
            mv == entries_view(m@),
            key_index(mv, k@) == key_index(mv.subrange(0, i as int), k@),
        decreases i,
    {
        assert(mv.subrange(0, i as int).drop_last() =~= mv.subrange(0, i - 1));
        if m[i - 1].0 == *k {
            return Some(i - 1);
        }
        i = i - 1;
    }
    assert(mv.subrange(0, 0) =~= Seq::<(Seq<char>, JsonV)>::empty());
    None
}

fn str_of(m: &Vec<(String, Json)>, k: &str) -> (r: Option<String>)
    ensures
        opt_str_view(r) == str_at(entries_view(m@), k@),
{
    match lookup_exec(m, &k.to_string()) {
        Some(Json::Str(s)) => Some(s.clone()),
        _ => None,
    }
}

fn u32_of(m: &Vec<(String, Json)>, k: &str) -> (r: Option<u32>)
    ensures
        r == u32_at(entries_view(m@), k@),
{
    match lookup_exec(m, &k.to_string()) {
        Some(Json::UInt(n)) => if *n <= u32::MAX as u64 {
            Some(*n as u32)
        } else {
            None
        },
        _ => None,
    }
}

fn i32_of(m: &Vec<(String, Json)>, k: &str) -> (r: Option<i32>)
    ensures
        r == i32_at(entries_view(m@), k@),
{
    match lookup_exec(m, &k.to_string()) {
        Some(Json::UInt(n)) => if *n <= i32::MAX as u64 {
            Some(*n as i32)
        } else {
            None
        },
        Some(Json::NegInt(n)) => if *n >= i32::MIN as i64 {
            Some(*n as i32)
        } else {
            None
        },
        _ => None,
    }
}

fn bool_of(m: &Vec<(String, Json)>, k: &str) -> (r: Option<bool>)
    ensures
        r == bool_at(entries_view(m@), k@),
{
    match lookup_exec(m, &k.to_string()) {
        Some(Json::Bool(b)) => Some(*b),
        _ => None,
    }
}

/// The data type that a canonical type name stands for.
pub fn data_type_from(s: &String) -> (r: Option<DataType>)
    ensures
        r == data_type_of(s@),
{
    if *s == "string".to_string() {
        Some(DataType::String)
    } else if *s == "integer".to_string() {
        Some(DataType::Integer)
    } else if *s == "array".to_string() {
        Some(DataType::Array)
    } else if *s == "object".to_string() {
        Some(DataType::Object)
    } else if *s == "number".to_string() {
        Some(DataType::Number)
    } else if *s == "boolean".to_string() {
        Some(DataType::Boolean)
    } else {
        None
    }
}

fn type_of(m: &Vec<(String, Json)>) -> (r: Option<DataType>)
    ensures
        r == type_at(entries_view(m@)),
{
    match lookup_exec(m, &"type".to_string()) {
        None => Some(DataType::String),
        Some(Json::Str(s)) => data_type_from(s),
        Some(_) => None,
    }
}

fn is_listed(req: Option<&Json>, name: &String) -> (r: bool)
    ensures
        r == listed(opt_json_view(req), name@),
{
    match req {
        Some(Json::Array(a)) => {
            proof {
                lemma_array_view(*a);
            }
            let ghost av = a@.map_values(|j: Json| j@);
            assert(opt_json_view(req) == Some(JsonV::Array(av)));
            let mut i: usize = 0;
            while i < a.len()
                invariant
                    i <= a.len(),
                    av == a@.map_values(|j: Json| j@),
                    opt_json_view(req) == Some(JsonV::Array(av)),
                    forall|k: int| 0 <= k < i ==> av[k] != JsonV::Str(name@),
                decreases a.len() - i,
            {
                if let Json::Str(x) = &a[i] {
                    if *x == *name {
                        assert(av[i as int] == JsonV::Str(name@));
                        assert(av.contains(JsonV::Str(name@)));
                        return true;
                    }
                }
                i = i + 1;
            }
            false
        },
        _ => false,
    }
}

/// The property that a canonical property object stands for, or the path to
/// the first property whose type is unknown.
pub fn import_property(name: &String, v: &Json, required: bool) -> (r: Result<Property, Vec<String>>)
    ensures
        prop_result_view(r) == import_prop(name@, v@, required),
    decreases v, 1int,
{
    match v {
        Json::Object(m) => {
            proof {
                lemma_object_view(*m);
            }
            let ghost mv = entries_view(m@);
            let ty = type_of(m);
            if ty.is_none() {
                let r = vec![name.clone()];
                assert(strings_view(r@) =~= seq![name@]);
                return Err(r);
            }
            let mut kids: Option<Vec<Property>> = None;
            if let Some(i) = key_position(m, &"properties".to_string()) {
                if let Json::Object(c) = &m[i].1 {
                    proof {
                        lemma_object_view(*c);
                    }
                    let req = lookup_exec(m, &"required".to_string());
                    match import_properties(c, req) {
                        Err(at) => {
                            let mut at = at;
                            let ghost a0 = strings_view(at@);
                            at.insert(0, name.clone());
                            assert(strings_view(at@) =~= seq![name@] + a0);
                            return Err(at);
                        },
                        Ok(k) => {
                            kids = Some(k);
                        },
                    }
                }
            }
            let rec_required = match &kids {
                Some(k) => Some(derive_required(k)),
                None => None,
            };
            let p = Property {
                name: name.clone(),
                data_type: ty.unwrap(),
                required,
                description: str_of(m, "description"),
                comment: str_of(m, "$comment"),
                min_length: u32_of(m, "minLength"),
                max_length: u32_of(m, "maxLength"),
                pattern: str_of(m, "pattern"),
                format: str_of(m, "format"),
                minimum: i32_of(m, "minimum"),
                maximum: i32_of(m, "maximum"),
                byte_array: bool_of(m, "byteArray"),
                min_items: u32_of(m, "minItems"),
                max_items: u32_of(m, "maxItems"),
                properties: kids,
                min_properties: u32_of(m, "minProperties"),
                max_properties: u32_of(m, "maxProperties"),
                rec_required,
                additional_properties: None,
            };
            proof {
                lemma_nested_view(p);
            }
            Ok(p)
        },
        _ => {
            let mut p = default_additional_properties(DataType::String);
            p.name = name.clone();
            p.required = required;
            Ok(p)
        },
    }
}

/// The properties of a properties map, each required where `req` lists it;
/// or the path to the first property whose type is unknown.
pub fn import_properties(c: &Vec<(String, Json)>, req: Option<&Json>) -> (r: Result<Vec<Property>, Vec<String>>)
    ensures
        props_result_view(r) == import_props(entries_view(c@), opt_json_view(req)),
    decreases c, 0int,
{
    let ghost cv = entries_view(c@);
    let mut out: Vec<Property> = Vec::new();
    let mut i: usize = 0;
    assert(props_view(out@) =~= Seq::empty());
    while i < c.len()
        invariant
            i <= c.len(),
            cv == entries_view(c@),
            import_props_prefix(cv, opt_json_view(req), i as int) == Ok::<Seq<PropertyV>, Seq<Seq<char>>>(props_view(out@)),
        decreases c.len() - i,
    {
        let listed_here = is_listed(req, &c[i].0);
        match import_property(&c[i].0, &c[i].1, listed_here) {
            Err(at) => {
                proof {
                    lemma_props_prefix_err(cv, opt_json_view(req), i + 1, cv.len() as int);
                }
                return Err(at);
            },
            Ok(p) => {
                let ghost o0 = props_view(out@);
                out.push(p);
                assert(props_view(out@) =~= o0.push(p@));
            },
        }
        i = i + 1;
    }
    Ok(out)
}

/// The (path, direction) pair of an index-properties object.
pub fn import_index_pair(e: &Vec<(String, Json)>) -> (r: IndexProperties)
    ensures
        r@ == index_pair(entries_view(e@)),
{
    let mut r = IndexProperties(String::new(), "asc".to_string());
    if e.len() > 0 {
        let last = &e[e.len() - 1];
        r.0 = last.0.clone();
        if let Json::Str(s) = &last.1 {
            r.1 = s.clone();
        }
    }
    r
}

/// The pairs of an index's `properties` array.
pub fn import_index_pairs(a: &Vec<Json>) -> (r: Vec<IndexProperties>)
    ensures
        r@.map_values(|p: IndexProperties| p@) == index_pairs(a@.map_values(|j: Json| j@)),
{
    let ghost av = a@.map_values(|j: Json| j@);
    let mut r: Vec<IndexProperties> = Vec::new();
    let mut i: usize = 0;
    assert(r@.map_values(|p: IndexProperties| p@) =~= index_pairs(av.subrange(0, 0)));
    while i < a.len()
        invariant
            i <= a.len(),
            av == a@.map_values(|j: Json| j@),
            r@.map_values(|p: IndexProperties| p@) == index_pairs(av.subrange(0, i as int)),
        decreases a.len() - i,
    {
        assert(av.subrange(0, i + 1).drop_last() =~= av.subrange(0, i as int));
        if let Json::Object(e) = &a[i] {
            proof {
                lemma_object_view(*e);
            }
            let ghost r0 = r@.map_values(|p: IndexProperties| p@);
            let pair = import_index_pair(e);
            r.push(pair);
            assert(r@.map_values(|p: IndexProperties| p@) =~= r0.push(pair@));
        }
        i = i + 1;
    }
    assert(av.subrange(0, a.len() as int) =~= av);
    r
}

/// The index that a canonical index object stands for.
pub fn import_index(m: &Vec<(String, Json)>) -> (r: Index)
    ensures
        r@ == index_of(entries_view(m@)),
{
    let name = match str_of(m, "name") {
        Some(s) => s,
        None => String::new(),
    };
    let properties = match lookup_exec(m, &"properties".to_string()) {
        Some(Json::Array(a)) => {
            proof {
                lemma_array_view(*a);
            }
            import_index_pairs(a)
        },
        _ => Vec::new(),
    };
    proof {
        if !(lookup(entries_view(m@), "properties"@) matches Some(JsonV::Array(_))) {
            assert(properties@.map_values(|p: IndexProperties| p@) =~= Seq::empty());
        }
    }
    let unique = match bool_of(m, "unique") {
        Some(b) => b,
        None => false,
    };
    Index { name, properties, unique }
}

/// The indices of an `indices` array.
pub fn import_indices(a: &Vec<Json>) -> (r: Vec<Index>)
    ensures
        r@.map_values(|ix: Index| ix@) == indices_of(a@.map_values(|j: Json| j@)),
{
    let ghost av = a@.map_values(|j: Json| j@);
    let mut r: Vec<Index> = Vec::new();
    let mut i: usize = 0;
    assert(r@.map_values(|ix: Index| ix@) =~= indices_of(av.subrange(0, 0)));
    while i < a.len()
        invariant
            i <= a.len(),
            av == a@.map_values(|j: Json| j@),
            r@.map_values(|ix: Index| ix@) == indices_of(av.subrange(0, i as int)),
        decreases a.len() - i,
    {
        assert(av.subrange(0, i + 1).drop_last() =~= av.subrange(0, i as int));
        if let Json::Object(e) = &a[i] {
            proof {
                lemma_object_view(*e);
            }
            let ghost r0 = r@.map_values(|ix: Index| ix@);
            let ix = import_index(e);
            r.push(ix);
            assert(r@.map_values(|ix: Index| ix@) =~= r0.push(ix@));
        }
        i = i + 1;
    }
    assert(av.subrange(0, a.len() as int) =~= av);
    r
}

/// The document type that a canonical document-type object stands for, or the
/// path to the first property whose type is unknown.
pub fn import_document_type(name: &String, v: &Json) -> (r: Result<DocumentType, Vec<String>>)
    ensures
        doc_result_view(r) == import_doc(name@, v@),
{
    let mut d = DocumentType {
        name: name.clone(),
        properties: Vec::new(),
        indices: Vec::new(),
        required: Vec::new(),
        additional_properties: false,
        comment: String::new(),
    };
    assert(d@.properties =~= Seq::empty());
    assert(d@.indices =~= Seq::empty());
    assert(d@.required =~= Seq::empty());
    if let Json::Object(m) = v {
        proof {
            lemma_object_view(*m);
        }
        match lookup_exec(m, &"properties".to_string()) {
            Some(Json::Object(c)) => {
                proof {
                    lemma_object_view(*c);
                }
                let req = lookup_exec(m, &"required".to_string());
                match import_properties(c, req) {
                    Err(at) => {
                        let mut at = at;
                        let ghost a0 = strings_view(at@);
                        at.insert(0, name.clone());
                        assert(strings_view(at@) =~= seq![name@] + a0);
                        return Err(at);
                    },
                    Ok(ps) => {
                        d.properties = ps;
                    },
                }
            },
            _ => {},
        }
        d.required = derive_required(&d.properties);
        if let Some(Json::Array(a)) = lookup_exec(m, &"indices".to_string()) {
            proof {
                lemma_array_view(*a);
            }
            d.indices = import_indices(a);
        }
        if let Some(s) = str_of(m, "$comment") {
            d.comment = s;
        }
    }
    Ok(d)
}

/// The document types of a canonical contract document, one per key, in
/// order; the import replaces the whole model.
pub fn import_value(v: &Json) -> (r: Result<Vec<DocumentType>, ImportError>)
    ensures
        docs_result_view(r) == import_contract(v@),
{
    match v {
        Json::Object(m) => {
            proof {
                lemma_object_view(*m);
            }
            let ghost mv = entries_view(m@);
            let mut out: Vec<DocumentType> = Vec::new();
            let mut i: usize = 0;
            assert(docs_view(out@) =~= Seq::empty());
            while i < m.len()
                invariant
                    i <= m.len(),
                    mv == entries_view(m@),
                    v@ == JsonV::Object(mv),
                    import_docs_prefix(mv, i as int) == Ok::<Seq<DocumentTypeV>, Seq<Seq<char>>>(docs_view(out@)),
                decreases m.len() - i,
            {
                assert(mv[i as int] == (m@[i as int].0@, m@[i as int].1@));
                match import_document_type(&m[i].0, &m[i].1) {
                    Err(at) => {
                        proof {
                            assert(import_docs_prefix(mv, i + 1) == Err::<Seq<DocumentTypeV>, Seq<Seq<char>>>(strings_view(at@)));
                            lemma_docs_prefix_err(mv, i + 1, mv.len() as int);
                        }
                        return Err(ImportError::UnknownType(at));
                    },
                    Ok(d) => {
                        let ghost o0 = docs_view(out@);
                        out.push(d);
                        assert(docs_view(out@) =~= o0.push(d@));
                    },
                }
                i = i + 1;
            }
            Ok(out)
        },
        _ => Err(ImportError::Malformed),
    }
}

/// The document types of a contract given as JSON text. Text that is not
/// JSON is `Malformed`; nothing of an earlier model survives.
pub fn import(text: &str) -> (r: Result<Vec<DocumentType>, ImportError>)
    ensures
        match json_parse(text@) {
            Some(v) => docs_result_view(r) == import_contract(v),
            None => docs_result_view(r) == Err::<Seq<DocumentTypeV>, ImportErrorV>(ImportErrorV::Malformed),
        },
{
    match read_json(text) {
        Some(v) => import_value(&v),
        None => Err(ImportError::Malformed),
    }
}

} // verus!
