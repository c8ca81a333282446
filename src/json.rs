use vstd::prelude::*;

verus! {

/// A JSON value as the library reads and writes it. Integers are kept as
/// serde_json keeps them: non-negative ones as `UInt`, negative ones as
/// `NegInt`; any other number is `Fractional`, whose value nothing here reads.
pub enum Json {
    Null,
    Bool(bool),
    UInt(u64),
    NegInt(i64),
    Fractional,
    Str(String),
    Array(Vec<Json>),
    Object(Vec<(String, Json)>),
}

/// The mathematical form of a JSON value.
pub enum JsonV {
    Null,
    Bool(bool),
    UInt(u64),
    NegInt(i64),
    Fractional,
    Str(Seq<char>),
    Array(Seq<JsonV>),
    Object(Seq<(Seq<char>, JsonV)>),
}

impl View for Json {
    type V = JsonV;

    open spec fn view(&self) -> JsonV
        decreases self, 0int,
    {
        match self {
            Json::Null => JsonV::Null,
            Json::Bool(b) => JsonV::Bool(*b),
            Json::UInt(n) => JsonV::UInt(*n),
            Json::NegInt(n) => JsonV::NegInt(*n),
            Json::Fractional => JsonV::Fractional,
            Json::Str(s) => JsonV::Str(s@),
            Json::Array(a) => JsonV::Array(list_view(a@, a@.len() as int)),
            Json::Object(m) => JsonV::Object(entries_prefix_view(m@, m@.len() as int)),
        }
    }
}

/// The views of the first `n` values of a list.
pub open spec fn list_view(a: Seq<Json>, n: int) -> Seq<JsonV>
    decreases a, n,
{
    if n <= 0 || n > a.len() {
        Seq::empty()
    } else {
        list_view(a, n - 1).push(a[n - 1].view())
    }
}

/// The views of the first `n` entries of an object.
pub open spec fn entries_prefix_view(m: Seq<(String, Json)>, n: int) -> Seq<(Seq<char>, JsonV)>
    decreases m, n,
{
    if n <= 0 || n > m.len() {
        Seq::empty()
    } else {
        entries_prefix_view(m, n - 1).push((m[n - 1].0@, m[n - 1].1.view()))
    }
}

/// The view of the entries of an object.
pub open spec fn entries_view(m: Seq<(String, Json)>) -> Seq<(Seq<char>, JsonV)> {
    m.map_values(|e: (String, Json)| (e.0@, e.1@))
}

pub proof fn lemma_list_view(a: Seq<Json>, n: int)
    requires
        0 <= n <= a.len(),
    ensures
        list_view(a, n) == a.subrange(0, n).map_values(|j: Json| j@),
    decreases n,
{
    if n > 0 {
        lemma_list_view(a, n - 1);
        assert(a.subrange(0, n).map_values(|j: Json| j@) =~= a.subrange(0, n - 1).map_values(|j: Json| j@).push(
            a[n - 1]@,
        ));
    } else {
        assert(list_view(a, n) =~= a.subrange(0, n).map_values(|j: Json| j@));
    }
}

pub proof fn lemma_entries_view(m: Seq<(String, Json)>, n: int)
    requires
        0 <= n <= m.len(),
    ensures
        entries_prefix_view(m, n) == entries_view(m.subrange(0, n)),
    decreases n,
{
    if n > 0 {
        lemma_entries_view(m, n - 1);
        assert(entries_view(m.subrange(0, n)) =~= entries_view(m.subrange(0, n - 1)).push(
            (m[n - 1].0@, m[n - 1].1@),
        ));
    } else {
        assert(entries_prefix_view(m, n) =~= entries_view(m.subrange(0, n)));
    }
}

pub proof fn lemma_array_view(a: Vec<Json>)
    ensures
        Json::Array(a)@ == JsonV::Array(a@.map_values(|j: Json| j@)),
{
    lemma_list_view(a@, a@.len() as int);
    assert(a@.subrange(0, a@.len() as int) =~= a@);
}

pub proof fn lemma_object_view(m: Vec<(String, Json)>)
    ensures
        Json::Object(m)@ == JsonV::Object(entries_view(m@)),
{
    lemma_entries_view(m@, m@.len() as int);
    assert(m@.subrange(0, m@.len() as int) =~= m@);
}

/// The position of the last entry with key `k`, or -1 where there is none.
pub open spec fn key_index(m: Seq<(Seq<char>, JsonV)>, k: Seq<char>) -> int
    decreases m.len(),
{
    if m.len() == 0 {
        -1
    } else if m.last().0 == k {
        m.len() - 1
    } else {
        key_index(m.drop_last(), k)
    }
}

/// The value of key `k` in an object's entries.
pub open spec fn lookup(m: Seq<(Seq<char>, JsonV)>, k: Seq<char>) -> Option<JsonV> {
    let i = key_index(m, k);
    if i < 0 {
        None
    } else {
        Some(m[i].1)
    }
}

/// An object's entries after inserting `k`: a present key keeps its place and
/// takes the new value, a new key goes last.
pub open spec fn insert_entry(m: Seq<(Seq<char>, JsonV)>, k: Seq<char>, v: JsonV) -> Seq<(Seq<char>, JsonV)> {
    let i = key_index(m, k);
    if i < 0 {
        m.push((k, v))
    } else {
        m.update(i, (k, v))
    }
}

pub proof fn lemma_key_index_bounds(m: Seq<(Seq<char>, JsonV)>, k: Seq<char>)
    ensures
        -1 <= key_index(m, k) < m.len(),
        key_index(m, k) >= 0 ==> m[key_index(m, k)].0 == k,
        key_index(m, k) < 0 ==> forall|j: int| 0 <= j < m.len() ==> m[j].0 != k,
    decreases m.len(),
{
    if m.len() > 0 && m.last().0 != k {
        lemma_key_index_bounds(m.drop_last(), k);
        assert(forall|j: int| 0 <= j < m.len() - 1 ==> m.drop_last()[j] == m[j]);
    }
}

/// Inserts `k` into an object's entries the way an insertion-ordered map does.
pub fn insert_entry_exec(m: &mut Vec<(String, Json)>, k: String, v: Json)
    ensures
        entries_view(final(m)@) == insert_entry(entries_view(old(m)@), k@, v@),
{
    let ghost mv = entries_view(m@);
    let mut i: usize = m.len();
    assert(mv.subrange(0, i as int) =~= mv);
    while i > 0
        invariant
            i <= m.len(),
            mv == entries_view(m@),
            mv == entries_view(old(m)@),
            key_index(mv, k@) == key_index(mv.subrange(0, i as int), k@),
        decreases i,
    {
        assert(mv.subrange(0, i as int).drop_last() =~= mv.subrange(0, i - 1));
        if m[i - 1].0 == k {
            assert(mv[i - 1].0 == k@);
            assert(key_index(mv, k@) == i - 1);
            m.set(i - 1, (k, v));
            assert(entries_view(m@) =~= insert_entry(mv, k@, v@));
            return;
        }
        i = i - 1;
    }
    assert(mv.subrange(0, 0) =~= Seq::<(Seq<char>, JsonV)>::empty());
    m.push((k, v));
    assert(entries_view(m@) =~= insert_entry(mv, k@, v@));
}

/// The value of key `k` in an object's entries.
pub fn lookup_exec<'a>(m: &'a Vec<(String, Json)>, k: &String) -> (r: Option<&'a Json>)
    ensures
        match r {
            Some(j) => lookup(entries_view(m@), k@) == Some(j@),
            None => lookup(entries_view(m@), k@) is None,
        },
{
    let ghost mv = entries_view(m@);
    let mut i: usize = m.len();
    assert(mv.subrange(0, i as int) =~= mv);
    while i > 0
        invariant
            i <= m.len(),
            mv == entries_view(m@),
            key_index(mv, k@) == key_index(mv.subrange(0, i as int), k@),
        decreases i,
    {
        assert(mv.subrange(0, i as int).drop_last() =~= mv.subrange(0, i - 1));
        if m[i - 1].0 == *k {
            return Some(&m[i - 1].1);
        }
        i = i - 1;
    }
    assert(mv.subrange(0, 0) =~= Seq::<(Seq<char>, JsonV)>::empty());
    None
}

/// serde_json's untyped value, carried through the two conversions below.
#[verifier::external_type_specification]
#[verifier::external_body]
pub struct ExValue(serde_json::Value);

/// The JSON text that serde_json writes for a value.
pub uninterp spec fn json_text(v: JsonV) -> Seq<char>;

/// The value that serde_json reads from a text, if the text is JSON.
pub uninterp spec fn json_parse(s: Seq<char>) -> Option<JsonV>;

/// Relies on serde_json's `Value` and `Value::to_string`: the compact text of
/// the value, which depends on the value alone.
#[verifier::external_body]
pub(crate) fn write_json(j: &Json) -> (r: String)
    ensures
        r@ == json_text(j@),
{
    to_value(j).to_string()
}

/// Relies on `serde_json::from_str::<Value>`: the value read from the text, or
/// `None` where the text is not JSON.
#[verifier::external_body]
pub(crate) fn read_json(s: &str) -> (r: Option<Json>)
    ensures
        match r {
            Some(j) => json_parse(s@) == Some(j@),
            None => json_parse(s@) is None,
        },
{
    serde_json::from_str::<serde_json::Value>(s).ok().map(|v| from_value(&v))
}

/// Relies on serde_json's `Value` variants and its `Map`, which keeps the
/// order of insertion (a repeated key keeps its first place and takes its
/// last value): the serde_json image of `j`, variant for variant. A
/// `Fractional` number, whose value is not kept, becomes null.
#[verifier::external_body]
fn to_value(j: &Json) -> serde_json::Value {
    match j {
        Json::Null | Json::Fractional => serde_json::Value::Null,
        Json::Bool(b) => serde_json::Value::Bool(*b),
        Json::UInt(n) => serde_json::Value::from(*n),
        Json::NegInt(n) => serde_json::Value::from(*n),
        Json::Str(s) => serde_json::Value::String(s.clone()),
        Json::Array(a) => serde_json::Value::Array(a.iter().map(to_value).collect()),
        Json::Object(m) => serde_json::Value::Object(m.iter().map(|(k, v)| (k.clone(), to_value(v))).collect()),
    }
}

/// Relies on serde_json's `Value` variants, `Number::as_u64` / `as_i64`, and
/// its `Map`, which keeps the order of the text: the library's image of `v`,
/// variant for variant.
#[verifier::external_body]
fn from_value(v: &serde_json::Value) -> Json {
    match v {
        serde_json::Value::Null => Json::Null,
        serde_json::Value::Bool(b) => Json::Bool(*b),
        serde_json::Value::Number(n) => n.as_u64().map(Json::UInt).or(n.as_i64().map(Json::NegInt)).unwrap_or(Json::Fractional),
        serde_json::Value::String(s) => Json::Str(s.clone()),
        serde_json::Value::Array(a) => Json::Array(a.iter().map(from_value).collect()),
        serde_json::Value::Object(m) => Json::Object(m.iter().map(|(k, v)| (k.clone(), from_value(v))).collect()),
    }
}

} // verus!
