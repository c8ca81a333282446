use vstd::prelude::*;

verus! {

/// The type of a property.
#[derive(Debug, Clone, Copy, PartialEq, Eq, Structural)]
pub enum DataType {
    String,
    Integer,
    Array,
    Object,
    Number,
    Boolean,
}

/// A typed field of a document type or of an object property. The constraint
/// fields of one data type at a time are meant to be set.
#[derive(Debug)]
pub struct Property {
    pub name: String,
    pub data_type: DataType,
    pub required: bool,
    pub description: Option<String>,
    pub comment: Option<String>,
    pub min_length: Option<u32>,
    pub max_length: Option<u32>,
    pub pattern: Option<String>,
    pub format: Option<String>,
    pub minimum: Option<i32>,
    pub maximum: Option<i32>,
    pub byte_array: Option<bool>,
    pub min_items: Option<u32>,
    pub max_items: Option<u32>,
    pub properties: Option<Vec<Property>>,
    pub min_properties: Option<u32>,
    pub max_properties: Option<u32>,
    pub rec_required: Option<Vec<String>>,
    pub additional_properties: Option<bool>,
}

/// One (property path, sort direction) pair of an index.
#[derive(Debug, Clone)]
pub struct IndexProperties(pub String, pub String);

/// A secondary lookup index of a document type.
#[derive(Debug, Clone)]
pub struct Index {
    pub name: String,
    pub properties: Vec<IndexProperties>,
    pub unique: bool,
}

/// A named record schema of a contract.
#[derive(Debug)]
pub struct DocumentType {
    pub name: String,
    pub properties: Vec<Property>,
    pub indices: Vec<Index>,
    pub required: Vec<String>,
    pub additional_properties: bool,
    pub comment: String,
}

/// The mathematical form of a `Property`.
pub struct PropertyV {
    pub name: Seq<char>,
    pub data_type: DataType,
    pub required: bool,
    pub description: Option<Seq<char>>,
    pub comment: Option<Seq<char>>,
    pub min_length: Option<u32>,
    pub max_length: Option<u32>,
    pub pattern: Option<Seq<char>>,
    pub format: Option<Seq<char>>,
    pub minimum: Option<i32>,
    pub maximum: Option<i32>,
    pub byte_array: Option<bool>,
    pub min_items: Option<u32>,
    pub max_items: Option<u32>,
    pub properties: Option<Seq<PropertyV>>,
    pub min_properties: Option<u32>,
    pub max_properties: Option<u32>,
    pub rec_required: Option<Seq<Seq<char>>>,
    pub additional_properties: Option<bool>,
}

/// The mathematical form of an `Index`.
pub struct IndexV {
    pub name: Seq<char>,
    pub properties: Seq<(Seq<char>, Seq<char>)>,
    pub unique: bool,
}

/// The mathematical form of a `DocumentType`.
pub struct DocumentTypeV {
    pub name: Seq<char>,
    pub properties: Seq<PropertyV>,
    pub indices: Seq<IndexV>,
    pub required: Seq<Seq<char>>,
    pub additional_properties: bool,
    pub comment: Seq<char>,
}

pub open spec fn opt_str_view(o: Option<String>) -> Option<Seq<char>> {
    match o {
        Some(s) => Some(s@),
        None => None,
    }
}

pub open spec fn strings_view(v: Seq<String>) -> Seq<Seq<char>> {
    v.map_values(|s: String| s@)
}

impl View for Property {
    type V = PropertyV;

    open spec fn view(&self) -> PropertyV
        decreases self, 0int,
    {
        PropertyV {
            name: self.name@,
            data_type: self.data_type,
            required: self.required,
            description: opt_str_view(self.description),
            comment: opt_str_view(self.comment),
            min_length: self.min_length,
            max_length: self.max_length,
            pattern: opt_str_view(self.pattern),
            format: opt_str_view(self.format),
            minimum: self.minimum,
            maximum: self.maximum,
            byte_array: self.byte_array,
            min_items: self.min_items,
            max_items: self.max_items,
            properties: match &self.properties {
                Some(v) => Some(props_prefix_view(v@, v@.len() as int)),
                None => None,
            },
            min_properties: self.min_properties,
            max_properties: self.max_properties,
            rec_required: match &self.rec_required {
                Some(v) => Some(strings_view(v@)),
                None => None,
            },
            additional_properties: self.additional_properties,
        }
    }
}

/// The views of the first `n` properties of a list.
pub open spec fn props_prefix_view(v: Seq<Property>, n: int) -> Seq<PropertyV>
    decreases v, n,
{
    if n <= 0 || n > v.len() {
        Seq::empty()
    } else {
        props_prefix_view(v, n - 1).push(v[n - 1].view())
    }
}

/// The views of a list of properties.
pub open spec fn props_view(v: Seq<Property>) -> Seq<PropertyV> {
    v.map_values(|p: Property| p@)
}

pub proof fn lemma_props_prefix_view(v: Seq<Property>, n: int)
    requires
        0 <= n <= v.len(),
    ensures
        props_prefix_view(v, n) == props_view(v.subrange(0, n)),
    decreases n,
{
    if n > 0 {
        lemma_props_prefix_view(v, n - 1);
        assert(props_view(v.subrange(0, n)) =~= props_view(v.subrange(0, n - 1)).push(v[n - 1]@));
    } else {
        assert(props_prefix_view(v, n) =~= props_view(v.subrange(0, n)));
    }
}

/// What a property's view holds of its nested list.
pub proof fn lemma_nested_view(p: Property)
    ensures
        p@.properties == (match p.properties {
            Some(v) => Some(props_view(v@)),
            None => None,
        }),
{
    if let Some(v) = p.properties {
        lemma_props_prefix_view(v@, v@.len() as int);
        assert(v@.subrange(0, v@.len() as int) =~= v@);
    }
}

impl View for IndexProperties {
    type V = (Seq<char>, Seq<char>);

    open spec fn view(&self) -> (Seq<char>, Seq<char>) {
        (self.0@, self.1@)
    }
}

impl View for Index {
    type V = IndexV;

    open spec fn view(&self) -> IndexV {
        IndexV {
            name: self.name@,
            properties: self.properties@.map_values(|p: IndexProperties| p@),
            unique: self.unique,
        }
    }
}

impl View for DocumentType {
    type V = DocumentTypeV;

    open spec fn view(&self) -> DocumentTypeV {
        DocumentTypeV {
            name: self.name@,
            properties: props_view(self.properties@),
            indices: self.indices@.map_values(|i: Index| i@),
            required: strings_view(self.required@),
            additional_properties: self.additional_properties,
            comment: self.comment@,
        }
    }
}

/// The views of a list of document types.
pub open spec fn docs_view(docs: Seq<DocumentType>) -> Seq<DocumentTypeV> {
    docs.map_values(|d: DocumentType| d@)
}

/// A property of the given type with every optional field unset.
pub open spec fn blank_property(data_type: DataType) -> PropertyV {
    PropertyV {
        name: Seq::empty(),
        data_type,
        required: false,
        description: None,
        comment: None,
        min_length: None,
        max_length: None,
        pattern: None,
        format: None,
        minimum: None,
        maximum: None,
        byte_array: None,
        min_items: None,
        max_items: None,
        properties: None,
        min_properties: None,
        max_properties: None,
        rec_required: None,
        additional_properties: None,
    }
}

impl Default for Property {
    fn default() -> (r: Property)
        ensures
            r@ == blank_property(DataType::String),
    {
        default_additional_properties(DataType::String)
    }
}

impl Default for IndexProperties {
    fn default() -> (r: IndexProperties)
        ensures
            r@ == (Seq::<char>::empty(), "asc"@),
    {
        IndexProperties(String::new(), "asc".to_string())
    }
}

impl Default for Index {
    fn default() -> (r: Index)
        ensures
            r@ == (IndexV { name: Seq::empty(), properties: Seq::empty(), unique: false }),
    {
        let r = Index { name: String::new(), properties: Vec::new(), unique: false };
        assert(r@.properties =~= Seq::empty());
        r
    }
}

impl Default for DocumentType {
    fn default() -> (r: DocumentType)
        ensures
            r@ == (DocumentTypeV {
                name: Seq::empty(),
                properties: Seq::empty(),
                indices: Seq::empty(),
                required: Seq::empty(),
                additional_properties: false,
                comment: Seq::empty(),
            }),
    {
        let r = DocumentType {
            name: String::new(),
            properties: Vec::new(),
            indices: Vec::new(),
            required: Vec::new(),
            additional_properties: false,
            comment: String::new(),
        };
        assert(r@.properties =~= Seq::empty());
        assert(r@.indices =~= Seq::empty());
        assert(r@.required =~= Seq::empty());
        r
    }
}

/// A property of the given type whose constraint fields are all unset: what a
/// property becomes when its type is switched.
pub fn default_additional_properties(data_type: DataType) -> (r: Property)
    ensures
        r@ == blank_property(data_type),
{
    Property {
        name: String::new(),
        data_type,
        required: false,
        description: None,
        comment: None,
        min_length: None,
        max_length: None,
        pattern: None,
        format: None,
        minimum: None,
        maximum: None,
        byte_array: None,
        min_items: None,
        max_items: None,
        properties: None,
        min_properties: None,
        max_properties: None,
        rec_required: None,
        additional_properties: None,
    }
}

/// The position of the first occurrence of `x`, or -1 where there is none.
pub open spec fn first_index(s: Seq<Seq<char>>, x: Seq<char>) -> int
    decreases s.len(),
{
    if s.len() == 0 {
        -1
    } else if s[0] == x {
        0
    } else {
        let k = first_index(s.drop_first(), x);
        if k < 0 {
            -1
        } else {
            k + 1
        }
    }
}

/// A list without the first occurrence of `x`.
pub open spec fn remove_first(s: Seq<Seq<char>>, x: Seq<char>) -> Seq<Seq<char>> {
    let i = first_index(s, x);
    if i < 0 {
        s
    } else {
        s.remove(i)
    }
}

pub proof fn lemma_first_index(s: Seq<Seq<char>>, x: Seq<char>, i: int)
    requires
        0 <= i <= s.len(),
        forall|j: int| 0 <= j < i ==> s[j] != x,
    ensures
        i < s.len() && s[i] == x ==> first_index(s, x) == i,
        i == s.len() ==> first_index(s, x) == -1,
    decreases i,
{
    if i > 0 && s.len() > 0 {
        let t = s.drop_first();
        assert forall|j: int| 0 <= j < i - 1 implies t[j] != x by {
            assert(t[j] == s[j + 1]);
        }
        lemma_first_index(t, x, i - 1);
    }
}

/// The position of the first occurrence of `x` in `v`.
pub fn position_of(v: &Vec<String>, x: &String) -> (r: Option<usize>)
    ensures
        match r {
            Some(j) => j < v.len() && j == first_index(strings_view(v@), x@),
            None => first_index(strings_view(v@), x@) == -1,
        },
{
    let ghost s = strings_view(v@);
    let mut j: usize = 0;
    while j < v.len()
        invariant
            j <= v.len(),
            s == strings_view(v@),
            forall|k: int| 0 <= k < j ==> s[k] != x@,
        decreases v.len() - j,
    {
        if v[j] == *x {
            proof {
                lemma_first_index(s, x@, j as int);
            }
            return Some(j);
        }
        j = j + 1;
    }
    proof {
        lemma_first_index(s, x@, j as int);
    }
    None
}

impl DocumentType {
    /// A new unnamed document type holding one default property.
    pub fn with_default_property() -> (r: DocumentType)
        ensures
            r@ == (DocumentTypeV {
                name: Seq::empty(),
                properties: seq![blank_property(DataType::String)],
                indices: Seq::empty(),
                required: Seq::empty(),
                additional_properties: false,
                comment: Seq::empty(),
            }),
    {
        let mut d = DocumentType::default();
        d.add_property();
        assert(d@.properties =~= seq![blank_property(DataType::String)]);
        d
    }

    /// Appends a default property.
    pub fn add_property(&mut self)
        ensures
            final(self)@ == (DocumentTypeV {
                properties: old(self)@.properties.push(blank_property(DataType::String)),
                ..old(self)@
            }),
    {
        let p = Property::default();
        self.properties.push(p);
        assert(props_view(self.properties@) =~= props_view(old(self).properties@).push(p@));
    }

    /// Removes the property at `i`, and the first occurrence of its name from
    /// the required list.
    pub fn remove_property(&mut self, i: usize)
        requires
            i < old(self).properties.len(),
        ensures
            final(self)@ == (DocumentTypeV {
                properties: old(self)@.properties.remove(i as int),
                required: remove_first(old(self)@.required, old(self)@.properties[i as int].name),
                ..old(self)@
            }),
    {
        let name = self.properties[i].name.clone();
        let ghost req = strings_view(self.required@);
        if let Some(j) = position_of(&self.required, &name) {
            self.required.remove(j);
            assert(strings_view(self.required@) =~= req.remove(j as int));
        }
        let ghost pv = props_view(self.properties@);
        self.properties.remove(i);
        assert(props_view(self.properties@) =~= pv.remove(i as int));
    }

    /// Appends an unnamed, non-unique index with one default pair.
    pub fn add_index(&mut self)
        ensures
            final(self)@ == (DocumentTypeV {
                indices: old(self)@.indices.push(
                    IndexV { name: Seq::empty(), properties: seq![(Seq::empty(), "asc"@)], unique: false },
                ),
                ..old(self)@
            }),
    {
        let mut ix = Index::default();
        ix.properties.push(IndexProperties::default());
        assert(ix@.properties =~= seq![(Seq::<char>::empty(), "asc"@)]);
        let ghost iv = ix@;
        self.indices.push(ix);
        assert(self@.indices =~= old(self)@.indices.push(iv));
    }
}

/// The property that is added to an object's nested list: a blank string
/// property with an empty required list of its own.
pub open spec fn blank_nested_property() -> PropertyV {
    PropertyV { rec_required: Some(Seq::empty()), ..blank_property(DataType::String) }
}

impl Property {
    /// Appends a blank nested property, creating the nested list where there
    /// is none.
    pub fn add_nested_property(&mut self)
        ensures
            final(self)@ == (PropertyV {
                properties: Some(
                    match old(self)@.properties {
                        Some(c) => c,
                        None => Seq::empty(),
                    }.push(blank_nested_property()),
                ),
                ..old(self)@
            }),
    {
        proof {
            lemma_nested_view(*self);
        }
        let mut q = default_additional_properties(DataType::String);
        q.rec_required = Some(Vec::new());
        assert(q@ == blank_nested_property()) by {
            assert(strings_view(Seq::<String>::empty()) =~= Seq::empty());
        }
        let mut kids = match self.properties.take() {
            Some(v) => v,
            None => Vec::new(),
        };
        let ghost k0 = props_view(kids@);
        kids.push(q);
        assert(props_view(kids@) =~= k0.push(q@));
        self.properties = Some(kids);
        proof {
            lemma_nested_view(*self);
            if old(self).properties is None {
                assert(k0 =~= Seq::empty());
            }
        }
    }

    /// Removes the nested property at `i`, where there is a nested list.
    pub fn remove_nested_property(&mut self, i: usize)
        requires
            old(self).properties is Some ==> i < old(self).properties->Some_0.len(),
        ensures
            final(self)@ == (PropertyV {
                properties: match old(self)@.properties {
                    Some(c) => Some(c.remove(i as int)),
                    None => None,
                },
                ..old(self)@
            }),
    {
        proof {
            lemma_nested_view(*self);
        }
        if let Some(mut kids) = self.properties.take() {
            let ghost k0 = props_view(kids@);
            kids.remove(i);
            assert(props_view(kids@) =~= k0.remove(i as int));
            self.properties = Some(kids);
        }
        proof {
            lemma_nested_view(*self);
        }
    }

    /// Switches the data type and unsets every scalar constraint field. Where
    /// the new type is not an object, the nested list and its required list go
    /// too, so that no constraint group of another type survives.
    pub fn set_data_type(&mut self, data_type: DataType)
        ensures
            final(self)@ == (PropertyV {
                data_type,
                min_length: None,
                max_length: None,
                pattern: None,
                format: None,
                minimum: None,
                maximum: None,
                byte_array: None,
                min_items: None,
                max_items: None,
                min_properties: None,
                max_properties: None,
                properties: if data_type == DataType::Object {
                    old(self)@.properties
                } else {
                    None
                },
                rec_required: if data_type == DataType::Object {
                    old(self)@.rec_required
                } else {
                    None
                },
                ..old(self)@
            }),
    {
        let fresh = default_additional_properties(data_type);
        self.data_type = fresh.data_type;
        self.min_length = fresh.min_length;
        self.max_length = fresh.max_length;
        self.pattern = fresh.pattern;
        self.format = fresh.format;
        self.minimum = fresh.minimum;
        self.maximum = fresh.maximum;
        self.byte_array = fresh.byte_array;
        self.min_items = fresh.min_items;
        self.max_items = fresh.max_items;
        self.min_properties = fresh.min_properties;
        self.max_properties = fresh.max_properties;
        if data_type != DataType::Object {
            self.properties = None;
            self.rec_required = None;
        }
        proof {
            lemma_nested_view(*self);
            lemma_nested_view(*old(self));
        }
    }
}

} // verus!
