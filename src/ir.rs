use vstd::prelude::*;
use crate::grammar::ident_char;

verus! {

/// The element type of a field: a primitive kind or a reference by name to
/// another declaration of the schema.
#[derive(Debug)]
pub enum ValueType {
    Bool,
    Byte,
    Ubyte,
    Short,
    Ushort,
    Int,
    Uint,
    Float,
    Long,
    Ulong,
    Double,
    Int8,
    Uint8,
    Int16,
    Uint16,
    Int32,
    Uint32,
    Int64,
    Uint64,
    Float32,
    Float64,
    String,
    CompoundType(String),
}

/// A field type: a value type, either alone or as a single-level array.
#[derive(Debug)]
pub struct Type {
    pub value_type: ValueType,
    pub is_array: bool,
}

/// One field of a table or a struct.
#[derive(Debug)]
pub struct FieldDeclaration {
    pub name: String,
    pub field_type: Type,
}

/// A table: its fields, kept in the order in which they were declared.
#[derive(Debug)]
pub struct TableDeclaration {
    pub name: String,
    pub fields: Vec<FieldDeclaration>,
}

/// A struct: its fields, kept in the order in which they were declared.
#[derive(Debug)]
pub struct StructDeclaration {
    pub name: String,
    pub fields: Vec<FieldDeclaration>,
}

/// An enum with its underlying scalar type and its distinct variant names.
#[derive(Debug)]
pub struct EnumDeclaration {
    pub name: String,
    pub type_def: Type,
    pub items: Vec<String>,
}

/// A union with its distinct member names.
#[derive(Debug)]
pub struct UnionDeclaration {
    pub name: String,
    pub items: Vec<String>,
}

/// An RPC method: its name, and the names of its input and output tables.
#[derive(Debug)]
pub struct RpcMethod {
    pub name: String,
    pub input: String,
    pub output: String,
}

/// An RPC service with its methods, distinct by name.
#[derive(Debug)]
pub struct RpcDeclaration {
    pub name: String,
    pub methods: Vec<RpcMethod>,
}

/// The names of a sequence of strings, as character sequences.
pub open spec fn names_of(s: Seq<String>) -> Seq<Seq<char>> {
    s.map_values(|x: String| x@)
}

pub open spec fn field_names(fields: Seq<FieldDeclaration>) -> Seq<Seq<char>> {
    fields.map_values(|f: FieldDeclaration| f.name@)
}

pub open spec fn distinct(s: Seq<Seq<char>>) -> bool {
    forall|i: int, j: int|
        #![trigger s[i], s[j]]
        0 <= i < s.len() && 0 <= j < s.len() && s[i] == s[j] ==> i == j
}

/// The position of a field called `name`, if there is one.
pub open spec fn field_position(fields: Seq<FieldDeclaration>, name: Seq<char>) -> int {
    choose|i: int| 0 <= i < fields.len() && fields[i].name@ == name
}

/// The type of the field called `name`, if there is one.
pub open spec fn field_type_of(fields: Seq<FieldDeclaration>, name: Seq<char>) -> Option<Type> {
    if exists|i: int| 0 <= i < fields.len() && fields[i].name@ == name {
        Some(fields[field_position(fields, name)].field_type)
    } else {
        None
    }
}

/// Whether some string of `s` has the view `x`.
pub fn contains_name(s: &Vec<String>, x: &String) -> (r: bool)
    ensures
        r == names_of(s@).contains(x@),
{
    let mut i: usize = 0;
    while i < s.len()
        invariant
            i <= s.len(),
            forall|j: int| 0 <= j < i ==> s@[j]@ != x@,
        decreases s.len() - i,
    {
        if s[i] == *x {
            assert(names_of(s@)[i as int] == x@);
            return true;
        }
        i = i + 1;
    }
    assert(!names_of(s@).contains(x@)) by {
        if names_of(s@).contains(x@) {
            let k = choose|k: int| 0 <= k < names_of(s@).len() && names_of(s@)[k] == x@;
            assert(s@[k]@ == x@);
        }
    }
    false
}

/// Index of the field called `name`, if there is one.
fn field_index(fields: &Vec<FieldDeclaration>, name: &String) -> (r: Option<usize>)
    ensures
        match r {
            Some(i) => i < fields@.len() && fields@[i as int].name@ == name@,
            None => forall|i: int| 0 <= i < fields@.len() ==> fields@[i].name@ != name@,
        },
{
    let mut i: usize = 0;
    while i < fields.len()
        invariant
            i <= fields.len(),
            forall|j: int| 0 <= j < i ==> fields@[j].name@ != name@,
        decreases fields.len() - i,
    {
        if fields[i].name == *name {
            return Some(i);
        }
        i = i + 1;
    }
    None
}

/// Whether a field of `fields` is called `name`.
pub fn fields_contain(fields: &Vec<FieldDeclaration>, name: &String) -> (r: bool)
    ensures
        r == field_names(fields@).contains(name@),
{
    let r = field_index(fields, name).is_some();
    proof {
        if r {
            let i = choose|i: int| 0 <= i < fields@.len() && fields@[i].name@ == name@;
            assert(field_names(fields@)[i] == name@);
        } else if field_names(fields@).contains(name@) {
            let k = choose|k: int| 0 <= k < fields@.len() && field_names(fields@)[k] == name@;
            assert(fields@[k].name@ == name@);
        }
    }
    r
}

/// The names of the fields in declaration order.
fn names_in_order(fields: &Vec<FieldDeclaration>) -> (r: Vec<String>)
    ensures
        names_of(r@) == field_names(fields@),
{
    let mut r: Vec<String> = Vec::new();
    let mut i: usize = 0;
    while i < fields.len()
        invariant
            i <= fields.len(),
            names_of(r@) =~= field_names(fields@.take(i as int)),
        decreases fields.len() - i,
    {
        let ghost before = r@;
        r.push(fields[i].name.clone());
        assert(r@ =~= before.push(fields@[i as int].name));
        assert(names_of(r@) =~= names_of(before).push(fields@[i as int].name@));
        assert(fields@.take(i + 1) =~= fields@.take(i as int).push(fields@[i as int]));
        i = i + 1;
        assert(names_of(r@) =~= field_names(fields@.take(i as int)));
    }
    assert(fields@.take(i as int) =~= fields@);
    r
}

/// The type of the field `name`, using that field names are distinct.
fn lookup_field<'a>(fields: &'a Vec<FieldDeclaration>, name: &str) -> (r: Option<&'a Type>)
    requires
        distinct(field_names(fields@)),
    ensures
        match r {
            Some(t) => field_type_of(fields@, name@) == Some(*t),
            None => field_type_of(fields@, name@) is None,
        },
{
    let key = name.to_owned();
    match field_index(fields, &key) {
        Some(i) => {
            let ghost k = field_position(fields@, name@);
            assert(field_names(fields@)[k] == field_names(fields@)[i as int]);
            Some(&fields[i].field_type)
        },
        None => None,
    }
}

/// No two methods share a name.
pub open spec fn methods_distinct(ms: Seq<RpcMethod>) -> bool {
    forall|i: int, j: int|
        0 <= i < ms.len() && 0 <= j < ms.len() && ms[i].name@ == ms[j].name@ ==> i == j
}

/// Every character is a letter, a digit or `_`: the text of an identifier.
pub open spec fn is_identifier(s: Seq<char>) -> bool {
    forall|i: int| 0 <= i < s.len() ==> ident_char(#[trigger] s[i])
}

/// A type that refers to a declaration refers to it by an identifier.
pub open spec fn type_named_ok(t: Type) -> bool {
    match t.value_type {
        ValueType::CompoundType(n) => is_identifier(n@),
        _ => true,
    }
}

/// Field names and the names their types refer to are identifiers.
pub open spec fn fields_named_ok(fs: Seq<FieldDeclaration>) -> bool {
    forall|i: int|
        0 <= i < fs.len() ==> is_identifier(#[trigger] fs[i].name@) && type_named_ok(fs[i].field_type)
}

/// Every name in the sequence is an identifier.
pub open spec fn all_identifiers(s: Seq<String>) -> bool {
    forall|i: int| 0 <= i < s.len() ==> is_identifier(#[trigger] s[i]@)
}

/// The method's name, input and output are identifiers.
pub open spec fn method_named_ok(m: RpcMethod) -> bool {
    is_identifier(m.name@) && is_identifier(m.input@) && is_identifier(m.output@)
}

impl TableDeclaration {
    /// Its own name, its field names and the names its field types refer to
    /// are identifiers.
    pub open spec fn names_ok(&self) -> bool {
        is_identifier(self.name@) && fields_named_ok(self.fields@)
    }

    /// Field names distinct.
    pub open spec fn wf(&self) -> bool {
        distinct(field_names(self.fields@))
    }

    /// The field names, in the order in which they were declared.
    pub fn fields_order(&self) -> (r: Vec<String>)
        ensures
            names_of(r@) == field_names(self.fields@),
    {
        names_in_order(&self.fields)
    }

    /// The type of the field called `name`.
    pub fn field_type(&self, name: &str) -> (r: Option<&Type>)
        requires
            self.wf(),
        ensures
            match r {
                Some(t) => field_type_of(self.fields@, name@) == Some(*t),
                None => field_type_of(self.fields@, name@) is None,
            },
    {
        lookup_field(&self.fields, name)
    }

    /// Whether a field called `name` is declared.
    pub fn has_field(&self, name: &String) -> (r: bool)
        ensures
            r == field_names(self.fields@).contains(name@),
    {
        fields_contain(&self.fields, name)
    }
}

impl StructDeclaration {
    /// Its own name, its field names and the names its field types refer to
    /// are identifiers.
    pub open spec fn names_ok(&self) -> bool {
        is_identifier(self.name@) && fields_named_ok(self.fields@)
    }

    /// Field names distinct.
    pub open spec fn wf(&self) -> bool {
        distinct(field_names(self.fields@))
    }

    /// The field names, in the order in which they were declared.
    pub fn fields_order(&self) -> (r: Vec<String>)
        ensures
            names_of(r@) == field_names(self.fields@),
    {
        names_in_order(&self.fields)
    }

    /// The type of the field called `name`.
    pub fn field_type(&self, name: &str) -> (r: Option<&Type>)
        requires
            self.wf(),
        ensures
            match r {
                Some(t) => field_type_of(self.fields@, name@) == Some(*t),
                None => field_type_of(self.fields@, name@) is None,
            },
    {
        lookup_field(&self.fields, name)
    }
}

impl EnumDeclaration {
    /// Its name, its variants and the name its type refers to are identifiers.
    pub open spec fn names_ok(&self) -> bool {
        is_identifier(self.name@) && type_named_ok(self.type_def) && all_identifiers(self.items@)
    }

    /// Variant names distinct.
    pub open spec fn wf(&self) -> bool {
        distinct(names_of(self.items@))
    }
}

impl UnionDeclaration {
    /// Its name and its members are identifiers.
    pub open spec fn names_ok(&self) -> bool {
        is_identifier(self.name@) && all_identifiers(self.items@)
    }

    /// Member names distinct.
    pub open spec fn wf(&self) -> bool {
        distinct(names_of(self.items@))
    }
}

impl RpcDeclaration {
    /// Its name and the names, inputs and outputs of its methods are identifiers.
    pub open spec fn names_ok(&self) -> bool {
        is_identifier(self.name@) && forall|i: int|
            0 <= i < self.methods@.len() ==> method_named_ok(#[trigger] self.methods@[i])
    }

    /// Method names distinct.
    pub open spec fn wf(&self) -> bool {
        methods_distinct(self.methods@)
    }
}

} // verus!
