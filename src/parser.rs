use vstd::prelude::*;
use crate::grammar::{
    idents_ok,
    comment_end, error_view, expect_ident_spec, expect_symbol_spec, field_spec_names, fields_match,
    fields_spec, ident_char, ident_start, lemma_comment_end, lex_from,
    method_view, methods_spec, methods_view, names_spec, prepend, symbol_at, symbol_char,
    type_matches, type_spec, unexpected_at, word_end, ErrorSpec, FieldSpec, MethodSpec, TokenSpec,
    empty_schema, enum_matches, insert_record, is_keyword, parse_spec, rpc_matches,
    schema_matches, spec_kind, statements_spec, struct_matches, table_matches, union_matches,
    EnumSpec, RecordSpec, RpcSpec, SchemaSpec, UnionSpec, first_error, field_error_fn,
    lemma_first_error_step, lemma_first_error_prefix, table_ref_error, member_error_fn,
    method_error_fn, record_error_fn, union_error_fn, rpc_error_fn, reference_error,
};
use crate::ir::{
    distinct, field_names, field_type_of, methods_distinct, names_of, EnumDeclaration, FieldDeclaration,
    RpcDeclaration, RpcMethod, StructDeclaration, TableDeclaration, Type, UnionDeclaration,
    ValueType,
};

verus! {

/// The schema: the root table's name and every declaration, each kind in the
/// order of first declaration.
#[derive(Debug)]
pub struct Statements {
    pub root_type_name: Option<String>,
    pub table_declaration: Vec<TableDeclaration>,
    pub struct_declaration: Vec<StructDeclaration>,
    pub unions: Vec<UnionDeclaration>,
    pub rpc_declarations: Vec<RpcDeclaration>,
    pub enum_declarations: Vec<EnumDeclaration>,
}

/// What a name refers to.
pub enum DeclType<'a> {
    Table(&'a TableDeclaration),
    Struct(&'a StructDeclaration),
    Enum(&'a EnumDeclaration),
    Union(&'a UnionDeclaration),
    Rpc(&'a RpcDeclaration),
    Null,
}

/// The kind of declaration a name refers to, without the declaration.
#[derive(Debug, Clone, Copy, PartialEq, Eq)]
pub enum DeclKind {
    Table,
    Struct,
    Enum,
    Union,
    Rpc,
    Unresolved,
}

impl<'a> DeclType<'a> {
    pub open spec fn kind(&self) -> DeclKind {
        match self {
            DeclType::Table(_) => DeclKind::Table,
            DeclType::Struct(_) => DeclKind::Struct,
            DeclType::Enum(_) => DeclKind::Enum,
            DeclType::Union(_) => DeclKind::Union,
            DeclType::Rpc(_) => DeclKind::Rpc,
            DeclType::Null => DeclKind::Unresolved,
        }
    }
}

/// Whether a field type refers to a declaration that a field may hold.
pub open spec fn field_ref_ok(st: Statements, t: Type) -> bool {
    match t.value_type {
        ValueType::CompoundType(n) => {
            let k = st.kind_of(n@);
            k == DeclKind::Table || k == DeclKind::Struct || k == DeclKind::Enum || k
                == DeclKind::Union
        },
        _ => true,
    }
}

pub open spec fn fields_refs_ok(st: Statements, fields: Seq<FieldDeclaration>) -> bool {
    forall|i: int| 0 <= i < fields.len() ==> field_ref_ok(st, #[trigger] fields[i].field_type)
}

pub open spec fn table_names_of(s: Seq<TableDeclaration>) -> Seq<Seq<char>> {
    s.map_values(|d: TableDeclaration| d.name@)
}

pub open spec fn struct_names_of(s: Seq<StructDeclaration>) -> Seq<Seq<char>> {
    s.map_values(|d: StructDeclaration| d.name@)
}

pub open spec fn enum_names_of(s: Seq<EnumDeclaration>) -> Seq<Seq<char>> {
    s.map_values(|d: EnumDeclaration| d.name@)
}

pub open spec fn union_names_of(s: Seq<UnionDeclaration>) -> Seq<Seq<char>> {
    s.map_values(|d: UnionDeclaration| d.name@)
}

pub open spec fn rpc_names_of(s: Seq<RpcDeclaration>) -> Seq<Seq<char>> {
    s.map_values(|d: RpcDeclaration| d.name@)
}

impl Statements {
    pub open spec fn table_names(self) -> Seq<Seq<char>> {
        table_names_of(self.table_declaration@)
    }

    pub open spec fn struct_names(self) -> Seq<Seq<char>> {
        struct_names_of(self.struct_declaration@)
    }

    pub open spec fn enum_names(self) -> Seq<Seq<char>> {
        enum_names_of(self.enum_declarations@)
    }

    pub open spec fn union_names(self) -> Seq<Seq<char>> {
        union_names_of(self.unions@)
    }

    pub open spec fn rpc_names(self) -> Seq<Seq<char>> {
        rpc_names_of(self.rpc_declarations@)
    }

    /// The table declared under `name`, if any.
    pub open spec fn table_of(self, name: Seq<char>) -> Option<TableDeclaration> {
        if exists|i: int| 0 <= i < self.table_declaration@.len() && self.table_declaration@[i].name@ == name {
            Some(self.table_declaration@[self.table_index(name)])
        } else {
            None
        }
    }

    pub open spec fn table_index(self, name: Seq<char>) -> int {
        choose|i: int| 0 <= i < self.table_declaration@.len() && self.table_declaration@[i].name@ == name
    }

    /// The struct declared under `name`, if any.
    pub open spec fn struct_of(self, name: Seq<char>) -> Option<StructDeclaration> {
        if exists|i: int| 0 <= i < self.struct_declaration@.len() && self.struct_declaration@[i].name@ == name {
            Some(self.struct_declaration@[self.struct_index(name)])
        } else {
            None
        }
    }

    pub open spec fn struct_index(self, name: Seq<char>) -> int {
        choose|i: int| 0 <= i < self.struct_declaration@.len() && self.struct_declaration@[i].name@ == name
    }

    /// The enum declared under `name`, if any.
    pub open spec fn enum_of(self, name: Seq<char>) -> Option<EnumDeclaration> {
        if exists|i: int| 0 <= i < self.enum_declarations@.len() && self.enum_declarations@[i].name@ == name {
            Some(self.enum_declarations@[self.enum_index(name)])
        } else {
            None
        }
    }

    pub open spec fn enum_index(self, name: Seq<char>) -> int {
        choose|i: int| 0 <= i < self.enum_declarations@.len() && self.enum_declarations@[i].name@ == name
    }

    /// The union declared under `name`, if any.
    pub open spec fn union_of(self, name: Seq<char>) -> Option<UnionDeclaration> {
        if exists|i: int| 0 <= i < self.unions@.len() && self.unions@[i].name@ == name {
            Some(self.unions@[self.union_index(name)])
        } else {
            None
        }
    }

    pub open spec fn union_index(self, name: Seq<char>) -> int {
        choose|i: int| 0 <= i < self.unions@.len() && self.unions@[i].name@ == name
    }

    /// The rpc declared under `name`, if any.
    pub open spec fn rpc_of(self, name: Seq<char>) -> Option<RpcDeclaration> {
        if exists|i: int| 0 <= i < self.rpc_declarations@.len() && self.rpc_declarations@[i].name@ == name {
            Some(self.rpc_declarations@[self.rpc_index(name)])
        } else {
            None
        }
    }

    pub open spec fn rpc_index(self, name: Seq<char>) -> int {
        choose|i: int| 0 <= i < self.rpc_declarations@.len() && self.rpc_declarations@[i].name@ == name
    }

    /// The table declared under `name`, if any.
    pub fn find_table(&self, name: &String) -> (r: Option<&TableDeclaration>)
        requires
            distinct(self.table_names()),
        ensures
            match r {
                Some(d) => self.table_of(name@) == Some(*d),
                None => self.table_of(name@) is None,
            },
    {
        let mut i: usize = 0;
        while i < self.table_declaration.len()
            invariant
                i <= self.table_declaration.len(),
                forall|j: int| 0 <= j < i ==> self.table_declaration@[j].name@ != name@,
                distinct(self.table_names()),
            decreases self.table_declaration.len() - i,
        {
            if self.table_declaration[i].name == *name {
                assert(self.table_declaration@[i as int].name@ == name@);
                let ghost k = self.table_index(name@);
                assert(self.table_names()[k] == self.table_names()[i as int]);
                return Some(&self.table_declaration[i]);
            }
            i = i + 1;
        }
        None
    }

    /// The struct declared under `name`, if any.
    pub fn find_struct(&self, name: &String) -> (r: Option<&StructDeclaration>)
        requires
            distinct(self.struct_names()),
        ensures
            match r {
                Some(d) => self.struct_of(name@) == Some(*d),
                None => self.struct_of(name@) is None,
            },
    {
        let mut i: usize = 0;
        while i < self.struct_declaration.len()
            invariant
                i <= self.struct_declaration.len(),
                forall|j: int| 0 <= j < i ==> self.struct_declaration@[j].name@ != name@,
                distinct(self.struct_names()),
            decreases self.struct_declaration.len() - i,
        {
            if self.struct_declaration[i].name == *name {
                assert(self.struct_declaration@[i as int].name@ == name@);
                let ghost k = self.struct_index(name@);
                assert(self.struct_names()[k] == self.struct_names()[i as int]);
                return Some(&self.struct_declaration[i]);
            }
            i = i + 1;
        }
        None
    }

    /// The enum declared under `name`, if any.
    pub fn find_enum(&self, name: &String) -> (r: Option<&EnumDeclaration>)
        requires
            distinct(self.enum_names()),
        ensures
            match r {
                Some(d) => self.enum_of(name@) == Some(*d),
                None => self.enum_of(name@) is None,
            },
    {
        let mut i: usize = 0;
        while i < self.enum_declarations.len()
            invariant
                i <= self.enum_declarations.len(),
                forall|j: int| 0 <= j < i ==> self.enum_declarations@[j].name@ != name@,
                distinct(self.enum_names()),
            decreases self.enum_declarations.len() - i,
        {
            if self.enum_declarations[i].name == *name {
                assert(self.enum_declarations@[i as int].name@ == name@);
                let ghost k = self.enum_index(name@);
                assert(self.enum_names()[k] == self.enum_names()[i as int]);
                return Some(&self.enum_declarations[i]);
            }
            i = i + 1;
        }
        None
    }

    /// The union declared under `name`, if any.
    pub fn find_union(&self, name: &String) -> (r: Option<&UnionDeclaration>)
        requires
            distinct(self.union_names()),
        ensures
            match r {
                Some(d) => self.union_of(name@) == Some(*d),
                None => self.union_of(name@) is None,
            },
    {
        let mut i: usize = 0;
        while i < self.unions.len()
            invariant
                i <= self.unions.len(),
                forall|j: int| 0 <= j < i ==> self.unions@[j].name@ != name@,
                distinct(self.union_names()),
            decreases self.unions.len() - i,
        {
            if self.unions[i].name == *name {
                assert(self.unions@[i as int].name@ == name@);
                let ghost k = self.union_index(name@);
                assert(self.union_names()[k] == self.union_names()[i as int]);
                return Some(&self.unions[i]);
            }
            i = i + 1;
        }
        None
    }

    /// The rpc declared under `name`, if any.
    pub fn find_rpc(&self, name: &String) -> (r: Option<&RpcDeclaration>)
        requires
            distinct(self.rpc_names()),
        ensures
            match r {
                Some(d) => self.rpc_of(name@) == Some(*d),
                None => self.rpc_of(name@) is None,
            },
    {
        let mut i: usize = 0;
        while i < self.rpc_declarations.len()
            invariant
                i <= self.rpc_declarations.len(),
                forall|j: int| 0 <= j < i ==> self.rpc_declarations@[j].name@ != name@,
                distinct(self.rpc_names()),
            decreases self.rpc_declarations.len() - i,
        {
            if self.rpc_declarations[i].name == *name {
                assert(self.rpc_declarations@[i as int].name@ == name@);
                let ghost k = self.rpc_index(name@);
                assert(self.rpc_names()[k] == self.rpc_names()[i as int]);
                return Some(&self.rpc_declarations[i]);
            }
            i = i + 1;
        }
        None
    }

    /// Names distinct within each kind of declaration, and each declaration
    /// well formed.
    pub open spec fn wf(self) -> bool {
        &&& distinct(self.table_names())
        &&& distinct(self.struct_names())
        &&& distinct(self.enum_names())
        &&& distinct(self.union_names())
        &&& distinct(self.rpc_names())
        &&& forall|i: int| 0 <= i < self.table_declaration@.len() ==> #[trigger] self.table_declaration@[i].wf()
        &&& forall|i: int| 0 <= i < self.struct_declaration@.len() ==> #[trigger] self.struct_declaration@[i].wf()
        &&& forall|i: int| 0 <= i < self.enum_declarations@.len() ==> #[trigger] self.enum_declarations@[i].wf()
        &&& forall|i: int| 0 <= i < self.unions@.len() ==> #[trigger] self.unions@[i].wf()
        &&& forall|i: int| 0 <= i < self.rpc_declarations@.len() ==> #[trigger] self.rpc_declarations@[i].wf()
    }

    /// Every member of the union names a table.
    pub open spec fn union_refs_ok(self, u: UnionDeclaration) -> bool {
        forall|j: int| 0 <= j < u.items@.len() ==> self.kind_of(#[trigger] u.items@[j]@) == DeclKind::Table
    }

    /// Every input and output of the service's methods names a table.
    pub open spec fn rpc_refs_ok(self, r: RpcDeclaration) -> bool {
        forall|j: int|
            0 <= j < r.methods@.len() ==> self.kind_of(#[trigger] r.methods@[j].input@) == DeclKind::Table
                && self.kind_of(r.methods@[j].output@) == DeclKind::Table
    }

    /// Every name that a field, a union member or an RPC method refers to is
    /// declared, and with a kind that it may have there.
    pub open spec fn refs_resolved(self) -> bool {
        &&& forall|i: int| 0 <= i < self.table_declaration@.len()
            ==> fields_refs_ok(self, #[trigger] self.table_declaration@[i].fields@)
        &&& forall|i: int| 0 <= i < self.struct_declaration@.len()
            ==> fields_refs_ok(self, #[trigger] self.struct_declaration@[i].fields@)
        &&& forall|i: int| 0 <= i < self.unions@.len() ==> self.union_refs_ok(#[trigger] self.unions@[i])
        &&& forall|i: int| 0 <= i < self.rpc_declarations@.len()
            ==> self.rpc_refs_ok(#[trigger] self.rpc_declarations@[i])
    }

    /// The root name and every declared or referenced name is an identifier.
    pub open spec fn names_ok(self) -> bool {
        &&& match self.root_type_name {
            Some(r) => crate::ir::is_identifier(r@),
            None => true,
        }
        &&& forall|i: int| 0 <= i < self.table_declaration@.len() ==> #[trigger] self.table_declaration@[i].names_ok()
        &&& forall|i: int| 0 <= i < self.struct_declaration@.len() ==> #[trigger] self.struct_declaration@[i].names_ok()
        &&& forall|i: int| 0 <= i < self.enum_declarations@.len() ==> #[trigger] self.enum_declarations@[i].names_ok()
        &&& forall|i: int| 0 <= i < self.unions@.len() ==> #[trigger] self.unions@[i].names_ok()
        &&& forall|i: int| 0 <= i < self.rpc_declarations@.len() ==> #[trigger] self.rpc_declarations@[i].names_ok()
    }

    /// Kind of `name`, looked up among tables, structs, enums, unions and RPC
    /// services in that order.
    pub open spec fn kind_of(self, name: Seq<char>) -> DeclKind {
        if self.table_of(name) is Some {
            DeclKind::Table
        } else if self.struct_of(name) is Some {
            DeclKind::Struct
        } else if self.enum_of(name) is Some {
            DeclKind::Enum
        } else if self.union_of(name) is Some {
            DeclKind::Union
        } else if self.rpc_of(name) is Some {
            DeclKind::Rpc
        } else {
            DeclKind::Unresolved
        }
    }

    /// The root dispatch union: the union that the root table's `payload`
    /// field refers to.
    pub open spec fn commands_union(self) -> Option<UnionDeclaration> {
        match self.root_type_name {
            Some(root) => match self.table_of(root@) {
                Some(t) => match field_type_of(t.fields@, "payload"@) {
                    Some(ty) => match ty.value_type {
                        ValueType::CompoundType(u) => if ty.is_array {
                            None
                        } else {
                            self.union_of(u@)
                        },
                        _ => None,
                    },
                    None => None,
                },
                None => None,
            },
            None => None,
        }
    }

    /// Whether `name` is a member of the root dispatch union.
    pub open spec fn in_commands_union(self, name: Seq<char>) -> bool {
        match self.commands_union() {
            Some(u) => names_of(u.items@).contains(name),
            None => false,
        }
    }

    /// The root dispatch union, if the root table's `payload` field refers
    /// to a union.
    pub fn get_available_commands_union(&self) -> (r: Option<&UnionDeclaration>)
        requires
            self.wf(),
        ensures
            match r {
                Some(u) => self.commands_union() == Some(*u),
                None => self.commands_union() is None,
            },
    {
        let root = match &self.root_type_name {
            Some(root) => root,
            None => return None,
        };
        let table = match self.find_table(root) {
            Some(t) => t,
            None => return None,
        };
        proof {
            assert(self.table_declaration@[self.table_index(root@)].wf());
        }
        match table.field_type("payload") {
            Some(ty) => match &ty.value_type {
                ValueType::CompoundType(u) => if ty.is_array {
                    None
                } else {
                    self.find_union(u)
                },
                _ => None,
            },
            None => None,
        }
    }

    /// Classifies `name`, looking among tables, structs, enums, unions and
    /// RPC services in that order; `Null` when it is declared nowhere.
    pub fn resolve_decl_by_name(&self, name: &str) -> (r: DeclType<'_>)
        requires
            self.wf(),
        ensures
            r.kind() == self.kind_of(name@),
            match r {
                DeclType::Table(d) => self.table_of(name@) == Some(*d),
                DeclType::Struct(d) => self.struct_of(name@) == Some(*d),
                DeclType::Enum(d) => self.enum_of(name@) == Some(*d),
                DeclType::Union(d) => self.union_of(name@) == Some(*d),
                DeclType::Rpc(d) => self.rpc_of(name@) == Some(*d),
                DeclType::Null => true,
            },
    {
        let key = name.to_owned();
        if let Some(d) = self.find_table(&key) {
            return DeclType::Table(d);
        }
        if let Some(d) = self.find_struct(&key) {
            return DeclType::Struct(d);
        }
        if let Some(d) = self.find_enum(&key) {
            return DeclType::Enum(d);
        }
        if let Some(d) = self.find_union(&key) {
            return DeclType::Union(d);
        }
        if let Some(d) = self.find_rpc(&key) {
            return DeclType::Rpc(d);
        }
        DeclType::Null
    }

    /// The kind of declaration that `name` refers to.
    pub fn decl_kind(&self, name: &str) -> (r: DeclKind)
        requires
            self.wf(),
        ensures
            r == self.kind_of(name@),
    {
        match self.resolve_decl_by_name(name) {
            DeclType::Table(_) => DeclKind::Table,
            DeclType::Struct(_) => DeclKind::Struct,
            DeclType::Enum(_) => DeclKind::Enum,
            DeclType::Union(_) => DeclKind::Union,
            DeclType::Rpc(_) => DeclKind::Rpc,
            DeclType::Null => DeclKind::Unresolved,
        }
    }
}

/// Why a schema text was refused.
#[derive(Debug, PartialEq, Eq)]
pub enum ParseError {
    /// A character that no token starts with, at this character offset.
    UnexpectedCharacter(usize),
    /// A token that the grammar does not allow here, at this character offset.
    UnexpectedToken(usize),
    /// The text ends inside a declaration.
    UnexpectedEnd,
    /// A table or struct declares this field twice.
    DuplicateField(String),
    /// A second `rpc` service was declared.
    MultipleRpcServices,
    /// A name that no declaration has.
    UnresolvedName(String),
    /// A name declared with a kind that it may not have where it is used.
    InvalidReference(String),
}

/// A token of the schema language, with its character offset.
enum Token {
    Ident(String, usize),
    Symbol(char, usize),
}

/// The primitive kind that a type keyword names, or a reference by name.
pub open spec fn value_type_named(v: ValueType, s: Seq<char>) -> bool {
    if s == "bool"@ {
        v is Bool
    } else if s == "byte"@ {
        v is Byte
    } else if s == "ubyte"@ {
        v is Ubyte
    } else if s == "short"@ {
        v is Short
    } else if s == "ushort"@ {
        v is Ushort
    } else if s == "int"@ {
        v is Int
    } else if s == "uint"@ {
        v is Uint
    } else if s == "float"@ {
        v is Float
    } else if s == "long"@ {
        v is Long
    } else if s == "ulong"@ {
        v is Ulong
    } else if s == "double"@ {
        v is Double
    } else if s == "int8"@ {
        v is Int8
    } else if s == "uint8"@ {
        v is Uint8
    } else if s == "int16"@ {
        v is Int16
    } else if s == "uint16"@ {
        v is Uint16
    } else if s == "int32"@ {
        v is Int32
    } else if s == "uint32"@ {
        v is Uint32
    } else if s == "int64"@ {
        v is Int64
    } else if s == "uint64"@ {
        v is Uint64
    } else if s == "float32"@ {
        v is Float32
    } else if s == "float64"@ {
        v is Float64
    } else if s == "string"@ {
        v is String
    } else {
        v is CompoundType && v->CompoundType_0@ == s
    }
}

/// Whether `s` is the word `w`.
fn is_word(s: &String, w: &str) -> (r: bool)
    ensures
        r == (s@ == w@),
{
    let t = String::from_str(w);
    *s == t
}

impl ValueType {
    /// The value type that a type name in a schema denotes.
    pub fn from_name(name: String) -> (r: ValueType)
        ensures
            value_type_named(r, name@),
    {
        if is_word(&name, "bool") {
            ValueType::Bool
        } else if is_word(&name, "byte") {
            ValueType::Byte
        } else if is_word(&name, "ubyte") {
            ValueType::Ubyte
        } else if is_word(&name, "short") {
            ValueType::Short
        } else if is_word(&name, "ushort") {
            ValueType::Ushort
        } else if is_word(&name, "int") {
            ValueType::Int
        } else if is_word(&name, "uint") {
            ValueType::Uint
        } else if is_word(&name, "float") {
            ValueType::Float
        } else if is_word(&name, "long") {
            ValueType::Long
        } else if is_word(&name, "ulong") {
            ValueType::Ulong
        } else if is_word(&name, "double") {
            ValueType::Double
        } else if is_word(&name, "int8") {
            ValueType::Int8
        } else if is_word(&name, "uint8") {
            ValueType::Uint8
        } else if is_word(&name, "int16") {
            ValueType::Int16
        } else if is_word(&name, "uint16") {
            ValueType::Uint16
        } else if is_word(&name, "int32") {
            ValueType::Int32
        } else if is_word(&name, "uint32") {
            ValueType::Uint32
        } else if is_word(&name, "int64") {
            ValueType::Int64
        } else if is_word(&name, "uint64") {
            ValueType::Uint64
        } else if is_word(&name, "float32") {
            ValueType::Float32
        } else if is_word(&name, "float64") {
            ValueType::Float64
        } else if is_word(&name, "string") {
            ValueType::String
        } else {
            ValueType::CompoundType(name)
        }
    }
}

fn is_ident_start(c: char) -> (r: bool)
    ensures
        r == ident_start(c),
{
    ('a' <= c && c <= 'z') || ('A' <= c && c <= 'Z') || c == '_'
}

fn is_ident_char(c: char) -> (r: bool)
    ensures
        r == ident_char(c),
{
    is_ident_start(c) || ('0' <= c && c <= '9')
}

fn is_symbol(c: char) -> (r: bool)
    ensures
        r == symbol_char(c),
{
    c == '{' || c == '}' || c == ':' || c == ';' || c == ',' || c == '(' || c == ')' || c == '['
        || c == ']'
}

spec fn token_view(t: Token) -> TokenSpec {
    match t {
        Token::Ident(s, p) => TokenSpec::Ident(s@, p as nat),
        Token::Symbol(c, p) => TokenSpec::Symbol(c, p as nat),
    }
}

spec fn tokens_view(ts: Seq<Token>) -> Seq<TokenSpec> {
    ts.map_values(|t: Token| token_view(t))
}

/// Splits the text into identifiers and symbols, skipping white space and
/// `//` comments.
fn tokenize(s: &str) -> (r: Result<Vec<Token>, ParseError>)
    ensures
        match lex_from(s@, 0) {
            Ok(ts) => r is Ok && tokens_view(r->Ok_0@) == ts,
            Err(i) => r is Err && error_view(r->Err_0) == ErrorSpec::UnexpectedCharacter(i),
        },
        r is Ok ==> idents_ok(tokens_view(r->Ok_0@)),
{
    let n = s.unicode_len();
    let mut toks: Vec<Token> = Vec::new();
    let mut i: usize = 0;
    while i < n
        invariant
            i <= n,
            n == s@.len(),
            lex_from(s@, 0) == prepend(tokens_view(toks@), lex_from(s@, i as int)),
            idents_ok(tokens_view(toks@)),
        decreases n - i,
    {
        let c = s.get_char(i);
        if c == ' ' || c == '\t' || c == '\n' || c == '\r' {
            i = i + 1;
        } else if c == '/' && i + 1 < n && s.get_char(i + 1) == '/' {
            let from = i;
            i = i + 2;
            proof {
                lemma_comment_end(s@, i as int);
            }
            while i < n && s.get_char(i) != '\n'
                invariant
                    from + 2 <= i <= n,
                    n == s@.len(),
                    comment_end(s@, from + 2) == comment_end(s@, i as int),
                decreases n - i,
            {
                i = i + 1;
            }
        } else if is_ident_start(c) {
            let start = i;
            i = i + 1;
            while i < n && is_ident_char(s.get_char(i))
                invariant
                    start < i <= n,
                    n == s@.len(),
                    word_end(s@, start + 1) == word_end(s@, i as int),
                    forall|k: int| start <= k < i ==> ident_char(#[trigger] s@[k]),
                decreases n - i,
            {
                i = i + 1;
            }
            let ghost before = toks@;
            let word = s.substring_char(start, i).to_owned();
            toks.push(Token::Ident(word, start));
            proof {
                let t = TokenSpec::Ident(s@.subrange(start as int, i as int), start as nat);
                assert(tokens_view(toks@) =~= tokens_view(before).push(t));
                assert(crate::ir::is_identifier(s@.subrange(start as int, i as int)));
                assert(idents_ok(tokens_view(toks@))) by {
                    assert forall|k: int| 0 <= k < tokens_view(toks@).len() && #[trigger] tokens_view(toks@)[k] is Ident
                        implies crate::ir::is_identifier(tokens_view(toks@)[k]->Ident_0) by {
                        if k < before.len() {
                            assert(tokens_view(toks@)[k] == tokens_view(before)[k]);
                        }
                    }
                }
                assert(tokens_view(before).push(t) =~= tokens_view(before) + seq![t]);
                match lex_from(s@, i as int) {
                    Ok(rest) => assert(tokens_view(before) + (seq![t] + rest) =~= tokens_view(toks@) + rest),
                    Err(_) => {},
                }
            }
        } else if is_symbol(c) {
            let ghost before = toks@;
            toks.push(Token::Symbol(c, i));
            proof {
                let t = TokenSpec::Symbol(c, i as nat);
                assert(tokens_view(toks@) =~= tokens_view(before).push(t));
                assert(idents_ok(tokens_view(toks@))) by {
                    assert forall|k: int| 0 <= k < tokens_view(toks@).len() && #[trigger] tokens_view(toks@)[k] is Ident
                        implies crate::ir::is_identifier(tokens_view(toks@)[k]->Ident_0) by {
                        if k < before.len() {
                            assert(tokens_view(toks@)[k] == tokens_view(before)[k]);
                        }
                    }
                }
                match lex_from(s@, i + 1) {
                    Ok(rest) => assert(tokens_view(before) + (seq![t] + rest) =~= tokens_view(toks@) + rest),
                    Err(_) => {},
                }
            }
            i = i + 1;
        } else {
            return Err(ParseError::UnexpectedCharacter(i));
        }
    }
    assert(tokens_view(toks@) + Seq::<TokenSpec>::empty() =~= tokens_view(toks@));
    Ok(toks)
}

/// The error for the token at `pos`, or for the end of the text.
fn unexpected(toks: &Vec<Token>, pos: usize) -> (r: ParseError)
    ensures
        error_view(r) == unexpected_at(tokens_view(toks@), pos as int),
{
    if pos < toks.len() {
        match &toks[pos] {
            Token::Ident(_, at) => ParseError::UnexpectedToken(*at),
            Token::Symbol(_, at) => ParseError::UnexpectedToken(*at),
        }
    } else {
        ParseError::UnexpectedEnd
    }
}

/// Whether the token at `pos` is the symbol `c`.
fn at_symbol(toks: &Vec<Token>, pos: usize, c: char) -> (r: bool)
    ensures
        r == symbol_at(tokens_view(toks@), pos as int, c),
        r ==> pos < toks.len(),
{
    if pos < toks.len() {
        match &toks[pos] {
            Token::Symbol(d, _) => *d == c,
            _ => false,
        }
    } else {
        false
    }
}

/// Consumes the symbol `c` at `pos`.
fn expect_symbol(toks: &Vec<Token>, pos: usize, c: char) -> (r: Result<usize, ParseError>)
    ensures
        r is Ok ==> pos < toks.len() && r->Ok_0 == pos + 1,
        match expect_symbol_spec(tokens_view(toks@), pos as int, c) {
            Ok(q) => r is Ok && r->Ok_0 as int == q,
            Err(e) => r is Err && error_view(r->Err_0) == e,
        },
{
    if at_symbol(toks, pos, c) {
        Ok(pos + 1)
    } else {
        Err(unexpected(toks, pos))
    }
}

/// Consumes an identifier at `pos`.
fn expect_ident(toks: &Vec<Token>, pos: usize) -> (r: Result<(String, usize), ParseError>)
    ensures
        r is Ok ==> pos < toks.len() && r->Ok_0.1 == pos + 1,
        match expect_ident_spec(tokens_view(toks@), pos as int) {
            Ok((n, q)) => r is Ok && r->Ok_0.0@ == n && r->Ok_0.1 as int == q,
            Err(e) => r is Err && error_view(r->Err_0) == e,
        },
        r is Ok && idents_ok(tokens_view(toks@)) ==> crate::ir::is_identifier(r->Ok_0.0@),
{
    if pos < toks.len() {
        match &toks[pos] {
            Token::Ident(s, _) => {
                assert(tokens_view(toks@)[pos as int] is Ident);
                Ok((s.clone(), pos + 1))
            },
            _ => Err(unexpected(toks, pos)),
        }
    } else {
        Err(unexpected(toks, pos))
    }
}

/// `name` or `[name]`.
fn parse_type(toks: &Vec<Token>, pos: usize) -> (r: Result<(Type, usize), ParseError>)
    ensures
        r is Ok ==> pos < r->Ok_0.1 <= toks.len(),
        match type_spec(tokens_view(toks@), pos as int) {
            Ok((ty, q)) => r is Ok && type_matches(r->Ok_0.0, ty) && r->Ok_0.1 as int == q,
            Err(e) => r is Err && error_view(r->Err_0) == e,
        },
        r is Ok && idents_ok(tokens_view(toks@)) ==> crate::ir::type_named_ok(r->Ok_0.0),
{
    if at_symbol(toks, pos, '[') {
        let (name, p) = match expect_ident(toks, pos + 1) {
            Ok(x) => x,
            Err(e) => return Err(e),
        };
        let p = match expect_symbol(toks, p, ']') {
            Ok(p) => p,
            Err(e) => return Err(e),
        };
        let ghost nv = name@;
        let v = ValueType::from_name(name);
        proof {
            lemma_named_compound(v, nv);
        }
        Ok((Type { value_type: v, is_array: true }, p))
    } else {
        let (name, p) = match expect_ident(toks, pos) {
            Ok(x) => x,
            Err(e) => return Err(e),
        };
        let ghost nv = name@;
        let v = ValueType::from_name(name);
        proof {
            lemma_named_compound(v, nv);
        }
        Ok((Type { value_type: v, is_array: false }, p))
    }
}

pub proof fn lemma_distinct_push(s: Seq<Seq<char>>, x: Seq<char>)
    requires
        distinct(s),
        !s.contains(x),
    ensures
        distinct(s.push(x)),
{
    let t = s.push(x);
    assert forall|i: int, j: int| 0 <= i < t.len() && 0 <= j < t.len() && t[i] == t[j] implies i == j by {
        if i < s.len() && j == s.len() {
            assert(s[i] == x);
        } else if j < s.len() && i == s.len() {
            assert(s[j] == x);
        }
    }
}

/// `name: Type;` entries up to and including the closing brace.
fn parse_fields(toks: &Vec<Token>, pos: usize) -> (r: Result<(Vec<FieldDeclaration>, usize), ParseError>)
    requires
        pos <= toks.len(),
        idents_ok(tokens_view(toks@)),
    ensures
        r is Ok ==> crate::ir::fields_named_ok(r->Ok_0.0@),
        r is Ok ==> pos < r->Ok_0.1 <= toks.len() && distinct(field_names(r->Ok_0.0@)),
        match fields_spec(tokens_view(toks@), pos as int, Seq::empty()) {
            Ok((fs, q)) => r is Ok && fields_match(r->Ok_0.0@, fs) && r->Ok_0.1 as int == q,
            Err(e) => r is Err && error_view(r->Err_0) == e,
        },
{
    let ghost tv = tokens_view(toks@);
    let mut fields: Vec<FieldDeclaration> = Vec::new();
    let ghost mut acc: Seq<FieldSpec> = Seq::empty();
    let mut p = pos;
    assert(field_names(fields@) =~= field_spec_names(acc));
    while !at_symbol(toks, p, '}')
        invariant
            pos <= p <= toks.len(),
            tv == tokens_view(toks@),
            distinct(field_names(fields@)),
            fields_match(fields@, acc),
            idents_ok(tv),
            crate::ir::fields_named_ok(fields@),
            fields_spec(tv, pos as int, Seq::empty()) == fields_spec(tv, p as int, acc),
        decreases toks.len() - p,
    {
        let (name, q) = match expect_ident(toks, p) {
            Ok(x) => x,
            Err(e) => return Err(e),
        };
        let q = match expect_symbol(toks, q, ':') {
            Ok(q) => q,
            Err(e) => return Err(e),
        };
        let ghost q1 = q;
        let (field_type, q) = match parse_type(toks, q) {
            Ok(x) => x,
            Err(e) => return Err(e),
        };
        let ghost ty = type_spec(tv, q1 as int)->Ok_0.0;
        let q = match expect_symbol(toks, q, ';') {
            Ok(q) => q,
            Err(e) => return Err(e),
        };
        if crate::ir::fields_contain(&fields, &name) {
            return Err(ParseError::DuplicateField(name));
        }
        proof {
            lemma_distinct_push(field_names(fields@), name@);
        }
        let ghost before = fields@;
        fields.push(FieldDeclaration { name, field_type });
        proof {
            assert(field_names(fields@) =~= field_names(before).push(fields@.last().name@));
            let old_acc = acc;
            acc = acc.push(FieldSpec { name: fields@.last().name@, ty });
            assert(field_spec_names(acc) =~= field_spec_names(old_acc).push(fields@.last().name@));
            assert(type_matches(fields@.last().field_type, ty));
            assert forall|i: int| 0 <= i < fields@.len() implies type_matches(#[trigger] fields@[i].field_type, acc[i].ty) by {
                if i < fields@.len() - 1 {
                    assert(fields@[i] == before[i]);
                    assert(acc[i] == old_acc[i]);
                    assert(type_matches(before[i].field_type, old_acc[i].ty));
                }
            }
            assert forall|i: int| 0 <= i < fields@.len() implies crate::ir::is_identifier(#[trigger] fields@[i].name@)
                && crate::ir::type_named_ok(fields@[i].field_type) by {
                if i < fields@.len() - 1 {
                    assert(fields@[i] == before[i]);
                }
            }
        }
        p = q;
    }
    Ok((fields, p + 1))
}

/// `Name (, Name)* ,?` up to and including the closing brace; repeated names
/// are kept once.
fn parse_names(toks: &Vec<Token>, pos: usize) -> (r: Result<(Vec<String>, usize), ParseError>)
    requires
        pos <= toks.len(),
        idents_ok(tokens_view(toks@)),
    ensures
        r is Ok ==> crate::ir::all_identifiers(r->Ok_0.0@),
        r is Ok ==> pos < r->Ok_0.1 <= toks.len() && distinct(names_of(r->Ok_0.0@)),
        match names_spec(tokens_view(toks@), pos as int, Seq::empty()) {
            Ok((ns, q)) => r is Ok && names_of(r->Ok_0.0@) == ns && r->Ok_0.1 as int == q,
            Err(e) => r is Err && error_view(r->Err_0) == e,
        },
{
    let ghost tv = tokens_view(toks@);
    let mut items: Vec<String> = Vec::new();
    let mut p = pos;
    assert(names_of(items@) =~= Seq::<Seq<char>>::empty());
    while !at_symbol(toks, p, '}')
        invariant
            pos <= p <= toks.len(),
            tv == tokens_view(toks@),
            distinct(names_of(items@)),
            idents_ok(tv),
            crate::ir::all_identifiers(items@),
            names_spec(tv, pos as int, Seq::empty()) == names_spec(tv, p as int, names_of(items@)),
        decreases toks.len() - p,
    {
        let (name, q) = match expect_ident(toks, p) {
            Ok(x) => x,
            Err(e) => return Err(e),
        };
        let q = if at_symbol(toks, q, ',') {
            q + 1
        } else if at_symbol(toks, q, '}') {
            q
        } else {
            return Err(unexpected(toks, q));
        };
        if !crate::ir::contains_name(&items, &name) {
            proof {
                lemma_distinct_push(names_of(items@), name@);
            }
            let ghost before = items@;
            items.push(name);
            assert(names_of(items@) =~= names_of(before).push(items@.last()@));
        }
        p = q;
    }
    Ok((items, p + 1))
}

/// The position of the method called `name`, if there is one.
fn method_index(methods: &Vec<RpcMethod>, name: &String) -> (r: Option<usize>)
    ensures
        match r {
            Some(i) => i < methods@.len() && methods@[i as int].name@ == name@,
            None => forall|j: int| 0 <= j < methods@.len() ==> methods@[j].name@ != name@,
        },
{
    let mut i: usize = 0;
    while i < methods.len()
        invariant
            i <= methods.len(),
            forall|j: int| 0 <= j < i ==> methods@[j].name@ != name@,
        decreases methods.len() - i,
    {
        if methods[i].name == *name {
            return Some(i);
        }
        i = i + 1;
    }
    None
}

/// `method(Input): Output;` entries up to and including the closing brace.
fn parse_methods(toks: &Vec<Token>, pos: usize) -> (r: Result<(Vec<RpcMethod>, usize), ParseError>)
    requires
        pos <= toks.len(),
        idents_ok(tokens_view(toks@)),
    ensures
        r is Ok ==> forall|i: int| 0 <= i < r->Ok_0.0@.len() ==> crate::ir::method_named_ok(#[trigger] r->Ok_0.0@[i]),
        r is Ok ==> pos < r->Ok_0.1 <= toks.len() && methods_distinct(r->Ok_0.0@),
        match methods_spec(tokens_view(toks@), pos as int, Seq::empty()) {
            Ok((ms, q)) => r is Ok && methods_view(r->Ok_0.0@) == ms && r->Ok_0.1 as int == q,
            Err(e) => r is Err && error_view(r->Err_0) == e,
        },
{
    let ghost tv = tokens_view(toks@);
    let mut methods: Vec<RpcMethod> = Vec::new();
    let mut p = pos;
    assert(methods_view(methods@) =~= Seq::<MethodSpec>::empty());
    while !at_symbol(toks, p, '}')
        invariant
            pos <= p <= toks.len(),
            tv == tokens_view(toks@),
            methods_distinct(methods@),
            idents_ok(tv),
            forall|i: int| 0 <= i < methods@.len() ==> crate::ir::method_named_ok(#[trigger] methods@[i]),
            methods_spec(tv, pos as int, Seq::empty()) == methods_spec(tv, p as int, methods_view(methods@)),
        decreases toks.len() - p,
    {
        let (name, q) = match expect_ident(toks, p) {
            Ok(x) => x,
            Err(e) => return Err(e),
        };
        let q = match expect_symbol(toks, q, '(') {
            Ok(q) => q,
            Err(e) => return Err(e),
        };
        let (input, q) = match expect_ident(toks, q) {
            Ok(x) => x,
            Err(e) => return Err(e),
        };
        let q = match expect_symbol(toks, q, ')') {
            Ok(q) => q,
            Err(e) => return Err(e),
        };
        let q = match expect_symbol(toks, q, ':') {
            Ok(q) => q,
            Err(e) => return Err(e),
        };
        let (output, q) = match expect_ident(toks, q) {
            Ok(x) => x,
            Err(e) => return Err(e),
        };
        let q = match expect_symbol(toks, q, ';') {
            Ok(q) => q,
            Err(e) => return Err(e),
        };
        let ghost before = methods@;
        let ghost m = MethodSpec { name: name@, input: input@, output: output@ };
        proof {
            assert(methods_view(before).len() == before.len());
        }
        match method_index(&methods, &name) {
            Some(k) => {
                proof {
                    assert(methods_view(before)[k as int] == method_view(before[k as int]));
                    let c = choose|c: int| 0 <= c < methods_view(before).len() && methods_view(before)[c].name == m.name;
                    assert(methods_view(before)[c] == method_view(before[c]));
                    assert(c == k);
                }
                methods[k] = RpcMethod { name, input, output };
                proof {
                    assert(methods_view(methods@) =~= methods_view(before).update(k as int, m));
                    assert forall|i: int, j: int|
                        0 <= i < methods@.len() && 0 <= j < methods@.len() && methods@[i].name@
                            == methods@[j].name@ implies i == j by {
                        assert(methods@[i].name@ == before[i].name@);
                        assert(methods@[j].name@ == before[j].name@);
                    }
                }
            },
            None => {
                proof {
                    if exists|c: int| 0 <= c < methods_view(before).len() && methods_view(before)[c].name == m.name {
                        let c = choose|c: int| 0 <= c < methods_view(before).len() && methods_view(before)[c].name == m.name;
                        assert(methods_view(before)[c] == method_view(before[c]));
                    }
                }
                methods.push(RpcMethod { name, input, output });
                proof {
                    assert(methods_view(methods@) =~= methods_view(before).push(m));
                }
            },
        }
        p = q;
    }
    Ok((methods, p + 1))
}

/// Puts `d` under its name: it replaces a table of that name, or comes last.
fn put_table(v: &mut Vec<TableDeclaration>, d: TableDeclaration, Ghost(specs): Ghost<Seq<RecordSpec>>, Ghost(rec): Ghost<RecordSpec>)
    requires
        distinct(table_names_of(old(v)@)),
        d.wf(),
        d.names_ok(),
        forall|i: int| 0 <= i < old(v)@.len() ==> #[trigger] old(v)@[i].names_ok(),
        forall|i: int| 0 <= i < old(v)@.len() ==> #[trigger] old(v)@[i].wf(),
        old(v)@.len() == specs.len(),
        forall|i: int| 0 <= i < specs.len() ==> table_matches(#[trigger] old(v)@[i], specs[i]),
        table_matches(d, rec),
    ensures
        forall|i: int| 0 <= i < final(v)@.len() ==> #[trigger] final(v)@[i].names_ok(),
        distinct(table_names_of(final(v)@)),
        forall|i: int| 0 <= i < final(v)@.len() ==> #[trigger] final(v)@[i].wf(),
        final(v)@.len() == insert_record(specs, rec).len(),
        forall|i: int| 0 <= i < final(v)@.len() ==> table_matches(#[trigger] final(v)@[i], insert_record(specs, rec)[i]),
{
    let mut i: usize = 0;
    while i < v.len()
        invariant
            i <= v.len(),
            v@ == old(v)@,
            distinct(table_names_of(v@)),
            d.wf(),
            d.names_ok(),
            forall|j: int| 0 <= j < v@.len() ==> #[trigger] v@[j].names_ok(),
            forall|j: int| 0 <= j < v@.len() ==> #[trigger] v@[j].wf(),
            forall|j: int| 0 <= j < i ==> v@[j].name@ != d.name@,
            v@.len() == specs.len(),
            forall|j: int| 0 <= j < specs.len() ==> table_matches(#[trigger] v@[j], specs[j]),
            table_matches(d, rec),
        decreases v.len() - i,
    {
        if v[i].name == d.name {
            let ghost before = v@;
            proof {
                assert(table_matches(before[i as int], specs[i as int]));
                let k = choose|k: int| 0 <= k < specs.len() && specs[k].name == rec.name;
                assert(table_matches(before[k], specs[k]));
                assert(table_names_of(before)[k] == table_names_of(before)[i as int]);
            }
            v[i] = d;
            assert(table_names_of(v@) =~= table_names_of(before));
            assert forall|j: int| 0 <= j < v@.len() implies table_matches(#[trigger] v@[j], insert_record(specs, rec)[j]) by {
                if j != i {
                    assert(table_matches(before[j], specs[j]));
                }
            }
            return;
        }
        i = i + 1;
    }
    proof {
        if table_names_of(v@).contains(d.name@) {
            let j = choose|j: int| 0 <= j < v@.len() && table_names_of(v@)[j] == d.name@;
            assert(v@[j].name@ == d.name@);
        }
        if exists|k: int| 0 <= k < specs.len() && specs[k].name == rec.name {
            let k = choose|k: int| 0 <= k < specs.len() && specs[k].name == rec.name;
            assert(table_matches(v@[k], specs[k]));
        }
        lemma_distinct_push(table_names_of(v@), d.name@);
    }
    let ghost before = v@;
    v.push(d);
    assert(table_names_of(v@) =~= table_names_of(before).push(d.name@));
    assert forall|j: int| 0 <= j < v@.len() implies table_matches(#[trigger] v@[j], insert_record(specs, rec)[j]) by {
        if j < before.len() {
            assert(table_matches(before[j], specs[j]));
        }
    }
}

/// Puts `d` under its name: it replaces a struct of that name, or comes last.
fn put_struct(v: &mut Vec<StructDeclaration>, d: StructDeclaration, Ghost(specs): Ghost<Seq<RecordSpec>>, Ghost(rec): Ghost<RecordSpec>)
    requires
        distinct(struct_names_of(old(v)@)),
        d.wf(),
        d.names_ok(),
        forall|i: int| 0 <= i < old(v)@.len() ==> #[trigger] old(v)@[i].names_ok(),
        forall|i: int| 0 <= i < old(v)@.len() ==> #[trigger] old(v)@[i].wf(),
        old(v)@.len() == specs.len(),
        forall|i: int| 0 <= i < specs.len() ==> struct_matches(#[trigger] old(v)@[i], specs[i]),
        struct_matches(d, rec),
    ensures
        forall|i: int| 0 <= i < final(v)@.len() ==> #[trigger] final(v)@[i].names_ok(),
        distinct(struct_names_of(final(v)@)),
        forall|i: int| 0 <= i < final(v)@.len() ==> #[trigger] final(v)@[i].wf(),
        final(v)@.len() == insert_record(specs, rec).len(),
        forall|i: int| 0 <= i < final(v)@.len() ==> struct_matches(#[trigger] final(v)@[i], insert_record(specs, rec)[i]),
{
    let mut i: usize = 0;
    while i < v.len()
        invariant
            i <= v.len(),
            v@ == old(v)@,
            distinct(struct_names_of(v@)),
            d.wf(),
            d.names_ok(),
            forall|j: int| 0 <= j < v@.len() ==> #[trigger] v@[j].names_ok(),
            forall|j: int| 0 <= j < v@.len() ==> #[trigger] v@[j].wf(),
            forall|j: int| 0 <= j < i ==> v@[j].name@ != d.name@,
            v@.len() == specs.len(),
            forall|j: int| 0 <= j < specs.len() ==> struct_matches(#[trigger] v@[j], specs[j]),
            struct_matches(d, rec),
        decreases v.len() - i,
    {
        if v[i].name == d.name {
            let ghost before = v@;
            proof {
                assert(struct_matches(before[i as int], specs[i as int]));
                let k = choose|k: int| 0 <= k < specs.len() && specs[k].name == rec.name;
                assert(struct_matches(before[k], specs[k]));
                assert(struct_names_of(before)[k] == struct_names_of(before)[i as int]);
            }
            v[i] = d;
            assert(struct_names_of(v@) =~= struct_names_of(before));
            assert forall|j: int| 0 <= j < v@.len() implies struct_matches(#[trigger] v@[j], insert_record(specs, rec)[j]) by {
                if j != i {
                    assert(struct_matches(before[j], specs[j]));
                }
            }
            return;
        }
        i = i + 1;
    }
    proof {
        if struct_names_of(v@).contains(d.name@) {
            let j = choose|j: int| 0 <= j < v@.len() && struct_names_of(v@)[j] == d.name@;
            assert(v@[j].name@ == d.name@);
        }
        if exists|k: int| 0 <= k < specs.len() && specs[k].name == rec.name {
            let k = choose|k: int| 0 <= k < specs.len() && specs[k].name == rec.name;
            assert(struct_matches(v@[k], specs[k]));
        }
        lemma_distinct_push(struct_names_of(v@), d.name@);
    }
    let ghost before = v@;
    v.push(d);
    assert(struct_names_of(v@) =~= struct_names_of(before).push(d.name@));
    assert forall|j: int| 0 <= j < v@.len() implies struct_matches(#[trigger] v@[j], insert_record(specs, rec)[j]) by {
        if j < before.len() {
            assert(struct_matches(before[j], specs[j]));
        }
    }
}

/// Puts `d` under its name: it replaces a enum of that name, or comes last.
fn put_enum(v: &mut Vec<EnumDeclaration>, d: EnumDeclaration, Ghost(specs): Ghost<Seq<EnumSpec>>, Ghost(rec): Ghost<EnumSpec>)
    requires
        distinct(enum_names_of(old(v)@)),
        d.wf(),
        d.names_ok(),
        forall|i: int| 0 <= i < old(v)@.len() ==> #[trigger] old(v)@[i].names_ok(),
        forall|i: int| 0 <= i < old(v)@.len() ==> #[trigger] old(v)@[i].wf(),
        old(v)@.len() == specs.len(),
        forall|i: int| 0 <= i < specs.len() ==> enum_matches(#[trigger] old(v)@[i], specs[i]),
        enum_matches(d, rec),
    ensures
        forall|i: int| 0 <= i < final(v)@.len() ==> #[trigger] final(v)@[i].names_ok(),
        distinct(enum_names_of(final(v)@)),
        forall|i: int| 0 <= i < final(v)@.len() ==> #[trigger] final(v)@[i].wf(),
        final(v)@.len() == crate::grammar::insert_enum(specs, rec).len(),
        forall|i: int| 0 <= i < final(v)@.len() ==> enum_matches(#[trigger] final(v)@[i], crate::grammar::insert_enum(specs, rec)[i]),
{
    let mut i: usize = 0;
    while i < v.len()
        invariant
            i <= v.len(),
            v@ == old(v)@,
            distinct(enum_names_of(v@)),
            d.wf(),
            d.names_ok(),
            forall|j: int| 0 <= j < v@.len() ==> #[trigger] v@[j].names_ok(),
            forall|j: int| 0 <= j < v@.len() ==> #[trigger] v@[j].wf(),
            forall|j: int| 0 <= j < i ==> v@[j].name@ != d.name@,
            v@.len() == specs.len(),
            forall|j: int| 0 <= j < specs.len() ==> enum_matches(#[trigger] v@[j], specs[j]),
            enum_matches(d, rec),
        decreases v.len() - i,
    {
        if v[i].name == d.name {
            let ghost before = v@;
            proof {
                assert(enum_matches(before[i as int], specs[i as int]));
                let k = choose|k: int| 0 <= k < specs.len() && specs[k].name == rec.name;
                assert(enum_matches(before[k], specs[k]));
                assert(enum_names_of(before)[k] == enum_names_of(before)[i as int]);
            }
            v[i] = d;
            assert(enum_names_of(v@) =~= enum_names_of(before));
            assert forall|j: int| 0 <= j < v@.len() implies enum_matches(#[trigger] v@[j], crate::grammar::insert_enum(specs, rec)[j]) by {
                if j != i {
                    assert(enum_matches(before[j], specs[j]));
                }
            }
            return;
        }
        i = i + 1;
    }
    proof {
        if enum_names_of(v@).contains(d.name@) {
            let j = choose|j: int| 0 <= j < v@.len() && enum_names_of(v@)[j] == d.name@;
            assert(v@[j].name@ == d.name@);
        }
        if exists|k: int| 0 <= k < specs.len() && specs[k].name == rec.name {
            let k = choose|k: int| 0 <= k < specs.len() && specs[k].name == rec.name;
            assert(enum_matches(v@[k], specs[k]));
        }
        lemma_distinct_push(enum_names_of(v@), d.name@);
    }
    let ghost before = v@;
    v.push(d);
    assert(enum_names_of(v@) =~= enum_names_of(before).push(d.name@));
    assert forall|j: int| 0 <= j < v@.len() implies enum_matches(#[trigger] v@[j], crate::grammar::insert_enum(specs, rec)[j]) by {
        if j < before.len() {
            assert(enum_matches(before[j], specs[j]));
        }
    }
}

/// Puts `d` under its name: it replaces a union of that name, or comes last.
fn put_union(v: &mut Vec<UnionDeclaration>, d: UnionDeclaration, Ghost(specs): Ghost<Seq<UnionSpec>>, Ghost(rec): Ghost<UnionSpec>)
    requires
        distinct(union_names_of(old(v)@)),
        d.wf(),
        d.names_ok(),
        forall|i: int| 0 <= i < old(v)@.len() ==> #[trigger] old(v)@[i].names_ok(),
        forall|i: int| 0 <= i < old(v)@.len() ==> #[trigger] old(v)@[i].wf(),
        old(v)@.len() == specs.len(),
        forall|i: int| 0 <= i < specs.len() ==> union_matches(#[trigger] old(v)@[i], specs[i]),
        union_matches(d, rec),
    ensures
        forall|i: int| 0 <= i < final(v)@.len() ==> #[trigger] final(v)@[i].names_ok(),
        distinct(union_names_of(final(v)@)),
        forall|i: int| 0 <= i < final(v)@.len() ==> #[trigger] final(v)@[i].wf(),
        final(v)@.len() == crate::grammar::insert_union(specs, rec).len(),
        forall|i: int| 0 <= i < final(v)@.len() ==> union_matches(#[trigger] final(v)@[i], crate::grammar::insert_union(specs, rec)[i]),
{
    let mut i: usize = 0;
    while i < v.len()
        invariant
            i <= v.len(),
            v@ == old(v)@,
            distinct(union_names_of(v@)),
            d.wf(),
            d.names_ok(),
            forall|j: int| 0 <= j < v@.len() ==> #[trigger] v@[j].names_ok(),
            forall|j: int| 0 <= j < v@.len() ==> #[trigger] v@[j].wf(),
            forall|j: int| 0 <= j < i ==> v@[j].name@ != d.name@,
            v@.len() == specs.len(),
            forall|j: int| 0 <= j < specs.len() ==> union_matches(#[trigger] v@[j], specs[j]),
            union_matches(d, rec),
        decreases v.len() - i,
    {
        if v[i].name == d.name {
            let ghost before = v@;
            proof {
                assert(union_matches(before[i as int], specs[i as int]));
                let k = choose|k: int| 0 <= k < specs.len() && specs[k].name == rec.name;
                assert(union_matches(before[k], specs[k]));
                assert(union_names_of(before)[k] == union_names_of(before)[i as int]);
            }
            v[i] = d;
            assert(union_names_of(v@) =~= union_names_of(before));
            assert forall|j: int| 0 <= j < v@.len() implies union_matches(#[trigger] v@[j], crate::grammar::insert_union(specs, rec)[j]) by {
                if j != i {
                    assert(union_matches(before[j], specs[j]));
                }
            }
            return;
        }
        i = i + 1;
    }
    proof {
        if union_names_of(v@).contains(d.name@) {
            let j = choose|j: int| 0 <= j < v@.len() && union_names_of(v@)[j] == d.name@;
            assert(v@[j].name@ == d.name@);
        }
        if exists|k: int| 0 <= k < specs.len() && specs[k].name == rec.name {
            let k = choose|k: int| 0 <= k < specs.len() && specs[k].name == rec.name;
            assert(union_matches(v@[k], specs[k]));
        }
        lemma_distinct_push(union_names_of(v@), d.name@);
    }
    let ghost before = v@;
    v.push(d);
    assert(union_names_of(v@) =~= union_names_of(before).push(d.name@));
    assert forall|j: int| 0 <= j < v@.len() implies union_matches(#[trigger] v@[j], crate::grammar::insert_union(specs, rec)[j]) by {
        if j < before.len() {
            assert(union_matches(before[j], specs[j]));
        }
    }
}

/// Checks that the compound field types name a table, struct, enum or union.
fn check_field_refs(
    st: &Statements,
    fields: &Vec<FieldDeclaration>,
    Ghost(s): Ghost<SchemaSpec>,
    Ghost(fs): Ghost<Seq<FieldSpec>>,
) -> (r: Result<(), ParseError>)
    requires
        st.wf(),
        schema_matches(*st, s),
        fields_match(fields@, fs),
    ensures
        r is Ok ==> fields_refs_ok(*st, fields@),
        match first_error(fs, field_error_fn(s)) {
            None => r is Ok,
            Some(e) => r is Err && error_view(r->Err_0) == e,
        },
{
    assert(fields@.len() == field_names(fields@).len() && fs.len() == field_spec_names(fs).len());
    let mut i: usize = 0;
    while i < fields.len()
        invariant
            i <= fields.len(),
            fields@.len() == fs.len(),
            st.wf(),
            schema_matches(*st, s),
            fields_match(fields@, fs),
            forall|j: int| 0 <= j < i ==> field_ref_ok(*st, #[trigger] fields@[j].field_type),
            first_error(fs.take(i as int), field_error_fn(s)) is None,
        decreases fields.len() - i,
    {
        proof {
            lemma_first_error_step(fs, i as int, field_error_fn(s));
            assert(type_matches(fields@[i as int].field_type, fs[i as int].ty));
            lemma_named_compound(fields@[i as int].field_type.value_type, fs[i as int].ty.name);
            lemma_kind_matches(*st, s, fs[i as int].ty.name);
            lemma_first_error_prefix(fs, i + 1, field_error_fn(s));
        }
        match &fields[i].field_type.value_type {
            ValueType::CompoundType(n) => match st.decl_kind(n.as_str()) {
                DeclKind::Table | DeclKind::Struct | DeclKind::Enum | DeclKind::Union => {},
                DeclKind::Unresolved => return Err(ParseError::UnresolvedName(n.clone())),
                DeclKind::Rpc => return Err(ParseError::InvalidReference(n.clone())),
            },
            _ => {},
        }
        i = i + 1;
    }
    proof {
        lemma_first_error_prefix(fs, fs.len() as int, field_error_fn(s));
    }
    Ok(())
}

/// Checks that `name` names a table.
fn check_table_ref(st: &Statements, name: &String, Ghost(s): Ghost<SchemaSpec>) -> (r: Result<(), ParseError>)
    requires
        st.wf(),
        schema_matches(*st, s),
    ensures
        r is Ok <==> st.kind_of(name@) == DeclKind::Table,
        match table_ref_error(s, name@) {
            None => r is Ok,
            Some(e) => r is Err && error_view(r->Err_0) == e,
        },
{
    proof {
        lemma_kind_matches(*st, s, name@);
    }
    match st.decl_kind(name.as_str()) {
        DeclKind::Table => Ok(()),
        DeclKind::Unresolved => Err(ParseError::UnresolvedName(name.clone())),
        _ => Err(ParseError::InvalidReference(name.clone())),
    }
}

fn check_union_refs(st: &Statements, u: &UnionDeclaration, Ghost(s): Ghost<SchemaSpec>, Ghost(us): Ghost<UnionSpec>) -> (r: Result<(), ParseError>)
    requires
        st.wf(),
        schema_matches(*st, s),
        union_matches(*u, us),
    ensures
        r is Ok ==> st.union_refs_ok(*u),
        match first_error(us.items, member_error_fn(s)) {
            None => r is Ok,
            Some(e) => r is Err && error_view(r->Err_0) == e,
        },
{
    assert(u.items@.len() == names_of(u.items@).len());
    let mut i: usize = 0;
    while i < u.items.len()
        invariant
            i <= u.items.len(),
            u.items@.len() == us.items.len(),
            st.wf(),
            schema_matches(*st, s),
            union_matches(*u, us),
            forall|j: int| 0 <= j < i ==> st.kind_of(#[trigger] u.items@[j]@) == DeclKind::Table,
            first_error(us.items.take(i as int), member_error_fn(s)) is None,
        decreases u.items.len() - i,
    {
        proof {
            lemma_first_error_step(us.items, i as int, member_error_fn(s));
            lemma_first_error_prefix(us.items, i + 1, member_error_fn(s));
            assert(names_of(u.items@)[i as int] == u.items@[i as int]@);
        }
        match check_table_ref(st, &u.items[i], Ghost(s)) {
            Ok(()) => {},
            Err(e) => return Err(e),
        }
        i = i + 1;
    }
    proof {
        lemma_first_error_prefix(us.items, us.items.len() as int, member_error_fn(s));
    }
    Ok(())
}

fn check_rpc_refs(st: &Statements, rpc: &RpcDeclaration, Ghost(s): Ghost<SchemaSpec>, Ghost(rs): Ghost<RpcSpec>) -> (r: Result<(), ParseError>)
    requires
        st.wf(),
        schema_matches(*st, s),
        rpc_matches(*rpc, rs),
    ensures
        r is Ok ==> st.rpc_refs_ok(*rpc),
        match first_error(rs.methods, method_error_fn(s)) {
            None => r is Ok,
            Some(e) => r is Err && error_view(r->Err_0) == e,
        },
{
    assert(rpc.methods@.len() == methods_view(rpc.methods@).len());
    let mut i: usize = 0;
    while i < rpc.methods.len()
        invariant
            i <= rpc.methods.len(),
            rpc.methods@.len() == rs.methods.len(),
            st.wf(),
            schema_matches(*st, s),
            rpc_matches(*rpc, rs),
            forall|j: int|
                0 <= j < i ==> st.kind_of(#[trigger] rpc.methods@[j].input@) == DeclKind::Table
                    && st.kind_of(rpc.methods@[j].output@) == DeclKind::Table,
            first_error(rs.methods.take(i as int), method_error_fn(s)) is None,
        decreases rpc.methods.len() - i,
    {
        proof {
            lemma_first_error_step(rs.methods, i as int, method_error_fn(s));
            lemma_first_error_prefix(rs.methods, i + 1, method_error_fn(s));
            assert(methods_view(rpc.methods@)[i as int] == method_view(rpc.methods@[i as int]));
        }
        match check_table_ref(st, &rpc.methods[i].input, Ghost(s)) {
            Ok(()) => {},
            Err(e) => return Err(e),
        }
        match check_table_ref(st, &rpc.methods[i].output, Ghost(s)) {
            Ok(()) => {},
            Err(e) => return Err(e),
        }
        i = i + 1;
    }
    proof {
        lemma_first_error_prefix(rs.methods, rs.methods.len() as int, method_error_fn(s));
    }
    Ok(())
}

/// Checks every reference by name of the schema, in declaration order.
fn check_references(st: &Statements, Ghost(s): Ghost<SchemaSpec>) -> (r: Result<(), ParseError>)
    requires
        st.wf(),
        schema_matches(*st, s),
    ensures
        r is Ok ==> st.refs_resolved(),
        match reference_error(s) {
            None => r is Ok,
            Some(e) => r is Err && error_view(r->Err_0) == e,
        },
{
    let mut i: usize = 0;
    while i < st.table_declaration.len()
        invariant
            i <= st.table_declaration.len(),
            st.wf(),
            schema_matches(*st, s),
            forall|j: int| 0 <= j < i ==> fields_refs_ok(*st, #[trigger] st.table_declaration@[j].fields@),
            first_error(s.tables.take(i as int), record_error_fn(s)) is None,
        decreases st.table_declaration.len() - i,
    {
        proof {
            lemma_first_error_step(s.tables, i as int, record_error_fn(s));
            lemma_first_error_prefix(s.tables, i + 1, record_error_fn(s));
            assert(table_matches(st.table_declaration@[i as int], s.tables[i as int]));
        }
        match check_field_refs(st, &st.table_declaration[i].fields, Ghost(s), Ghost(s.tables[i as int].fields)) {
            Ok(()) => {},
            Err(e) => return Err(e),
        }
        i = i + 1;
    }
    proof {
        lemma_first_error_prefix(s.tables, s.tables.len() as int, record_error_fn(s));
    }
    let mut i: usize = 0;
    while i < st.struct_declaration.len()
        invariant
            i <= st.struct_declaration.len(),
            st.wf(),
            schema_matches(*st, s),
            first_error(s.tables, record_error_fn(s)) is None,
            forall|j: int| 0 <= j < st.table_declaration@.len() ==> fields_refs_ok(*st, #[trigger] st.table_declaration@[j].fields@),
            forall|j: int| 0 <= j < i ==> fields_refs_ok(*st, #[trigger] st.struct_declaration@[j].fields@),
            first_error(s.structs.take(i as int), record_error_fn(s)) is None,
        decreases st.struct_declaration.len() - i,
    {
        proof {
            lemma_first_error_step(s.structs, i as int, record_error_fn(s));
            lemma_first_error_prefix(s.structs, i + 1, record_error_fn(s));
            assert(struct_matches(st.struct_declaration@[i as int], s.structs[i as int]));
        }
        match check_field_refs(st, &st.struct_declaration[i].fields, Ghost(s), Ghost(s.structs[i as int].fields)) {
            Ok(()) => {},
            Err(e) => return Err(e),
        }
        i = i + 1;
    }
    proof {
        lemma_first_error_prefix(s.structs, s.structs.len() as int, record_error_fn(s));
    }
    let mut i: usize = 0;
    while i < st.unions.len()
        invariant
            i <= st.unions.len(),
            st.wf(),
            schema_matches(*st, s),
            first_error(s.tables, record_error_fn(s)) is None,
            first_error(s.structs, record_error_fn(s)) is None,
            forall|j: int| 0 <= j < st.table_declaration@.len() ==> fields_refs_ok(*st, #[trigger] st.table_declaration@[j].fields@),
            forall|j: int| 0 <= j < st.struct_declaration@.len() ==> fields_refs_ok(*st, #[trigger] st.struct_declaration@[j].fields@),
            forall|j: int| 0 <= j < i ==> st.union_refs_ok(#[trigger] st.unions@[j]),
            first_error(s.unions.take(i as int), union_error_fn(s)) is None,
        decreases st.unions.len() - i,
    {
        proof {
            lemma_first_error_step(s.unions, i as int, union_error_fn(s));
            lemma_first_error_prefix(s.unions, i + 1, union_error_fn(s));
            assert(union_matches(st.unions@[i as int], s.unions[i as int]));
        }
        match check_union_refs(st, &st.unions[i], Ghost(s), Ghost(s.unions[i as int])) {
            Ok(()) => {},
            Err(e) => return Err(e),
        }
        i = i + 1;
    }
    proof {
        lemma_first_error_prefix(s.unions, s.unions.len() as int, union_error_fn(s));
    }
    let mut i: usize = 0;
    while i < st.rpc_declarations.len()
        invariant
            i <= st.rpc_declarations.len(),
            st.wf(),
            schema_matches(*st, s),
            first_error(s.tables, record_error_fn(s)) is None,
            first_error(s.structs, record_error_fn(s)) is None,
            first_error(s.unions, union_error_fn(s)) is None,
            forall|j: int| 0 <= j < st.table_declaration@.len() ==> fields_refs_ok(*st, #[trigger] st.table_declaration@[j].fields@),
            forall|j: int| 0 <= j < st.struct_declaration@.len() ==> fields_refs_ok(*st, #[trigger] st.struct_declaration@[j].fields@),
            forall|j: int| 0 <= j < st.unions@.len() ==> st.union_refs_ok(#[trigger] st.unions@[j]),
            forall|j: int| 0 <= j < i ==> st.rpc_refs_ok(#[trigger] st.rpc_declarations@[j]),
            first_error(s.rpcs.take(i as int), rpc_error_fn(s)) is None,
        decreases st.rpc_declarations.len() - i,
    {
        proof {
            lemma_first_error_step(s.rpcs, i as int, rpc_error_fn(s));
            lemma_first_error_prefix(s.rpcs, i + 1, rpc_error_fn(s));
            assert(rpc_matches(st.rpc_declarations@[i as int], s.rpcs[i as int]));
        }
        match check_rpc_refs(st, &st.rpc_declarations[i], Ghost(s), Ghost(s.rpcs[i as int])) {
            Ok(()) => {},
            Err(e) => return Err(e),
        }
        i = i + 1;
    }
    proof {
        lemma_first_error_prefix(s.rpcs, s.rpcs.len() as int, rpc_error_fn(s));
    }
    Ok(())
}

/// The parser of the schema language.
pub struct FbsParser {}

impl FbsParser {
    /// Parses a schema; see `parse_fbs_schema`.
    pub fn parse(schema: &str) -> (r: Result<Statements, ParseError>)
        ensures
            match parse_spec(schema@) {
                Err(e) => r is Err && error_view(r->Err_0) == e,
                Ok(s) => match reference_error(s) {
                    None => r is Ok && schema_matches(r->Ok_0, s),
                    Some(e) => r is Err && error_view(r->Err_0) == e,
                },
            },
            r is Ok ==> r->Ok_0.wf() && r->Ok_0.refs_resolved() && r->Ok_0.rpc_declarations@.len() <= 1,
            r is Ok ==> r->Ok_0.names_ok(),
    {
        parse_fbs_schema(schema)
    }
}

/// Parses a schema text into declarations and checks that every name it
/// refers to is declared. Declarations of one kind under one name replace
/// each other, the last one staying; a later `root_type` replaces an earlier
/// one; at most one `rpc` service is accepted.
pub fn parse_fbs_schema(schema: &str) -> (r: Result<Statements, ParseError>)
    ensures
        match parse_spec(schema@) {
            Err(e) => r is Err && error_view(r->Err_0) == e,
            Ok(s) => match reference_error(s) {
                None => r is Ok && schema_matches(r->Ok_0, s),
                Some(e) => r is Err && error_view(r->Err_0) == e,
            },
        },
        r is Ok ==> r->Ok_0.wf() && r->Ok_0.refs_resolved() && r->Ok_0.rpc_declarations@.len() <= 1,
        r is Ok ==> r->Ok_0.names_ok(),
{
    let toks = match tokenize(schema) {
        Ok(t) => t,
        Err(e) => return Err(e),
    };
    let ghost tv = tokens_view(toks@);
    let mut st = Statements {
        root_type_name: None,
        table_declaration: Vec::new(),
        struct_declaration: Vec::new(),
        unions: Vec::new(),
        rpc_declarations: Vec::new(),
        enum_declarations: Vec::new(),
    };
    let ghost mut acc = empty_schema();
    let mut pos: usize = 0;
    while pos < toks.len()
        invariant
            pos <= toks.len(),
            st.wf(),
            st.rpc_declarations@.len() <= 1,
            tv == tokens_view(toks@),
            lex_from(schema@, 0) == Ok::<Seq<TokenSpec>, nat>(tv),
            statements_spec(tv, 0, empty_schema()) == statements_spec(tv, pos as int, acc),
            schema_matches(st, acc),
            st.names_ok(),
            idents_ok(tv),
        decreases toks.len() - pos,
    {
        let (keyword, p) = match expect_ident(&toks, pos) {
            Ok(x) => x,
            Err(e) => return Err(e),
        };
        let (name, p) = match expect_ident(&toks, p) {
            Ok(x) => x,
            Err(e) => return Err(e),
        };
        if is_word(&keyword, "root_type") {
            let p = match expect_symbol(&toks, p, ';') {
                Ok(p) => p,
                Err(e) => return Err(e),
            };
            proof {
                acc = SchemaSpec { root: Some(name@), ..acc };
            }
            st.root_type_name = Some(name);
            pos = p;
        } else if is_word(&keyword, "table") || is_word(&keyword, "struct") {
            let p = match expect_symbol(&toks, p, '{') {
                Ok(p) => p,
                Err(e) => return Err(e),
            };
            let ghost p1 = p;
            let (fields, p) = match parse_fields(&toks, p) {
                Ok(x) => x,
                Err(e) => return Err(e),
            };
            let ghost rec = RecordSpec { name: name@, fields: fields_spec(tv, p1 as int, Seq::empty())->Ok_0.0 };
            if is_word(&keyword, "table") {
                put_table(&mut st.table_declaration, TableDeclaration { name, fields }, Ghost(acc.tables), Ghost(rec));
                proof {
                    acc = SchemaSpec { tables: insert_record(acc.tables, rec), ..acc };
                }
            } else {
                put_struct(&mut st.struct_declaration, StructDeclaration { name, fields }, Ghost(acc.structs), Ghost(rec));
                proof {
                    acc = SchemaSpec { structs: insert_record(acc.structs, rec), ..acc };
                }
            }
            pos = p;
        } else if is_word(&keyword, "enum") {
            let p = match expect_symbol(&toks, p, ':') {
                Ok(p) => p,
                Err(e) => return Err(e),
            };
            let ghost p1 = p;
            let (type_def, p) = match parse_type(&toks, p) {
                Ok(x) => x,
                Err(e) => return Err(e),
            };
            let ghost ty = type_spec(tv, p1 as int)->Ok_0.0;
            let p = match expect_symbol(&toks, p, '{') {
                Ok(p) => p,
                Err(e) => return Err(e),
            };
            let (items, p) = match parse_names(&toks, p) {
                Ok(x) => x,
                Err(e) => return Err(e),
            };
            let ghost rec = EnumSpec { name: name@, type_def: ty, items: names_of(items@) };
            put_enum(&mut st.enum_declarations, EnumDeclaration { name, type_def, items }, Ghost(acc.enums), Ghost(rec));
            proof {
                acc = SchemaSpec { enums: crate::grammar::insert_enum(acc.enums, rec), ..acc };
            }
            pos = p;
        } else if is_word(&keyword, "union") {
            let p = match expect_symbol(&toks, p, '{') {
                Ok(p) => p,
                Err(e) => return Err(e),
            };
            let (items, p) = match parse_names(&toks, p) {
                Ok(x) => x,
                Err(e) => return Err(e),
            };
            let ghost rec = UnionSpec { name: name@, items: names_of(items@) };
            put_union(&mut st.unions, UnionDeclaration { name, items }, Ghost(acc.unions), Ghost(rec));
            proof {
                acc = SchemaSpec { unions: crate::grammar::insert_union(acc.unions, rec), ..acc };
            }
            pos = p;
        } else if is_word(&keyword, "rpc") {
            let p = match expect_symbol(&toks, p, '{') {
                Ok(p) => p,
                Err(e) => return Err(e),
            };
            let (methods, p) = match parse_methods(&toks, p) {
                Ok(x) => x,
                Err(e) => return Err(e),
            };
            if st.rpc_declarations.len() > 0 {
                return Err(ParseError::MultipleRpcServices);
            }
            let ghost rec = RpcSpec { name: name@, methods: methods_view(methods@) };
            st.rpc_declarations.push(RpcDeclaration { name, methods });
            assert(st.rpc_declarations@[0].wf());
            proof {
                acc = SchemaSpec { rpcs: seq![rec], ..acc };
            }
            pos = p;
        } else {
            return Err(unexpected(&toks, pos));
        }
    }
    match check_references(&st, Ghost(acc)) {
        Ok(()) => Ok(st),
        Err(e) => Err(e),
    }
}

/// A type name denotes a reference by name exactly when it is no keyword.
pub proof fn lemma_named_compound(v: ValueType, n: Seq<char>)
    requires
        value_type_named(v, n),
    ensures
        (v is CompoundType) == !is_keyword(n),
        v is CompoundType ==> v->CompoundType_0@ == n,
{
}

/// Declarations that match give every name the same kind.
pub proof fn lemma_kind_matches(st: Statements, s: SchemaSpec, n: Seq<char>)
    requires
        schema_matches(st, s),
    ensures
        st.kind_of(n) == spec_kind(s, n),
{
    assert((exists|i: int| 0 <= i < st.table_declaration@.len() && st.table_declaration@[i].name@ == n)
        == (exists|i: int| 0 <= i < s.tables.len() && s.tables[i].name == n)) by {
        if exists|i: int| 0 <= i < s.tables.len() && s.tables[i].name == n {
            let i = choose|i: int| 0 <= i < s.tables.len() && s.tables[i].name == n;
            assert(table_matches(st.table_declaration@[i], s.tables[i]));
        }
        if exists|i: int| 0 <= i < st.table_declaration@.len() && st.table_declaration@[i].name@ == n {
            let i = choose|i: int| 0 <= i < st.table_declaration@.len() && st.table_declaration@[i].name@ == n;
            assert(table_matches(st.table_declaration@[i], s.tables[i]));
        }
    }
    assert((exists|i: int| 0 <= i < st.struct_declaration@.len() && st.struct_declaration@[i].name@ == n)
        == (exists|i: int| 0 <= i < s.structs.len() && s.structs[i].name == n)) by {
        if exists|i: int| 0 <= i < s.structs.len() && s.structs[i].name == n {
            let i = choose|i: int| 0 <= i < s.structs.len() && s.structs[i].name == n;
            assert(struct_matches(st.struct_declaration@[i], s.structs[i]));
        }
        if exists|i: int| 0 <= i < st.struct_declaration@.len() && st.struct_declaration@[i].name@ == n {
            let i = choose|i: int| 0 <= i < st.struct_declaration@.len() && st.struct_declaration@[i].name@ == n;
            assert(struct_matches(st.struct_declaration@[i], s.structs[i]));
        }
    }
    assert((exists|i: int| 0 <= i < st.enum_declarations@.len() && st.enum_declarations@[i].name@ == n)
        == (exists|i: int| 0 <= i < s.enums.len() && s.enums[i].name == n)) by {
        if exists|i: int| 0 <= i < s.enums.len() && s.enums[i].name == n {
            let i = choose|i: int| 0 <= i < s.enums.len() && s.enums[i].name == n;
            assert(enum_matches(st.enum_declarations@[i], s.enums[i]));
        }
        if exists|i: int| 0 <= i < st.enum_declarations@.len() && st.enum_declarations@[i].name@ == n {
            let i = choose|i: int| 0 <= i < st.enum_declarations@.len() && st.enum_declarations@[i].name@ == n;
            assert(enum_matches(st.enum_declarations@[i], s.enums[i]));
        }
    }
    assert((exists|i: int| 0 <= i < st.unions@.len() && st.unions@[i].name@ == n)
        == (exists|i: int| 0 <= i < s.unions.len() && s.unions[i].name == n)) by {
        if exists|i: int| 0 <= i < s.unions.len() && s.unions[i].name == n {
            let i = choose|i: int| 0 <= i < s.unions.len() && s.unions[i].name == n;
            assert(union_matches(st.unions@[i], s.unions[i]));
        }
        if exists|i: int| 0 <= i < st.unions@.len() && st.unions@[i].name@ == n {
            let i = choose|i: int| 0 <= i < st.unions@.len() && st.unions@[i].name@ == n;
            assert(union_matches(st.unions@[i], s.unions[i]));
        }
    }
    assert((exists|i: int| 0 <= i < st.rpc_declarations@.len() && st.rpc_declarations@[i].name@ == n)
        == (exists|i: int| 0 <= i < s.rpcs.len() && s.rpcs[i].name == n)) by {
        if exists|i: int| 0 <= i < s.rpcs.len() && s.rpcs[i].name == n {
            let i = choose|i: int| 0 <= i < s.rpcs.len() && s.rpcs[i].name == n;
            assert(rpc_matches(st.rpc_declarations@[i], s.rpcs[i]));
        }
        if exists|i: int| 0 <= i < st.rpc_declarations@.len() && st.rpc_declarations@[i].name@ == n {
            let i = choose|i: int| 0 <= i < st.rpc_declarations@.len() && st.rpc_declarations@[i].name@ == n;
            assert(rpc_matches(st.rpc_declarations@[i], s.rpcs[i]));
        }
    }
}

} // verus!
