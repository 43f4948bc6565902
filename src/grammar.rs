use vstd::prelude::*;
use crate::ir::{
    field_names, names_of, EnumDeclaration, FieldDeclaration, RpcDeclaration, RpcMethod,
    StructDeclaration, TableDeclaration, Type, UnionDeclaration,
};
use crate::parser::{DeclKind, ParseError, Statements};

verus! {

/// A token of the schema language: an identifier or a symbol, with the
/// character offset where it starts.
pub enum TokenSpec {
    Ident(Seq<char>, nat),
    Symbol(char, nat),
}

/// Why a schema text is refused.
pub enum ErrorSpec {
    UnexpectedCharacter(nat),
    UnexpectedToken(nat),
    UnexpectedEnd,
    DuplicateField(Seq<char>),
    MultipleRpcServices,
    UnresolvedName(Seq<char>),
    InvalidReference(Seq<char>),
}

/// A field type as written: a type name, alone or in brackets.
pub struct TypeSpec {
    pub name: Seq<char>,
    pub is_array: bool,
}

pub struct FieldSpec {
    pub name: Seq<char>,
    pub ty: TypeSpec,
}

/// A table or a struct as written.
pub struct RecordSpec {
    pub name: Seq<char>,
    pub fields: Seq<FieldSpec>,
}

pub struct EnumSpec {
    pub name: Seq<char>,
    pub type_def: TypeSpec,
    pub items: Seq<Seq<char>>,
}

pub struct UnionSpec {
    pub name: Seq<char>,
    pub items: Seq<Seq<char>>,
}

pub struct MethodSpec {
    pub name: Seq<char>,
    pub input: Seq<char>,
    pub output: Seq<char>,
}

pub struct RpcSpec {
    pub name: Seq<char>,
    pub methods: Seq<MethodSpec>,
}

/// The declarations that a schema text makes.
pub struct SchemaSpec {
    pub root: Option<Seq<char>>,
    pub tables: Seq<RecordSpec>,
    pub structs: Seq<RecordSpec>,
    pub enums: Seq<EnumSpec>,
    pub unions: Seq<UnionSpec>,
    pub rpcs: Seq<RpcSpec>,
}

pub open spec fn is_space(c: char) -> bool {
    c == ' ' || c == '\t' || c == '\n' || c == '\r'
}

pub open spec fn ident_start(c: char) -> bool {
    ('a' <= c && c <= 'z') || ('A' <= c && c <= 'Z') || c == '_'
}

pub open spec fn ident_char(c: char) -> bool {
    ident_start(c) || ('0' <= c && c <= '9')
}

pub open spec fn symbol_char(c: char) -> bool {
    c == '{' || c == '}' || c == ':' || c == ';' || c == ',' || c == '(' || c == ')' || c == '['
        || c == ']'
}

/// Where a comment that runs through position `i` ends: at the next line
/// break, or at the end of the text.
pub open spec fn comment_end(s: Seq<char>, i: int) -> int
    decreases s.len() - i,
{
    if 0 <= i < s.len() && s[i] != '\n' {
        comment_end(s, i + 1)
    } else {
        i
    }
}

/// Where an identifier that runs through position `i` ends.
pub open spec fn word_end(s: Seq<char>, i: int) -> int
    decreases s.len() - i,
{
    if 0 <= i < s.len() && ident_char(s[i]) {
        word_end(s, i + 1)
    } else {
        i
    }
}

pub proof fn lemma_comment_end(s: Seq<char>, i: int)
    ensures
        comment_end(s, i) >= i,
        comment_end(s, i) <= s.len() || comment_end(s, i) == i,
    decreases s.len() - i,
{
    if 0 <= i < s.len() && s[i] != '\n' {
        lemma_comment_end(s, i + 1);
    }
}

/// `t` in front of the tokens of `r`.
pub open spec fn prepend(p: Seq<TokenSpec>, r: Result<Seq<TokenSpec>, nat>) -> Result<Seq<TokenSpec>, nat> {
    match r {
        Ok(ts) => Ok(p + ts),
        Err(e) => Err(e),
    }
}

/// The tokens of `s` from position `i` on, or the position of the first
/// character that no token starts with.
pub open spec fn lex_from(s: Seq<char>, i: int) -> Result<Seq<TokenSpec>, nat>
    decreases s.len() - i,
{
    if i < 0 || i >= s.len() {
        Ok(Seq::empty())
    } else if is_space(s[i]) {
        lex_from(s, i + 1)
    } else if s[i] == '/' && i + 1 < s.len() && s[i + 1] == '/' {
        let j = comment_end(s, i + 2);
        if i < j <= s.len() {
            lex_from(s, j)
        } else {
            Ok(Seq::empty())
        }
    } else if ident_start(s[i]) {
        let j = word_end(s, i + 1);
        if i < j <= s.len() {
            prepend(seq![TokenSpec::Ident(s.subrange(i, j), i as nat)], lex_from(s, j))
        } else {
            Ok(Seq::empty())
        }
    } else if symbol_char(s[i]) {
        prepend(seq![TokenSpec::Symbol(s[i], i as nat)], lex_from(s, i + 1))
    } else {
        Err(i as nat)
    }
}

pub open spec fn tok_pos(t: TokenSpec) -> nat {
    match t {
        TokenSpec::Ident(_, p) => p,
        TokenSpec::Symbol(_, p) => p,
    }
}

pub open spec fn unexpected_at(ts: Seq<TokenSpec>, p: int) -> ErrorSpec {
    if 0 <= p < ts.len() {
        ErrorSpec::UnexpectedToken(tok_pos(ts[p]))
    } else {
        ErrorSpec::UnexpectedEnd
    }
}

pub open spec fn symbol_at(ts: Seq<TokenSpec>, p: int, c: char) -> bool {
    0 <= p < ts.len() && ts[p] is Symbol && ts[p]->Symbol_0 == c
}

pub open spec fn expect_symbol_spec(ts: Seq<TokenSpec>, p: int, c: char) -> Result<int, ErrorSpec> {
    if symbol_at(ts, p, c) {
        Ok(p + 1)
    } else {
        Err(unexpected_at(ts, p))
    }
}

pub open spec fn expect_ident_spec(ts: Seq<TokenSpec>, p: int) -> Result<(Seq<char>, int), ErrorSpec> {
    if 0 <= p < ts.len() && ts[p] is Ident {
        Ok((ts[p]->Ident_0, p + 1))
    } else {
        Err(unexpected_at(ts, p))
    }
}

/// `name` or `[name]` at `p`.
pub open spec fn type_spec(ts: Seq<TokenSpec>, p: int) -> Result<(TypeSpec, int), ErrorSpec> {
    if symbol_at(ts, p, '[') {
        match expect_ident_spec(ts, p + 1) {
            Err(e) => Err(e),
            Ok((n, q)) => match expect_symbol_spec(ts, q, ']') {
                Err(e) => Err(e),
                Ok(q) => Ok((TypeSpec { name: n, is_array: true }, q)),
            },
        }
    } else {
        match expect_ident_spec(ts, p) {
            Err(e) => Err(e),
            Ok((n, q)) => Ok((TypeSpec { name: n, is_array: false }, q)),
        }
    }
}

pub open spec fn field_spec_names(fs: Seq<FieldSpec>) -> Seq<Seq<char>> {
    fs.map_values(|f: FieldSpec| f.name)
}

/// `name: Type;` entries from `p` up to and including the closing brace,
/// after the fields `acc`.
pub open spec fn fields_spec(ts: Seq<TokenSpec>, p: int, acc: Seq<FieldSpec>) -> Result<(Seq<FieldSpec>, int), ErrorSpec>
    decreases ts.len() - p,
{
    if symbol_at(ts, p, '}') {
        Ok((acc, p + 1))
    } else {
        match expect_ident_spec(ts, p) {
            Err(e) => Err(e),
            Ok((name, q)) => match expect_symbol_spec(ts, q, ':') {
                Err(e) => Err(e),
                Ok(q) => match type_spec(ts, q) {
                    Err(e) => Err(e),
                    Ok((ty, q)) => match expect_symbol_spec(ts, q, ';') {
                        Err(e) => Err(e),
                        Ok(q) => if field_spec_names(acc).contains(name) {
                            Err(ErrorSpec::DuplicateField(name))
                        } else if p < q <= ts.len() {
                            fields_spec(ts, q, acc.push(FieldSpec { name, ty }))
                        } else {
                            Err(ErrorSpec::UnexpectedEnd)
                        },
                    },
                },
            },
        }
    }
}

/// Fields come out in the order in which they are written: those read
/// before stay in front, and the field written at `p`, if any, comes next.
pub proof fn lemma_fields_written_order(ts: Seq<TokenSpec>, p: int, acc: Seq<FieldSpec>)
    requires
        fields_spec(ts, p, acc) is Ok,
    ensures
        acc.len() <= fields_spec(ts, p, acc)->Ok_0.0.len(),
        fields_spec(ts, p, acc)->Ok_0.0.take(acc.len() as int) == acc,
        !symbol_at(ts, p, '}') ==> acc.len() < fields_spec(ts, p, acc)->Ok_0.0.len()
            && fields_spec(ts, p, acc)->Ok_0.0[acc.len() as int].name == ts[p]->Ident_0,
    decreases ts.len() - p,
{
    if symbol_at(ts, p, '}') {
        assert(acc.take(acc.len() as int) =~= acc);
    } else {
        let (name, q1) = expect_ident_spec(ts, p)->Ok_0;
        let q2 = expect_symbol_spec(ts, q1, ':')->Ok_0;
        let (ty, q3) = type_spec(ts, q2)->Ok_0;
        let q4 = expect_symbol_spec(ts, q3, ';')->Ok_0;
        let acc2 = acc.push(FieldSpec { name, ty });
        lemma_fields_written_order(ts, q4, acc2);
        let fs = fields_spec(ts, q4, acc2)->Ok_0.0;
        assert(fs.take(acc.len() as int) =~= fs.take(acc2.len() as int).take(acc.len() as int));
        assert(acc2.take(acc.len() as int) =~= acc);
        assert(fs[acc.len() as int] == fs.take(acc2.len() as int)[acc.len() as int]);
    }
}

/// `Name (, Name)* ,?` from `p` up to and including the closing brace, after
/// the names `acc`; a repeated name is kept once.
pub open spec fn names_spec(ts: Seq<TokenSpec>, p: int, acc: Seq<Seq<char>>) -> Result<(Seq<Seq<char>>, int), ErrorSpec>
    decreases ts.len() - p,
{
    if symbol_at(ts, p, '}') {
        Ok((acc, p + 1))
    } else {
        match expect_ident_spec(ts, p) {
            Err(e) => Err(e),
            Ok((name, q)) => {
                let next: Result<int, ErrorSpec> = if symbol_at(ts, q, ',') {
                    Ok(q + 1)
                } else if symbol_at(ts, q, '}') {
                    Ok(q)
                } else {
                    Err(unexpected_at(ts, q))
                };
                match next {
                    Err(e) => Err(e),
                    Ok(q) => {
                        let acc2 = if acc.contains(name) {
                            acc
                        } else {
                            acc.push(name)
                        };
                        if p < q <= ts.len() {
                            names_spec(ts, q, acc2)
                        } else {
                            Err(ErrorSpec::UnexpectedEnd)
                        }
                    },
                }
            },
        }
    }
}

pub open spec fn method_spec_names(ms: Seq<MethodSpec>) -> Seq<Seq<char>> {
    ms.map_values(|m: MethodSpec| m.name)
}

/// `m` under its name: in place of the method of that name, or last.
pub open spec fn insert_method(s: Seq<MethodSpec>, m: MethodSpec) -> Seq<MethodSpec> {
    if exists|i: int| 0 <= i < s.len() && s[i].name == m.name {
        s.update(choose|i: int| 0 <= i < s.len() && s[i].name == m.name, m)
    } else {
        s.push(m)
    }
}

/// Every identifier token is made of identifier characters.
pub open spec fn idents_ok(ts: Seq<TokenSpec>) -> bool {
    forall|k: int| 0 <= k < ts.len() && #[trigger] ts[k] is Ident ==> crate::ir::is_identifier(ts[k]->Ident_0)
}

/// `method(Input): Output;` entries from `p` up to and including the closing
/// brace, after the methods `acc`; a repeated method name keeps the last one.
pub open spec fn methods_spec(ts: Seq<TokenSpec>, p: int, acc: Seq<MethodSpec>) -> Result<(Seq<MethodSpec>, int), ErrorSpec>
    decreases ts.len() - p,
{
    if symbol_at(ts, p, '}') {
        Ok((acc, p + 1))
    } else {
        match expect_ident_spec(ts, p) {
            Err(e) => Err(e),
            Ok((name, q)) => match expect_symbol_spec(ts, q, '(') {
                Err(e) => Err(e),
                Ok(q) => match expect_ident_spec(ts, q) {
                    Err(e) => Err(e),
                    Ok((input, q)) => match expect_symbol_spec(ts, q, ')') {
                        Err(e) => Err(e),
                        Ok(q) => match expect_symbol_spec(ts, q, ':') {
                            Err(e) => Err(e),
                            Ok(q) => match expect_ident_spec(ts, q) {
                                Err(e) => Err(e),
                                Ok((output, q)) => match expect_symbol_spec(ts, q, ';') {
                                    Err(e) => Err(e),
                                    Ok(q) => if p < q <= ts.len() {
                                        methods_spec(ts, q, insert_method(acc, MethodSpec { name, input, output }))
                                    } else {
                                        Err(ErrorSpec::UnexpectedEnd)
                                    },
                                },
                            },
                        },
                    },
                },
            },
        }
    }
}

/// `r` under its name: in place of the record of that name, or last.
pub open spec fn insert_record(s: Seq<RecordSpec>, r: RecordSpec) -> Seq<RecordSpec> {
    if exists|i: int| 0 <= i < s.len() && s[i].name == r.name {
        s.update(choose|i: int| 0 <= i < s.len() && s[i].name == r.name, r)
    } else {
        s.push(r)
    }
}

pub open spec fn insert_enum(s: Seq<EnumSpec>, r: EnumSpec) -> Seq<EnumSpec> {
    if exists|i: int| 0 <= i < s.len() && s[i].name == r.name {
        s.update(choose|i: int| 0 <= i < s.len() && s[i].name == r.name, r)
    } else {
        s.push(r)
    }
}

pub open spec fn insert_union(s: Seq<UnionSpec>, r: UnionSpec) -> Seq<UnionSpec> {
    if exists|i: int| 0 <= i < s.len() && s[i].name == r.name {
        s.update(choose|i: int| 0 <= i < s.len() && s[i].name == r.name, r)
    } else {
        s.push(r)
    }
}

pub open spec fn empty_schema() -> SchemaSpec {
    SchemaSpec {
        root: None,
        tables: Seq::empty(),
        structs: Seq::empty(),
        enums: Seq::empty(),
        unions: Seq::empty(),
        rpcs: Seq::empty(),
    }
}

/// The declarations from token `p` on, after the declarations `acc`.
pub open spec fn statements_spec(ts: Seq<TokenSpec>, p: int, acc: SchemaSpec) -> Result<SchemaSpec, ErrorSpec>
    decreases ts.len() - p,
{
    if p < 0 || p >= ts.len() {
        Ok(acc)
    } else {
        match expect_ident_spec(ts, p) {
            Err(e) => Err(e),
            Ok((kw, q)) => match expect_ident_spec(ts, q) {
                Err(e) => Err(e),
                Ok((name, q)) => if kw == "root_type"@ {
                    match expect_symbol_spec(ts, q, ';') {
                        Err(e) => Err(e),
                        Ok(q) => if p < q <= ts.len() {
                            statements_spec(ts, q, SchemaSpec { root: Some(name), ..acc })
                        } else {
                            Err(ErrorSpec::UnexpectedEnd)
                        },
                    }
                } else if kw == "table"@ || kw == "struct"@ {
                    match expect_symbol_spec(ts, q, '{') {
                        Err(e) => Err(e),
                        Ok(q) => match fields_spec(ts, q, Seq::empty()) {
                            Err(e) => Err(e),
                            Ok((fields, q)) => {
                                let rec = RecordSpec { name, fields };
                                let acc2 = if kw == "table"@ {
                                    SchemaSpec { tables: insert_record(acc.tables, rec), ..acc }
                                } else {
                                    SchemaSpec { structs: insert_record(acc.structs, rec), ..acc }
                                };
                                if p < q <= ts.len() {
                                    statements_spec(ts, q, acc2)
                                } else {
                                    Err(ErrorSpec::UnexpectedEnd)
                                }
                            },
                        },
                    }
                } else if kw == "enum"@ {
                    match expect_symbol_spec(ts, q, ':') {
                        Err(e) => Err(e),
                        Ok(q) => match type_spec(ts, q) {
                            Err(e) => Err(e),
                            Ok((type_def, q)) => match expect_symbol_spec(ts, q, '{') {
                                Err(e) => Err(e),
                                Ok(q) => match names_spec(ts, q, Seq::empty()) {
                                    Err(e) => Err(e),
                                    Ok((items, q)) => if p < q <= ts.len() {
                                        statements_spec(
                                            ts,
                                            q,
                                            SchemaSpec {
                                                enums: insert_enum(acc.enums, EnumSpec { name, type_def, items }),
                                                ..acc
                                            },
                                        )
                                    } else {
                                        Err(ErrorSpec::UnexpectedEnd)
                                    },
                                },
                            },
                        },
                    }
                } else if kw == "union"@ {
                    match expect_symbol_spec(ts, q, '{') {
                        Err(e) => Err(e),
                        Ok(q) => match names_spec(ts, q, Seq::empty()) {
                            Err(e) => Err(e),
                            Ok((items, q)) => if p < q <= ts.len() {
                                statements_spec(
                                    ts,
                                    q,
                                    SchemaSpec { unions: insert_union(acc.unions, UnionSpec { name, items }), ..acc },
                                )
                            } else {
                                Err(ErrorSpec::UnexpectedEnd)
                            },
                        },
                    }
                } else if kw == "rpc"@ {
                    match expect_symbol_spec(ts, q, '{') {
                        Err(e) => Err(e),
                        Ok(q) => match methods_spec(ts, q, Seq::empty()) {
                            Err(e) => Err(e),
                            Ok((methods, q)) => if acc.rpcs.len() > 0 {
                                Err(ErrorSpec::MultipleRpcServices)
                            } else if p < q <= ts.len() {
                                statements_spec(
                                    ts,
                                    q,
                                    SchemaSpec { rpcs: seq![RpcSpec { name, methods }], ..acc },
                                )
                            } else {
                                Err(ErrorSpec::UnexpectedEnd)
                            },
                        },
                    }
                } else {
                    Err(unexpected_at(ts, p))
                },
            },
        }
    }
}

/// Whether `n` is one of the primitive type keywords.
pub open spec fn is_keyword(n: Seq<char>) -> bool {
    n == "bool"@ || n == "byte"@ || n == "ubyte"@ || n == "short"@ || n == "ushort"@ || n == "int"@
        || n == "uint"@ || n == "float"@ || n == "long"@ || n == "ulong"@ || n == "double"@ || n
        == "int8"@ || n == "uint8"@ || n == "int16"@ || n == "uint16"@ || n == "int32"@ || n
        == "uint32"@ || n == "int64"@ || n == "uint64"@ || n == "float32"@ || n == "float64"@ || n
        == "string"@
}

/// The kind of `n` among the declarations, in the order tables, structs,
/// enums, unions, RPC services.
pub open spec fn spec_kind(s: SchemaSpec, n: Seq<char>) -> DeclKind {
    if exists|i: int| 0 <= i < s.tables.len() && s.tables[i].name == n {
        DeclKind::Table
    } else if exists|i: int| 0 <= i < s.structs.len() && s.structs[i].name == n {
        DeclKind::Struct
    } else if exists|i: int| 0 <= i < s.enums.len() && s.enums[i].name == n {
        DeclKind::Enum
    } else if exists|i: int| 0 <= i < s.unions.len() && s.unions[i].name == n {
        DeclKind::Union
    } else if exists|i: int| 0 <= i < s.rpcs.len() && s.rpcs[i].name == n {
        DeclKind::Rpc
    } else {
        DeclKind::Unresolved
    }
}

/// The first error that `f` finds in `xs`, in order.
pub open spec fn first_error<A>(xs: Seq<A>, f: spec_fn(A) -> Option<ErrorSpec>) -> Option<ErrorSpec>
    decreases xs.len(),
{
    if xs.len() == 0 {
        None
    } else {
        match first_error(xs.drop_last(), f) {
            Some(e) => Some(e),
            None => f(xs.last()),
        }
    }
}

pub proof fn lemma_first_error_step<A>(xs: Seq<A>, i: int, f: spec_fn(A) -> Option<ErrorSpec>)
    requires
        0 <= i < xs.len(),
        first_error(xs.take(i), f) is None,
    ensures
        first_error(xs.take(i + 1), f) == f(xs[i]),
{
    assert(xs.take(i + 1).drop_last() =~= xs.take(i));
}

/// An error in a prefix is the first error of the whole.
pub proof fn lemma_first_error_prefix<A>(xs: Seq<A>, k: int, f: spec_fn(A) -> Option<ErrorSpec>)
    requires
        0 <= k <= xs.len(),
    ensures
        first_error(xs.take(k), f) is Some ==> first_error(xs, f) == first_error(xs.take(k), f),
        k == xs.len() ==> first_error(xs.take(k), f) == first_error(xs, f),
    decreases xs.len() - k,
{
    if k == xs.len() {
        assert(xs.take(k) =~= xs);
    } else {
        if first_error(xs.take(k), f) is Some {
            assert(xs.take(k + 1).drop_last() =~= xs.take(k));
            lemma_first_error_prefix(xs, k + 1, f);
        }
    }
}

/// The error for a field type that names no table, struct, enum or union.
pub open spec fn field_error(s: SchemaSpec, f: FieldSpec) -> Option<ErrorSpec> {
    if is_keyword(f.ty.name) {
        None
    } else {
        match spec_kind(s, f.ty.name) {
            DeclKind::Unresolved => Some(ErrorSpec::UnresolvedName(f.ty.name)),
            DeclKind::Rpc => Some(ErrorSpec::InvalidReference(f.ty.name)),
            _ => None,
        }
    }
}

/// The error for a name that must name a table.
pub open spec fn table_ref_error(s: SchemaSpec, n: Seq<char>) -> Option<ErrorSpec> {
    match spec_kind(s, n) {
        DeclKind::Table => None,
        DeclKind::Unresolved => Some(ErrorSpec::UnresolvedName(n)),
        _ => Some(ErrorSpec::InvalidReference(n)),
    }
}

pub open spec fn field_error_fn(s: SchemaSpec) -> spec_fn(FieldSpec) -> Option<ErrorSpec> {
    |f: FieldSpec| field_error(s, f)
}

pub open spec fn record_error_fn(s: SchemaSpec) -> spec_fn(RecordSpec) -> Option<ErrorSpec> {
    |r: RecordSpec| first_error(r.fields, field_error_fn(s))
}

pub open spec fn member_error_fn(s: SchemaSpec) -> spec_fn(Seq<char>) -> Option<ErrorSpec> {
    |n: Seq<char>| table_ref_error(s, n)
}

pub open spec fn union_error_fn(s: SchemaSpec) -> spec_fn(UnionSpec) -> Option<ErrorSpec> {
    |u: UnionSpec| first_error(u.items, member_error_fn(s))
}

pub open spec fn method_error_fn(s: SchemaSpec) -> spec_fn(MethodSpec) -> Option<ErrorSpec> {
    |m: MethodSpec|
        match table_ref_error(s, m.input) {
            Some(e) => Some(e),
            None => table_ref_error(s, m.output),
        }
}

pub open spec fn rpc_error_fn(s: SchemaSpec) -> spec_fn(RpcSpec) -> Option<ErrorSpec> {
    |r: RpcSpec| first_error(r.methods, method_error_fn(s))
}

/// The first reference by name that does not resolve to a declaration of a
/// kind allowed there: table fields, then struct fields, union members, and
/// RPC inputs and outputs, each in declaration order.
pub open spec fn reference_error(s: SchemaSpec) -> Option<ErrorSpec> {
    match first_error(s.tables, record_error_fn(s)) {
        Some(e) => Some(e),
        None => match first_error(s.structs, record_error_fn(s)) {
            Some(e) => Some(e),
            None => match first_error(s.unions, union_error_fn(s)) {
                Some(e) => Some(e),
                None => first_error(s.rpcs, rpc_error_fn(s)),
            },
        },
    }
}

/// What parsing `text` gives: its declarations, or the first error.
pub open spec fn parse_spec(text: Seq<char>) -> Result<SchemaSpec, ErrorSpec> {
    match lex_from(text, 0) {
        Err(i) => Err(ErrorSpec::UnexpectedCharacter(i)),
        Ok(ts) => statements_spec(ts, 0, empty_schema()),
    }
}

pub open spec fn type_matches(t: Type, s: TypeSpec) -> bool {
    crate::parser::value_type_named(t.value_type, s.name) && t.is_array == s.is_array
}

pub open spec fn fields_match(fs: Seq<FieldDeclaration>, ss: Seq<FieldSpec>) -> bool {
    field_names(fs) == field_spec_names(ss) && forall|i: int|
        0 <= i < fs.len() ==> type_matches(#[trigger] fs[i].field_type, ss[i].ty)
}

pub open spec fn table_matches(t: TableDeclaration, r: RecordSpec) -> bool {
    t.name@ == r.name && fields_match(t.fields@, r.fields)
}

pub open spec fn struct_matches(t: StructDeclaration, r: RecordSpec) -> bool {
    t.name@ == r.name && fields_match(t.fields@, r.fields)
}

pub open spec fn enum_matches(e: EnumDeclaration, r: EnumSpec) -> bool {
    e.name@ == r.name && type_matches(e.type_def, r.type_def) && names_of(e.items@) == r.items
}

pub open spec fn union_matches(u: UnionDeclaration, r: UnionSpec) -> bool {
    u.name@ == r.name && names_of(u.items@) == r.items
}

pub open spec fn method_view(m: RpcMethod) -> MethodSpec {
    MethodSpec { name: m.name@, input: m.input@, output: m.output@ }
}

pub open spec fn methods_view(ms: Seq<RpcMethod>) -> Seq<MethodSpec> {
    ms.map_values(|m: RpcMethod| method_view(m))
}

pub open spec fn rpc_matches(r: RpcDeclaration, s: RpcSpec) -> bool {
    r.name@ == s.name && methods_view(r.methods@) == s.methods
}

/// The declarations of `st` are those of `s`, in the same order.
pub open spec fn schema_matches(st: Statements, s: SchemaSpec) -> bool {
    &&& match st.root_type_name {
        Some(r) => s.root == Some(r@),
        None => s.root is None,
    }
    &&& st.table_declaration@.len() == s.tables.len()
    &&& forall|i: int| 0 <= i < s.tables.len() ==> table_matches(#[trigger] st.table_declaration@[i], s.tables[i])
    &&& st.struct_declaration@.len() == s.structs.len()
    &&& forall|i: int| 0 <= i < s.structs.len() ==> struct_matches(#[trigger] st.struct_declaration@[i], s.structs[i])
    &&& st.enum_declarations@.len() == s.enums.len()
    &&& forall|i: int| 0 <= i < s.enums.len() ==> enum_matches(#[trigger] st.enum_declarations@[i], s.enums[i])
    &&& st.unions@.len() == s.unions.len()
    &&& forall|i: int| 0 <= i < s.unions.len() ==> union_matches(#[trigger] st.unions@[i], s.unions[i])
    &&& st.rpc_declarations@.len() == s.rpcs.len()
    &&& forall|i: int| 0 <= i < s.rpcs.len() ==> rpc_matches(#[trigger] st.rpc_declarations@[i], s.rpcs[i])
}

pub open spec fn error_view(e: ParseError) -> ErrorSpec {
    match e {
        ParseError::UnexpectedCharacter(i) => ErrorSpec::UnexpectedCharacter(i as nat),
        ParseError::UnexpectedToken(i) => ErrorSpec::UnexpectedToken(i as nat),
        ParseError::UnexpectedEnd => ErrorSpec::UnexpectedEnd,
        ParseError::DuplicateField(n) => ErrorSpec::DuplicateField(n@),
        ParseError::MultipleRpcServices => ErrorSpec::MultipleRpcServices,
        ParseError::UnresolvedName(n) => ErrorSpec::UnresolvedName(n@),
        ParseError::InvalidReference(n) => ErrorSpec::InvalidReference(n@),
    }
}

} // verus!
