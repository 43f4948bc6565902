use vstd::prelude::*;
use crate::codegen_rs::{
    needs_synthetic_id, root_and_union, root_name, rs_table_field_fn, rs_table_text, synthetic_id,
    union_name,
};
use crate::ir::{
    field_names, EnumDeclaration, FieldDeclaration, RpcDeclaration, RpcMethod, StructDeclaration,
    TableDeclaration, Type, UnionDeclaration, ValueType,
};
use crate::naming::{cased, concat_map, lemma_concat_map_all, lemma_concat_map_step, to_case, TextCase};
use crate::parser::{DeclKind, Statements};
use crate::typechecker::is_valid;

verus! {

/// Emission of a declaration as client-side TypeScript source.
pub trait ToTsStatement {
    /// Every name of the declaration that the emitted text recases is an identifier.
    spec fn well_named(&self) -> bool;

    spec fn ts_text(&self, statements: Statements) -> Seq<char>;

    fn to_ts_string(&self, statements: &Statements) -> (r: String)
        requires
            self.well_named(),
            statements.wf(),
            is_valid(*statements),
            statements.names_ok(),
            statements.refs_resolved(),
        ensures
            r@ == self.ts_text(*statements),
    ;
}

/// Emission of the function that turns a content record into its wire class.
pub trait GenerateIntoFunctionStatement {
    /// Every name of the declaration that the emitted text recases is an identifier.
    spec fn well_named(&self) -> bool;

    spec fn function_text(&self, statements: Statements) -> Seq<char>;

    fn generate_into_function_statement(&self, statements: &Statements) -> (r: String)
        requires
            self.well_named(),
            statements.wf(),
            is_valid(*statements),
            statements.names_ok(),
            statements.refs_resolved(),
        ensures
            r@ == self.function_text(*statements),
    ;
}

pub open spec fn ts_value_type(v: ValueType) -> Seq<char> {
    match v {
        ValueType::Bool => "boolean"@,
        ValueType::String => "string"@,
        ValueType::Int64 => "bigint"@,
        ValueType::Uint64 => "bigint"@,
        ValueType::Long => "bigint"@,
        ValueType::Ulong => "bigint"@,
        ValueType::Double => "bigint"@,
        ValueType::Float64 => "bigint"@,
        ValueType::CompoundType(n) => n@ + "Content"@,
        _ => "number"@,
    }
}

pub open spec fn ts_type(t: Type) -> Seq<char> {
    if t.is_array {
        "Array<"@ + ts_value_type(t.value_type) + ">"@
    } else {
        ts_value_type(t.value_type)
    }
}

/// The name of the function that converts the content of `name`.
pub open spec fn converter(name: Seq<char>) -> Seq<char> {
    cased(name, TextCase::Camel) + "ContentIntoProtocolClass"@
}

/// `\tname: ty,` and a line break.
pub open spec fn ts_line(name: Seq<char>, ty: Seq<char>) -> Seq<char> {
    "\t"@ + name + ": "@ + ty + ",\n"@
}

pub open spec fn ts_table_field(f: FieldDeclaration, st: Statements) -> Seq<char> {
    let t = f.field_type;
    match t.value_type {
        ValueType::CompoundType(n) => if t.is_array {
            match st.kind_of(n@) {
                DeclKind::Enum => ts_line(f.name@, "Array<"@ + n@ + ">"@),
                _ => ts_line(f.name@, ts_type(t)),
            }
        } else {
            match st.kind_of(n@) {
                DeclKind::Union => ts_line(f.name@ + "Type"@, n@) + ts_line(f.name@, ts_type(t)),
                DeclKind::Enum => ts_line(f.name@, n@),
                _ => ts_line(f.name@, ts_type(t)),
            }
        },
        _ => if f.name@ == "id"@ {
            ts_line(f.name@ + "?"@, ts_type(t))
        } else {
            ts_line(f.name@, ts_type(t))
        },
    }
}

pub open spec fn ts_table_field_fn(st: Statements) -> spec_fn(FieldDeclaration) -> Seq<char> {
    |f: FieldDeclaration| ts_table_field(f, st)
}

pub open spec fn ts_table_text(t: TableDeclaration, st: Statements) -> Seq<char> {
    "export type "@ + t.name@ + "Content = {\n"@ + concat_map(t.fields@, ts_table_field_fn(st)) + (
    if synthetic_id(t, st) {
        "\tid?: string,\n"@
    } else {
        Seq::empty()
    }) + "}\n"@
}

/// The argument that the wire class's constructor gets for a table field.
pub open spec fn ts_ctor_arg(f: FieldDeclaration, st: Statements) -> Seq<char> {
    let t = f.field_type;
    let nm = f.name@;
    match t.value_type {
        ValueType::CompoundType(n) => if t.is_array {
            match st.kind_of(n@) {
                DeclKind::Table => "content."@ + nm + ".map("@ + converter(n@) + "), "@,
                DeclKind::Struct => "content."@ + nm + ".map("@ + converter(n@) + "), "@,
                DeclKind::Enum => "content."@ + nm + ", "@,
                _ => Seq::empty(),
            }
        } else {
            match st.kind_of(n@) {
                DeclKind::Table => converter(n@) + "(content."@ + nm + "), "@,
                DeclKind::Struct => converter(n@) + "(content."@ + nm + "), "@,
                DeclKind::Enum => "content."@ + nm + ", "@,
                DeclKind::Union => "content."@ + nm + "Type, content."@ + nm + ", "@,
                _ => Seq::empty(),
            }
        },
        _ => "content."@ + nm + ", "@,
    }
}

pub open spec fn ts_ctor_arg_fn(st: Statements) -> spec_fn(FieldDeclaration) -> Seq<char> {
    |f: FieldDeclaration| ts_ctor_arg(f, st)
}

/// `export const conv = (content: NameContent): NameT => { return new NameT(args); };`
pub open spec fn ts_converter_text(name: Seq<char>, args: Seq<char>) -> Seq<char> {
    "export const "@ + converter(name) + " = (content: "@ + name + "Content): "@ + name
        + "T => {\nreturn new "@ + name + "T("@ + args + ");\n};\n"@
}

pub open spec fn ts_table_function_text(t: TableDeclaration, st: Statements) -> Seq<char> {
    ts_converter_text(t.name@, concat_map(t.fields@, ts_ctor_arg_fn(st)))
}

pub open spec fn ts_struct_field_fn() -> spec_fn(FieldDeclaration) -> Seq<char> {
    |f: FieldDeclaration| "\t"@ + f.name@ + ": "@ + ts_type(f.field_type) + ";\n"@
}

pub open spec fn ts_struct_text(s: StructDeclaration) -> Seq<char> {
    "export type "@ + s.name@ + "Content = {\n"@ + concat_map(s.fields@, ts_struct_field_fn()) + "};\n"@
}

pub open spec fn ts_struct_arg_fn() -> spec_fn(FieldDeclaration) -> Seq<char> {
    |f: FieldDeclaration| "content."@ + f.name@ + ", "@
}

pub open spec fn ts_struct_function_text(s: StructDeclaration) -> Seq<char> {
    ts_converter_text(s.name@, concat_map(s.fields@, ts_struct_arg_fn()))
}

pub open spec fn ts_union_member_fn() -> spec_fn(String) -> Seq<char> {
    |m: String| "\t| "@ + m@ + "Content\n"@
}

pub open spec fn ts_union_text(u: UnionDeclaration) -> Seq<char> {
    "export type "@ + u.name@ + "Content =\n"@ + concat_map(u.items@, ts_union_member_fn()) + ";\n"@
}

/// The exported asynchronous function of one RPC method.
pub open spec fn ts_method(m: RpcMethod, st: Statements) -> Seq<char> {
    "export const "@ + cased(m.name@, TextCase::Camel) + " = async (transport: Transport, content: "@
        + m.input@ + "Content): Promise<"@ + m.output@
        + "Content> => {\nconst builder = new Builder();\nconst protocolPackage = "@ + converter(m.input@)
        + "(content);\nconst payloadOffset = protocolPackage.pack(builder);\nconst id = content.id ?? self.crypto.randomUUID();\nconst idOffset = builder.createString(id);\nconst root = "@
        + root_name(st) + ".create"@ + root_name(st) + "(builder, idOffset, "@ + union_name(st) + "."@
        + m.input@ + ", payloadOffset);\nbuilder.finish(root);\nconst response: "@ + root_name(st)
        + " = await transport.sendMessage(builder.asUint8Array(), id);\nconst responseData = new "@
        + m.output@ + "();\nresponse.payload(responseData);\nreturn {\n...responseData.unpack(),\nid\n} as unknown as "@
        + m.output@ + "Content;\n};\n"@
}

pub open spec fn ts_method_fn(st: Statements) -> spec_fn(RpcMethod) -> Seq<char> {
    |m: RpcMethod| ts_method(m, st)
}

pub open spec fn ts_binding_fn() -> spec_fn(RpcMethod) -> Seq<char> {
    |m: RpcMethod| cased(m.name@, TextCase::Camel) + ": "@ + cased(m.name@, TextCase::Camel) + ".bind(null, transport),\n"@
}

/// The functions of every method, and the factory that binds them to a transport.
pub open spec fn ts_rpc_text(r: RpcDeclaration, st: Statements) -> Seq<char> {
    concat_map(r.methods@, ts_method_fn(st))
        + "export const createApiObject = (transport: Transport) => {\nreturn {\n"@
        + concat_map(r.methods@, ts_binding_fn()) + "};\n};\n"@
}

pub open spec fn ts_class_import_fn() -> spec_fn(TableDeclaration) -> Seq<char> {
    |t: TableDeclaration| t.name@ + ", "@ + t.name@ + "T, "@
}

pub open spec fn ts_struct_import_fn() -> spec_fn(StructDeclaration) -> Seq<char> {
    |s: StructDeclaration| s.name@ + ", "@ + s.name@ + "T, "@
}

pub open spec fn ts_union_import_fn() -> spec_fn(UnionDeclaration) -> Seq<char> {
    |u: UnionDeclaration| u.name@ + ", "@
}

pub open spec fn ts_enum_import_fn() -> spec_fn(EnumDeclaration) -> Seq<char> {
    |e: EnumDeclaration| e.name@ + ", "@
}

/// The imports and the transport capability type.
pub open spec fn ts_header_text(st: Statements) -> Seq<char> {
    "import * as fb from \"flatbuffers\";\nconst {Builder} = fb;\nimport { "@
        + concat_map(st.table_declaration@, ts_class_import_fn())
        + concat_map(st.struct_declaration@, ts_struct_import_fn())
        + concat_map(st.unions@, ts_union_import_fn())
        + concat_map(st.enum_declarations@, ts_enum_import_fn())
        + "} from \"./schema_generated\";\nexport type Transport = {\n\tsendMessage: (msg: Uint8Array, id: string) => Promise<"@
        + root_name(st) + ">\n};\n"@
}

pub open spec fn ts_table_unit_fn(st: Statements) -> spec_fn(TableDeclaration) -> Seq<char> {
    |t: TableDeclaration| ts_table_text(t, st) + "\n"@ + ts_table_function_text(t, st) + "\n"@
}

pub open spec fn ts_struct_unit_fn() -> spec_fn(StructDeclaration) -> Seq<char> {
    |s: StructDeclaration| ts_struct_text(s) + "\n"@ + ts_struct_function_text(s) + "\n"@
}

pub open spec fn ts_union_unit_fn() -> spec_fn(UnionDeclaration) -> Seq<char> {
    |u: UnionDeclaration| ts_union_text(u) + "\n"@
}

pub open spec fn ts_rpc_unit_fn(st: Statements) -> spec_fn(RpcDeclaration) -> Seq<char> {
    |r: RpcDeclaration| ts_rpc_text(r, st) + "\n"@
}

/// The whole client-side binding.
pub open spec fn ts_client_code(st: Statements) -> Seq<char> {
    ts_header_text(st) + "\n"@ + concat_map(st.table_declaration@, ts_table_unit_fn(st))
        + concat_map(st.struct_declaration@, ts_struct_unit_fn()) + concat_map(
        st.unions@,
        ts_union_unit_fn(),
    ) + concat_map(st.rpc_declarations@, ts_rpc_unit_fn(st))
}

fn value_type_ts(v: &ValueType) -> (r: String)
    ensures
        r@ == ts_value_type(*v),
{
    match v {
        ValueType::Bool => "boolean".to_owned(),
        ValueType::String => "string".to_owned(),
        ValueType::Int64 => "bigint".to_owned(),
        ValueType::Uint64 => "bigint".to_owned(),
        ValueType::Long => "bigint".to_owned(),
        ValueType::Ulong => "bigint".to_owned(),
        ValueType::Double => "bigint".to_owned(),
        ValueType::Float64 => "bigint".to_owned(),
        ValueType::CompoundType(n) => {
            let mut r = n.clone();
            r.append("Content");
            r
        },
        _ => "number".to_owned(),
    }
}

fn type_ts(t: &Type) -> (r: String)
    ensures
        r@ == ts_type(*t),
{
    if t.is_array {
        let mut r = String::from_str("Array<");
        r.append(value_type_ts(&t.value_type).as_str());
        r.append(">");
        r
    } else {
        value_type_ts(&t.value_type)
    }
}

impl ToTsStatement for ValueType {
    open spec fn well_named(&self) -> bool {
        true
    }

    open spec fn ts_text(&self, statements: Statements) -> Seq<char> {
        ts_value_type(*self)
    }

    fn to_ts_string(&self, statements: &Statements) -> (r: String) {
        value_type_ts(self)
    }
}

impl ToTsStatement for Type {
    open spec fn well_named(&self) -> bool {
        true
    }

    open spec fn ts_text(&self, statements: Statements) -> Seq<char> {
        ts_type(*self)
    }

    fn to_ts_string(&self, statements: &Statements) -> (r: String) {
        type_ts(self)
    }
}

fn emit_converter(name: &str) -> (r: String)
    requires
        crate::ir::is_identifier(name@),
    ensures
        r@ == converter(name@),
{
    let mut r = to_case(name, TextCase::Camel);
    r.append("ContentIntoProtocolClass");
    r
}

fn emit_ts_line(name: &str, ty: &str) -> (r: String)
    ensures
        r@ == ts_line(name@, ty@),
{
    let mut r = String::from_str("\t");
    r.append(name);
    r.append(": ");
    r.append(ty);
    r.append(",\n");
    r
}

/// `name` followed by `suffix`.
fn suffixed(name: &String, suffix: &str) -> (r: String)
    ensures
        r@ == name@ + suffix@,
{
    let mut r = name.clone();
    r.append(suffix);
    r
}

fn emit_ts_table_field(f: &FieldDeclaration, st: &Statements) -> (r: String)
    requires
        st.wf(),
    ensures
        r@ == ts_table_field(*f, *st),
{
    let t = &f.field_type;
    let nm = f.name.as_str();
    match &t.value_type {
        ValueType::CompoundType(n) => {
            let kind = st.decl_kind(n.as_str());
            if t.is_array {
                match kind {
                    DeclKind::Enum => {
                        let mut ty = String::from_str("Array<");
                        ty.append(n.as_str());
                        ty.append(">");
                        emit_ts_line(nm, ty.as_str())
                    },
                    _ => emit_ts_line(nm, type_ts(t).as_str()),
                }
            } else {
                match kind {
                    DeclKind::Union => {
                        let mut r = emit_ts_line(suffixed(&f.name, "Type").as_str(), n.as_str());
                        r.append(emit_ts_line(nm, type_ts(t).as_str()).as_str());
                        r
                    },
                    DeclKind::Enum => emit_ts_line(nm, n.as_str()),
                    _ => emit_ts_line(nm, type_ts(t).as_str()),
                }
            }
        },
        _ => {
            let id = String::from_str("id");
            if f.name == id {
                emit_ts_line(suffixed(&f.name, "?").as_str(), type_ts(t).as_str())
            } else {
                emit_ts_line(nm, type_ts(t).as_str())
            }
        },
    }
}

/// `content.name<tail>`.
fn content_ref(name: &str, tail: &str) -> (r: String)
    ensures
        r@ == "content."@ + name@ + tail@,
{
    let mut r = String::from_str("content.");
    r.append(name);
    r.append(tail);
    r
}

fn emit_ctor_arg(f: &FieldDeclaration, st: &Statements) -> (r: String)
    requires
        st.wf(),
        crate::ir::type_named_ok(f.field_type),
    ensures
        r@ == ts_ctor_arg(*f, *st),
{
    let t = &f.field_type;
    let nm = f.name.as_str();
    match &t.value_type {
        ValueType::CompoundType(n) => {
            let kind = st.decl_kind(n.as_str());
            if t.is_array {
                match kind {
                    DeclKind::Table | DeclKind::Struct => {
                        let mut r = content_ref(nm, ".map(");
                        r.append(emit_converter(n.as_str()).as_str());
                        r.append("), ");
                        r
                    },
                    DeclKind::Enum => content_ref(nm, ", "),
                    _ => String::new(),
                }
            } else {
                match kind {
                    DeclKind::Table | DeclKind::Struct => {
                        let mut r = emit_converter(n.as_str());
                        r.append("(content.");
                        r.append(nm);
                        r.append("), ");
                        r
                    },
                    DeclKind::Enum => content_ref(nm, ", "),
                    DeclKind::Union => {
                        let mut r = content_ref(nm, "Type, content.");
                        r.append(nm);
                        r.append(", ");
                        r
                    },
                    _ => String::new(),
                }
            }
        },
        _ => content_ref(nm, ", "),
    }
}

fn emit_converter_text(name: &String, args: &String) -> (r: String)
    requires
        crate::ir::is_identifier(name@),
    ensures
        r@ == ts_converter_text(name@, args@),
{
    let mut r = String::from_str("export const ");
    r.append(emit_converter(name.as_str()).as_str());
    r.append(" = (content: ");
    r.append(name.as_str());
    r.append("Content): ");
    r.append(name.as_str());
    r.append("T => {\nreturn new ");
    r.append(name.as_str());
    r.append("T(");
    r.append(args.as_str());
    r.append(");\n};\n");
    r
}

fn emit_struct_field_ts(f: &FieldDeclaration) -> (r: String)
    ensures
        r@ == (ts_struct_field_fn())(*f),
{
    let mut r = String::from_str("\t");
    r.append(f.name.as_str());
    r.append(": ");
    r.append(type_ts(&f.field_type).as_str());
    r.append(";\n");
    r
}

fn emit_union_member(m: &String) -> (r: String)
    ensures
        r@ == (ts_union_member_fn())(*m),
{
    let mut r = String::from_str("\t| ");
    r.append(m.as_str());
    r.append("Content\n");
    r
}

/// Type alias entries of the table's fields.
fn ts_table_fields(d: &TableDeclaration, st: &Statements) -> (r: String)
    requires
        st.wf(),
    ensures
        r@ == concat_map(d.fields@, ts_table_field_fn(*st)),
{
    let mut out = String::new();
    let mut i: usize = 0;
    proof {
        lemma_concat_map_all(d.fields@, ts_table_field_fn(*st));
    }
    while i < d.fields.len()
        invariant
            i <= d.fields.len(),
            st.wf(),
            out@ == concat_map(d.fields@.take(i as int), ts_table_field_fn(*st)),
        decreases d.fields.len() - i,
    {
        proof {
            lemma_concat_map_step(d.fields@, i as int, ts_table_field_fn(*st));
        }
        out.append(emit_ts_table_field(&d.fields[i], st).as_str());
        i = i + 1;
    }
    proof {
        lemma_concat_map_all(d.fields@, ts_table_field_fn(*st));
    }
    out
}

/// Constructor arguments of the table's fields.
fn ts_table_args(d: &TableDeclaration, st: &Statements) -> (r: String)
    requires
        st.wf(),
        crate::ir::fields_named_ok(d.fields@),
    ensures
        r@ == concat_map(d.fields@, ts_ctor_arg_fn(*st)),
{
    let mut out = String::new();
    let mut i: usize = 0;
    proof {
        lemma_concat_map_all(d.fields@, ts_ctor_arg_fn(*st));
    }
    while i < d.fields.len()
        invariant
            i <= d.fields.len(),
            crate::ir::fields_named_ok(d.fields@),
            st.wf(),
            out@ == concat_map(d.fields@.take(i as int), ts_ctor_arg_fn(*st)),
        decreases d.fields.len() - i,
    {
        proof {
            lemma_concat_map_step(d.fields@, i as int, ts_ctor_arg_fn(*st));
        }
        out.append(emit_ctor_arg(&d.fields[i], st).as_str());
        i = i + 1;
    }
    proof {
        lemma_concat_map_all(d.fields@, ts_ctor_arg_fn(*st));
    }
    out
}

/// Type alias entries of the struct's fields.
fn ts_struct_fields(d: &StructDeclaration) -> (r: String)
    ensures
        r@ == concat_map(d.fields@, ts_struct_field_fn()),
{
    let mut out = String::new();
    let mut i: usize = 0;
    proof {
        lemma_concat_map_all(d.fields@, ts_struct_field_fn());
    }
    while i < d.fields.len()
        invariant
            i <= d.fields.len(),
            out@ == concat_map(d.fields@.take(i as int), ts_struct_field_fn()),
        decreases d.fields.len() - i,
    {
        proof {
            lemma_concat_map_step(d.fields@, i as int, ts_struct_field_fn());
        }
        out.append(emit_struct_field_ts(&d.fields[i]).as_str());
        i = i + 1;
    }
    proof {
        lemma_concat_map_all(d.fields@, ts_struct_field_fn());
    }
    out
}

/// Constructor arguments of the struct's fields.
fn ts_struct_args(d: &StructDeclaration) -> (r: String)
    ensures
        r@ == concat_map(d.fields@, ts_struct_arg_fn()),
{
    let mut out = String::new();
    let mut i: usize = 0;
    proof {
        lemma_concat_map_all(d.fields@, ts_struct_arg_fn());
    }
    while i < d.fields.len()
        invariant
            i <= d.fields.len(),
            out@ == concat_map(d.fields@.take(i as int), ts_struct_arg_fn()),
        decreases d.fields.len() - i,
    {
        proof {
            lemma_concat_map_step(d.fields@, i as int, ts_struct_arg_fn());
        }
        out.append(content_ref(d.fields[i].name.as_str(), ", ").as_str());
        i = i + 1;
    }
    proof {
        lemma_concat_map_all(d.fields@, ts_struct_arg_fn());
    }
    out
}

/// The members of a union type alias.
fn ts_union_members(u: &UnionDeclaration) -> (r: String)
    ensures
        r@ == concat_map(u.items@, ts_union_member_fn()),
{
    let mut out = String::new();
    let mut i: usize = 0;
    proof {
        lemma_concat_map_all(u.items@, ts_union_member_fn());
    }
    while i < u.items.len()
        invariant
            i <= u.items.len(),
            out@ == concat_map(u.items@.take(i as int), ts_union_member_fn()),
        decreases u.items.len() - i,
    {
        proof {
            lemma_concat_map_step(u.items@, i as int, ts_union_member_fn());
        }
        out.append(emit_union_member(&u.items[i]).as_str());
        i = i + 1;
    }
    proof {
        lemma_concat_map_all(u.items@, ts_union_member_fn());
    }
    out
}

impl ToTsStatement for TableDeclaration {
    open spec fn well_named(&self) -> bool {
        self.names_ok()
    }

    open spec fn ts_text(&self, statements: Statements) -> Seq<char> {
        ts_table_text(*self, statements)
    }

    fn to_ts_string(&self, statements: &Statements) -> (r: String) {
        let mut r = String::from_str("export type ");
        r.append(self.name.as_str());
        r.append("Content = {\n");
        r.append(ts_table_fields(self, statements).as_str());
        let extra = if needs_synthetic_id(self, statements) {
            String::from_str("\tid?: string,\n")
        } else {
            String::new()
        };
        r.append(extra.as_str());
        r.append("}\n");
        r
    }
}

impl GenerateIntoFunctionStatement for TableDeclaration {
    open spec fn well_named(&self) -> bool {
        self.names_ok()
    }

    open spec fn function_text(&self, statements: Statements) -> Seq<char> {
        ts_table_function_text(*self, statements)
    }

    fn generate_into_function_statement(&self, statements: &Statements) -> (r: String) {
        emit_converter_text(&self.name, &ts_table_args(self, statements))
    }
}

impl ToTsStatement for StructDeclaration {
    open spec fn well_named(&self) -> bool {
        self.names_ok()
    }

    open spec fn ts_text(&self, statements: Statements) -> Seq<char> {
        ts_struct_text(*self)
    }

    fn to_ts_string(&self, statements: &Statements) -> (r: String) {
        let mut r = String::from_str("export type ");
        r.append(self.name.as_str());
        r.append("Content = {\n");
        r.append(ts_struct_fields(self).as_str());
        r.append("};\n");
        r
    }
}

impl GenerateIntoFunctionStatement for StructDeclaration {
    open spec fn well_named(&self) -> bool {
        self.names_ok()
    }

    open spec fn function_text(&self, statements: Statements) -> Seq<char> {
        ts_struct_function_text(*self)
    }

    fn generate_into_function_statement(&self, statements: &Statements) -> (r: String) {
        emit_converter_text(&self.name, &ts_struct_args(self))
    }
}

impl ToTsStatement for UnionDeclaration {
    open spec fn well_named(&self) -> bool {
        self.names_ok()
    }

    open spec fn ts_text(&self, statements: Statements) -> Seq<char> {
        ts_union_text(*self)
    }

    fn to_ts_string(&self, statements: &Statements) -> (r: String) {
        let mut r = String::from_str("export type ");
        r.append(self.name.as_str());
        r.append("Content =\n");
        r.append(ts_union_members(self).as_str());
        r.append(";\n");
        r
    }
}

fn emit_method(m: &RpcMethod, st: &Statements) -> (r: String)
    requires
        st.wf(),
        is_valid(*st),
        st.names_ok(),
        st.refs_resolved(),
        crate::ir::method_named_ok(*m),
    ensures
        r@ == ts_method(*m, *st),
{
    let (root, union) = root_and_union(st);
    let mut r = String::from_str("export const ");
    r.append(to_case(m.name.as_str(), TextCase::Camel).as_str());
    r.append(" = async (transport: Transport, content: ");
    r.append(m.input.as_str());
    r.append("Content): Promise<");
    r.append(m.output.as_str());
    r.append("Content> => {\nconst builder = new Builder();\nconst protocolPackage = ");
    r.append(emit_converter(m.input.as_str()).as_str());
    r.append(
        "(content);\nconst payloadOffset = protocolPackage.pack(builder);\nconst id = content.id ?? self.crypto.randomUUID();\nconst idOffset = builder.createString(id);\nconst root = ",
    );
    r.append(root.as_str());
    r.append(".create");
    r.append(root.as_str());
    r.append("(builder, idOffset, ");
    r.append(union.as_str());
    r.append(".");
    r.append(m.input.as_str());
    r.append(", payloadOffset);\nbuilder.finish(root);\nconst response: ");
    r.append(root.as_str());
    r.append(" = await transport.sendMessage(builder.asUint8Array(), id);\nconst responseData = new ");
    r.append(m.output.as_str());
    r.append("();\nresponse.payload(responseData);\nreturn {\n...responseData.unpack(),\nid\n} as unknown as ");
    r.append(m.output.as_str());
    r.append("Content;\n};\n");
    r
}

fn emit_binding(m: &RpcMethod) -> (r: String)
    requires
        crate::ir::method_named_ok(*m),
    ensures
        r@ == (ts_binding_fn())(*m),
{
    let camel = to_case(m.name.as_str(), TextCase::Camel);
    let mut r = camel.clone();
    r.append(": ");
    r.append(camel.as_str());
    r.append(".bind(null, transport),\n");
    r
}

/// The functions of every method of a service.
fn ts_methods(rpc: &RpcDeclaration, st: &Statements) -> (r: String)
    requires
        st.wf(),
        is_valid(*st),
        st.names_ok(),
        st.refs_resolved(),
        rpc.names_ok(),
    ensures
        r@ == concat_map(rpc.methods@, ts_method_fn(*st)),
{
    let mut out = String::new();
    let mut i: usize = 0;
    proof {
        lemma_concat_map_all(rpc.methods@, ts_method_fn(*st));
    }
    while i < rpc.methods.len()
        invariant
            i <= rpc.methods.len(),
            rpc.names_ok(),
            st.wf(),
            is_valid(*st),
            st.names_ok(),
            st.refs_resolved(),
            out@ == concat_map(rpc.methods@.take(i as int), ts_method_fn(*st)),
        decreases rpc.methods.len() - i,
    {
        proof {
            lemma_concat_map_step(rpc.methods@, i as int, ts_method_fn(*st));
        }
        out.append(emit_method(&rpc.methods[i], st).as_str());
        i = i + 1;
    }
    proof {
        lemma_concat_map_all(rpc.methods@, ts_method_fn(*st));
    }
    out
}

/// The factory's entries, one per method.
fn ts_bindings(rpc: &RpcDeclaration) -> (r: String)
    requires
        rpc.names_ok(),
    ensures
        r@ == concat_map(rpc.methods@, ts_binding_fn()),
{
    let mut out = String::new();
    let mut i: usize = 0;
    proof {
        lemma_concat_map_all(rpc.methods@, ts_binding_fn());
    }
    while i < rpc.methods.len()
        invariant
            i <= rpc.methods.len(),
            rpc.names_ok(),
            out@ == concat_map(rpc.methods@.take(i as int), ts_binding_fn()),
        decreases rpc.methods.len() - i,
    {
        proof {
            lemma_concat_map_step(rpc.methods@, i as int, ts_binding_fn());
        }
        out.append(emit_binding(&rpc.methods[i]).as_str());
        i = i + 1;
    }
    proof {
        lemma_concat_map_all(rpc.methods@, ts_binding_fn());
    }
    out
}

impl ToTsStatement for RpcDeclaration {
    open spec fn well_named(&self) -> bool {
        self.names_ok()
    }

    open spec fn ts_text(&self, statements: Statements) -> Seq<char> {
        ts_rpc_text(*self, statements)
    }

    fn to_ts_string(&self, statements: &Statements) -> (r: String) {
        let mut r = ts_methods(self, statements);
        r.append("export const createApiObject = (transport: Transport) => {\nreturn {\n");
        r.append(ts_bindings(self).as_str());
        r.append("};\n};\n");
        r
    }
}

/// `name, nameT, `.
fn class_import(name: &String) -> (r: String)
    ensures
        r@ == name@ + ", "@ + name@ + "T, "@,
{
    let mut r = name.clone();
    r.append(", ");
    r.append(name.as_str());
    r.append("T, ");
    r
}

/// `name, `.
fn listed(name: &String) -> (r: String)
    ensures
        r@ == name@ + ", "@,
{
    let mut r = name.clone();
    r.append(", ");
    r
}

fn emit_table_unit(t: &TableDeclaration, st: &Statements) -> (r: String)
    requires
        st.wf(),
        is_valid(*st),
        st.names_ok(),
        st.refs_resolved(),
        t.names_ok(),
    ensures
        r@ == (ts_table_unit_fn(*st))(*t),
{
    let mut r = t.to_ts_string(st);
    r.append("\n");
    r.append(t.generate_into_function_statement(st).as_str());
    r.append("\n");
    r
}

fn emit_struct_unit(s: &StructDeclaration, st: &Statements) -> (r: String)
    requires
        st.wf(),
        is_valid(*st),
        st.names_ok(),
        st.refs_resolved(),
        s.names_ok(),
    ensures
        r@ == (ts_struct_unit_fn())(*s),
{
    let mut r = s.to_ts_string(st);
    r.append("\n");
    r.append(s.generate_into_function_statement(st).as_str());
    r.append("\n");
    r
}

fn emit_union_unit(u: &UnionDeclaration, st: &Statements) -> (r: String)
    requires
        st.wf(),
        is_valid(*st),
        st.names_ok(),
        st.refs_resolved(),
        u.names_ok(),
    ensures
        r@ == (ts_union_unit_fn())(*u),
{
    let mut r = u.to_ts_string(st);
    r.append("\n");
    r
}

fn emit_rpc_unit(rpc: &RpcDeclaration, st: &Statements) -> (r: String)
    requires
        st.wf(),
        is_valid(*st),
        st.names_ok(),
        st.refs_resolved(),
        rpc.names_ok(),
    ensures
        r@ == (ts_rpc_unit_fn(*st))(*rpc),
{
    let mut r = rpc.to_ts_string(st);
    r.append("\n");
    r
}

/// Imports of every table and its class.
fn table_imports(st: &Statements) -> (r: String)
    ensures
        r@ == concat_map(st.table_declaration@, ts_class_import_fn()),
{
    let mut out = String::new();
    let mut i: usize = 0;
    proof {
        lemma_concat_map_all(st.table_declaration@, ts_class_import_fn());
    }
    while i < st.table_declaration.len()
        invariant
            i <= st.table_declaration.len(),
            out@ == concat_map(st.table_declaration@.take(i as int), ts_class_import_fn()),
        decreases st.table_declaration.len() - i,
    {
        proof {
            lemma_concat_map_step(st.table_declaration@, i as int, ts_class_import_fn());
        }
        out.append(class_import(&st.table_declaration[i].name).as_str());
        i = i + 1;
    }
    proof {
        lemma_concat_map_all(st.table_declaration@, ts_class_import_fn());
    }
    out
}

/// Imports of every struct and its class.
fn struct_imports(st: &Statements) -> (r: String)
    ensures
        r@ == concat_map(st.struct_declaration@, ts_struct_import_fn()),
{
    let mut out = String::new();
    let mut i: usize = 0;
    proof {
        lemma_concat_map_all(st.struct_declaration@, ts_struct_import_fn());
    }
    while i < st.struct_declaration.len()
        invariant
            i <= st.struct_declaration.len(),
            out@ == concat_map(st.struct_declaration@.take(i as int), ts_struct_import_fn()),
        decreases st.struct_declaration.len() - i,
    {
        proof {
            lemma_concat_map_step(st.struct_declaration@, i as int, ts_struct_import_fn());
        }
        out.append(class_import(&st.struct_declaration[i].name).as_str());
        i = i + 1;
    }
    proof {
        lemma_concat_map_all(st.struct_declaration@, ts_struct_import_fn());
    }
    out
}

/// Imports of every union.
fn union_imports(st: &Statements) -> (r: String)
    ensures
        r@ == concat_map(st.unions@, ts_union_import_fn()),
{
    let mut out = String::new();
    let mut i: usize = 0;
    proof {
        lemma_concat_map_all(st.unions@, ts_union_import_fn());
    }
    while i < st.unions.len()
        invariant
            i <= st.unions.len(),
            out@ == concat_map(st.unions@.take(i as int), ts_union_import_fn()),
        decreases st.unions.len() - i,
    {
        proof {
            lemma_concat_map_step(st.unions@, i as int, ts_union_import_fn());
        }
        out.append(listed(&st.unions[i].name).as_str());
        i = i + 1;
    }
    proof {
        lemma_concat_map_all(st.unions@, ts_union_import_fn());
    }
    out
}

/// Imports of every enum.
fn enum_imports(st: &Statements) -> (r: String)
    ensures
        r@ == concat_map(st.enum_declarations@, ts_enum_import_fn()),
{
    let mut out = String::new();
    let mut i: usize = 0;
    proof {
        lemma_concat_map_all(st.enum_declarations@, ts_enum_import_fn());
    }
    while i < st.enum_declarations.len()
        invariant
            i <= st.enum_declarations.len(),
            out@ == concat_map(st.enum_declarations@.take(i as int), ts_enum_import_fn()),
        decreases st.enum_declarations.len() - i,
    {
        proof {
            lemma_concat_map_step(st.enum_declarations@, i as int, ts_enum_import_fn());
        }
        out.append(listed(&st.enum_declarations[i].name).as_str());
        i = i + 1;
    }
    proof {
        lemma_concat_map_all(st.enum_declarations@, ts_enum_import_fn());
    }
    out
}

/// Type aliases and converters of every table.
fn table_units(st: &Statements) -> (r: String)
    requires
        st.wf(),
        is_valid(*st),
        st.names_ok(),
        st.refs_resolved(),
    ensures
        r@ == concat_map(st.table_declaration@, ts_table_unit_fn(*st)),
{
    let mut out = String::new();
    let mut i: usize = 0;
    proof {
        lemma_concat_map_all(st.table_declaration@, ts_table_unit_fn(*st));
    }
    while i < st.table_declaration.len()
        invariant
            i <= st.table_declaration.len(),
            st.wf(),
            is_valid(*st),
            st.names_ok(),
            st.refs_resolved(),
            out@ == concat_map(st.table_declaration@.take(i as int), ts_table_unit_fn(*st)),
        decreases st.table_declaration.len() - i,
    {
        proof {
            lemma_concat_map_step(st.table_declaration@, i as int, ts_table_unit_fn(*st));
        }
        out.append(emit_table_unit(&st.table_declaration[i], st).as_str());
        i = i + 1;
    }
    proof {
        lemma_concat_map_all(st.table_declaration@, ts_table_unit_fn(*st));
    }
    out
}

/// Type aliases and converters of every struct.
fn struct_units(st: &Statements) -> (r: String)
    requires
        st.wf(),
        is_valid(*st),
        st.names_ok(),
        st.refs_resolved(),
    ensures
        r@ == concat_map(st.struct_declaration@, ts_struct_unit_fn()),
{
    let mut out = String::new();
    let mut i: usize = 0;
    proof {
        lemma_concat_map_all(st.struct_declaration@, ts_struct_unit_fn());
    }
    while i < st.struct_declaration.len()
        invariant
            i <= st.struct_declaration.len(),
            st.wf(),
            is_valid(*st),
            st.names_ok(),
            st.refs_resolved(),
            out@ == concat_map(st.struct_declaration@.take(i as int), ts_struct_unit_fn()),
        decreases st.struct_declaration.len() - i,
    {
        proof {
            lemma_concat_map_step(st.struct_declaration@, i as int, ts_struct_unit_fn());
        }
        out.append(emit_struct_unit(&st.struct_declaration[i], st).as_str());
        i = i + 1;
    }
    proof {
        lemma_concat_map_all(st.struct_declaration@, ts_struct_unit_fn());
    }
    out
}

/// Type aliases of every union.
fn union_units(st: &Statements) -> (r: String)
    requires
        st.wf(),
        is_valid(*st),
        st.names_ok(),
        st.refs_resolved(),
    ensures
        r@ == concat_map(st.unions@, ts_union_unit_fn()),
{
    let mut out = String::new();
    let mut i: usize = 0;
    proof {
        lemma_concat_map_all(st.unions@, ts_union_unit_fn());
    }
    while i < st.unions.len()
        invariant
            i <= st.unions.len(),
            st.wf(),
            is_valid(*st),
            st.names_ok(),
            st.refs_resolved(),
            out@ == concat_map(st.unions@.take(i as int), ts_union_unit_fn()),
        decreases st.unions.len() - i,
    {
        proof {
            lemma_concat_map_step(st.unions@, i as int, ts_union_unit_fn());
        }
        out.append(emit_union_unit(&st.unions[i], st).as_str());
        i = i + 1;
    }
    proof {
        lemma_concat_map_all(st.unions@, ts_union_unit_fn());
    }
    out
}

/// Functions and factories of every service.
fn rpc_units(st: &Statements) -> (r: String)
    requires
        st.wf(),
        is_valid(*st),
        st.names_ok(),
        st.refs_resolved(),
    ensures
        r@ == concat_map(st.rpc_declarations@, ts_rpc_unit_fn(*st)),
{
    let mut out = String::new();
    let mut i: usize = 0;
    proof {
        lemma_concat_map_all(st.rpc_declarations@, ts_rpc_unit_fn(*st));
    }
    while i < st.rpc_declarations.len()
        invariant
            i <= st.rpc_declarations.len(),
            st.wf(),
            is_valid(*st),
            st.names_ok(),
            st.refs_resolved(),
            out@ == concat_map(st.rpc_declarations@.take(i as int), ts_rpc_unit_fn(*st)),
        decreases st.rpc_declarations.len() - i,
    {
        proof {
            lemma_concat_map_step(st.rpc_declarations@, i as int, ts_rpc_unit_fn(*st));
        }
        out.append(emit_rpc_unit(&st.rpc_declarations[i], st).as_str());
        i = i + 1;
    }
    proof {
        lemma_concat_map_all(st.rpc_declarations@, ts_rpc_unit_fn(*st));
    }
    out
}

/// The imports and the transport capability type.
pub fn generate_header(statements: &Statements) -> (r: String)
    requires
        statements.wf(),
        is_valid(*statements),
        statements.names_ok(),
        statements.refs_resolved(),
    ensures
        r@ == ts_header_text(*statements),
{
    let (root, _) = root_and_union(statements);
    let mut r = String::from_str("import * as fb from \"flatbuffers\";\nconst {Builder} = fb;\nimport { ");
    r.append(table_imports(statements).as_str());
    r.append(struct_imports(statements).as_str());
    r.append(union_imports(statements).as_str());
    r.append(enum_imports(statements).as_str());
    r.append(
        "} from \"./schema_generated\";\nexport type Transport = {\n\tsendMessage: (msg: Uint8Array, id: string) => Promise<",
    );
    r.append(root.as_str());
    r.append(">\n};\n");
    r
}

/// The whole client-side binding of a valid schema.
pub fn generate_ts_client_side_code(statements: &Statements) -> (r: String)
    requires
        statements.wf(),
        is_valid(*statements),
        statements.names_ok(),
        statements.refs_resolved(),
    ensures
        r@ == ts_client_code(*statements),
{
    let mut r = generate_header(statements);
    r.append("\n");
    r.append(table_units(statements).as_str());
    r.append(struct_units(statements).as_str());
    r.append(union_units(statements).as_str());
    r.append(rpc_units(statements).as_str());
    r
}

/// A member of the root dispatch union carries exactly one `id` field in both
/// bindings: the one it declares (field names being distinct, at most one is
/// called `id`), or else one synthetic `id` of string type, appended after the
/// declared fields.
pub proof fn lemma_dispatch_payload_id(t: TableDeclaration, st: Statements)
    requires
        t.wf(),
        st.in_commands_union(t.name@),
    ensures
        forall|i: int, j: int|
            #![trigger field_names(t.fields@)[i], field_names(t.fields@)[j]]
            0 <= i < t.fields@.len() && 0 <= j < t.fields@.len() && field_names(t.fields@)[i] == "id"@
                && field_names(t.fields@)[j] == "id"@ ==> i == j,
        field_names(t.fields@).contains("id"@) ==> {
            &&& rs_table_text(t, st) == "pub struct "@ + t.name@ + "Content {\n"@
                + concat_map(t.fields@, rs_table_field_fn(st)) + "}\n"@
            &&& ts_table_text(t, st) == "export type "@ + t.name@ + "Content = {\n"@ + concat_map(
                t.fields@,
                ts_table_field_fn(st),
            ) + "}\n"@
        },
        !field_names(t.fields@).contains("id"@) ==> {
            &&& rs_table_text(t, st) == "pub struct "@ + t.name@ + "Content {\n"@
                + concat_map(t.fields@, rs_table_field_fn(st))
                + "\tpub id: String,\n"@ + "}\n"@
            &&& ts_table_text(t, st) == "export type "@ + t.name@ + "Content = {\n"@ + concat_map(
                t.fields@,
                ts_table_field_fn(st),
            ) + "\tid?: string,\n"@ + "}\n"@
        },
{
    let rs_head = "pub struct "@ + t.name@ + "Content {\n"@ + concat_map(
        t.fields@,
        rs_table_field_fn(st),
    );
    let ts_head = "export type "@ + t.name@ + "Content = {\n"@ + concat_map(t.fields@, ts_table_field_fn(st));
    assert(rs_head + Seq::<char>::empty() =~= rs_head);
    assert(ts_head + Seq::<char>::empty() =~= ts_head);
}

} // verus!
