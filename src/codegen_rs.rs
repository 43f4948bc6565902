use vstd::prelude::*;
use crate::ir::{
    field_names, EnumDeclaration, FieldDeclaration, UnionDeclaration, RpcDeclaration, RpcMethod, StructDeclaration, TableDeclaration,
    Type, ValueType,
};
use crate::naming::{cased, concat_map, lemma_concat_map_all, lemma_concat_map_step, to_case, TextCase};
use crate::parser::{DeclKind, Statements};
use crate::typechecker::is_valid;

verus! {

/// Emission of a declaration as server-side Rust source.
pub trait ToRsStatement {
    /// Every name of the declaration that the emitted text recases is an identifier.
    spec fn well_named(&self) -> bool;

    spec fn rs_text(&self, statements: Statements) -> Seq<char>;

    fn to_rs_string(&self, statements: &Statements) -> (r: String)
        requires
            self.well_named(),
            statements.wf(),
            is_valid(*statements),
            statements.names_ok(),
            statements.refs_resolved(),
        ensures
            r@ == self.rs_text(*statements),
    ;
}

/// Emission of the conversion of a struct's content into its wire type.
pub trait GenerateIntoProtocolStructImpl {
    spec fn protocol_struct_text(&self) -> Seq<char>;

    fn generate_into_protocol_struct_impl(&self) -> (r: String)
        ensures
            r@ == self.protocol_struct_text(),
    ;
}

/// Emission of the routine that builds a table's content into a wire offset.
pub trait GenerateIntoOffsetImpl {
    spec fn offset_text(&self, statements: Statements) -> Seq<char>;

    fn generate_into_offset_impl(&self, statements: &Statements) -> (r: String)
        requires
            statements.wf(),
            is_valid(*statements),
            statements.names_ok(),
            statements.refs_resolved(),
        ensures
            r@ == self.offset_text(*statements),
    ;
}

/// Emission of the conversion of a dispatch payload into a finished buffer.
pub trait GenerateIntoByteVecImpl {
    spec fn byte_vec_text(&self, statements: Statements) -> Seq<char>;

    fn generate_into_byte_vec_impl(&self, statements: &Statements) -> (r: String)
        requires
            statements.wf(),
            is_valid(*statements),
            statements.names_ok(),
            statements.refs_resolved(),
        ensures
            r@ == self.byte_vec_text(*statements),
    ;
}

pub open spec fn rs_value_type(v: ValueType) -> Seq<char> {
    match v {
        ValueType::Bool => "bool"@,
        ValueType::Byte => "i8"@,
        ValueType::Ubyte => "u8"@,
        ValueType::Short => "i16"@,
        ValueType::Ushort => "u16"@,
        ValueType::Int => "i32"@,
        ValueType::Uint => "u32"@,
        ValueType::Float => "f32"@,
        ValueType::Long => "i64"@,
        ValueType::Ulong => "u64"@,
        ValueType::Double => "f64"@,
        ValueType::Int8 => "i8"@,
        ValueType::Uint8 => "u8"@,
        ValueType::Int16 => "i16"@,
        ValueType::Uint16 => "u16"@,
        ValueType::Int32 => "i32"@,
        ValueType::Uint32 => "u32"@,
        ValueType::Int64 => "i64"@,
        ValueType::Uint64 => "u64"@,
        ValueType::Float32 => "f32"@,
        ValueType::Float64 => "f64"@,
        ValueType::String => "String"@,
        ValueType::CompoundType(n) => n@ + "Content"@,
    }
}

pub open spec fn rs_type(t: Type) -> Seq<char> {
    if t.is_array {
        "Vec<"@ + rs_value_type(t.value_type) + ">"@
    } else {
        rs_value_type(t.value_type)
    }
}

/// `\tpub name: ty,` and a line break.
pub open spec fn pub_line(name: Seq<char>, ty: Seq<char>) -> Seq<char> {
    "\tpub "@ + name + ": "@ + ty + ",\n"@
}

/// The field of a table's content record.
pub open spec fn rs_table_field(f: FieldDeclaration, st: Statements) -> Seq<char> {
    let t = f.field_type;
    match t.value_type {
        ValueType::CompoundType(n) => if t.is_array {
            match st.kind_of(n@) {
                DeclKind::Enum => pub_line(f.name@, "Vec<"@ + n@ + ">"@),
                _ => pub_line(f.name@, rs_type(t)),
            }
        } else {
            match st.kind_of(n@) {
                DeclKind::Union => pub_line(f.name@ + "_type"@, n@) + pub_line(
                    f.name@,
                    "Option<WIPOffset<UnionWIPOffset>>"@,
                ),
                DeclKind::Enum => pub_line(f.name@, n@),
                DeclKind::Table => pub_line(f.name@, rs_type(t)),
                DeclKind::Struct => pub_line(f.name@, rs_type(t)),
                _ => Seq::empty(),
            }
        },
        _ => pub_line(f.name@, rs_type(t)),
    }
}

pub open spec fn rs_table_field_fn(st: Statements) -> spec_fn(FieldDeclaration) -> Seq<char> {
    |f: FieldDeclaration| rs_table_field(f, st)
}

/// The synthetic correlation id of a dispatch payload that declares none.
pub open spec fn synthetic_id(t: TableDeclaration, st: Statements) -> bool {
    !field_names(t.fields@).contains("id"@) && st.in_commands_union(t.name@)
}

pub open spec fn rs_table_text(t: TableDeclaration, st: Statements) -> Seq<char> {
    "pub struct "@ + t.name@ + "Content {\n"@ + concat_map(t.fields@, rs_table_field_fn(st)) + (
    if synthetic_id(t, st) {
        "\tpub id: String,\n"@
    } else {
        Seq::empty()
    }) + "}\n"@
}

/// `name: Some(name_offset),` and a line break.
pub open spec fn offset_arg(name: Seq<char>) -> Seq<char> {
    name + ": Some("@ + name + "_offset),\n"@
}

/// A loop that fills `name_vec` with `push` of each element of `self.name`.
pub open spec fn fill_vec(name: Seq<char>, push: Seq<char>) -> Seq<char> {
    "let mut "@ + name + "_vec = vec![];\nfor value in self."@ + name + " {\n"@ + name + "_vec.push("@
        + push + ");\n}\nlet "@ + name + "_offset = builder.create_vector(&"@ + name + "_vec);\n"@
}

/// The statements that prepare a field's builder argument.
pub open spec fn rs_prep(f: FieldDeclaration, st: Statements) -> Seq<char> {
    let t = f.field_type;
    let nm = f.name@;
    match t.value_type {
        ValueType::CompoundType(n) => if t.is_array {
            match st.kind_of(n@) {
                DeclKind::Struct => fill_vec(nm, n@ + "::from(value)"@),
                DeclKind::Enum => fill_vec(nm, "value"@),
                DeclKind::Table => fill_vec(nm, "value.into_offset(builder)"@),
                DeclKind::Union => fill_vec(nm, "value.into_offset(builder)"@),
                _ => Seq::empty(),
            }
        } else {
            match st.kind_of(n@) {
                DeclKind::Union => "let "@ + nm + "_offset = self."@ + nm + ".unwrap();\n"@,
                DeclKind::Struct => "let "@ + nm + ": "@ + n@ + " = self."@ + nm + ".into();\n"@,
                DeclKind::Table => "let "@ + nm + "_offset = self."@ + nm
                    + ".into_offset(builder);\n"@,
                _ => Seq::empty(),
            }
        },
        ValueType::String => if t.is_array {
            fill_vec(nm, "builder.create_string(&value)"@)
        } else {
            "let "@ + nm + "_offset = builder.create_string(&self."@ + nm + ");\n"@
        },
        _ => if t.is_array {
            "let "@ + nm + "_offset = builder.create_vector(&self."@ + nm + ");\n"@
        } else {
            Seq::empty()
        },
    }
}

pub open spec fn rs_prep_fn(st: Statements) -> spec_fn(FieldDeclaration) -> Seq<char> {
    |f: FieldDeclaration| rs_prep(f, st)
}

/// The field's entry in the wire constructor's arguments.
pub open spec fn rs_arg(f: FieldDeclaration, st: Statements) -> Seq<char> {
    let t = f.field_type;
    let nm = f.name@;
    match t.value_type {
        ValueType::CompoundType(n) => if t.is_array {
            match st.kind_of(n@) {
                DeclKind::Struct => offset_arg(nm),
                DeclKind::Enum => offset_arg(nm),
                DeclKind::Table => offset_arg(nm),
                DeclKind::Union => offset_arg(nm),
                _ => Seq::empty(),
            }
        } else {
            match st.kind_of(n@) {
                DeclKind::Union => nm + "_type: self."@ + nm + "_type,\n"@ + offset_arg(nm),
                DeclKind::Struct => nm + ": Some(&"@ + nm + "),\n"@,
                DeclKind::Enum => nm + ": self."@ + nm + ",\n"@,
                DeclKind::Table => offset_arg(nm),
                _ => Seq::empty(),
            }
        },
        ValueType::String => offset_arg(nm),
        _ => if t.is_array {
            offset_arg(nm)
        } else {
            nm + ": self."@ + nm + ",\n"@
        },
    }
}

pub open spec fn rs_arg_fn(st: Statements) -> spec_fn(FieldDeclaration) -> Seq<char> {
    |f: FieldDeclaration| rs_arg(f, st)
}

pub open spec fn rs_offset_text(t: TableDeclaration, st: Statements) -> Seq<char> {
    "impl IntoOffset<"@ + t.name@ + "<'static>> for "@ + t.name@ + "Content {\n"@
        + "fn into_offset(self, builder: &mut FlatBufferBuilder<'static>) -> WIPOffset<"@ + t.name@
        + "<'static>> {\n"@ + concat_map(t.fields@, rs_prep_fn(st)) + "let args = &"@ + t.name@
        + "Args {\n"@ + concat_map(t.fields@, rs_arg_fn(st)) + "};\n"@ + t.name@
        + "::create(builder, args)\n}\n}\n"@
}

/// The root table's name; meaningful on a valid schema.
pub open spec fn root_name(st: Statements) -> Seq<char> {
    st.root_type_name->Some_0@
}

/// The root dispatch union's name; meaningful on a valid schema.
pub open spec fn union_name(st: Statements) -> Seq<char> {
    st.commands_union()->Some_0.name@
}

pub open spec fn rs_byte_vec_text(t: TableDeclaration, st: Statements) -> Seq<char> {
    if t.name@ == root_name(st) || !st.in_commands_union(t.name@) {
        Seq::empty()
    } else {
        "impl From<"@ + t.name@ + "Content> for Vec<u8> {\nfn from(content: "@ + t.name@
            + "Content) -> Self {\nlet mut builder = FlatBufferBuilder::new();\nlet id = content.id.to_owned();\nlet payload = content.into_offset(&mut builder).as_union_value();\nlet root_type = "@
            + root_name(st) + "Content {\nid,\npayload_type: "@ + union_name(st) + "::"@ + t.name@
            + ",\npayload: Some(payload),\n};\nlet offset = root_type.into_offset(&mut builder);\nbuilder.finish(offset, None);\nVec::from(builder.finished_data())\n}\n}\n"@
    }
}

pub open spec fn rs_handler_method(m: RpcMethod) -> Seq<char> {
    "/** incoming must be "@ + m.input@ + " */\nfn "@ + cased(m.name@, TextCase::Snake)
        + "(incoming: Vec<u8>) -> JoinHandle<"@ + m.output@ + "Content>;\n"@
}

pub open spec fn rs_handler_method_fn() -> spec_fn(RpcMethod) -> Seq<char> {
    |m: RpcMethod| rs_handler_method(m)
}

pub open spec fn rs_rpc_text(r: RpcDeclaration) -> Seq<char> {
    "pub trait RequestHandler {\n"@ + concat_map(r.methods@, rs_handler_method_fn()) + "}\n"@
}

pub open spec fn rs_struct_field(f: FieldDeclaration) -> Seq<char> {
    pub_line(f.name@, rs_type(f.field_type))
}

pub open spec fn rs_struct_field_fn() -> spec_fn(FieldDeclaration) -> Seq<char> {
    |f: FieldDeclaration| rs_struct_field(f)
}

pub open spec fn rs_struct_text(s: StructDeclaration) -> Seq<char> {
    "pub struct "@ + s.name@ + "Content {\n"@ + concat_map(s.fields@, rs_struct_field_fn()) + "}\n"@
}

pub open spec fn rs_struct_copy(f: FieldDeclaration) -> Seq<char> {
    f.name@ + ": struct_def."@ + f.name@ + ",\n"@
}

pub open spec fn rs_struct_copy_fn() -> spec_fn(FieldDeclaration) -> Seq<char> {
    |f: FieldDeclaration| rs_struct_copy(f)
}

pub open spec fn rs_protocol_struct_text(s: StructDeclaration) -> Seq<char> {
    "impl From<"@ + s.name@ + "Content> for "@ + s.name@ + " {\nfn from(struct_def: "@ + s.name@
        + "Content) -> Self {\n"@ + s.name@ + "T {\n"@ + concat_map(s.fields@, rs_struct_copy_fn())
        + "}.pack()\n}\n}\n"@
}

impl ToRsStatement for ValueType {
    open spec fn well_named(&self) -> bool {
        true
    }

    open spec fn rs_text(&self, statements: Statements) -> Seq<char> {
        rs_value_type(*self)
    }

    fn to_rs_string(&self, statements: &Statements) -> (r: String) {
        value_type_rs(self)
    }
}

fn value_type_rs(v: &ValueType) -> (r: String)
    ensures
        r@ == rs_value_type(*v),
{
    match v {
        ValueType::Bool => "bool".to_owned(),
        ValueType::Byte => "i8".to_owned(),
        ValueType::Ubyte => "u8".to_owned(),
        ValueType::Short => "i16".to_owned(),
        ValueType::Ushort => "u16".to_owned(),
        ValueType::Int => "i32".to_owned(),
        ValueType::Uint => "u32".to_owned(),
        ValueType::Float => "f32".to_owned(),
        ValueType::Long => "i64".to_owned(),
        ValueType::Ulong => "u64".to_owned(),
        ValueType::Double => "f64".to_owned(),
        ValueType::Int8 => "i8".to_owned(),
        ValueType::Uint8 => "u8".to_owned(),
        ValueType::Int16 => "i16".to_owned(),
        ValueType::Uint16 => "u16".to_owned(),
        ValueType::Int32 => "i32".to_owned(),
        ValueType::Uint32 => "u32".to_owned(),
        ValueType::Int64 => "i64".to_owned(),
        ValueType::Uint64 => "u64".to_owned(),
        ValueType::Float32 => "f32".to_owned(),
        ValueType::Float64 => "f64".to_owned(),
        ValueType::String => "String".to_owned(),
        ValueType::CompoundType(n) => {
            let mut r = n.clone();
            r.append("Content");
            r
        },
    }
}

fn type_rs(t: &Type) -> (r: String)
    ensures
        r@ == rs_type(*t),
{
    if t.is_array {
        let mut r = String::from_str("Vec<");
        r.append(value_type_rs(&t.value_type).as_str());
        r.append(">");
        r
    } else {
        value_type_rs(&t.value_type)
    }
}

impl ToRsStatement for Type {
    open spec fn well_named(&self) -> bool {
        true
    }

    open spec fn rs_text(&self, statements: Statements) -> Seq<char> {
        rs_type(*self)
    }

    fn to_rs_string(&self, statements: &Statements) -> (r: String) {
        type_rs(self)
    }
}

fn emit_pub_line(name: &str, ty: &str) -> (r: String)
    ensures
        r@ == pub_line(name@, ty@),
{
    let mut r = String::from_str("\tpub ");
    r.append(name);
    r.append(": ");
    r.append(ty);
    r.append(",\n");
    r
}

fn emit_table_field(f: &FieldDeclaration, st: &Statements) -> (r: String)
    requires
        st.wf(),
    ensures
        r@ == rs_table_field(*f, *st),
{
    let t = &f.field_type;
    match &t.value_type {
        ValueType::CompoundType(n) => {
            let kind = st.decl_kind(n.as_str());
            if t.is_array {
                match kind {
                    DeclKind::Enum => {
                        let mut ty = String::from_str("Vec<");
                        ty.append(n.as_str());
                        ty.append(">");
                        emit_pub_line(f.name.as_str(), ty.as_str())
                    },
                    _ => emit_pub_line(f.name.as_str(), type_rs(t).as_str()),
                }
            } else {
                match kind {
                    DeclKind::Union => {
                        let mut tag = f.name.clone();
                        tag.append("_type");
                        let mut r = emit_pub_line(tag.as_str(), n.as_str());
                        r.append(
                            emit_pub_line(f.name.as_str(), "Option<WIPOffset<UnionWIPOffset>>").as_str(),
                        );
                        r
                    },
                    DeclKind::Enum => emit_pub_line(f.name.as_str(), n.as_str()),
                    DeclKind::Table => emit_pub_line(f.name.as_str(), type_rs(t).as_str()),
                    DeclKind::Struct => emit_pub_line(f.name.as_str(), type_rs(t).as_str()),
                    _ => String::new(),
                }
            }
        },
        _ => emit_pub_line(f.name.as_str(), type_rs(t).as_str()),
    }
}

/// Whether `name` is a member of the root dispatch union.
pub fn is_command(st: &Statements, name: &String) -> (r: bool)
    requires
        st.wf(),
    ensures
        r == st.in_commands_union(name@),
{
    match st.get_available_commands_union() {
        Some(u) => crate::ir::contains_name(&u.items, name),
        None => false,
    }
}

/// Whether the table gets a synthetic `id` field.
pub fn needs_synthetic_id(t: &TableDeclaration, st: &Statements) -> (r: bool)
    requires
        st.wf(),
    ensures
        r == synthetic_id(*t, *st),
{
    let id = String::from_str("id");
    !t.has_field(&id) && is_command(st, &t.name)
}

impl ToRsStatement for TableDeclaration {
    open spec fn well_named(&self) -> bool {
        self.names_ok()
    }

    open spec fn rs_text(&self, statements: Statements) -> Seq<char> {
        rs_table_text(*self, statements)
    }

    fn to_rs_string(&self, statements: &Statements) -> (r: String) {
        let mut fields = String::new();
        let mut i: usize = 0;
        proof {
            lemma_concat_map_all(self.fields@, rs_table_field_fn(*statements));
        }
        while i < self.fields.len()
            invariant
                i <= self.fields.len(),
                statements.wf(),
                fields@ == concat_map(self.fields@.take(i as int), rs_table_field_fn(*statements)),
            decreases self.fields.len() - i,
        {
            proof {
                lemma_concat_map_step(self.fields@, i as int, rs_table_field_fn(*statements));
            }
            fields.append(emit_table_field(&self.fields[i], statements).as_str());
            i = i + 1;
        }
        proof {
            lemma_concat_map_all(self.fields@, rs_table_field_fn(*statements));
        }
        let mut r = String::from_str("pub struct ");
        r.append(self.name.as_str());
        r.append("Content {\n");
        r.append(fields.as_str());
        let extra = if needs_synthetic_id(self, statements) {
            String::from_str("\tpub id: String,\n")
        } else {
            String::new()
        };
        r.append(extra.as_str());
        r.append("}\n");
        r
    }
}

fn emit_offset_arg(name: &str) -> (r: String)
    ensures
        r@ == offset_arg(name@),
{
    let mut r = String::from_str(name);
    r.append(": Some(");
    r.append(name);
    r.append("_offset),\n");
    r
}

fn emit_fill_vec(name: &str, push: &str) -> (r: String)
    ensures
        r@ == fill_vec(name@, push@),
{
    let mut r = String::from_str("let mut ");
    r.append(name);
    r.append("_vec = vec![];\nfor value in self.");
    r.append(name);
    r.append(" {\n");
    r.append(name);
    r.append("_vec.push(");
    r.append(push);
    r.append(");\n}\nlet ");
    r.append(name);
    r.append("_offset = builder.create_vector(&");
    r.append(name);
    r.append("_vec);\n");
    r
}

/// `let name<mid>self.name<tail>`.
fn emit_let_self(name: &str, mid: &str, tail: &str) -> (r: String)
    ensures
        r@ == "let "@ + name@ + mid@ + name@ + tail@,
{
    let mut r = String::from_str("let ");
    r.append(name);
    r.append(mid);
    r.append(name);
    r.append(tail);
    r
}

fn emit_prep(f: &FieldDeclaration, st: &Statements) -> (r: String)
    requires
        st.wf(),
    ensures
        r@ == rs_prep(*f, *st),
{
    let t = &f.field_type;
    let nm = f.name.as_str();
    match &t.value_type {
        ValueType::CompoundType(n) => {
            let kind = st.decl_kind(n.as_str());
            if t.is_array {
                match kind {
                    DeclKind::Struct => {
                        let mut push = n.clone();
                        push.append("::from(value)");
                        emit_fill_vec(nm, push.as_str())
                    },
                    DeclKind::Enum => emit_fill_vec(nm, "value"),
                    DeclKind::Table => emit_fill_vec(nm, "value.into_offset(builder)"),
                    DeclKind::Union => emit_fill_vec(nm, "value.into_offset(builder)"),
                    _ => String::new(),
                }
            } else {
                match kind {
                    DeclKind::Union => emit_let_self(nm, "_offset = self.", ".unwrap();\n"),
                    DeclKind::Struct => {
                        let mut r = String::from_str("let ");
                        r.append(nm);
                        r.append(": ");
                        r.append(n.as_str());
                        r.append(" = self.");
                        r.append(nm);
                        r.append(".into();\n");
                        r
                    },
                    DeclKind::Table => emit_let_self(nm, "_offset = self.", ".into_offset(builder);\n"),
                    _ => String::new(),
                }
            }
        },
        ValueType::String => if t.is_array {
            emit_fill_vec(nm, "builder.create_string(&value)")
        } else {
            emit_let_self(nm, "_offset = builder.create_string(&self.", ");\n")
        },
        _ => if t.is_array {
            emit_let_self(nm, "_offset = builder.create_vector(&self.", ");\n")
        } else {
            String::new()
        },
    }
}

/// `name<mid>name<tail>`.
fn emit_twice(name: &str, mid: &str, tail: &str) -> (r: String)
    ensures
        r@ == name@ + mid@ + name@ + tail@,
{
    let mut r = String::from_str(name);
    r.append(mid);
    r.append(name);
    r.append(tail);
    r
}

fn emit_arg(f: &FieldDeclaration, st: &Statements) -> (r: String)
    requires
        st.wf(),
    ensures
        r@ == rs_arg(*f, *st),
{
    let t = &f.field_type;
    let nm = f.name.as_str();
    match &t.value_type {
        ValueType::CompoundType(n) => {
            let kind = st.decl_kind(n.as_str());
            if t.is_array {
                match kind {
                    DeclKind::Struct => emit_offset_arg(nm),
                    DeclKind::Enum => emit_offset_arg(nm),
                    DeclKind::Table => emit_offset_arg(nm),
                    DeclKind::Union => emit_offset_arg(nm),
                    _ => String::new(),
                }
            } else {
                match kind {
                    DeclKind::Union => {
                        let mut r = emit_twice(nm, "_type: self.", "_type,\n");
                        r.append(emit_offset_arg(nm).as_str());
                        r
                    },
                    DeclKind::Struct => emit_twice(nm, ": Some(&", "),\n"),
                    DeclKind::Enum => emit_twice(nm, ": self.", ",\n"),
                    DeclKind::Table => emit_offset_arg(nm),
                    _ => String::new(),
                }
            }
        },
        ValueType::String => emit_offset_arg(nm),
        _ => if t.is_array {
            emit_offset_arg(nm)
        } else {
            emit_twice(nm, ": self.", ",\n")
        },
    }
}

impl GenerateIntoOffsetImpl for TableDeclaration {
    open spec fn offset_text(&self, statements: Statements) -> Seq<char> {
        rs_offset_text(*self, statements)
    }

    fn generate_into_offset_impl(&self, statements: &Statements) -> (r: String) {
        let mut preps = String::new();
        let mut args = String::new();
        let mut i: usize = 0;
        proof {
            lemma_concat_map_all(self.fields@, rs_prep_fn(*statements));
            lemma_concat_map_all(self.fields@, rs_arg_fn(*statements));
        }
        while i < self.fields.len()
            invariant
                i <= self.fields.len(),
                statements.wf(),
                preps@ == concat_map(self.fields@.take(i as int), rs_prep_fn(*statements)),
                args@ == concat_map(self.fields@.take(i as int), rs_arg_fn(*statements)),
            decreases self.fields.len() - i,
        {
            proof {
                lemma_concat_map_step(self.fields@, i as int, rs_prep_fn(*statements));
                lemma_concat_map_step(self.fields@, i as int, rs_arg_fn(*statements));
            }
            preps.append(emit_prep(&self.fields[i], statements).as_str());
            args.append(emit_arg(&self.fields[i], statements).as_str());
            i = i + 1;
        }
        proof {
            lemma_concat_map_all(self.fields@, rs_prep_fn(*statements));
            lemma_concat_map_all(self.fields@, rs_arg_fn(*statements));
        }
        let name = self.name.as_str();
        let mut r = String::from_str("impl IntoOffset<");
        r.append(name);
        r.append("<'static>> for ");
        r.append(name);
        r.append("Content {\n");
        r.append("fn into_offset(self, builder: &mut FlatBufferBuilder<'static>) -> WIPOffset<");
        r.append(name);
        r.append("<'static>> {\n");
        r.append(preps.as_str());
        r.append("let args = &");
        r.append(name);
        r.append("Args {\n");
        r.append(args.as_str());
        r.append("};\n");
        r.append(name);
        r.append("::create(builder, args)\n}\n}\n");
        r
    }
}

/// The root table's name and the root dispatch union's name.
pub(crate) fn root_and_union(st: &Statements) -> (r: (&String, &String))
    requires
        st.wf(),
        is_valid(*st),
        st.names_ok(),
        st.refs_resolved(),
    ensures
        r.0@ == root_name(*st),
        r.1@ == union_name(*st),
{
    let root = match &st.root_type_name {
        Some(root) => root,
        None => return vstd::pervasive::unreached(),
    };
    match st.get_available_commands_union() {
        Some(u) => (root, &u.name),
        None => vstd::pervasive::unreached(),
    }
}

impl GenerateIntoByteVecImpl for TableDeclaration {
    open spec fn byte_vec_text(&self, statements: Statements) -> Seq<char> {
        rs_byte_vec_text(*self, statements)
    }

    fn generate_into_byte_vec_impl(&self, statements: &Statements) -> (r: String) {
        let (root, union_name) = root_and_union(statements);
        if self.name == *root || !is_command(statements, &self.name) {
            return String::new();
        }
        let name = self.name.as_str();
        let mut r = String::from_str("impl From<");
        r.append(name);
        r.append("Content> for Vec<u8> {\nfn from(content: ");
        r.append(name);
        r.append(
            "Content) -> Self {\nlet mut builder = FlatBufferBuilder::new();\nlet id = content.id.to_owned();\nlet payload = content.into_offset(&mut builder).as_union_value();\nlet root_type = ",
        );
        r.append(root.as_str());
        r.append("Content {\nid,\npayload_type: ");
        r.append(union_name.as_str());
        r.append("::");
        r.append(name);
        r.append(
            ",\npayload: Some(payload),\n};\nlet offset = root_type.into_offset(&mut builder);\nbuilder.finish(offset, None);\nVec::from(builder.finished_data())\n}\n}\n",
        );
        r
    }
}

fn emit_handler_method(m: &RpcMethod) -> (r: String)
    requires
        crate::ir::method_named_ok(*m),
    ensures
        r@ == rs_handler_method(*m),
{
    let mut r = String::from_str("/** incoming must be ");
    r.append(m.input.as_str());
    r.append(" */\nfn ");
    r.append(to_case(m.name.as_str(), TextCase::Snake).as_str());
    r.append("(incoming: Vec<u8>) -> JoinHandle<");
    r.append(m.output.as_str());
    r.append("Content>;\n");
    r
}

impl ToRsStatement for RpcDeclaration {
    open spec fn well_named(&self) -> bool {
        self.names_ok()
    }

    open spec fn rs_text(&self, statements: Statements) -> Seq<char> {
        rs_rpc_text(*self)
    }

    fn to_rs_string(&self, statements: &Statements) -> (r: String) {
        let mut body = String::new();
        let mut i: usize = 0;
        proof {
            lemma_concat_map_all(self.methods@, rs_handler_method_fn());
        }
        while i < self.methods.len()
            invariant
                i <= self.methods.len(),
                self.names_ok(),
                body@ == concat_map(self.methods@.take(i as int), rs_handler_method_fn()),
            decreases self.methods.len() - i,
        {
            proof {
                lemma_concat_map_step(self.methods@, i as int, rs_handler_method_fn());
            }
            body.append(emit_handler_method(&self.methods[i]).as_str());
            i = i + 1;
        }
        proof {
            lemma_concat_map_all(self.methods@, rs_handler_method_fn());
        }
        let mut r = String::from_str("pub trait RequestHandler {\n");
        r.append(body.as_str());
        r.append("}\n");
        r
    }
}

fn emit_struct_field(f: &FieldDeclaration) -> (r: String)
    ensures
        r@ == rs_struct_field(*f),
{
    emit_pub_line(f.name.as_str(), type_rs(&f.field_type).as_str())
}

fn emit_struct_copy(f: &FieldDeclaration) -> (r: String)
    ensures
        r@ == rs_struct_copy(*f),
{
    emit_twice(f.name.as_str(), ": struct_def.", ",\n")
}

impl ToRsStatement for StructDeclaration {
    open spec fn well_named(&self) -> bool {
        self.names_ok()
    }

    open spec fn rs_text(&self, statements: Statements) -> Seq<char> {
        rs_struct_text(*self)
    }

    fn to_rs_string(&self, statements: &Statements) -> (r: String) {
        let mut body = String::new();
        let mut i: usize = 0;
        proof {
            lemma_concat_map_all(self.fields@, rs_struct_field_fn());
        }
        while i < self.fields.len()
            invariant
                i <= self.fields.len(),
                body@ == concat_map(self.fields@.take(i as int), rs_struct_field_fn()),
            decreases self.fields.len() - i,
        {
            proof {
                lemma_concat_map_step(self.fields@, i as int, rs_struct_field_fn());
            }
            body.append(emit_struct_field(&self.fields[i]).as_str());
            i = i + 1;
        }
        proof {
            lemma_concat_map_all(self.fields@, rs_struct_field_fn());
        }
        let mut r = String::from_str("pub struct ");
        r.append(self.name.as_str());
        r.append("Content {\n");
        r.append(body.as_str());
        r.append("}\n");
        r
    }
}

impl GenerateIntoProtocolStructImpl for StructDeclaration {
    open spec fn protocol_struct_text(&self) -> Seq<char> {
        rs_protocol_struct_text(*self)
    }

    fn generate_into_protocol_struct_impl(&self) -> (r: String) {
        let mut body = String::new();
        let mut i: usize = 0;
        proof {
            lemma_concat_map_all(self.fields@, rs_struct_copy_fn());
        }
        while i < self.fields.len()
            invariant
                i <= self.fields.len(),
                body@ == concat_map(self.fields@.take(i as int), rs_struct_copy_fn()),
            decreases self.fields.len() - i,
        {
            proof {
                lemma_concat_map_step(self.fields@, i as int, rs_struct_copy_fn());
            }
            body.append(emit_struct_copy(&self.fields[i]).as_str());
            i = i + 1;
        }
        proof {
            lemma_concat_map_all(self.fields@, rs_struct_copy_fn());
        }
        let name = self.name.as_str();
        let mut r = String::from_str("impl From<");
        r.append(name);
        r.append("Content> for ");
        r.append(name);
        r.append(" {\nfn from(struct_def: ");
        r.append(name);
        r.append("Content) -> Self {\n");
        r.append(name);
        r.append("T {\n");
        r.append(body.as_str());
        r.append("}.pack()\n}\n}\n");
        r
    }
}

pub open spec fn rs_table_import(t: TableDeclaration) -> Seq<char> {
    t.name@ + ", "@ + t.name@ + "Args, "@ + t.name@ + "T, "@
}

pub open spec fn rs_table_import_fn() -> spec_fn(TableDeclaration) -> Seq<char> {
    |t: TableDeclaration| rs_table_import(t)
}

pub open spec fn rs_struct_import(s: StructDeclaration) -> Seq<char> {
    s.name@ + ", "@ + s.name@ + "T, "@
}

pub open spec fn rs_struct_import_fn() -> spec_fn(StructDeclaration) -> Seq<char> {
    |s: StructDeclaration| rs_struct_import(s)
}

pub open spec fn enum_import_fn() -> spec_fn(EnumDeclaration) -> Seq<char> {
    |e: EnumDeclaration| e.name@ + ", "@
}

pub open spec fn union_import_fn() -> spec_fn(UnionDeclaration) -> Seq<char> {
    |u: UnionDeclaration| u.name@ + ", "@
}

/// The imports, the offset capability and the root decoding helper.
pub open spec fn rs_header_text(st: Statements) -> Seq<char> {
    "use tokio::task::JoinHandle;\npub use crate::schema_generated::protocol::{ "@
        + concat_map(st.table_declaration@, rs_table_import_fn())
        + concat_map(st.struct_declaration@, rs_struct_import_fn())
        + concat_map(st.enum_declarations@, enum_import_fn())
        + concat_map(st.unions@, union_import_fn()) + "root_as_"@ + cased(root_name(st), TextCase::Snake)
        + " };\nuse flatbuffers::{FlatBufferBuilder, WIPOffset, UnionWIPOffset};\n\npub trait IntoOffset<T: 'static> {\nfn into_offset(self, builder: &mut FlatBufferBuilder<'static>) -> WIPOffset<T>;\n}\n\npub fn into_root_type(binary: &[u8]) -> "@
        + root_name(st) + "<'_> {\nmatch root_as_"@ + cased(root_name(st), TextCase::Snake)
        + "(binary) {\nOk(root) => root,\nErr(e) => panic!(\"Protocol error: can't parse binary as a root type: {:?}\", e),\n}\n}\n"@
}

/// The dispatcher's branch for one method.
pub open spec fn rs_dispatch_arm(m: RpcMethod, union: Seq<char>) -> Seq<char> {
    union + "::"@ + m.input@ + " => RequestHandlerStruct::"@ + cased(m.name@, TextCase::Snake)
        + "(buffer).await.expect(\"error while handling "@ + cased(m.name@, TextCase::Snake)
        + "\").into(),\n"@
}

pub open spec fn rs_dispatch_arm_fn(union: Seq<char>) -> spec_fn(RpcMethod) -> Seq<char> {
    |m: RpcMethod| rs_dispatch_arm(m, union)
}

pub open spec fn rs_dispatch_rpc_fn(union: Seq<char>) -> spec_fn(RpcDeclaration) -> Seq<char> {
    |r: RpcDeclaration| concat_map(r.methods@, rs_dispatch_arm_fn(union))
}

/// The dispatcher: one branch per method, and a fatal default branch.
pub open spec fn rs_process_text(st: Statements) -> Seq<char> {
    "pub async fn process_request<RequestHandlerStruct: RequestHandler>(buffer: Vec<u8>) -> Vec<u8> {\nlet root_type = into_root_type(&buffer);\nmatch root_type.payload_type() {\n"@
        + concat_map(st.rpc_declarations@, rs_dispatch_rpc_fn(union_name(st)))
        + "unknown_variant => {\npanic!(\"UNKNOWN PAYLOAD TYPE {:?}\", unknown_variant);\n}\n}\n}\n"@
}

pub open spec fn rs_struct_unit_fn() -> spec_fn(StructDeclaration) -> Seq<char> {
    |s: StructDeclaration| rs_struct_text(s) + "\n"@ + rs_protocol_struct_text(s) + "\n"@
}

pub open spec fn rs_table_unit_fn(st: Statements) -> spec_fn(TableDeclaration) -> Seq<char> {
    |t: TableDeclaration|
        rs_table_text(t, st) + "\n"@ + rs_offset_text(t, st) + "\n"@ + rs_byte_vec_text(t, st) + "\n"@
}

pub open spec fn rs_rpc_unit_fn() -> spec_fn(RpcDeclaration) -> Seq<char> {
    |r: RpcDeclaration| rs_rpc_text(r) + "\n"@
}

/// The whole server-side binding.
pub open spec fn rs_server_code(st: Statements) -> Seq<char> {
    rs_header_text(st) + "\n"@ + concat_map(st.struct_declaration@, rs_struct_unit_fn())
        + concat_map(st.table_declaration@, rs_table_unit_fn(st)) + concat_map(
        st.rpc_declarations@,
        rs_rpc_unit_fn(),
    ) + rs_process_text(st)
}

fn emit_table_import(t: &TableDeclaration) -> (r: String)
    ensures
        r@ == rs_table_import(*t),
{
    let mut r = t.name.clone();
    r.append(", ");
    r.append(t.name.as_str());
    r.append("Args, ");
    r.append(t.name.as_str());
    r.append("T, ");
    r
}

fn emit_struct_import(s: &StructDeclaration) -> (r: String)
    ensures
        r@ == rs_struct_import(*s),
{
    let mut r = s.name.clone();
    r.append(", ");
    r.append(s.name.as_str());
    r.append("T, ");
    r
}

/// `name, `.
fn emit_listed(name: &String) -> (r: String)
    ensures
        r@ == name@ + ", "@,
{
    let mut r = name.clone();
    r.append(", ");
    r
}

fn emit_dispatch_arm(m: &RpcMethod, union: &String) -> (r: String)
    requires
        crate::ir::method_named_ok(*m),
    ensures
        r@ == rs_dispatch_arm(*m, union@),
{
    let snake = to_case(m.name.as_str(), TextCase::Snake);
    let mut r = union.clone();
    r.append("::");
    r.append(m.input.as_str());
    r.append(" => RequestHandlerStruct::");
    r.append(snake.as_str());
    r.append("(buffer).await.expect(\"error while handling ");
    r.append(snake.as_str());
    r.append("\").into(),\n");
    r
}

fn emit_dispatch_rpc(rpc: &RpcDeclaration, union: &String) -> (r: String)
    requires
        rpc.names_ok(),
    ensures
        r@ == concat_map(rpc.methods@, rs_dispatch_arm_fn(union@)),
{
    let mut out = String::new();
    let mut i: usize = 0;
    proof {
        lemma_concat_map_all(rpc.methods@, rs_dispatch_arm_fn(union@));
    }
    while i < rpc.methods.len()
        invariant
            i <= rpc.methods.len(),
            rpc.names_ok(),
            out@ == concat_map(rpc.methods@.take(i as int), rs_dispatch_arm_fn(union@)),
        decreases rpc.methods.len() - i,
    {
        proof {
            lemma_concat_map_step(rpc.methods@, i as int, rs_dispatch_arm_fn(union@));
        }
        out.append(emit_dispatch_arm(&rpc.methods[i], union).as_str());
        i = i + 1;
    }
    proof {
        lemma_concat_map_all(rpc.methods@, rs_dispatch_arm_fn(union@));
    }
    out
}

fn emit_struct_unit(s: &StructDeclaration, st: &Statements) -> (r: String)
    requires
        st.wf(),
        is_valid(*st),
        st.names_ok(),
        st.refs_resolved(),
        s.names_ok(),
    ensures
        r@ == (rs_struct_unit_fn())(*s),
{
    let mut r = s.to_rs_string(st);
    r.append("\n");
    r.append(s.generate_into_protocol_struct_impl().as_str());
    r.append("\n");
    r
}

fn emit_table_unit(t: &TableDeclaration, st: &Statements) -> (r: String)
    requires
        st.wf(),
        is_valid(*st),
        st.names_ok(),
        st.refs_resolved(),
        t.names_ok(),
    ensures
        r@ == (rs_table_unit_fn(*st))(*t),
{
    let mut r = t.to_rs_string(st);
    r.append("\n");
    r.append(t.generate_into_offset_impl(st).as_str());
    r.append("\n");
    r.append(t.generate_into_byte_vec_impl(st).as_str());
    r.append("\n");
    r
}

fn emit_rpc_unit(rpc: &RpcDeclaration, st: &Statements) -> (r: String)
    requires
        st.wf(),
        is_valid(*st),
        st.names_ok(),
        st.refs_resolved(),
        rpc.names_ok(),
    ensures
        r@ == (rs_rpc_unit_fn())(*rpc),
{
    let mut r = rpc.to_rs_string(st);
    r.append("\n");
    r
}

/// Imports of every table.
fn rs_table_imports(st: &Statements) -> (r: String)
    ensures
        r@ == concat_map(st.table_declaration@, rs_table_import_fn()),
{
    let mut out = String::new();
    let mut i: usize = 0;
    proof {
        lemma_concat_map_all(st.table_declaration@, rs_table_import_fn());
    }
    while i < st.table_declaration.len()
        invariant
            i <= st.table_declaration.len(),
            out@ == concat_map(st.table_declaration@.take(i as int), rs_table_import_fn()),
        decreases st.table_declaration.len() - i,
    {
        proof {
            lemma_concat_map_step(st.table_declaration@, i as int, rs_table_import_fn());
        }
        out.append(emit_table_import(&st.table_declaration[i]).as_str());
        i = i + 1;
    }
    proof {
        lemma_concat_map_all(st.table_declaration@, rs_table_import_fn());
    }
    out
}

/// Imports of every struct.
fn rs_struct_imports(st: &Statements) -> (r: String)
    ensures
        r@ == concat_map(st.struct_declaration@, rs_struct_import_fn()),
{
    let mut out = String::new();
    let mut i: usize = 0;
    proof {
        lemma_concat_map_all(st.struct_declaration@, rs_struct_import_fn());
    }
    while i < st.struct_declaration.len()
        invariant
            i <= st.struct_declaration.len(),
            out@ == concat_map(st.struct_declaration@.take(i as int), rs_struct_import_fn()),
        decreases st.struct_declaration.len() - i,
    {
        proof {
            lemma_concat_map_step(st.struct_declaration@, i as int, rs_struct_import_fn());
        }
        out.append(emit_struct_import(&st.struct_declaration[i]).as_str());
        i = i + 1;
    }
    proof {
        lemma_concat_map_all(st.struct_declaration@, rs_struct_import_fn());
    }
    out
}

/// Imports of every enum.
fn enum_imports(st: &Statements) -> (r: String)
    ensures
        r@ == concat_map(st.enum_declarations@, enum_import_fn()),
{
    let mut out = String::new();
    let mut i: usize = 0;
    proof {
        lemma_concat_map_all(st.enum_declarations@, enum_import_fn());
    }
    while i < st.enum_declarations.len()
        invariant
            i <= st.enum_declarations.len(),
            out@ == concat_map(st.enum_declarations@.take(i as int), enum_import_fn()),
        decreases st.enum_declarations.len() - i,
    {
        proof {
            lemma_concat_map_step(st.enum_declarations@, i as int, enum_import_fn());
        }
        out.append(emit_listed(&st.enum_declarations[i].name).as_str());
        i = i + 1;
    }
    proof {
        lemma_concat_map_all(st.enum_declarations@, enum_import_fn());
    }
    out
}

/// Imports of every union.
fn union_imports(st: &Statements) -> (r: String)
    ensures
        r@ == concat_map(st.unions@, union_import_fn()),
{
    let mut out = String::new();
    let mut i: usize = 0;
    proof {
        lemma_concat_map_all(st.unions@, union_import_fn());
    }
    while i < st.unions.len()
        invariant
            i <= st.unions.len(),
            out@ == concat_map(st.unions@.take(i as int), union_import_fn()),
        decreases st.unions.len() - i,
    {
        proof {
            lemma_concat_map_step(st.unions@, i as int, union_import_fn());
        }
        out.append(emit_listed(&st.unions[i].name).as_str());
        i = i + 1;
    }
    proof {
        lemma_concat_map_all(st.unions@, union_import_fn());
    }
    out
}

/// The dispatcher's branches, for every method of every service.
fn dispatch_arms(st: &Statements, union: &String) -> (r: String)
    requires
        st.names_ok(),
    ensures
        r@ == concat_map(st.rpc_declarations@, rs_dispatch_rpc_fn(union@)),
{
    let mut out = String::new();
    let mut i: usize = 0;
    proof {
        lemma_concat_map_all(st.rpc_declarations@, rs_dispatch_rpc_fn(union@));
    }
    while i < st.rpc_declarations.len()
        invariant
            i <= st.rpc_declarations.len(),
            st.names_ok(),
            out@ == concat_map(st.rpc_declarations@.take(i as int), rs_dispatch_rpc_fn(union@)),
        decreases st.rpc_declarations.len() - i,
    {
        proof {
            lemma_concat_map_step(st.rpc_declarations@, i as int, rs_dispatch_rpc_fn(union@));
        }
        out.append(emit_dispatch_rpc(&st.rpc_declarations[i], union).as_str());
        i = i + 1;
    }
    proof {
        lemma_concat_map_all(st.rpc_declarations@, rs_dispatch_rpc_fn(union@));
    }
    out
}

/// Content records and conversions of every struct.
fn struct_units(st: &Statements) -> (r: String)
    requires
        st.wf(),
        is_valid(*st),
        st.names_ok(),
        st.refs_resolved(),
    ensures
        r@ == concat_map(st.struct_declaration@, rs_struct_unit_fn()),
{
    let mut out = String::new();
    let mut i: usize = 0;
    proof {
        lemma_concat_map_all(st.struct_declaration@, rs_struct_unit_fn());
    }
    while i < st.struct_declaration.len()
        invariant
            i <= st.struct_declaration.len(),
            st.wf(),
            is_valid(*st),
            st.names_ok(),
            st.refs_resolved(),
            out@ == concat_map(st.struct_declaration@.take(i as int), rs_struct_unit_fn()),
        decreases st.struct_declaration.len() - i,
    {
        proof {
            lemma_concat_map_step(st.struct_declaration@, i as int, rs_struct_unit_fn());
        }
        out.append(emit_struct_unit(&st.struct_declaration[i], st).as_str());
        i = i + 1;
    }
    proof {
        lemma_concat_map_all(st.struct_declaration@, rs_struct_unit_fn());
    }
    out
}

/// Content records and conversions of every table.
fn table_units(st: &Statements) -> (r: String)
    requires
        st.wf(),
        is_valid(*st),
        st.names_ok(),
        st.refs_resolved(),
    ensures
        r@ == concat_map(st.table_declaration@, rs_table_unit_fn(*st)),
{
    let mut out = String::new();
    let mut i: usize = 0;
    proof {
        lemma_concat_map_all(st.table_declaration@, rs_table_unit_fn(*st));
    }
    while i < st.table_declaration.len()
        invariant
            i <= st.table_declaration.len(),
            st.wf(),
            is_valid(*st),
            st.names_ok(),
            st.refs_resolved(),
            out@ == concat_map(st.table_declaration@.take(i as int), rs_table_unit_fn(*st)),
        decreases st.table_declaration.len() - i,
    {
        proof {
            lemma_concat_map_step(st.table_declaration@, i as int, rs_table_unit_fn(*st));
        }
        out.append(emit_table_unit(&st.table_declaration[i], st).as_str());
        i = i + 1;
    }
    proof {
        lemma_concat_map_all(st.table_declaration@, rs_table_unit_fn(*st));
    }
    out
}

/// Handler traits of every service.
fn rpc_units(st: &Statements) -> (r: String)
    requires
        st.wf(),
        is_valid(*st),
        st.names_ok(),
        st.refs_resolved(),
    ensures
        r@ == concat_map(st.rpc_declarations@, rs_rpc_unit_fn()),
{
    let mut out = String::new();
    let mut i: usize = 0;
    proof {
        lemma_concat_map_all(st.rpc_declarations@, rs_rpc_unit_fn());
    }
    while i < st.rpc_declarations.len()
        invariant
            i <= st.rpc_declarations.len(),
            st.wf(),
            is_valid(*st),
            st.names_ok(),
            st.refs_resolved(),
            out@ == concat_map(st.rpc_declarations@.take(i as int), rs_rpc_unit_fn()),
        decreases st.rpc_declarations.len() - i,
    {
        proof {
            lemma_concat_map_step(st.rpc_declarations@, i as int, rs_rpc_unit_fn());
        }
        out.append(emit_rpc_unit(&st.rpc_declarations[i], st).as_str());
        i = i + 1;
    }
    proof {
        lemma_concat_map_all(st.rpc_declarations@, rs_rpc_unit_fn());
    }
    out
}

/// The imports, the offset capability and the root decoding helper.
pub fn generate_header(statements: &Statements) -> (r: String)
    requires
        statements.wf(),
        is_valid(*statements),
        statements.names_ok(),
        statements.refs_resolved(),
    ensures
        r@ == rs_header_text(*statements),
{
    let (root, _) = root_and_union(statements);
    let snake = to_case(root.as_str(), TextCase::Snake);
    let mut r = String::from_str("use tokio::task::JoinHandle;\npub use crate::schema_generated::protocol::{ ");
    r.append(rs_table_imports(statements).as_str());
    r.append(rs_struct_imports(statements).as_str());
    r.append(enum_imports(statements).as_str());
    r.append(union_imports(statements).as_str());
    r.append("root_as_");
    r.append(snake.as_str());
    r.append(
        " };\nuse flatbuffers::{FlatBufferBuilder, WIPOffset, UnionWIPOffset};\n\npub trait IntoOffset<T: 'static> {\nfn into_offset(self, builder: &mut FlatBufferBuilder<'static>) -> WIPOffset<T>;\n}\n\npub fn into_root_type(binary: &[u8]) -> ",
    );
    r.append(root.as_str());
    r.append("<'_> {\nmatch root_as_");
    r.append(snake.as_str());
    r.append(
        "(binary) {\nOk(root) => root,\nErr(e) => panic!(\"Protocol error: can't parse binary as a root type: {:?}\", e),\n}\n}\n",
    );
    r
}

/// The request dispatcher: decodes the root envelope, calls the handler
/// method that the payload type selects and encodes its result.
pub fn generate_process_request_fn(statements: &Statements) -> (r: String)
    requires
        statements.wf(),
        is_valid(*statements),
        statements.names_ok(),
        statements.refs_resolved(),
    ensures
        r@ == rs_process_text(*statements),
{
    let (_, union) = root_and_union(statements);
    let mut r = String::from_str(
        "pub async fn process_request<RequestHandlerStruct: RequestHandler>(buffer: Vec<u8>) -> Vec<u8> {\nlet root_type = into_root_type(&buffer);\nmatch root_type.payload_type() {\n",
    );
    r.append(dispatch_arms(statements, union).as_str());
    r.append(
        "unknown_variant => {\npanic!(\"UNKNOWN PAYLOAD TYPE {:?}\", unknown_variant);\n}\n}\n}\n",
    );
    r
}

/// The whole server-side binding of a valid schema.
pub fn generate_rust_server_side_code(statements: &Statements) -> (r: String)
    requires
        statements.wf(),
        is_valid(*statements),
        statements.names_ok(),
        statements.refs_resolved(),
    ensures
        r@ == rs_server_code(*statements),
{
    let mut r = generate_header(statements);
    r.append("\n");
    r.append(struct_units(statements).as_str());
    r.append(table_units(statements).as_str());
    r.append(rpc_units(statements).as_str());
    r.append(generate_process_request_fn(statements).as_str());
    r
}

} // verus!
