use fbs_rpc_gen::codegen_rs::{
    generate_rust_server_side_code, GenerateIntoOffsetImpl, GenerateIntoProtocolStructImpl, ToRsStatement,
};
use fbs_rpc_gen::codegen_ts::{generate_ts_client_side_code, GenerateIntoFunctionStatement, ToTsStatement};
use fbs_rpc_gen::ir::{Type, ValueType};
use fbs_rpc_gen::parser::{parse_fbs_schema, DeclKind, DeclType, FbsParser, ParseError, Statements};
use fbs_rpc_gen::typechecker::{type_check, Diagnostic};

const ECHO: &str = "
table Ping { id: string; }
table Pong { id: string; value: int; }
union Command { Ping, Pong }
table Root { id: string; payload: Command; }
root_type Root;
rpc Echo { echo(Ping): Pong; }
";

fn parse(src: &str) -> Statements {
    parse_fbs_schema(src).expect("schema parses")
}

fn count(haystack: &str, needle: &str) -> usize {
    haystack.matches(needle).count()
}

#[test]
fn field_order_is_declaration_order() {
    let st = parse("table T { b: int; a: string; c: bool; }");
    let t = &st.table_declaration[0];
    assert_eq!(t.fields_order(), vec!["b".to_string(), "a".to_string(), "c".to_string()]);
    assert!(matches!(t.field_type("a").unwrap().value_type, ValueType::String));
    assert!(t.field_type("d").is_none());
}

#[test]
fn echo_schema_checks_clean() {
    let st = parse(ECHO);
    assert!(type_check(&st).is_empty());
    let u = st.get_available_commands_union().unwrap();
    assert_eq!(u.name, "Command");
    assert_eq!(u.items, vec!["Ping".to_string(), "Pong".to_string()]);
}

#[test]
fn echo_server_binding() {
    let st = parse(ECHO);
    let code = generate_rust_server_side_code(&st);
    assert_eq!(count(&code, "pub trait RequestHandler {"), 1);
    assert!(code.contains("/** incoming must be Ping */\nfn echo(incoming: Vec<u8>) -> JoinHandle<PongContent>;\n"));
    assert!(code.contains("Command::Ping => RequestHandlerStruct::echo(buffer).await.expect(\"error while handling echo\").into(),\n"));
    assert!(code.contains("pub async fn process_request<RequestHandlerStruct: RequestHandler>(buffer: Vec<u8>) -> Vec<u8> {"));
    assert!(code.contains("panic!(\"UNKNOWN PAYLOAD TYPE {:?}\", unknown_variant);"));
    assert!(code.contains("pub use crate::schema_generated::protocol::{ Ping, PingArgs, PingT, Pong, PongArgs, PongT, Root, RootArgs, RootT, Command, root_as_root };"));
    assert!(code.contains("impl From<PingContent> for Vec<u8> {"));
    assert!(!code.contains("impl From<RootContent> for Vec<u8>"));
    assert!(code.contains("payload_type: Command::Pong,"));
}

#[test]
fn echo_client_binding() {
    let st = parse(ECHO);
    let code = generate_ts_client_side_code(&st);
    assert!(code.contains("export const echo = async (transport: Transport, content: PingContent): Promise<PongContent> => {"));
    assert!(code.contains("const protocolPackage = pingContentIntoProtocolClass(content);"));
    assert!(code.contains("const root = Root.createRoot(builder, idOffset, Command.Ping, payloadOffset);"));
    assert!(code.contains("export const createApiObject = (transport: Transport) => {\nreturn {\necho: echo.bind(null, transport),\n};\n};\n"));
    assert!(code.contains("export type CommandContent =\n\t| PingContent\n\t| PongContent\n;\n"));
    assert!(code.contains("import { Ping, PingT, Pong, PongT, Root, RootT, Command, } from \"./schema_generated\";"));
    assert!(code.contains("sendMessage: (msg: Uint8Array, id: string) => Promise<Root>"));
}

#[test]
fn undeclared_rpc_output_fails_in_parsing() {
    let src = ECHO.replace("echo(Ping): Pong;", "echo(Ping): Missing;");
    assert_eq!(parse_fbs_schema(&src).unwrap_err(), ParseError::UnresolvedName("Missing".to_string()));
}

#[test]
fn missing_root_type_is_reported() {
    let st = parse("table Ping { id: string; } union Command { Ping }");
    let d = type_check(&st);
    assert_eq!(d.len(), 1);
    assert!(matches!(d[0], Diagnostic::MissingRootType));
    assert!(d[0].message().contains("root type"));
}

#[test]
fn root_type_naming_no_table_is_reported() {
    let st = parse("table Ping { id: string; } root_type Nothing;");
    let d = type_check(&st);
    assert!(matches!(d[..], [Diagnostic::MissingRootType]));
}

#[test]
fn root_without_payload_union_is_reported() {
    let st = parse("table Root { id: string; payload: string; } root_type Root;");
    let d = type_check(&st);
    assert!(matches!(d[..], [Diagnostic::MissingPayloadUnion]));
    assert_eq!(d[0].message(), "The root type has no payload field that refers to a union");
}

#[test]
fn type_missing_from_union_is_named_once() {
    let src = ECHO.replace("union Command { Ping, Pong }", "union Command { Ping }")
        .replace("echo(Ping): Pong;", "echo(Ping): Pong; again(Pong): Ping;");
    let st = parse(&src);
    let d = type_check(&st);
    assert_eq!(d.len(), 1);
    match &d[0] {
        Diagnostic::RpcTypesNotInRootUnion(v) => assert_eq!(v, &vec!["Pong".to_string()]),
        other => panic!("unexpected diagnostic {:?}", other),
    }
    assert_eq!(
        d[0].message(),
        "Following tables are used by RPC methods, but not presented in root table payload union: Pong"
    );
}

#[test]
fn two_missing_types_are_joined() {
    let src = ECHO.replace("union Command { Ping, Pong }", "union Command { Root }");
    let st = parse(&src);
    let d = type_check(&st);
    assert_eq!(
        d[0].message(),
        "Following tables are used by RPC methods, but not presented in root table payload union: Ping, Pong"
    );
}

#[test]
fn generation_is_deterministic() {
    let src = "
struct Vec3 { x: float; y: float; z: float; }
enum Color: byte { Red, Green, Blue }
table Shape { id: string; color: Color; pos: Vec3; tags: [string]; points: [Vec3]; }
table Ack { ok: bool; }
union Command { Shape, Ack }
table Root { id: string; payload: Command; }
root_type Root;
rpc Draw { draw(Shape): Ack; clear(Ack): Ack; }
";
    let a = parse(src);
    let b = parse(src);
    assert_eq!(generate_rust_server_side_code(&a), generate_rust_server_side_code(&b));
    assert_eq!(generate_ts_client_side_code(&a), generate_ts_client_side_code(&b));
}

#[test]
fn synthetic_id_added_once_to_dispatch_payloads() {
    let st = parse("
table Ping { value: int; }
table Pong { id: string; value: int; }
table Other { value: int; }
union Command { Ping, Pong }
table Root { id: string; payload: Command; }
root_type Root;
");
    assert!(type_check(&st).is_empty());
    let ping = &st.table_declaration[0];
    let pong = &st.table_declaration[1];
    let other = &st.table_declaration[2];
    assert_eq!(ping.to_rs_string(&st), "pub struct PingContent {\n\tpub value: i32,\n\tpub id: String,\n}\n");
    assert_eq!(count(&pong.to_rs_string(&st), "pub id"), 1);
    assert_eq!(count(&other.to_rs_string(&st), "id"), 0);
    assert_eq!(ping.to_ts_string(&st), "export type PingContent = {\n\tvalue: number,\n\tid?: string,\n}\n");
    assert_eq!(pong.to_ts_string(&st), "export type PongContent = {\n\tid?: string,\n\tvalue: number,\n}\n");
}

#[test]
fn resolver_follows_kind_precedence() {
    let st = parse("table A { x: int; } enum A: byte { X } union U { A } struct S { v: int; } rpc R { m(A): A; }");
    assert_eq!(st.decl_kind("A"), DeclKind::Table);
    assert_eq!(st.decl_kind("S"), DeclKind::Struct);
    assert_eq!(st.decl_kind("U"), DeclKind::Union);
    assert_eq!(st.decl_kind("R"), DeclKind::Rpc);
    assert_eq!(st.decl_kind("Nope"), DeclKind::Unresolved);
    assert!(matches!(st.resolve_decl_by_name("A"), DeclType::Table(t) if t.name == "A"));
    assert!(matches!(st.resolve_decl_by_name("Nope"), DeclType::Null));
}

#[test]
fn enum_resolves_when_no_table_shares_its_name() {
    let st = parse("enum Color: ubyte { Red, Red, Green, }");
    assert!(matches!(st.resolve_decl_by_name("Color"), DeclType::Enum(e) if e.items == vec!["Red".to_string(), "Green".to_string()]));
}

#[test]
fn scalar_type_mappings() {
    let st = parse("table T { x: int; }");
    let cases = [
        ("bool", "bool", "boolean"), ("byte", "i8", "number"), ("ubyte", "u8", "number"),
        ("short", "i16", "number"), ("ushort", "u16", "number"), ("int", "i32", "number"),
        ("uint", "u32", "number"), ("float", "f32", "number"), ("long", "i64", "bigint"),
        ("ulong", "u64", "bigint"), ("double", "f64", "bigint"), ("int8", "i8", "number"),
        ("uint8", "u8", "number"), ("int16", "i16", "number"), ("uint16", "u16", "number"),
        ("int32", "i32", "number"), ("uint32", "u32", "number"), ("int64", "i64", "bigint"),
        ("uint64", "u64", "bigint"), ("float32", "f32", "number"), ("float64", "f64", "bigint"),
        ("string", "String", "string"), ("Shape", "ShapeContent", "ShapeContent"),
    ];
    for (name, rs, ts) in cases {
        let v = ValueType::from_name(name.to_string());
        assert_eq!(v.to_rs_string(&st), rs);
        assert_eq!(v.to_ts_string(&st), ts);
        let t = Type { value_type: ValueType::from_name(name.to_string()), is_array: true };
        assert_eq!(t.to_rs_string(&st), format!("Vec<{}>", rs));
        assert_eq!(t.to_ts_string(&st), format!("Array<{}>", ts));
    }
}

#[test]
fn method_names_are_recased() {
    let src = ECHO.replace("echo(Ping): Pong;", "EchoMessage(Ping): Pong;");
    let st = parse(&src);
    let server = generate_rust_server_side_code(&st);
    assert!(server.contains("fn echo_message(incoming: Vec<u8>)"));
    let client = generate_ts_client_side_code(&st);
    assert!(client.contains("export const echoMessage = async"));
    assert!(client.contains("echoMessage: echoMessage.bind(null, transport),"));
}

#[test]
fn offset_builder_branches_per_field_kind() {
    let st = parse("
struct Vec3 { x: float; y: float; }
enum Color: byte { Red }
table Leaf { id: string; }
table Shape { id: string; color: Color; pos: Vec3; tags: [string]; points: [Vec3]; colors: [Color]; leaf: Leaf; leaves: [Leaf]; data: [ubyte]; n: uint; }
union Command { Shape }
table Root { id: string; payload: Command; }
root_type Root;
");
    let shape = &st.table_declaration[1];
    let code = shape.generate_into_offset_impl(&st);
    assert!(code.starts_with("impl IntoOffset<Shape<'static>> for ShapeContent {\n"));
    assert!(code.contains("let id_offset = builder.create_string(&self.id);\n"));
    assert!(code.contains("let pos: Vec3 = self.pos.into();\n"));
    assert!(code.contains("pos: Some(&pos),\n"));
    assert!(code.contains("color: self.color,\n"));
    assert!(code.contains("tags_vec.push(builder.create_string(&value));"));
    assert!(code.contains("points_vec.push(Vec3::from(value));"));
    assert!(code.contains("colors_vec.push(value);"));
    assert!(code.contains("let leaf_offset = self.leaf.into_offset(builder);\n"));
    assert!(code.contains("leaves_vec.push(value.into_offset(builder));"));
    assert!(code.contains("let data_offset = builder.create_vector(&self.data);\n"));
    assert!(code.contains("n: self.n,\n"));
    assert!(code.ends_with("Shape::create(builder, args)\n}\n}\n"));
    let root = &st.table_declaration[2];
    let code = root.generate_into_offset_impl(&st);
    assert!(code.contains("let payload_offset = self.payload.unwrap();\n"));
    assert!(code.contains("payload_type: self.payload_type,\npayload: Some(payload_offset),\n"));
    assert!(root.to_rs_string(&st).contains("\tpub payload_type: Command,\n\tpub payload: Option<WIPOffset<UnionWIPOffset>>,\n"));
}

#[test]
fn struct_bindings() {
    let st = parse(ECHO.replace("root_type Root;", "root_type Root; struct Point { x: int; y: long; }").as_str());
    let p = &st.struct_declaration[0];
    assert_eq!(p.to_rs_string(&st), "pub struct PointContent {\n\tpub x: i32,\n\tpub y: i64,\n}\n");
    assert_eq!(
        p.generate_into_protocol_struct_impl(),
        "impl From<PointContent> for Point {\nfn from(struct_def: PointContent) -> Self {\nPointT {\nx: struct_def.x,\ny: struct_def.y,\n}.pack()\n}\n}\n"
    );
    assert_eq!(p.to_ts_string(&st), "export type PointContent = {\n\tx: number;\n\ty: bigint;\n};\n");
    assert_eq!(
        p.generate_into_function_statement(&st),
        "export const pointContentIntoProtocolClass = (content: PointContent): PointT => {\nreturn new PointT(content.x, content.y, );\n};\n"
    );
}

#[test]
fn last_root_type_and_declaration_win() {
    let st = parse("table A { x: int; } table A { y: int; } root_type A; root_type B;");
    assert_eq!(st.root_type_name, Some("B".to_string()));
    assert_eq!(st.table_declaration.len(), 1);
    assert_eq!(st.table_declaration[0].fields_order(), vec!["y".to_string()]);
}

#[test]
fn repeated_method_keeps_last() {
    let st = parse("table A { x: int; } table B { y: int; } rpc R { m(A): A; n(B): B; m(B): A; }");
    let rpc = &st.rpc_declarations[0];
    assert_eq!(rpc.methods.len(), 2);
    assert_eq!(rpc.methods[0].name, "m");
    assert_eq!(rpc.methods[0].input, "B");
    assert_eq!(rpc.methods[0].output, "A");
    assert_eq!(rpc.methods[1].name, "n");
}

#[test]
fn comments_are_skipped() {
    let st = FbsParser::parse("// a comment\ntable A { x: int; } // trailing\n").unwrap();
    assert_eq!(st.table_declaration.len(), 1);
}

#[test]
fn parse_errors() {
    assert_eq!(parse_fbs_schema("table A { x: int; } $").unwrap_err(), ParseError::UnexpectedCharacter(20));
    assert_eq!(parse_fbs_schema("table A { x: int;").unwrap_err(), ParseError::UnexpectedEnd);
    assert_eq!(parse_fbs_schema("table A { x int; }").unwrap_err(), ParseError::UnexpectedToken(12));
    assert_eq!(parse_fbs_schema("namespace A { }").unwrap_err(), ParseError::UnexpectedToken(0));
    assert_eq!(parse_fbs_schema("table A { x: int; x: bool; }").unwrap_err(), ParseError::DuplicateField("x".to_string()));
    assert_eq!(
        parse_fbs_schema("table A { x: int; } rpc R { m(A): A; } rpc S { n(A): A; }").unwrap_err(),
        ParseError::MultipleRpcServices
    );
    assert_eq!(
        parse_fbs_schema("table A { x: int; } rpc R { m(A): A; } table B { r: R; }").unwrap_err(),
        ParseError::InvalidReference("R".to_string())
    );
    assert_eq!(
        parse_fbs_schema("struct S { x: int; } union U { S }").unwrap_err(),
        ParseError::InvalidReference("S".to_string())
    );
    assert_eq!(parse_fbs_schema("table A { x: Nope; }").unwrap_err(), ParseError::UnresolvedName("Nope".to_string()));
}
