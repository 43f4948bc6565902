use vstd::prelude::*;
use crate::codegen_rs::{
    enum_import_fn, root_name, rs_arg, rs_arg_fn, rs_dispatch_arm_fn, rs_dispatch_rpc_fn,
    rs_handler_method_fn, rs_prep, rs_prep_fn, rs_rpc_unit_fn, rs_server_code, rs_struct_copy,
    rs_struct_copy_fn, rs_struct_field, rs_struct_field_fn, rs_struct_import_fn, rs_struct_unit_fn,
    rs_table_field, rs_table_field_fn, rs_table_import_fn, rs_table_unit_fn, synthetic_id,
    union_import_fn, union_name,
};
use crate::codegen_ts::{
    ts_binding_fn, ts_class_import_fn, ts_client_code, ts_ctor_arg, ts_ctor_arg_fn,
    ts_enum_import_fn, ts_method_fn, ts_rpc_unit_fn, ts_struct_arg_fn, ts_struct_field_fn,
    ts_struct_import_fn, ts_struct_unit_fn, ts_table_field, ts_table_field_fn, ts_table_unit_fn,
    ts_union_import_fn, ts_union_member_fn, ts_union_unit_fn,
};
use crate::grammar::{
    enum_matches, fields_match, method_view, methods_view, parse_spec, rpc_matches,
    schema_matches, struct_matches, table_matches, type_matches, union_matches, FieldSpec,
    SchemaSpec, TypeSpec,
};
use crate::ir::{field_names, field_type_of, names_of, FieldDeclaration, RpcMethod, Type};
use crate::naming::concat_map;
use crate::parser::{lemma_kind_matches, Statements};
use crate::typechecker::is_valid;

verus! {

/// Texts made element by element from two sequences agree when the elements do.
pub proof fn lemma_concat_congruent<A, B>(
    xs: Seq<A>,
    ys: Seq<B>,
    f: spec_fn(A) -> Seq<char>,
    g: spec_fn(B) -> Seq<char>,
)
    requires
        xs.len() == ys.len(),
        forall|i: int| 0 <= i < xs.len() ==> f(#[trigger] xs[i]) == g(ys[i]),
    ensures
        concat_map(xs, f) == concat_map(ys, g),
    decreases xs.len(),
{
    if xs.len() > 0 {
        let xd = xs.drop_last();
        let yd = ys.drop_last();
        assert forall|i: int| 0 <= i < xd.len() implies f(#[trigger] xd[i]) == g(yd[i]) by {
            assert(xd[i] == xs[i]);
            assert(yd[i] == ys[i]);
        }
        lemma_concat_congruent(xd, yd, f, g);
        assert(f(xs[xs.len() - 1]) == g(ys[ys.len() - 1]));
    }
}

/// Two value types named by one type name.
pub proof fn lemma_same_type(ta: Type, tb: Type, ts: TypeSpec)
    requires
        type_matches(ta, ts),
        type_matches(tb, ts),
    ensures
        ta.is_array == tb.is_array,
        (ta.value_type is CompoundType) == (tb.value_type is CompoundType),
        ta.value_type is CompoundType ==> ta.value_type->CompoundType_0@ == tb.value_type->CompoundType_0@,
        !(ta.value_type is CompoundType) ==> ta.value_type == tb.value_type,
{
}

/// Matching declaration sets give every name the same kind.
pub proof fn lemma_same_kinds(a: Statements, b: Statements, s: SchemaSpec)
    requires
        schema_matches(a, s),
        schema_matches(b, s),
    ensures
        forall|n: Seq<char>| #[trigger] a.kind_of(n) == b.kind_of(n),
{
    assert forall|n: Seq<char>| #[trigger] a.kind_of(n) == b.kind_of(n) by {
        lemma_kind_matches(a, s, n);
        lemma_kind_matches(b, s, n);
    }
}

/// Fields that match one written field list have the type of any name alike.
proof fn lemma_same_field_type(fa: Seq<FieldDeclaration>, fb: Seq<FieldDeclaration>, fs: Seq<FieldSpec>, n: Seq<char>)
    requires
        fields_match(fa, fs),
        fields_match(fb, fs),
        crate::ir::distinct(field_names(fa)),
    ensures
        (field_type_of(fa, n) is Some) == (field_type_of(fb, n) is Some),
        field_type_of(fa, n) is Some ==> exists|ts: TypeSpec|
            type_matches(field_type_of(fa, n)->Some_0, ts) && type_matches(field_type_of(fb, n)->Some_0, ts),
{
    assert(fa.len() == field_names(fa).len() && fb.len() == field_names(fb).len());
    assert(field_names(fa) == field_names(fb));
    if exists|i: int| 0 <= i < fa.len() && fa[i].name@ == n {
        let i = crate::ir::field_position(fa, n);
        assert(field_names(fa)[i] == n);
        assert(fb[i].name@ == field_names(fb)[i]);
        let j = crate::ir::field_position(fb, n);
        assert(field_names(fb)[j] == n);
        assert(field_names(fa)[j] == n);
        assert(i == j);
        assert(type_matches(fa[i].field_type, fs[i].ty));
        assert(type_matches(fb[i].field_type, fs[i].ty));
        assert(type_matches(field_type_of(fa, n)->Some_0, fs[i].ty));
    }
    if exists|j: int| 0 <= j < fb.len() && fb[j].name@ == n {
        let j = choose|j: int| 0 <= j < fb.len() && fb[j].name@ == n;
        assert(field_names(fb)[j] == n);
        assert(fa[j].name@ == field_names(fa)[j]);
    }
}

/// Matching well-formed declaration sets have the same root dispatch union.
pub proof fn lemma_same_union(a: Statements, b: Statements, s: SchemaSpec)
    requires
        a.wf(),
        b.wf(),
        schema_matches(a, s),
        schema_matches(b, s),
    ensures
        (a.commands_union() is Some) == (b.commands_union() is Some),
        a.commands_union() is Some ==> a.commands_union()->Some_0.name@ == b.commands_union()->Some_0.name@
            && names_of(a.commands_union()->Some_0.items@) == names_of(b.commands_union()->Some_0.items@),
        forall|n: Seq<char>| #[trigger] a.in_commands_union(n) == b.in_commands_union(n),
{
    if a.root_type_name is Some {
        let r = a.root_type_name->Some_0@;
        assert(b.root_type_name->Some_0@ == r);
        assert(a.table_names() =~= b.table_names()) by {
            assert forall|k: int| 0 <= k < a.table_names().len() implies a.table_names()[k] == b.table_names()[k] by {
                assert(table_matches(a.table_declaration@[k], s.tables[k]));
                assert(table_matches(b.table_declaration@[k], s.tables[k]));
            }
        }
        if a.table_of(r) is Some {
            let k = a.table_index(r);
            assert(a.table_names()[k] == r);
            assert(b.table_of(r) is Some);
            let kb = b.table_index(r);
            assert(b.table_names()[kb] == r);
            assert(k == kb);
            let ta = a.table_declaration@[k];
            let tb = b.table_declaration@[k];
            assert(table_matches(ta, s.tables[k]));
            assert(table_matches(tb, s.tables[k]));
            assert(ta.wf());
            lemma_same_field_type(ta.fields@, tb.fields@, s.tables[k].fields, "payload"@);
            if field_type_of(ta.fields@, "payload"@) is Some {
                let ts = choose|ts: TypeSpec|
                    type_matches(field_type_of(ta.fields@, "payload"@)->Some_0, ts)
                        && type_matches(field_type_of(tb.fields@, "payload"@)->Some_0, ts);
                lemma_same_type(field_type_of(ta.fields@, "payload"@)->Some_0, field_type_of(tb.fields@, "payload"@)->Some_0, ts);
                let ty = field_type_of(ta.fields@, "payload"@)->Some_0;
                if ty.value_type is CompoundType && !ty.is_array {
                    let u = ty.value_type->CompoundType_0@;
                    assert(a.union_names() =~= b.union_names()) by {
                        assert forall|k: int| 0 <= k < a.union_names().len() implies a.union_names()[k] == b.union_names()[k] by {
                            assert(union_matches(a.unions@[k], s.unions[k]));
                            assert(union_matches(b.unions@[k], s.unions[k]));
                        }
                    }
                    if a.union_of(u) is Some {
                        let ku = a.union_index(u);
                        assert(a.union_names()[ku] == u);
                        assert(b.union_of(u) is Some);
                        let kbu = b.union_index(u);
                        assert(b.union_names()[kbu] == u);
                        assert(ku == kbu);
                        assert(union_matches(a.unions@[ku], s.unions[ku]));
                        assert(union_matches(b.unions@[ku], s.unions[ku]));
                    } else {
                        if b.union_of(u) is Some {
                            let kbu = b.union_index(u);
                            assert(b.union_names()[kbu] == u);
                            assert(a.union_names()[kbu] == u);
                            assert(a.unions@[kbu].name@ == u);
                        }
                    }
                }
            }
        } else {
            if b.table_of(r) is Some {
                let kb = b.table_index(r);
                assert(b.table_names()[kb] == r);
                assert(a.table_names()[kb] == r);
                assert(a.table_declaration@[kb].name@ == r);
            }
        }
    }
}

/// Fields with one name and one written type give the same text.
proof fn lemma_field_texts(fa: FieldDeclaration, fb: FieldDeclaration, ts: TypeSpec, a: Statements, b: Statements)
    requires
        fa.name@ == fb.name@,
        type_matches(fa.field_type, ts),
        type_matches(fb.field_type, ts),
        forall|n: Seq<char>| #[trigger] a.kind_of(n) == b.kind_of(n),
    ensures
        rs_table_field(fa, a) == rs_table_field(fb, b),
        rs_prep(fa, a) == rs_prep(fb, b),
        rs_arg(fa, a) == rs_arg(fb, b),
        rs_struct_field(fa) == rs_struct_field(fb),
        rs_struct_copy(fa) == rs_struct_copy(fb),
        ts_table_field(fa, a) == ts_table_field(fb, b),
        ts_ctor_arg(fa, a) == ts_ctor_arg(fb, b),
        (ts_struct_field_fn())(fa) == (ts_struct_field_fn())(fb),
        (ts_struct_arg_fn())(fa) == (ts_struct_arg_fn())(fb),
{
    lemma_same_type(fa.field_type, fb.field_type, ts);
    if fa.field_type.value_type is CompoundType {
        let n = fa.field_type.value_type->CompoundType_0@;
        assert(a.kind_of(n) == b.kind_of(n));
    }
}

/// Field lists that match one written list give the same texts.
proof fn lemma_fields_texts(fa: Seq<FieldDeclaration>, fb: Seq<FieldDeclaration>, fs: Seq<FieldSpec>, a: Statements, b: Statements)
    requires
        fields_match(fa, fs),
        fields_match(fb, fs),
        forall|n: Seq<char>| #[trigger] a.kind_of(n) == b.kind_of(n),
    ensures
        field_names(fa) == field_names(fb),
        concat_map(fa, rs_table_field_fn(a)) == concat_map(fb, rs_table_field_fn(b)),
        concat_map(fa, rs_prep_fn(a)) == concat_map(fb, rs_prep_fn(b)),
        concat_map(fa, rs_arg_fn(a)) == concat_map(fb, rs_arg_fn(b)),
        concat_map(fa, rs_struct_field_fn()) == concat_map(fb, rs_struct_field_fn()),
        concat_map(fa, rs_struct_copy_fn()) == concat_map(fb, rs_struct_copy_fn()),
        concat_map(fa, ts_table_field_fn(a)) == concat_map(fb, ts_table_field_fn(b)),
        concat_map(fa, ts_ctor_arg_fn(a)) == concat_map(fb, ts_ctor_arg_fn(b)),
        concat_map(fa, ts_struct_field_fn()) == concat_map(fb, ts_struct_field_fn()),
        concat_map(fa, ts_struct_arg_fn()) == concat_map(fb, ts_struct_arg_fn()),
{
    assert(fa.len() == field_names(fa).len() && fb.len() == field_names(fb).len());
    assert forall|i: int| 0 <= i < fa.len() implies #[trigger] fa[i].name@ == fb[i].name@ && {
        &&& rs_table_field(fa[i], a) == rs_table_field(fb[i], b)
        &&& rs_prep(fa[i], a) == rs_prep(fb[i], b)
        &&& rs_arg(fa[i], a) == rs_arg(fb[i], b)
        &&& rs_struct_field(fa[i]) == rs_struct_field(fb[i])
        &&& rs_struct_copy(fa[i]) == rs_struct_copy(fb[i])
        &&& ts_table_field(fa[i], a) == ts_table_field(fb[i], b)
        &&& ts_ctor_arg(fa[i], a) == ts_ctor_arg(fb[i], b)
        &&& (ts_struct_field_fn())(fa[i]) == (ts_struct_field_fn())(fb[i])
        &&& (ts_struct_arg_fn())(fa[i]) == (ts_struct_arg_fn())(fb[i])
    } by {
        assert(field_names(fa)[i] == field_names(fb)[i]);
        assert(type_matches(fa[i].field_type, fs[i].ty));
        assert(type_matches(fb[i].field_type, fs[i].ty));
        lemma_field_texts(fa[i], fb[i], fs[i].ty, a, b);
    }
    lemma_concat_congruent(fa, fb, rs_table_field_fn(a), rs_table_field_fn(b));
    lemma_concat_congruent(fa, fb, rs_prep_fn(a), rs_prep_fn(b));
    lemma_concat_congruent(fa, fb, rs_arg_fn(a), rs_arg_fn(b));
    lemma_concat_congruent(fa, fb, rs_struct_field_fn(), rs_struct_field_fn());
    lemma_concat_congruent(fa, fb, rs_struct_copy_fn(), rs_struct_copy_fn());
    lemma_concat_congruent(fa, fb, ts_table_field_fn(a), ts_table_field_fn(b));
    lemma_concat_congruent(fa, fb, ts_ctor_arg_fn(a), ts_ctor_arg_fn(b));
    lemma_concat_congruent(fa, fb, ts_struct_field_fn(), ts_struct_field_fn());
    lemma_concat_congruent(fa, fb, ts_struct_arg_fn(), ts_struct_arg_fn());
}

/// What the two declaration sets share, stated over the names that emission reads.
pub open spec fn emit_alike(a: Statements, b: Statements) -> bool {
    &&& forall|n: Seq<char>| #[trigger] a.kind_of(n) == b.kind_of(n)
    &&& forall|n: Seq<char>| #[trigger] a.in_commands_union(n) == b.in_commands_union(n)
    &&& root_name(a) == root_name(b)
    &&& union_name(a) == union_name(b)
}

proof fn lemma_method_texts(ma: Seq<RpcMethod>, mb: Seq<RpcMethod>, a: Statements, b: Statements)
    requires
        methods_view(ma) == methods_view(mb),
        emit_alike(a, b),
    ensures
        concat_map(ma, rs_handler_method_fn()) == concat_map(mb, rs_handler_method_fn()),
        concat_map(ma, rs_dispatch_arm_fn(union_name(a))) == concat_map(mb, rs_dispatch_arm_fn(union_name(b))),
        concat_map(ma, ts_method_fn(a)) == concat_map(mb, ts_method_fn(b)),
        concat_map(ma, ts_binding_fn()) == concat_map(mb, ts_binding_fn()),
{
    assert(ma.len() == methods_view(ma).len() && mb.len() == methods_view(mb).len());
    assert forall|i: int| 0 <= i < ma.len() implies {
        &&& (rs_handler_method_fn())(#[trigger] ma[i]) == (rs_handler_method_fn())(mb[i])
        &&& (rs_dispatch_arm_fn(union_name(a)))(ma[i]) == (rs_dispatch_arm_fn(union_name(b)))(mb[i])
        &&& (ts_method_fn(a))(ma[i]) == (ts_method_fn(b))(mb[i])
        &&& (ts_binding_fn())(ma[i]) == (ts_binding_fn())(mb[i])
    } by {
        assert(methods_view(ma)[i] == method_view(ma[i]));
        assert(methods_view(mb)[i] == method_view(mb[i]));
        assert(method_view(ma[i]) == method_view(mb[i]));
        assert(ma[i].name@ == mb[i].name@ && ma[i].input@ == mb[i].input@ && ma[i].output@ == mb[i].output@);
    }
    lemma_concat_congruent(ma, mb, rs_handler_method_fn(), rs_handler_method_fn());
    lemma_concat_congruent(ma, mb, rs_dispatch_arm_fn(union_name(a)), rs_dispatch_arm_fn(union_name(b)));
    lemma_concat_congruent(ma, mb, ts_method_fn(a), ts_method_fn(b));
    lemma_concat_congruent(ma, mb, ts_binding_fn(), ts_binding_fn());
}

/// Two results of parsing one schema text, both accepted by the checker,
/// generate the same server-side and the same client-side text.
pub proof fn lemma_generation_deterministic(text: Seq<char>, a: Statements, b: Statements)
    requires
        parse_spec(text) is Ok,
        schema_matches(a, parse_spec(text)->Ok_0),
        schema_matches(b, parse_spec(text)->Ok_0),
        a.wf(),
        b.wf(),
        is_valid(a),
        is_valid(b),
    ensures
        rs_server_code(a) == rs_server_code(b),
        ts_client_code(a) == ts_client_code(b),
{
    let s = parse_spec(text)->Ok_0;
    lemma_same_kinds(a, b, s);
    lemma_same_union(a, b, s);
    assert(emit_alike(a, b));
    let (ta, tb) = (a.table_declaration@, b.table_declaration@);
    assert forall|i: int| 0 <= i < ta.len() implies {
        &&& (rs_table_import_fn())(#[trigger] ta[i]) == (rs_table_import_fn())(tb[i])
        &&& (ts_class_import_fn())(ta[i]) == (ts_class_import_fn())(tb[i])
        &&& (rs_table_unit_fn(a))(ta[i]) == (rs_table_unit_fn(b))(tb[i])
        &&& (ts_table_unit_fn(a))(ta[i]) == (ts_table_unit_fn(b))(tb[i])
    } by {
        assert(table_matches(ta[i], s.tables[i]));
        assert(table_matches(tb[i], s.tables[i]));
        lemma_fields_texts(ta[i].fields@, tb[i].fields@, s.tables[i].fields, a, b);
        assert(synthetic_id(ta[i], a) == synthetic_id(tb[i], b));
    }
    lemma_concat_congruent(ta, tb, rs_table_import_fn(), rs_table_import_fn());
    lemma_concat_congruent(ta, tb, ts_class_import_fn(), ts_class_import_fn());
    lemma_concat_congruent(ta, tb, rs_table_unit_fn(a), rs_table_unit_fn(b));
    lemma_concat_congruent(ta, tb, ts_table_unit_fn(a), ts_table_unit_fn(b));
    let (sa, sb) = (a.struct_declaration@, b.struct_declaration@);
    assert forall|i: int| 0 <= i < sa.len() implies {
        &&& (rs_struct_import_fn())(#[trigger] sa[i]) == (rs_struct_import_fn())(sb[i])
        &&& (ts_struct_import_fn())(sa[i]) == (ts_struct_import_fn())(sb[i])
        &&& (rs_struct_unit_fn())(sa[i]) == (rs_struct_unit_fn())(sb[i])
        &&& (ts_struct_unit_fn())(sa[i]) == (ts_struct_unit_fn())(sb[i])
    } by {
        assert(struct_matches(sa[i], s.structs[i]));
        assert(struct_matches(sb[i], s.structs[i]));
        lemma_fields_texts(sa[i].fields@, sb[i].fields@, s.structs[i].fields, a, b);
    }
    lemma_concat_congruent(sa, sb, rs_struct_import_fn(), rs_struct_import_fn());
    lemma_concat_congruent(sa, sb, ts_struct_import_fn(), ts_struct_import_fn());
    lemma_concat_congruent(sa, sb, rs_struct_unit_fn(), rs_struct_unit_fn());
    lemma_concat_congruent(sa, sb, ts_struct_unit_fn(), ts_struct_unit_fn());
    let (ea, eb) = (a.enum_declarations@, b.enum_declarations@);
    assert forall|i: int| 0 <= i < ea.len() implies {
        &&& (enum_import_fn())(#[trigger] ea[i]) == (enum_import_fn())(eb[i])
        &&& (ts_enum_import_fn())(ea[i]) == (ts_enum_import_fn())(eb[i])
    } by {
        assert(enum_matches(ea[i], s.enums[i]));
        assert(enum_matches(eb[i], s.enums[i]));
    }
    lemma_concat_congruent(ea, eb, enum_import_fn(), enum_import_fn());
    lemma_concat_congruent(ea, eb, ts_enum_import_fn(), ts_enum_import_fn());
    let (ua, ub) = (a.unions@, b.unions@);
    assert forall|i: int| 0 <= i < ua.len() implies {
        &&& (union_import_fn())(#[trigger] ua[i]) == (union_import_fn())(ub[i])
        &&& (ts_union_import_fn())(ua[i]) == (ts_union_import_fn())(ub[i])
        &&& (ts_union_unit_fn())(ua[i]) == (ts_union_unit_fn())(ub[i])
    } by {
        assert(union_matches(ua[i], s.unions[i]));
        assert(union_matches(ub[i], s.unions[i]));
        let (xa, xb) = (ua[i].items@, ub[i].items@);
        assert(xa.len() == names_of(xa).len() && xb.len() == names_of(xb).len());
        assert forall|j: int| 0 <= j < xa.len() implies (ts_union_member_fn())(#[trigger] xa[j]) == (ts_union_member_fn())(xb[j]) by {
            assert(names_of(xa)[j] == names_of(xb)[j]);
        }
        lemma_concat_congruent(xa, xb, ts_union_member_fn(), ts_union_member_fn());
    }
    lemma_concat_congruent(ua, ub, union_import_fn(), union_import_fn());
    lemma_concat_congruent(ua, ub, ts_union_import_fn(), ts_union_import_fn());
    lemma_concat_congruent(ua, ub, ts_union_unit_fn(), ts_union_unit_fn());
    let (ra, rb) = (a.rpc_declarations@, b.rpc_declarations@);
    assert forall|i: int| 0 <= i < ra.len() implies {
        &&& (rs_rpc_unit_fn())(#[trigger] ra[i]) == (rs_rpc_unit_fn())(rb[i])
        &&& (rs_dispatch_rpc_fn(union_name(a)))(ra[i]) == (rs_dispatch_rpc_fn(union_name(b)))(rb[i])
        &&& (ts_rpc_unit_fn(a))(ra[i]) == (ts_rpc_unit_fn(b))(rb[i])
    } by {
        assert(rpc_matches(ra[i], s.rpcs[i]));
        assert(rpc_matches(rb[i], s.rpcs[i]));
        lemma_method_texts(ra[i].methods@, rb[i].methods@, a, b);
    }
    lemma_concat_congruent(ra, rb, rs_rpc_unit_fn(), rs_rpc_unit_fn());
    lemma_concat_congruent(ra, rb, rs_dispatch_rpc_fn(union_name(a)), rs_dispatch_rpc_fn(union_name(b)));
    lemma_concat_congruent(ra, rb, ts_rpc_unit_fn(a), ts_rpc_unit_fn(b));
}

} // verus!
