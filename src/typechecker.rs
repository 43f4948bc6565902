use vstd::prelude::*;
use crate::ir::{names_of, RpcDeclaration, RpcMethod};
use crate::parser::Statements;

verus! {

/// A violation of a protocol-wide rule.
#[derive(Debug)]
pub enum Diagnostic {
    /// No `root_type`, or it names no declared table.
    MissingRootType,
    /// The root table has no scalar `payload` field that refers to a union.
    MissingPayloadUnion,
    /// Types used by RPC methods that the root dispatch union lacks, each once,
    /// in the order of first use.
    RpcTypesNotInRootUnion(Vec<String>),
}

/// Input and output names of the methods, in order.
pub open spec fn method_refs(ms: Seq<RpcMethod>) -> Seq<Seq<char>>
    decreases ms.len(),
{
    if ms.len() == 0 {
        Seq::empty()
    } else {
        method_refs(ms.drop_last()) + seq![ms.last().input@, ms.last().output@]
    }
}

/// Input and output names of every method of every service, in order.
pub open spec fn rpc_refs(rpcs: Seq<RpcDeclaration>) -> Seq<Seq<char>>
    decreases rpcs.len(),
{
    if rpcs.len() == 0 {
        Seq::empty()
    } else {
        rpc_refs(rpcs.drop_last()) + method_refs(rpcs.last().methods@)
    }
}

/// The names of `refs` that `items` lacks, each once, in order of first occurrence.
pub open spec fn missing_from(refs: Seq<Seq<char>>, items: Seq<Seq<char>>) -> Seq<Seq<char>>
    decreases refs.len(),
{
    if refs.len() == 0 {
        Seq::empty()
    } else {
        let m = missing_from(refs.drop_last(), items);
        if items.contains(refs.last()) || m.contains(refs.last()) {
            m
        } else {
            m.push(refs.last())
        }
    }
}

/// The types used by RPC methods that the root dispatch union lacks.
pub open spec fn missing_types(st: Statements) -> Seq<Seq<char>> {
    match st.commands_union() {
        Some(u) => missing_from(rpc_refs(st.rpc_declarations@), names_of(u.items@)),
        None => Seq::empty(),
    }
}

/// The root type is named and declared as a table.
pub open spec fn root_present(st: Statements) -> bool {
    match st.root_type_name {
        Some(r) => st.table_of(r@) is Some,
        None => false,
    }
}

/// The schema meets every rule that the checker enforces.
pub open spec fn is_valid(st: Statements) -> bool {
    root_present(st) && st.commands_union() is Some && missing_types(st).len() == 0
}

/// The names joined with ", ".
pub open spec fn join_names(s: Seq<Seq<char>>) -> Seq<char>
    decreases s.len(),
{
    if s.len() == 0 {
        Seq::empty()
    } else if s.len() == 1 {
        s[0]
    } else {
        join_names(s.drop_last()) + ", "@ + s.last()
    }
}

impl Diagnostic {
    pub open spec fn message_spec(&self) -> Seq<char> {
        match self {
            Diagnostic::MissingRootType => "There is no root type in the schema"@,
            Diagnostic::MissingPayloadUnion => "The root type has no payload field that refers to a union"@,
            Diagnostic::RpcTypesNotInRootUnion(v) =>
                "Following tables are used by RPC methods, but not presented in root table payload union: "@
                    + join_names(names_of(v@)),
        }
    }

    /// The text shown for this diagnostic.
    pub fn message(&self) -> (r: String)
        ensures
            r@ == self.message_spec(),
    {
        match self {
            Diagnostic::MissingRootType => "There is no root type in the schema".to_owned(),
            Diagnostic::MissingPayloadUnion => "The root type has no payload field that refers to a union".to_owned(),
            Diagnostic::RpcTypesNotInRootUnion(v) => {
                let mut r = String::from_str(
                    "Following tables are used by RPC methods, but not presented in root table payload union: ",
                );
                let mut i: usize = 0;
                while i < v.len()
                    invariant
                        i <= v.len(),
                        r@ == "Following tables are used by RPC methods, but not presented in root table payload union: "@
                            + join_names(names_of(v@.take(i as int))),
                    decreases v.len() - i,
                {
                    proof {
                        assert(names_of(v@.take(i + 1)).drop_last() =~= names_of(v@.take(i as int)));
                    }
                    if i > 0 {
                        r.append(", ");
                    }
                    r.append(v[i].as_str());
                    i = i + 1;
                    proof {
                        if i == 1 {
                            assert(join_names(names_of(v@.take(0))) =~= Seq::<char>::empty());
                        }
                    }
                }
                assert(v@.take(i as int) =~= v@);
                r
            },
        }
    }
}

/// Appends the input and output names of every method of `rpc`.
fn push_method_refs(rpc: &RpcDeclaration, out: &mut Vec<String>)
    ensures
        names_of(final(out)@) == names_of(old(out)@) + method_refs(rpc.methods@),
{
    let ghost start = names_of(out@);
    let mut j: usize = 0;
    while j < rpc.methods.len()
        invariant
            j <= rpc.methods.len(),
            names_of(out@) == start + method_refs(rpc.methods@.take(j as int)),
        decreases rpc.methods.len() - j,
    {
        let ghost before = out@;
        out.push(rpc.methods[j].input.clone());
        out.push(rpc.methods[j].output.clone());
        proof {
            let ms = rpc.methods@.take(j + 1);
            assert(ms.drop_last() =~= rpc.methods@.take(j as int));
            assert(names_of(out@) =~= names_of(before) + seq![rpc.methods@[j as int].input@, rpc.methods@[j as int].output@]);
        }
        j = j + 1;
    }
    assert(rpc.methods@.take(j as int) =~= rpc.methods@);
}

/// Every input and output name used by the RPC methods, in order.
fn collect_rpc_refs(statements: &Statements) -> (r: Vec<String>)
    ensures
        names_of(r@) == rpc_refs(statements.rpc_declarations@),
{
    let mut out: Vec<String> = Vec::new();
    let mut i: usize = 0;
    while i < statements.rpc_declarations.len()
        invariant
            i <= statements.rpc_declarations.len(),
            names_of(out@) == rpc_refs(statements.rpc_declarations@.take(i as int)),
        decreases statements.rpc_declarations.len() - i,
    {
        proof {
            assert(statements.rpc_declarations@.take(i + 1).drop_last() =~= statements.rpc_declarations@.take(i as int));
        }
        push_method_refs(&statements.rpc_declarations[i], &mut out);
        i = i + 1;
    }
    assert(statements.rpc_declarations@.take(i as int) =~= statements.rpc_declarations@);
    assert(names_of(Seq::<String>::empty()) =~= Seq::<Seq<char>>::empty());
    out
}

/// The names of `refs` that `items` lacks, each once, in order of first use.
fn check_root_union(refs: &Vec<String>, items: &Vec<String>) -> (r: Vec<String>)
    ensures
        names_of(r@) == missing_from(names_of(refs@), names_of(items@)),
{
    let mut out: Vec<String> = Vec::new();
    let mut i: usize = 0;
    while i < refs.len()
        invariant
            i <= refs.len(),
            names_of(out@) == missing_from(names_of(refs@.take(i as int)), names_of(items@)),
        decreases refs.len() - i,
    {
        proof {
            assert(names_of(refs@.take(i + 1)).drop_last() =~= names_of(refs@.take(i as int)));
            assert(names_of(refs@.take(i + 1)).last() == refs@[i as int]@);
        }
        let ghost before = out@;
        if !crate::ir::contains_name(items, &refs[i]) && !crate::ir::contains_name(&out, &refs[i]) {
            out.push(refs[i].clone());
            assert(names_of(out@) =~= names_of(before).push(refs@[i as int]@));
        }
        i = i + 1;
    }
    assert(refs@.take(i as int) =~= refs@);
    assert(names_of(Seq::<String>::empty()) =~= Seq::<Seq<char>>::empty());
    out
}

/// Checks the protocol-wide rules: a root table, a root dispatch union on
/// its `payload` field, and every RPC input and output type a member of that
/// union. An empty result means that the schema is valid.
pub fn type_check(statements: &Statements) -> (r: Vec<Diagnostic>)
    requires
        statements.wf(),
    ensures
        r@.len() == 0 <==> is_valid(*statements),
        statements.root_type_name is None ==> r@.len() > 0 && r@[0] is MissingRootType,
        !root_present(*statements) ==> r@.len() == 1 && r@[0] is MissingRootType,
        root_present(*statements) && statements.commands_union() is None ==> r@.len() == 1
            && r@[0] is MissingPayloadUnion,
        root_present(*statements) && statements.commands_union() is Some && missing_types(*statements).len() > 0
            ==> r@.len() == 1 && match r@[0] {
                Diagnostic::RpcTypesNotInRootUnion(v) => names_of(v@) == missing_types(*statements),
                _ => false,
            },
{
    let mut errors: Vec<Diagnostic> = Vec::new();
    let present = match &statements.root_type_name {
        Some(root) => statements.find_table(root).is_some(),
        None => false,
    };
    if !present {
        errors.push(Diagnostic::MissingRootType);
        return errors;
    }
    match statements.get_available_commands_union() {
        None => {
            errors.push(Diagnostic::MissingPayloadUnion);
        },
        Some(u) => {
            let refs = collect_rpc_refs(statements);
            let missed = check_root_union(&refs, &u.items);
            if missed.len() > 0 {
                errors.push(Diagnostic::RpcTypesNotInRootUnion(missed));
            }
        },
    }
    errors
}

/// When every name of `refs` is in `items`, none is missing.
pub proof fn lemma_none_missing(refs: Seq<Seq<char>>, items: Seq<Seq<char>>)
    requires
        forall|k: int| 0 <= k < refs.len() ==> items.contains(#[trigger] refs[k]),
    ensures
        missing_from(refs, items) == Seq::<Seq<char>>::empty(),
    decreases refs.len(),
{
    if refs.len() > 0 {
        let d = refs.drop_last();
        assert forall|k: int| 0 <= k < d.len() implies items.contains(#[trigger] d[k]) by {
            assert(d[k] == refs[k]);
        }
        lemma_none_missing(d, items);
        assert(items.contains(refs[refs.len() - 1]));
    }
}

/// When `x` is the one name of `refs` that `items` lacks, it alone is missing.
pub proof fn lemma_one_missing(refs: Seq<Seq<char>>, items: Seq<Seq<char>>, x: Seq<char>)
    requires
        refs.contains(x),
        !items.contains(x),
        forall|k: int| 0 <= k < refs.len() && refs[k] != x ==> items.contains(#[trigger] refs[k]),
    ensures
        missing_from(refs, items) == seq![x],
    decreases refs.len(),
{
    let d = refs.drop_last();
    let last = refs[refs.len() - 1];
    if d.contains(x) {
        assert forall|k: int| 0 <= k < d.len() && d[k] != x implies items.contains(#[trigger] d[k]) by {
            assert(d[k] == refs[k]);
        }
        lemma_one_missing(d, items, x);
        if last != x {
            assert(items.contains(last));
        } else {
            assert(missing_from(d, items)[0] == x);
        }
    } else {
        let k = choose|k: int| 0 <= k < refs.len() && refs[k] == x;
        if k < d.len() {
            assert(d[k] == x);
        }
        assert(last == x);
        assert forall|j: int| 0 <= j < d.len() implies items.contains(#[trigger] d[j]) by {
            assert(d[j] == refs[j]);
            if d[j] == x {
                assert(d.contains(x));
            }
        }
        lemma_none_missing(d, items);
        assert(missing_from(refs, items) =~= seq![x]);
    }
}

/// When the root dispatch union lacks exactly one type that the RPC methods
/// use, the checker's diagnostic names that type and no other.
pub proof fn lemma_single_missing_type_reported(st: Statements, x: Seq<char>)
    requires
        st.commands_union() is Some,
        rpc_refs(st.rpc_declarations@).contains(x),
        !st.in_commands_union(x),
        forall|y: Seq<char>|
            #[trigger] rpc_refs(st.rpc_declarations@).contains(y) && y != x ==> st.in_commands_union(y),
    ensures
        missing_types(st) == seq![x],
{
    let refs = rpc_refs(st.rpc_declarations@);
    let items = names_of(st.commands_union()->Some_0.items@);
    assert forall|k: int| 0 <= k < refs.len() && refs[k] != x implies items.contains(#[trigger] refs[k]) by {
        assert(refs.contains(refs[k]));
        assert(st.in_commands_union(refs[k]));
    }
    lemma_one_missing(refs, items, x);
}

/// The missing names are exactly the names of `refs` that `items` lacks,
/// each once.
pub proof fn lemma_missing_from_exact(refs: Seq<Seq<char>>, items: Seq<Seq<char>>)
    ensures
        forall|x: Seq<char>|
            #[trigger] missing_from(refs, items).contains(x) <==> refs.contains(x) && !items.contains(x),
        crate::ir::distinct(missing_from(refs, items)),
    decreases refs.len(),
{
    if refs.len() > 0 {
        let d = refs.drop_last();
        let last = refs[refs.len() - 1];
        lemma_missing_from_exact(d, items);
        let m = missing_from(d, items);
        assert forall|x: Seq<char>| #[trigger] refs.contains(x) <==> d.contains(x) || x == last by {
            if refs.contains(x) {
                let k = choose|k: int| 0 <= k < refs.len() && refs[k] == x;
                if k < d.len() {
                    assert(d[k] == x);
                }
            }
            if d.contains(x) {
                let k = choose|k: int| 0 <= k < d.len() && d[k] == x;
                assert(refs[k] == x);
            }
            if x == last {
                assert(refs[refs.len() - 1] == x);
            }
        }
        if !(items.contains(last) || m.contains(last)) {
            let m2 = m.push(last);
            assert forall|x: Seq<char>| #[trigger] m2.contains(x) <==> m.contains(x) || x == last by {
                if m2.contains(x) {
                    let k = choose|k: int| 0 <= k < m2.len() && m2[k] == x;
                    if k < m.len() {
                        assert(m[k] == x);
                    }
                }
                if m.contains(x) {
                    let k = choose|k: int| 0 <= k < m.len() && m[k] == x;
                    assert(m2[k] == x);
                }
                if x == last {
                    assert(m2[m.len() as int] == x);
                }
            }
            crate::parser::lemma_distinct_push(m, last);
        }
    }
}

/// What the checker reports as missing from the root dispatch union is
/// exactly the set of types used as an RPC input or output that the union
/// lacks, each named once.
pub proof fn lemma_missing_types_exact(st: Statements)
    requires
        st.commands_union() is Some,
    ensures
        forall|x: Seq<char>|
            #[trigger] missing_types(st).contains(x) <==> rpc_refs(st.rpc_declarations@).contains(x)
                && !st.in_commands_union(x),
        crate::ir::distinct(missing_types(st)),
{
    lemma_missing_from_exact(rpc_refs(st.rpc_declarations@), names_of(st.commands_union()->Some_0.items@));
}

} // verus!
