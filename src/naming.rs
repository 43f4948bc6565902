use vstd::prelude::*;
use convert_case::{Case, Casing};

verus! {

/// The identifier casings that generated code uses.
#[derive(Debug, Clone, Copy, PartialEq, Eq)]
pub enum TextCase {
    Snake,
    Camel,
}

/// What convert_case makes of `s` in the given casing.
pub uninterp spec fn cased(s: Seq<char>, case: TextCase) -> Seq<char>;

/// Relies on convert_case's `Casing::to_case`: the result depends on the
/// text and the casing alone, and an empty text stays empty. Its word
/// splitting counts characters but cuts at byte offsets, so the text is held
/// to identifier characters, all ASCII, where the two agree.
#[verifier::external_body]
pub(crate) fn to_case(s: &str, case: TextCase) -> (r: String)
    requires
        crate::ir::is_identifier(s@),
    ensures
        r@ == cased(s@, case),
        s@.len() == 0 ==> r@.len() == 0,
{
    match case {
        TextCase::Snake => s.to_case(Case::Snake),
        TextCase::Camel => s.to_case(Case::Camel),
    }
}

/// The text of every element of `s` under `f`, one after the other.
pub open spec fn concat_map<A>(s: Seq<A>, f: spec_fn(A) -> Seq<char>) -> Seq<char>
    decreases s.len(),
{
    if s.len() == 0 {
        Seq::empty()
    } else {
        concat_map(s.drop_last(), f) + f(s.last())
    }
}

pub proof fn lemma_concat_map_step<A>(s: Seq<A>, i: int, f: spec_fn(A) -> Seq<char>)
    requires
        0 <= i < s.len(),
    ensures
        concat_map(s.take(i + 1), f) == concat_map(s.take(i), f) + f(s[i]),
{
    assert(s.take(i + 1).drop_last() =~= s.take(i));
}

pub proof fn lemma_concat_map_all<A>(s: Seq<A>, f: spec_fn(A) -> Seq<char>)
    ensures
        concat_map(s.take(s.len() as int), f) == concat_map(s, f),
        concat_map(s.take(0), f) == Seq::<char>::empty(),
{
    assert(s.take(s.len() as int) =~= s);
}

} // verus!
