//! Properties of the renderer and of the sorted map that hold for all
//! inputs, stated and proved once and for all.

use vstd::prelude::*;

use crate::render::{
    spec_render_field_type, spec_render_interfaces, spec_wrap_optional,
};
use crate::schema::{ApiDocsModel, ApiDocsModelObjectType, ModelCatalog, RenderError, RenderErrorView};
use crate::sorted_map::sorted_insert;
use crate::text_order::{
    lemma_lex_lt_asym, lemma_lex_lt_connected, lemma_lex_lt_irrefl, lemma_lex_lt_trans, lex_lt,
};

verus! {

/// Law: a scalar schema renders as its kind's bare lowercase name when
/// required, and as `Optional<...>` around that name when not.
pub proof fn lemma_render_scalar(m: ApiDocsModel)
    requires
        m.kind == ApiDocsModelObjectType::String || m.kind == ApiDocsModelObjectType::Number
            || m.kind == ApiDocsModelObjectType::Boolean,
    ensures
        ({
            let name = (match m.kind {
                ApiDocsModelObjectType::String => "string"@,
                ApiDocsModelObjectType::Number => "number"@,
                _ => "boolean"@,
            });
            &&& m.required ==> spec_render_field_type(m) == Ok::<Seq<char>, RenderErrorView>(name)
            &&& !m.required ==> spec_render_field_type(m) == Ok::<Seq<char>, RenderErrorView>(
                "Optional<"@ + name + ">"@,
            )
        }),
{
}

/// An `n`-level chain of `Array` schemas above `base`; the levels below the
/// outermost are all required.
pub open spec fn array_chain(m: ApiDocsModel, n: nat, base: ApiDocsModel) -> bool
    decreases n,
{
    if n == 0 {
        m == base
    } else {
        &&& m.kind == ApiDocsModelObjectType::Array
        &&& m.model is Some
        &&& (n == 1 || (*m.model->Some_0).required)
        &&& array_chain(*m.model->Some_0, (n - 1) as nat, base)
    }
}

/// `Array<` repeated `n` times around `t`, closed with `n` `>`s.
pub open spec fn arrays_wrap(n: nat, t: Seq<char>) -> Seq<char>
    decreases n,
{
    if n == 0 {
        t
    } else {
        "Array<"@ + arrays_wrap((n - 1) as nat, t) + ">"@
    }
}

/// Law: an `n`-level nest of arrays renders as `n` `Array<...>` wrappers
/// around the element's type expression, with `Optional<...>` applied only
/// around the outermost result, and only when the outermost schema is not
/// required.
pub proof fn lemma_render_nested_arrays(m: ApiDocsModel, n: nat, base: ApiDocsModel, t: Seq<char>)
    requires
        n >= 1,
        array_chain(m, n, base),
        spec_render_field_type(base) == Ok::<Seq<char>, RenderErrorView>(t),
    ensures
        spec_render_field_type(m) == Ok::<Seq<char>, RenderErrorView>(
            spec_wrap_optional(m.required, arrays_wrap(n, t)),
        ),
    decreases n,
{
    let elem = *m.model->Some_0;
    if n == 1 {
        reveal_with_fuel(array_chain, 2);
        reveal_with_fuel(arrays_wrap, 2);
    } else {
        lemma_render_nested_arrays(elem, (n - 1) as nat, base, t);
    }
}

/// Law: rendering is deterministic — any two results that meet
/// `render_interfaces`' contract for the same catalog hold the same
/// characters, or the same error.
pub proof fn lemma_render_deterministic(
    models: ModelCatalog,
    r1: Result<String, RenderError>,
    r2: Result<String, RenderError>,
)
    requires
        (match r1 {
            Ok(s) => spec_render_interfaces(models) == Ok::<Seq<char>, RenderErrorView>(s@),
            Err(e) => spec_render_interfaces(models) == Err::<Seq<char>, RenderErrorView>(e@),
        }),
        (match r2 {
            Ok(s) => spec_render_interfaces(models) == Ok::<Seq<char>, RenderErrorView>(s@),
            Err(e) => spec_render_interfaces(models) == Err::<Seq<char>, RenderErrorView>(e@),
        }),
    ensures
        r1 is Ok <==> r2 is Ok,
        (match (r1, r2) {
            (Ok(s1), Ok(s2)) => s1@ == s2@,
            (Err(e1), Err(e2)) => e1@ == e2@,
            _ => false,
        }),
{
}

/// Law: insertion order does not matter — adding two entries with different
/// names to a name-keyed entry list gives the same entries either way round.
pub proof fn lemma_insert_order_irrelevant<V>(
    s: Seq<(String, V)>,
    n1: String,
    v1: V,
    n2: String,
    v2: V,
)
    requires
        n1@ != n2@,
    ensures
        sorted_insert(sorted_insert(s, n1, v1), n2, v2) == sorted_insert(
            sorted_insert(s, n2, v2),
            n1,
            v1,
        ),
    decreases s.len(), (if lex_lt(n1@, n2@) {
        0int
    } else {
        1int
    }),
{
    if !lex_lt(n1@, n2@) {
        if lex_lt(n2@, n1@) {
            lemma_insert_order_irrelevant(s, n2, v2, n1, v1);
            return ;
        }
        lemma_lex_lt_connected(n1@, n2@);
    }
    // From here on, n1 precedes n2.
    lemma_lex_lt_asym(n1@, n2@);
    lemma_lex_lt_irrefl(n1@);
    lemma_lex_lt_irrefl(n2@);
    let x1 = (n1, v1);
    let x2 = (n2, v2);
    if s.len() == 0 {
        assert(sorted_insert(s, n1, v1) == seq![x1]);
        assert(sorted_insert(s, n2, v2) == seq![x2]);
        assert(seq![x1].drop_first() =~= Seq::<(String, V)>::empty());
        assert(sorted_insert(seq![x1], n2, v2) == seq![x1] + sorted_insert(
            seq![x1].drop_first(),
            n2,
            v2,
        ));
        assert(sorted_insert(seq![x2], n1, v1) == seq![x1] + seq![x2]);
        assert(seq![x1] + sorted_insert(Seq::<(String, V)>::empty(), n2, v2) =~= seq![x1]
            + seq![x2]);
    } else {
        let h = s[0];
        let rest = s.drop_first();
        if lex_lt(n1@, h.0@) {
            // n1 goes in front of s; n2 then lands behind it, wherever it goes.
            assert(sorted_insert(s, n1, v1) == seq![x1] + s);
            assert((seq![x1] + s).drop_first() =~= s);
            assert(sorted_insert(seq![x1] + s, n2, v2) == seq![x1] + sorted_insert(s, n2, v2));
            if lex_lt(n2@, h.0@) {
                assert(sorted_insert(s, n2, v2) == seq![x2] + s);
                assert(sorted_insert(seq![x2] + s, n1, v1) == seq![x1] + (seq![x2] + s));
            } else if n2@ == h.0@ {
                assert(sorted_insert(s, n2, v2) == seq![x2] + rest);
                assert(sorted_insert(seq![x2] + rest, n1, v1) == seq![x1] + (seq![x2] + rest));
            } else {
                if !lex_lt(h.0@, n2@) {
                    lemma_lex_lt_connected(n2@, h.0@);
                }
                lemma_lex_lt_asym(h.0@, n2@);
                assert(sorted_insert(s, n2, v2) == seq![h] + sorted_insert(rest, n2, v2));
                assert(sorted_insert(seq![h] + sorted_insert(rest, n2, v2), n1, v1) == seq![x1] + (
                seq![h] + sorted_insert(rest, n2, v2)));
            }
        } else if n1@ == h.0@ {
            // n1 replaces the head; n2 comes after it either way.
            assert(sorted_insert(s, n1, v1) == seq![x1] + rest);
            assert((seq![x1] + rest).drop_first() =~= rest);
            assert(sorted_insert(seq![x1] + rest, n2, v2) == seq![x1] + sorted_insert(
                rest,
                n2,
                v2,
            ));
            assert(lex_lt(h.0@, n2@));
            assert(sorted_insert(s, n2, v2) == seq![h] + sorted_insert(rest, n2, v2));
            assert((seq![h] + sorted_insert(rest, n2, v2)).drop_first() =~= sorted_insert(
                rest,
                n2,
                v2,
            ));
            assert(sorted_insert(seq![h] + sorted_insert(rest, n2, v2), n1, v1) == seq![x1]
                + sorted_insert(rest, n2, v2));
        } else {
            // Both names come after the head: recurse on the tail.
            if !lex_lt(h.0@, n1@) {
                lemma_lex_lt_connected(n1@, h.0@);
            }
            lemma_lex_lt_asym(h.0@, n1@);
            lemma_lex_lt_trans(h.0@, n1@, n2@);
            lemma_lex_lt_asym(h.0@, n2@);
            lemma_lex_lt_irrefl(h.0@);
            assert(sorted_insert(s, n1, v1) == seq![h] + sorted_insert(rest, n1, v1));
            assert(sorted_insert(s, n2, v2) == seq![h] + sorted_insert(rest, n2, v2));
            assert((seq![h] + sorted_insert(rest, n1, v1)).drop_first() =~= sorted_insert(
                rest,
                n1,
                v1,
            ));
            assert((seq![h] + sorted_insert(rest, n2, v2)).drop_first() =~= sorted_insert(
                rest,
                n2,
                v2,
            ));
            assert(sorted_insert(seq![h] + sorted_insert(rest, n1, v1), n2, v2) == seq![h]
                + sorted_insert(sorted_insert(rest, n1, v1), n2, v2));
            assert(sorted_insert(seq![h] + sorted_insert(rest, n2, v2), n1, v1) == seq![h]
                + sorted_insert(sorted_insert(rest, n2, v2), n1, v1));
            lemma_insert_order_irrelevant(rest, n1, v1, n2, v2);
        }
    }
}

} // verus!
