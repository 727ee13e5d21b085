use vstd::prelude::*;
use crate::rules::{Rules, name_set};
use crate::tree::{Expr, ExprStruct, rewritten_to, body_rewritten_to, struct_name};

verus! {

/// Under `All`, a struct expression without a base clause comes out with the base
/// clause `..Default::default()`.
pub proof fn lemma_all_adds_default(s: ExprStruct, b: Expr)
    requires
        s.rest is None,
        rewritten_to(Expr::Struct(s), b, Rules::All),
    ensures
        b matches Expr::Struct(t) && t.rest matches Some(d) && *d == Expr::DefaultCall,
{
}

/// A struct expression that has a base clause keeps its own path, field names,
/// trailing comma and base clause; only what lies inside its field values and its
/// base clause is rewritten.
pub proof fn lemma_existing_base_kept(s: ExprStruct, b: Expr, rules: Rules)
    requires
        s.rest is Some,
        rewritten_to(Expr::Struct(s), b, rules),
    ensures
        b matches Expr::Struct(t) && {
            &&& t.path == s.path
            &&& t.trailing_comma == s.trailing_comma
            &&& t.fields.len() == s.fields.len()
            &&& forall|i: int| 0 <= i < s.fields.len() ==> #[trigger] t.fields@[i].member == s.fields@[i].member
            &&& t.rest matches Some(y) && rewritten_to(*s.rest->Some_0, *y, rules)
        },
{
}

/// A struct expression that has a base clause, and in whose field values and base
/// clause the rules find nothing to rewrite, is its own rewrite: it comes out as it went in.
pub proof fn lemma_existing_base_unchanged(s: ExprStruct, rules: Rules)
    requires
        s.rest matches Some(x) && rewritten_to(*x, *x, rules),
        forall|i: int| 0 <= i < s.fields.len() ==> rewritten_to(#[trigger] s.fields@[i].expr, s.fields@[i].expr, rules),
    ensures
        rewritten_to(Expr::Struct(s), Expr::Struct(s), rules),
{
}

/// Rewriting is idempotent: a rewritten expression is its own rewrite under the same rules.
pub proof fn lemma_rewrite_idempotent(a: Expr, b: Expr, rules: Rules)
    requires
        rewritten_to(a, b, rules),
    ensures
        rewritten_to(b, b, rules),
    decreases a,
{
    match a {
        Expr::Struct(s) => {
            let t = b->Struct_0;
            assert forall|i: int| 0 <= i < t.fields.len() implies (#[trigger] t.fields@[i]).member
                == t.fields@[i].member && rewritten_to(t.fields@[i].expr, t.fields@[i].expr, rules) by {
                assert(decreases_to!(a => a->Struct_0));
                assert(decreases_to!(s => s.fields));
                assert(decreases_to!(s.fields => s.fields[i]));
                assert(decreases_to!(s.fields[i] => s.fields[i].expr));
                lemma_rewrite_idempotent(s.fields@[i].expr, t.fields@[i].expr, rules);
            }
            match s.rest {
                Some(x) => {
                    assert(decreases_to!(a => a->Struct_0));
                    assert(decreases_to!(s => s.rest));
                    assert(decreases_to!(s.rest => s.rest->Some_0));
                    lemma_rewrite_idempotent(*x, *t.rest->Some_0, rules);
                },
                None => {
                    if t.rest is Some {
                        let d = *t.rest->Some_0;
                        assert(rewritten_to(d, d, rules));
                    }
                },
            }
            assert(struct_name(t) == struct_name(s));
        },
        Expr::Node(head, children) => {
            let c = b->Node_1;
            assert forall|i: int| 0 <= i < c.len() implies rewritten_to(c@[i], #[trigger] c@[i], rules) by {
                assert(decreases_to!(a => a->Node_1));
                assert(decreases_to!(children => children[i]));
                lemma_rewrite_idempotent(children@[i], c@[i], rules);
            }
        },
        _ => {},
    }
}

/// Rewriting a rewritten body under the same rules changes nothing more.
pub proof fn lemma_body_rewrite_idempotent(a: Seq<Expr>, b: Seq<Expr>, rules: Rules)
    requires
        body_rewritten_to(a, b, rules),
    ensures
        body_rewritten_to(b, b, rules),
{
    assert forall|i: int| 0 <= i < b.len() implies rewritten_to(b[i], #[trigger] b[i], rules) by {
        lemma_rewrite_idempotent(a[i], b[i], rules);
    }
}

/// A struct expression that is given the base clause ends its non-empty field list
/// in exactly one comma; a comma it already had is kept as the one.
pub proof fn lemma_trailing_comma(s: ExprStruct, b: Expr, rules: Rules)
    requires
        s.rest is None,
        rules.admits_spec(struct_name(s)),
        s.fields.len() > 0,
        rewritten_to(Expr::Struct(s), b, rules),
    ensures
        b matches Expr::Struct(t) && t.trailing_comma && t.fields.len() == s.fields.len()
            && (t.rest matches Some(d) && *d == Expr::DefaultCall),
{
}

/// A struct expression with no fields is given the base clause alone, with no comma.
pub proof fn lemma_empty_fields(s: ExprStruct, b: Expr, rules: Rules)
    requires
        s.rest is None,
        rules.admits_spec(struct_name(s)),
        s.fields.len() == 0,
        rewritten_to(Expr::Struct(s), b, rules),
    ensures
        b matches Expr::Struct(t) && t.fields.len() == 0 && !t.trailing_comma
            && (t.rest matches Some(d) && *d == Expr::DefaultCall),
{
}

/// `Only(names)` gives the base clause exactly to the listed types and `Except(names)`
/// exactly to the others, so of the two, one rewrites a struct expression without a
/// base clause and the other leaves it.
pub proof fn lemma_only_except_complementary(names: Vec<String>, s: ExprStruct, b1: Expr, b2: Expr)
    requires
        s.rest is None,
        rewritten_to(Expr::Struct(s), b1, Rules::Only(names)),
        rewritten_to(Expr::Struct(s), b2, Rules::Except(names)),
    ensures
        (b1->Struct_0.rest is Some) == name_set(names@).contains(struct_name(s)),
        (b2->Struct_0.rest is Some) == !name_set(names@).contains(struct_name(s)),
        (b1->Struct_0.rest is Some) != (b2->Struct_0.rest is Some),
{
}

/// A nested item definition is never entered: it comes out as it went in.
pub proof fn lemma_item_opaque(a: Expr, b: Expr, rules: Rules)
    requires
        a is Item,
        rewritten_to(a, b, rules),
    ensures
        b == a,
{
}

/// A struct expression in a field value is rewritten on its own terms, whether or not
/// the struct expression around it is: it gets the base clause when it has none and
/// the rules admit its type, and keeps its state otherwise.
pub proof fn lemma_field_values_rewritten(s: ExprStruct, b: Expr, rules: Rules, i: int)
    requires
        0 <= i < s.fields.len(),
        rewritten_to(Expr::Struct(s), b, rules),
    ensures
        b matches Expr::Struct(t) && rewritten_to(s.fields@[i].expr, t.fields@[i].expr, rules),
        s.fields@[i].expr matches Expr::Struct(inner) ==> (b->Struct_0.fields@[i].expr matches Expr::Struct(u)
            && (u.rest is Some <==> (inner.rest is Some || rules.admits_spec(struct_name(inner))))),
{
    let t = b->Struct_0;
    assert(rewritten_to(s.fields@[i].expr, t.fields@[i].expr, rules));
}

/// The sub-expression reached from `e` by following the places in `p`: at a struct
/// expression, the value of the field at `p[0]`; at any other node, its sub-expression at
/// `p[0]`. Nested items hold no sub-expressions.
pub open spec fn sub_at(e: Expr, p: Seq<int>) -> Option<Expr>
    decreases p.len(),
{
    if p.len() == 0 {
        Some(e)
    } else {
        match e {
            Expr::Struct(s) => if 0 <= p[0] < s.fields.len() {
                sub_at(s.fields@[p[0]].expr, p.drop_first())
            } else {
                None
            },
            Expr::Node(_, c) => if 0 <= p[0] < c.len() {
                sub_at(c@[p[0]], p.drop_first())
            } else {
                None
            },
            _ => None,
        }
    }
}

/// At any depth, a sub-expression is rewritten on its own terms: a struct expression
/// nested anywhere (outside nested items) gets the base clause exactly when it has none
/// and the rules admit its type, whatever becomes of the expressions around it.
pub proof fn lemma_nested_rewritten(a: Expr, b: Expr, rules: Rules, p: Seq<int>)
    requires
        rewritten_to(a, b, rules),
        sub_at(a, p) is Some,
    ensures
        sub_at(b, p) matches Some(y) && rewritten_to(sub_at(a, p)->Some_0, y, rules),
        sub_at(a, p) matches Some(Expr::Struct(inner)) ==> (sub_at(b, p) matches Some(Expr::Struct(u))
            && (u.rest is Some <==> (inner.rest is Some || rules.admits_spec(struct_name(inner))))),
    decreases p.len(),
{
    if p.len() > 0 {
        match a {
            Expr::Struct(s) => {
                let t = b->Struct_0;
                let i = p[0];
                assert(rewritten_to(s.fields@[i].expr, t.fields@[i].expr, rules));
                lemma_nested_rewritten(s.fields@[i].expr, t.fields@[i].expr, rules, p.drop_first());
            },
            Expr::Node(_, c) => {
                let d = b->Node_1;
                let i = p[0];
                assert(rewritten_to(c@[i], d@[i], rules));
                lemma_nested_rewritten(c@[i], d@[i], rules, p.drop_first());
            },
            _ => {},
        }
    }
}

} // verus!
