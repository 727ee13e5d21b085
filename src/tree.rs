use vstd::prelude::*;
use crate::tokens::TokenTree;
use crate::rules::{Rules, ParseError, parse_rules, is_directive, directive_rules, directive_error};

verus! {

/// One `member: value` entry of a struct expression.
#[derive(Debug)]
pub struct FieldValue {
    pub member: String,
    pub expr: Expr,
}

/// A struct expression `Path { member: value, ..., ..rest }`.
#[derive(Debug)]
pub struct ExprStruct {
    /// The segments of the type's path; the last one is the type's name.
    pub path: Vec<String>,
    /// The fields, in the order written.
    pub fields: Vec<FieldValue>,
    /// Whether the field list ends in a comma.
    pub trailing_comma: bool,
    /// The base clause after `..`, if any.
    pub rest: Option<Box<Expr>>,
}

/// An expression or statement of a function body, as far as the rewrite looks at it.
#[derive(Debug)]
pub enum Expr {
    /// A struct expression.
    Struct(ExprStruct),
    /// A nested item definition, kept as its tokens and never entered.
    Item(Vec<TokenTree>),
    /// Any other node: its own tokens and the sub-expressions it holds, in order.
    Node(Vec<TokenTree>, Vec<Expr>),
    /// The call `::core::default::Default::default()`.
    DefaultCall,
}

/// The name of the type that a struct expression builds: the last segment of its path.
pub open spec fn struct_name(s: ExprStruct) -> Seq<char> {
    if s.path.len() > 0 {
        s.path@.last()@
    } else {
        Seq::empty()
    }
}

/// Whether `t` is what the rewrite makes of the struct expression `s` itself, once the
/// sub-expressions of `s` are rewritten. A struct expression that is given the base
/// clause ends its field list in a comma when it has fields, and in none when it has none.
pub open spec fn struct_head_rewritten(s: ExprStruct, t: ExprStruct, rules: Rules) -> bool {
    &&& t.path == s.path
    &&& t.fields.len() == s.fields.len()
    &&& if s.rest is None && rules.admits_spec(struct_name(s)) {
        &&& t.rest matches Some(d) && *d == Expr::DefaultCall
        &&& t.trailing_comma == (s.fields.len() > 0)
    } else {
        &&& t.rest is Some == s.rest is Some
        &&& t.trailing_comma == s.trailing_comma
    }
}

/// Whether `b` is the result of rewriting `a` under `rules`: every struct expression
/// without a base clause whose type the rules admit gets `..Default::default()`, with
/// a comma after a non-empty field list; nested items are left as they are.
pub open spec fn rewritten_to(a: Expr, b: Expr, rules: Rules) -> bool
    decreases a,
{
    match a {
        Expr::Struct(s) => match b {
            Expr::Struct(t) => {
                &&& struct_head_rewritten(s, t, rules)
                &&& forall|i: int|
                    0 <= i < s.fields.len() ==> (#[trigger] t.fields@[i]).member == s.fields@[i].member
                        && rewritten_to(s.fields@[i].expr, t.fields@[i].expr, rules)
                &&& s.rest matches Some(x) ==> t.rest matches Some(y) && rewritten_to(*x, *y, rules)
            },
            _ => false,
        },
        Expr::Node(head, children) => match b {
            Expr::Node(h, c) => {
                &&& h == head
                &&& c.len() == children.len()
                &&& forall|i: int|
                    0 <= i < children.len() ==> rewritten_to(children@[i], #[trigger] c@[i], rules)
            },
            _ => false,
        },
        _ => b == a,
    }
}

/// Rewrites one expression and everything below it, up to nested items.
pub fn rewrite_expr(e: Expr, rules: &Rules) -> (r: Expr)
    ensures
        rewritten_to(e, r, *rules),
    decreases e,
{
    let ghost e0 = e;
    match e {
        Expr::Struct(s) => {
            let ghost s0 = s;
            let ExprStruct { path, fields, trailing_comma, rest } = s;
            let n = fields.len();
            let mut pending = fields;
            let mut done: Vec<FieldValue> = Vec::new();
            while pending.len() > 0
                invariant
                    e0 == Expr::Struct(s0),
                    e == e0,
                    n == s0.fields.len(),
                    done.len() + pending.len() == n,
                    pending@ == s0.fields@.subrange(done.len() as int, n as int),
                    forall|i: int|
                        0 <= i < done.len() ==> (#[trigger] done@[i]).member == s0.fields@[i].member
                            && rewritten_to(s0.fields@[i].expr, done@[i].expr, *rules),
                decreases pending.len(),
            {
                let ghost k = done.len() as int;
                let f = pending.remove(0);
                assert(f == s0.fields@[k]);
                let FieldValue { member, expr } = f;
                proof {
                    assert(decreases_to!(e0 => e0->Struct_0));
                    assert(decreases_to!(s0 => s0.fields));
                    assert(decreases_to!(s0.fields => s0.fields[k]));
                    assert(decreases_to!(s0.fields[k] => s0.fields[k].expr));
                    assert(decreases_to!(e0 => expr));
                }
                let expr = rewrite_expr(expr, rules);
                done.push(FieldValue { member, expr });
            }
            let rest = match rest {
                Some(x) => {
                    proof {
                        assert(decreases_to!(e0 => e0->Struct_0));
                        assert(decreases_to!(s0 => s0.rest));
                        assert(decreases_to!(s0.rest => s0.rest->Some_0));
                        assert(decreases_to!(e0 => *x));
                    }
                    Some(Box::new(rewrite_expr(*x, rules)))
                },
                None => None,
            };
            let mut t = ExprStruct { path, fields: done, trailing_comma, rest };
            let admitted = if t.path.len() > 0 {
                rules.admits(&t.path[t.path.len() - 1])
            } else {
                rules.admits(&String::new())
            };
            if t.rest.is_none() && admitted {
                t.trailing_comma = t.fields.len() > 0;
                t.rest = Some(Box::new(Expr::DefaultCall));
            }
            Expr::Struct(t)
        },
        Expr::Node(head, children) => {
            proof {
                assert(decreases_to!(e0 => e0->Node_1));
            }
            Expr::Node(head, rewrite(children, rules))
        },
        other => other,
    }
}

/// Whether `b` is the body `a` with each of its statements rewritten under `rules`.
pub open spec fn body_rewritten_to(a: Seq<Expr>, b: Seq<Expr>, rules: Rules) -> bool {
    &&& b.len() == a.len()
    &&& forall|i: int| 0 <= i < a.len() ==> rewritten_to(a[i], #[trigger] b[i], rules)
}

/// Rewrites each statement of a body, in order.
pub fn rewrite(body: Vec<Expr>, rules: &Rules) -> (r: Vec<Expr>)
    ensures
        body_rewritten_to(body@, r@, *rules),
    decreases body,
{
    let ghost b0 = body;
    let n = body.len();
    let mut pending = body;
    let mut done: Vec<Expr> = Vec::new();
    while pending.len() > 0
        invariant
            body == b0,
            n == b0.len(),
            done.len() + pending.len() == n,
            pending@ == b0@.subrange(done.len() as int, n as int),
            forall|i: int| 0 <= i < done.len() ==> rewritten_to(b0@[i], #[trigger] done@[i], *rules),
        decreases pending.len(),
    {
        let ghost k = done.len() as int;
        let c = pending.remove(0);
        assert(c == b0@[k]);
        proof {
            assert(decreases_to!(b0 => b0[k]));
        }
        let c = rewrite_expr(c, rules);
        done.push(c);
    }
    done
}

/// Reads the attribute's argument list into a rule set and rewrites the function
/// body under it; an ill-formed argument list leaves the body untouched and is refused.
pub fn autodefault(attr: Vec<TokenTree>, body: Vec<Expr>) -> (r: Result<Vec<Expr>, ParseError>)
    ensures
        r is Ok <==> is_directive(attr@),
        r matches Err(e) ==> e == directive_error(attr@),
        r matches Ok(b) ==> exists|rules: Rules|
            directive_rules(attr@, rules) && body_rewritten_to(body@, b@, rules),
{
    match parse_rules(attr) {
        Ok(rules) => {
            let b = rewrite(body, &rules);
            assert(directive_rules(attr@, rules) && body_rewritten_to(body@, b@, rules));
            Ok(b)
        },
        Err(e) => Err(e),
    }
}

} // verus!
