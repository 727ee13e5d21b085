use vstd::prelude::*;

verus! {

/// The delimiter around a group of tokens.
#[derive(PartialEq, Eq, Structural, Clone, Copy, Debug)]
pub enum Delimiter {
    Parenthesis,
    Brace,
    Bracket,
    Invisible,
}

/// One token tree of an attribute's argument list.
#[derive(Debug)]
pub enum TokenTree {
    Ident(String),
    Punct(char),
    Literal(String),
    Group(Delimiter, Vec<TokenTree>),
}

/// The text of an identifier token (empty for any other token).
pub open spec fn ident_text(t: TokenTree) -> Seq<char> {
    match t {
        TokenTree::Ident(s) => s@,
        _ => Seq::empty(),
    }
}

/// A comma token.
pub open spec fn is_comma(t: TokenTree) -> bool {
    t == TokenTree::Punct(',')
}

} // verus!
