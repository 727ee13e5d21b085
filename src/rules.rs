use vstd::prelude::*;
use crate::tokens::{TokenTree, Delimiter, ident_text, is_comma};

verus! {

/// Which struct expressions receive a default base clause.
#[derive(Debug)]
pub enum Rules {
    /// Every struct expression.
    All,
    /// Only those whose type name is listed.
    Only(Vec<String>),
    /// Every one but those whose type name is listed.
    Except(Vec<String>),
}

/// Why an argument list could not be read as a rule set.
#[derive(Debug)]
pub enum ParseError {
    /// The leading token is neither `only` nor `except`; it is carried here.
    UnrecognizedMode(TokenTree),
    /// What follows the mode word is not a parenthesised list of identifiers.
    MalformedList,
}

/// The set of names held by a list.
pub open spec fn name_set(v: Seq<String>) -> Set<Seq<char>> {
    Set::new(|n: Seq<char>| exists|i: int| 0 <= i < v.len() && v[i]@ == n)
}

/// A list of names with each name at most once.
pub open spec fn distinct_names(v: Seq<String>) -> bool {
    forall|i: int, j: int| 0 <= i < v.len() && 0 <= j < v.len() && i != j ==> v[i]@ != v[j]@
}

impl Rules {
    /// Each name list holds a name at most once.
    pub open spec fn wf(&self) -> bool {
        match self {
            Rules::All => true,
            Rules::Only(v) => distinct_names(v@),
            Rules::Except(v) => distinct_names(v@),
        }
    }

    /// The names listed by an `Only` or `Except` rule set (none for `All`).
    pub open spec fn names(&self) -> Set<Seq<char>> {
        match self {
            Rules::All => Set::empty(),
            Rules::Only(v) => name_set(v@),
            Rules::Except(v) => name_set(v@),
        }
    }

    /// Whether a struct expression of the type named `name` is rewritten.
    pub open spec fn admits_spec(&self, name: Seq<char>) -> bool {
        match self {
            Rules::All => true,
            Rules::Only(v) => name_set(v@).contains(name),
            Rules::Except(v) => !name_set(v@).contains(name),
        }
    }

    /// Whether a struct expression of the type named `name` is rewritten.
    pub fn admits(&self, name: &String) -> (r: bool)
        ensures
            r == self.admits_spec(name@),
    {
        match self {
            Rules::All => true,
            Rules::Only(v) => contains_name(v, name),
            Rules::Except(v) => !contains_name(v, name),
        }
    }
}

/// Whether `name` is in the list.
pub fn contains_name(v: &Vec<String>, name: &String) -> (r: bool)
    ensures
        r == name_set(v@).contains(name@),
{
    let mut i: usize = 0;
    while i < v.len()
        invariant
            0 <= i <= v.len(),
            forall|j: int| 0 <= j < i ==> v@[j]@ != name@,
        decreases v.len() - i,
    {
        if v[i] == *name {
            assert(name_set(v@).contains(name@)) by {
                assert(v@[i as int]@ == name@);
            }
            return true;
        }
        i = i + 1;
    }
    false
}

/// The mode word `only`.
pub open spec fn only_word() -> Seq<char> {
    seq!['o', 'n', 'l', 'y']
}

/// The mode word `except`.
pub open spec fn except_word() -> Seq<char> {
    seq!['e', 'x', 'c', 'e', 'p', 't']
}

/// The words that Rust reserves, and `_`: none of them is an identifier.
pub open spec fn reserved_word(w: Seq<char>) -> bool {
    w == "_"@ || w == "abstract"@ || w == "as"@ || w == "async"@ || w == "await"@
        || w == "become"@ || w == "box"@ || w == "break"@ || w == "const"@ || w == "continue"@
        || w == "crate"@ || w == "do"@ || w == "dyn"@ || w == "else"@ || w == "enum"@
        || w == "extern"@ || w == "false"@ || w == "final"@ || w == "fn"@ || w == "for"@
        || w == "if"@ || w == "impl"@ || w == "in"@ || w == "let"@ || w == "loop"@
        || w == "macro"@ || w == "match"@ || w == "mod"@ || w == "move"@ || w == "mut"@
        || w == "override"@ || w == "priv"@ || w == "pub"@ || w == "ref"@ || w == "return"@
        || w == "Self"@ || w == "self"@ || w == "static"@ || w == "struct"@ || w == "super"@
        || w == "trait"@ || w == "true"@ || w == "try"@ || w == "type"@ || w == "typeof"@
        || w == "unsafe"@ || w == "unsized"@ || w == "use"@ || w == "virtual"@ || w == "where"@
        || w == "while"@ || w == "yield"@
}

/// Whether `s` is one of the reserved words.
pub fn is_reserved(s: &String) -> (r: bool)
    ensures
        r == reserved_word(s@),
{
    is_word(s, "_") || is_word(s, "abstract") || is_word(s, "as") || is_word(s, "async")
        || is_word(s, "await") || is_word(s, "become") || is_word(s, "box") || is_word(s, "break")
        || is_word(s, "const") || is_word(s, "continue") || is_word(s, "crate") || is_word(s, "do")
        || is_word(s, "dyn") || is_word(s, "else") || is_word(s, "enum") || is_word(s, "extern")
        || is_word(s, "false") || is_word(s, "final") || is_word(s, "fn") || is_word(s, "for")
        || is_word(s, "if") || is_word(s, "impl") || is_word(s, "in") || is_word(s, "let")
        || is_word(s, "loop") || is_word(s, "macro") || is_word(s, "match") || is_word(s, "mod")
        || is_word(s, "move") || is_word(s, "mut") || is_word(s, "override") || is_word(s, "priv")
        || is_word(s, "pub") || is_word(s, "ref") || is_word(s, "return") || is_word(s, "Self")
        || is_word(s, "self") || is_word(s, "static") || is_word(s, "struct") || is_word(s, "super")
        || is_word(s, "trait") || is_word(s, "true") || is_word(s, "try") || is_word(s, "type")
        || is_word(s, "typeof") || is_word(s, "unsafe") || is_word(s, "unsized") || is_word(s, "use")
        || is_word(s, "virtual") || is_word(s, "where") || is_word(s, "while") || is_word(s, "yield")
}

/// An identifier token whose text is not a reserved word.
pub open spec fn is_name(t: TokenTree) -> bool {
    t is Ident && !reserved_word(ident_text(t))
}

/// Whether the token at place `i` of a name list is what belongs there: a name at the
/// even places, a comma at the odd ones.
pub open spec fn list_entry_ok(s: Seq<TokenTree>, i: int) -> bool {
    if i % 2 == 0 {
        is_name(s[i])
    } else {
        is_comma(s[i])
    }
}

/// A list of identifiers separated by commas, with an optional comma at its end.
pub open spec fn is_name_list(s: Seq<TokenTree>) -> bool {
    forall|i: int| 0 <= i < s.len() ==> #[trigger] list_entry_ok(s, i)
}

/// A name list stays one when the next token is what belongs at its place.
proof fn lemma_name_list_extends(s: Seq<TokenTree>, i: int)
    requires
        0 <= i < s.len(),
        is_name_list(s.subrange(0, i)),
        list_entry_ok(s, i),
    ensures
        is_name_list(s.subrange(0, i + 1)),
{
    assert forall|k: int| 0 <= k < i + 1 implies #[trigger] list_entry_ok(s.subrange(0, i + 1), k) by {
        if k < i {
            assert(list_entry_ok(s.subrange(0, i), k));
            assert(s.subrange(0, i + 1)[k] == s.subrange(0, i)[k]);
        } else {
            assert(s.subrange(0, i + 1)[k] == s[i]);
        }
    }
}

/// The names of a list of identifiers.
pub open spec fn list_names(s: Seq<TokenTree>) -> Set<Seq<char>> {
    Set::new(|n: Seq<char>| exists|i: int| 0 <= i < s.len() && i % 2 == 0 && ident_text(s[i]) == n)
}

/// Whether a token is the parenthesised group after the mode word, holding a name list.
pub open spec fn is_list_group(t: TokenTree) -> bool {
    match t {
        TokenTree::Group(d, inner) => d == Delimiter::Parenthesis && is_name_list(inner@),
        _ => false,
    }
}

/// The names of the group after the mode word.
pub open spec fn group_names(t: TokenTree) -> Set<Seq<char>> {
    match t {
        TokenTree::Group(_, inner) => list_names(inner@),
        _ => Set::empty(),
    }
}

/// Whether the leading token is one of the mode words.
pub open spec fn is_mode_word(t: TokenTree) -> bool {
    t is Ident && (ident_text(t) == only_word() || ident_text(t) == except_word())
}

/// Whether `s` holds the text of `w`.
fn is_word(s: &String, w: &str) -> (r: bool)
    ensures
        r == (s@ == w@),
{
    let k = String::from_str(w);
    *s == k
}

/// Reads a list of identifiers separated by commas into a list of distinct names.
pub fn parse_name_list(s: &Vec<TokenTree>) -> (r: Option<Vec<String>>)
    ensures
        r is Some <==> is_name_list(s@),
        r matches Some(v) ==> distinct_names(v@) && name_set(v@) == list_names(s@),
{
    let mut names: Vec<String> = Vec::new();
    let mut i: usize = 0;
    while i < s.len()
        invariant
            0 <= i <= s.len(),
            is_name_list(s@.subrange(0, i as int)),
            distinct_names(names@),
            forall|n: Seq<char>| name_set(names@).contains(n) <==>
                (exists|j: int| 0 <= j < i && j % 2 == 0 && ident_text(s@[j]) == n),
        decreases s.len() - i,
    {
        let ghost before = names@;
        let ok = if i % 2 == 0 {
            match &s[i] {
                TokenTree::Ident(name) => {
                    if is_reserved(name) {
                        false
                    } else {
                        if !contains_name(&names, name) {
                            names.push(name.clone());
                            assert forall|n: Seq<char>| name_set(names@).contains(n) <==>
                                name_set(before).contains(n) || n == name@ by {
                                if name_set(names@).contains(n) {
                                    let k = choose|k: int| 0 <= k < names@.len() && names@[k]@ == n;
                                    if k < before.len() {
                                        assert(before[k] == names@[k]);
                                    }
                                }
                                if name_set(before).contains(n) {
                                    let k = choose|k: int| 0 <= k < before.len() && before[k]@ == n;
                                    assert(names@[k] == before[k]);
                                }
                                if n == name@ {
                                    assert(names@[before.len() as int]@ == n);
                                }
                            }
                        }
                        assert(forall|n: Seq<char>| name_set(names@).contains(n) <==>
                            name_set(before).contains(n) || n == ident_text(s@[i as int]));
                        true
                    }
                },
                _ => false,
            }
        } else {
            match &s[i] {
                TokenTree::Punct(c) => *c == ',',
                _ => false,
            }
        };
        if !ok {
            assert(!list_entry_ok(s@, i as int));
            return None;
        }
        proof {
            lemma_name_list_extends(s@, i as int);
        }
        assert(forall|n: Seq<char>| name_set(names@).contains(n) <==>
            name_set(before).contains(n) || (i % 2 == 0 && n == ident_text(s@[i as int])));
        assert forall|n: Seq<char>| name_set(names@).contains(n) <==>
            (exists|j: int| 0 <= j < i + 1 && j % 2 == 0 && ident_text(s@[j]) == n) by {
            if exists|j: int| 0 <= j < i + 1 && j % 2 == 0 && ident_text(s@[j]) == n {
                let j = choose|j: int| 0 <= j < i + 1 && j % 2 == 0 && ident_text(s@[j]) == n;
                if j < i {
                    assert(exists|j: int| 0 <= j < i && j % 2 == 0 && ident_text(s@[j]) == n);
                    assert(name_set(before).contains(n));
                }
            }
            if name_set(before).contains(n) {
                assert(exists|j: int| 0 <= j < i && j % 2 == 0 && ident_text(s@[j]) == n);
                let j = choose|j: int| 0 <= j < i && j % 2 == 0 && ident_text(s@[j]) == n;
                assert(0 <= j < i + 1 && j % 2 == 0 && ident_text(s@[j]) == n);
            }
            if i % 2 == 0 && n == ident_text(s@[i as int]) {
                let j = i as int;
                assert(0 <= j < i + 1 && j % 2 == 0 && ident_text(s@[j]) == n);
            }
        }
        i = i + 1;
    }
    assert(s@.subrange(0, s.len() as int) == s@);
    assert(name_set(names@) =~= list_names(s@));
    Some(names)
}

/// Whether an argument list is well formed: empty, or a mode word followed by
/// exactly one parenthesised list of identifiers.
pub open spec fn is_directive(tokens: Seq<TokenTree>) -> bool {
    tokens.len() == 0 || (is_mode_word(tokens[0]) && tokens.len() == 2 && is_list_group(tokens[1]))
}

/// Whether `rules` is what a well-formed argument list stands for.
pub open spec fn directive_rules(tokens: Seq<TokenTree>, rules: Rules) -> bool {
    &&& rules.wf()
    &&& tokens.len() == 0 ==> rules is All
    &&& tokens.len() > 0 && ident_text(tokens[0]) == only_word() ==> rules is Only
        && rules.names() == group_names(tokens[1])
    &&& tokens.len() > 0 && ident_text(tokens[0]) == except_word() ==> rules is Except
        && rules.names() == group_names(tokens[1])
}

/// The error that an ill-formed argument list is refused with.
pub open spec fn directive_error(tokens: Seq<TokenTree>) -> ParseError {
    if tokens.len() > 0 && !is_mode_word(tokens[0]) {
        ParseError::UnrecognizedMode(tokens[0])
    } else {
        ParseError::MalformedList
    }
}

/// Reads the argument list of the attribute: nothing at all, or `only` or `except`
/// followed by one parenthesised list of identifiers separated by commas.
pub fn parse_rules(tokens: Vec<TokenTree>) -> (r: Result<Rules, ParseError>)
    ensures
        r is Ok <==> is_directive(tokens@),
        r matches Ok(rules) ==> directive_rules(tokens@, rules),
        r matches Err(e) ==> e == directive_error(tokens@),
{
    if tokens.len() == 0 {
        return Ok(Rules::All);
    }
    let ghost orig = tokens@;
    let mut tokens = tokens;
    let first = tokens.remove(0);
    assert(tokens@ == orig.subrange(1, orig.len() as int));
    let only = match &first {
        TokenTree::Ident(word) => {
            proof {
                reveal_strlit("only");
                reveal_strlit("except");
                assert("only"@ =~= only_word());
                assert("except"@ =~= except_word());
            }
            if is_word(word, "only") {
                true
            } else if is_word(word, "except") {
                false
            } else {
                return Err(ParseError::UnrecognizedMode(first));
            }
        },
        _ => {
            assert(!is_mode_word(first)) by {
                assert(only_word().len() == 4);
                assert(except_word().len() == 6);
            }
            return Err(ParseError::UnrecognizedMode(first));
        },
    };
    if tokens.len() != 1 {
        return Err(ParseError::MalformedList);
    }
    assert(tokens@[0] == orig[1]);
    let names = match &tokens[0] {
        TokenTree::Group(d, inner) => {
            if *d != Delimiter::Parenthesis {
                return Err(ParseError::MalformedList);
            }
            match parse_name_list(inner) {
                Some(names) => names,
                None => {
                    return Err(ParseError::MalformedList);
                },
            }
        },
        _ => {
            return Err(ParseError::MalformedList);
        },
    };
    if only {
        Ok(Rules::Only(names))
    } else {
        Ok(Rules::Except(names))
    }
}

} // verus!
