//! The token model: the closed set of token categories, the token value
//! type carrying a category plus its exact source literal, and the keyword
//! lookup that separates reserved words from free identifiers.

use vstd::prelude::*;

verus! {

/// The closed set of lexical classes. One variant per fixed symbol or
/// keyword, plus `IDENT` for free identifiers, `INT` for digit runs,
/// `ILLEGAL` for a byte that matches no class, and `EOF` for exhaustion.
#[allow(non_camel_case_types)]
#[derive(Debug, PartialEq, Eq, Structural, Clone, Copy)]
pub enum TokenType {
    ILLEGAL,
    EOF,
    IDENT,
    INT,
    ASSIGN,
    PLUS,
    MINUS,
    BANG,
    ASTERISK,
    SLASH,
    LT,
    GT,
    EQ,
    NOT_EQ,
    COMMA,
    SEMICOLON,
    LPAREN,
    RPAREN,
    LBRACE,
    RBRACE,
    FUNCTION,
    LET,
    TRUE,
    FALSE,
    IF,
    ELSE,
    RETURN,
}

/// The keyword table as a mathematical function: the category of an
/// identifier's text, with `IDENT` as the default when it is no keyword.
pub open spec fn spec_lookup(s: Seq<char>) -> TokenType {
    if s == "let"@ {
        TokenType::LET
    } else if s == "fn"@ {
        TokenType::FUNCTION
    } else if s == "true"@ {
        TokenType::TRUE
    } else if s == "false"@ {
        TokenType::FALSE
    } else if s == "if"@ {
        TokenType::IF
    } else if s == "else"@ {
        TokenType::ELSE
    } else if s == "return"@ {
        TokenType::RETURN
    } else {
        TokenType::IDENT
    }
}

/// Keyword discrimination: each reserved word maps to its dedicated
/// category and nothing else does; every other text maps to `IDENT`.
pub proof fn lemma_keyword_discrimination(s: Seq<char>)
    ensures
        spec_lookup(s) == TokenType::LET <==> s == "let"@,
        spec_lookup(s) == TokenType::FUNCTION <==> s == "fn"@,
        spec_lookup(s) == TokenType::TRUE <==> s == "true"@,
        spec_lookup(s) == TokenType::FALSE <==> s == "false"@,
        spec_lookup(s) == TokenType::IF <==> s == "if"@,
        spec_lookup(s) == TokenType::ELSE <==> s == "else"@,
        spec_lookup(s) == TokenType::RETURN <==> s == "return"@,
        s != "let"@ && s != "fn"@ && s != "true"@ && s != "false"@ && s != "if"@ && s != "else"@
            && s != "return"@ ==> spec_lookup(s) == TokenType::IDENT,
{
    reveal_strlit("let");
    reveal_strlit("fn");
    reveal_strlit("true");
    reveal_strlit("false");
    reveal_strlit("if");
    reveal_strlit("else");
    reveal_strlit("return");
    // The reserved words are pairwise distinct: all lengths differ except
    // for two pairs, which differ in their first character.
    assert("let"@.len() == 3 && "fn"@.len() == 2 && "true"@.len() == 4 && "false"@.len() == 5
        && "if"@.len() == 2 && "else"@.len() == 4 && "return"@.len() == 6);
    assert("fn"@[0] == 'f' && "if"@[0] == 'i');
    assert("true"@[0] == 't' && "else"@[0] == 'e');
}

/// Compares two string slices character by character.
fn str_eq(a: &str, b: &str) -> (r: bool)
    ensures
        r == (a@ == b@),
{
    let a_len = a.unicode_len();
    let b_len = b.unicode_len();
    if a_len != b_len {
        return false;
    }
    let mut i: usize = 0;
    while i < a_len
        invariant
            a_len == a@.len(),
            b_len == b@.len(),
            a_len == b_len,
            i <= a_len,
            forall|j: int| 0 <= j < i ==> a@[j] == b@[j],
        decreases a_len - i,
    {
        if a.get_char(i) != b.get_char(i) {
            return false;
        }
        i += 1;
    }
    proof {
        assert(a@ =~= b@);
    }
    true
}

/// Classifies an identifier's text: an exact, case-sensitive match against
/// the fixed keyword set yields the keyword's category, anything else is a
/// free identifier.
pub fn lookup_identifier(identifier: &str) -> (t: TokenType)
    ensures
        t == spec_lookup(identifier@),
{
    if str_eq(identifier, "let") {
        TokenType::LET
    } else if str_eq(identifier, "fn") {
        TokenType::FUNCTION
    } else if str_eq(identifier, "true") {
        TokenType::TRUE
    } else if str_eq(identifier, "false") {
        TokenType::FALSE
    } else if str_eq(identifier, "if") {
        TokenType::IF
    } else if str_eq(identifier, "else") {
        TokenType::ELSE
    } else if str_eq(identifier, "return") {
        TokenType::RETURN
    } else {
        TokenType::IDENT
    }
}

/// A classified, literal-bearing unit of source text. `literal` is the
/// exact substring that produced the token; the end-of-input token's
/// literal is empty.
#[derive(Debug)]
pub struct Token {
    pub token_type: TokenType,
    pub literal: String,
}

impl Token {
    pub fn new(token_type: TokenType, literal: String) -> (t: Token)
        ensures
            t.token_type == token_type,
            t.literal == literal,
    {
        Token { token_type, literal }
    }
}

impl PartialEq for Token {
    /// Token equality is structural: same category and same literal.
    fn eq(&self, other: &Token) -> (r: bool) {
        self.token_type == other.token_type && self.literal == other.literal
    }
}

impl vstd::std_specs::cmp::PartialEqSpecImpl for Token {
    open spec fn obeys_eq_spec() -> bool {
        true
    }

    open spec fn eq_spec(&self, other: &Token) -> bool {
        self.token_type == other.token_type && self.literal@ == other.literal@
    }
}

} // verus!
