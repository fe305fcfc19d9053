//! The abstract syntax tree produced by the parser, with the programmatic
//! constructors used to build trees outside the parser.
//!
//! Every node exclusively owns its children; nothing borrows from the input
//! text. Each type has a mathematical view (`…V`) over which the parsing
//! contracts are stated.

use vstd::prelude::*;
use vstd::string::StringExecFns;
use crate::errors::Error;
use crate::grammar::valid_identifier;
use crate::numeric::Numeric;
use crate::numeric::NumericV;
use crate::operands::BinaryOp;
use crate::operands::UnaryOp;
use crate::chars::chars_vec;
use crate::chars::is_ident_char_exec;

verus! {

broadcast use vstd::std_specs::vec::axiom_vec_index_decreases;

// ---------------------------------------------------------------------------
// Identifier
// ---------------------------------------------------------------------------
/// An identifier in the language (e.g. variable name, function name).
#[derive(Clone, Debug, PartialEq)]
pub struct Identifier(pub String);

impl Identifier {
    pub open spec fn view(&self) -> Seq<char> {
        self.0@
    }

    pub fn as_str(&self) -> (r: &str)
        ensures
            r@ == self.view(),
    {
        self.0.as_str()
    }

    /// Validates arbitrary text as an identifier: non-empty and drawn from
    /// the identifier character set, or else a syntax error.
    pub fn try_from(s: &str) -> (r: Result<Identifier, Error>)
        ensures
            valid_identifier(s@) ==> (r matches Ok(id) && id.view() == s@),
            !valid_identifier(s@) ==> (r matches Err(e) && (e matches Error::SyntaxError(m)
                && m@ == "Invalid identifier"@)),
    {
        let cs = chars_vec(s);
        let mut ok: bool = true;
        let mut i: usize = 0;
        while i < cs.len()
            invariant
                cs@ == s@,
                i <= cs@.len(),
                ok == (forall|k: int| 0 <= k < i ==> crate::grammar::is_ident_char(#[trigger] s@[k])),
            decreases cs@.len() - i,
        {
            if !is_ident_char_exec(cs[i]) {
                ok = false;
            }
            i = i + 1;
        }
        if ok && cs.len() > 0 {
            Ok(Identifier(String::from_str(s)))
        } else {
            Err(Error::SyntaxError(String::from_str("Invalid identifier")))
        }
    }
}

// ---------------------------------------------------------------------------
// Literal
// ---------------------------------------------------------------------------
/// A literal value: number, string, boolean, or symbol.
#[derive(Clone, Debug, PartialEq)]
pub enum Literal {
    Number(Numeric),
    String(String),
    Boolean(bool),
    Symbol(String),
}

/// Mathematical model of a `Literal`.
pub enum LiteralV {
    Number(NumericV),
    String(Seq<char>),
    Boolean(bool),
    Symbol(Seq<char>),
}

impl Literal {
    pub open spec fn view(&self) -> LiteralV {
        match self {
            Literal::Number(n) => LiteralV::Number(n.view()),
            Literal::String(s) => LiteralV::String(s@),
            Literal::Boolean(b) => LiteralV::Boolean(*b),
            Literal::Symbol(s) => LiteralV::Symbol(s@),
        }
    }

    /// Construct a number literal.
    pub fn number(n: Numeric) -> (r: Literal)
        ensures
            r.view() == LiteralV::Number(n.view()),
    {
        Literal::Number(n)
    }

    /// Construct a string literal (e.g. `"hello"`).
    pub fn string(s: &str) -> (r: Literal)
        ensures
            r.view() == LiteralV::String(s@),
    {
        Literal::String(String::from_str(s))
    }

    /// Construct a boolean literal.
    pub fn boolean(b: bool) -> (r: Literal)
        ensures
            r.view() == LiteralV::Boolean(b),
    {
        Literal::Boolean(b)
    }

    /// Construct a symbol literal (e.g. `:foo` or `:"hello"`).
    pub fn symbol(s: &str) -> (r: Literal)
        ensures
            r.view() == LiteralV::Symbol(s@),
    {
        Literal::Symbol(String::from_str(s))
    }

    /// The textual form of the literal: the exact text that parses back to
    /// an equal literal.
    pub fn to_text(&self) -> (r: String)
        ensures
            r@ == crate::grammar::literal_chars(self.view()),
    {
        match self {
            Literal::Number(n) => crate::chars::string_from_chars(&n.to_chars()),
            Literal::Boolean(b) => {
                if *b {
                    let t = String::from_str("true");
                    proof {
                        reveal_strlit("true");
                        assert(t@ =~= seq!['t', 'r', 'u', 'e']);
                    }
                    t
                } else {
                    let t = String::from_str("false");
                    proof {
                        reveal_strlit("false");
                        assert(t@ =~= seq!['f', 'a', 'l', 's', 'e']);
                    }
                    t
                }
            },
            Literal::String(s) => {
                let cs = chars_vec(s.as_str());
                let mut out: Vec<char> = Vec::new();
                out.push('"');
                proof {
                    assert(out@ =~= seq!['"']);
                }
                crate::chars::push_escaped(&mut out, &cs);
                out.push('"');
                proof {
                    assert(out@ =~= crate::grammar::string_literal_chars(s@));
                }
                crate::chars::string_from_chars(&out)
            },
            Literal::Symbol(s) => {
                let cs = chars_vec(s.as_str());
                let mut out: Vec<char> = Vec::new();
                out.push(':');
                proof {
                    assert(out@ =~= seq![':']);
                }
                if crate::chars::is_valid_identifier_chars(&cs) {
                    crate::chars::push_all(&mut out, &cs);
                } else {
                    out.push('"');
                    proof {
                        assert(out@ =~= seq![':', '"']);
                    }
                    crate::chars::push_escaped(&mut out, &cs);
                    out.push('"');
                }
                proof {
                    assert(out@ =~= crate::grammar::symbol_chars(s@));
                }
                crate::chars::string_from_chars(&out)
            },
        }
    }
}

impl From<bool> for Literal {
    fn from(value: bool) -> (r: Literal) {
        Literal::Boolean(value)
    }
}

impl vstd::std_specs::convert::FromSpecImpl<bool> for Literal {
    open spec fn obeys_from_spec() -> bool {
        true
    }

    open spec fn from_spec(value: bool) -> Literal {
        Literal::Boolean(value)
    }
}

impl From<String> for Literal {
    fn from(value: String) -> (r: Literal) {
        Literal::String(value)
    }
}

impl vstd::std_specs::convert::FromSpecImpl<String> for Literal {
    open spec fn obeys_from_spec() -> bool {
        true
    }

    open spec fn from_spec(value: String) -> Literal {
        Literal::String(value)
    }
}

impl From<i64> for Literal {
    fn from(value: i64) -> (r: Literal) {
        Literal::Number(Numeric::from_i64(value))
    }
}

impl vstd::std_specs::convert::FromSpecImpl<i64> for Literal {
    open spec fn obeys_from_spec() -> bool {
        false
    }

    open spec fn from_spec(value: i64) -> Literal {
        vstd::pervasive::arbitrary()
    }
}

// ---------------------------------------------------------------------------
// Expr
// ---------------------------------------------------------------------------
/// An expression in the language.
#[derive(Debug, PartialEq)]
pub enum Expr {
    /// A literal value (number, string, boolean, or symbol).
    Literal(Literal),
    /// An identifier reference.
    Ident(String),
    /// A unary expression with an operator and operand.
    UnaryExpr(UnaryOp, Box<Expr>),
    /// A binary expression with left, operator, and right operands.
    BinaryExpr(Box<Expr>, BinaryOp, Box<Expr>),
    /// A function call: name and arguments.
    FunctionCall(Identifier, Vec<Expr>),
    /// A parenthesized expression.
    Parenthesized(Box<Expr>),
}

/// Mathematical model of an `Expr`.
pub enum ExprV {
    Literal(LiteralV),
    Ident(Seq<char>),
    UnaryExpr(UnaryOp, Box<ExprV>),
    BinaryExpr(Box<ExprV>, BinaryOp, Box<ExprV>),
    FunctionCall(Seq<char>, Seq<ExprV>),
    Parenthesized(Box<ExprV>),
}

/// The views of a sequence of argument expressions, in order.
pub open spec fn exprs_view(args: Seq<Expr>) -> Seq<ExprV>
    decreases args,
{
    Seq::new(
        args.len(),
        |i: int|
            if 0 <= i < args.len() {
                args[i].view()
            } else {
                ExprV::Ident(Seq::empty())
            },
    )
}

pub proof fn lemma_exprs_view_push(args: Seq<Expr>, e: Expr)
    ensures
        exprs_view(args.push(e)) == exprs_view(args).push(e.view()),
{
    assert(exprs_view(args.push(e)) =~= exprs_view(args).push(e.view()));
}

impl Expr {
    pub open spec fn view(&self) -> ExprV
        decreases self,
    {
        match self {
            Expr::Literal(l) => ExprV::Literal(l.view()),
            Expr::Ident(s) => ExprV::Ident(s@),
            Expr::UnaryExpr(op, e) => ExprV::UnaryExpr(*op, Box::new(e.view())),
            Expr::BinaryExpr(l, op, r) => ExprV::BinaryExpr(
                Box::new(l.view()),
                *op,
                Box::new(r.view()),
            ),
            Expr::FunctionCall(name, args) => ExprV::FunctionCall(name.view(), exprs_view(args@)),
            Expr::Parenthesized(e) => ExprV::Parenthesized(Box::new(e.view())),
        }
    }

    /// Constructs a boolean literal expression.
    pub fn literal_boolean(b: bool) -> (r: Expr)
        ensures
            r.view() == ExprV::Literal(LiteralV::Boolean(b)),
    {
        Expr::Literal(Literal::boolean(b))
    }

    /// Constructs a symbol literal expression (e.g. `:foo` or `:"hello"`).
    pub fn literal_symbol(s: &str) -> (r: Expr)
        ensures
            r.view() == ExprV::Literal(LiteralV::Symbol(s@)),
    {
        Expr::Literal(Literal::symbol(s))
    }

    /// Constructs a string literal expression (e.g. `"hello"`).
    pub fn literal_string(s: &str) -> (r: Expr)
        ensures
            r.view() == ExprV::Literal(LiteralV::String(s@)),
    {
        Expr::Literal(Literal::string(s))
    }

    /// Constructs a number literal expression.
    pub fn literal_number(n: Numeric) -> (r: Expr)
        ensures
            r.view() == ExprV::Literal(LiteralV::Number(n.view())),
    {
        Expr::Literal(Literal::number(n))
    }

    /// Constructs an identifier expression.
    pub fn ident(s: &str) -> (r: Expr)
        ensures
            r.view() == ExprV::Ident(s@),
    {
        Expr::Ident(String::from_str(s))
    }

    /// Constructs a unary expression.
    pub fn unary_expr(op: UnaryOp, expr: Expr) -> (r: Expr)
        ensures
            r.view() == ExprV::UnaryExpr(op, Box::new(expr.view())),
    {
        Expr::UnaryExpr(op, Box::new(expr))
    }

    /// Constructs a binary expression.
    pub fn binary_expr(left: Expr, op: BinaryOp, right: Expr) -> (r: Expr)
        ensures
            r.view() == ExprV::BinaryExpr(Box::new(left.view()), op, Box::new(right.view())),
    {
        Expr::BinaryExpr(Box::new(left), op, Box::new(right))
    }

    /// Constructs a function call expression.
    pub fn function_call(name: Identifier, args: Vec<Expr>) -> (r: Expr)
        ensures
            r.view() == ExprV::FunctionCall(name.view(), exprs_view(args@)),
    {
        Expr::FunctionCall(name, args)
    }

    /// Constructs a parenthesized expression.
    pub fn parenthesized(expr: Expr) -> (r: Expr)
        ensures
            r.view() == ExprV::Parenthesized(Box::new(expr.view())),
    {
        Expr::Parenthesized(Box::new(expr))
    }
}

} // verus!
