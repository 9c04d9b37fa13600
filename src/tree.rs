//! A lossless syntax tree: tokens tile the source text, trivia included, and
//! nodes cover contiguous runs of tokens.
use vstd::prelude::*;
use crate::lexer::lex;
use crate::parser::{Src, parse_nodes};

verus! {

/// The lexical class of a token.
#[derive(Clone, Copy, PartialEq, Eq, Structural, Debug)]
pub enum TokKind {
    Whitespace,
    Comment,
    Ident,
    Literal,
    Punct,
}

/// A token: the characters `lo..hi` of the source text.
#[derive(Clone, Copy, PartialEq, Eq, Structural, Debug)]
pub struct Token {
    pub kind: TokKind,
    pub lo: usize,
    pub hi: usize,
}

/// Tokens cover the whole source, in order, without gaps or overlaps, and none
/// of them is empty.
pub open spec fn tiles(src: Seq<char>, toks: Seq<Token>) -> bool {
    &&& toks.len() == 0 <==> src.len() == 0
    &&& forall|i: int| 0 <= i < toks.len() ==> #[trigger] toks[i].lo < toks[i].hi <= src.len()
    &&& toks.len() > 0 ==> toks[0].lo == 0 && toks.last().hi == src.len()
    &&& forall|i: int| 0 <= i < toks.len() - 1 ==> #[trigger] toks[i].hi == toks[i + 1].lo
}

/// What a node is, with the children that matching consults. Child nodes are
/// given by index into the tree's node list, tokens by index into its token list.
#[derive(Clone, Copy, PartialEq, Eq, Structural, Debug)]
pub enum NodeKind {
    /// `receiver.name(args)`
    MethodCall { receiver: usize, name: usize, args: usize },
    /// `(a, b, ...)` after a method name.
    ArgList { first: Option<usize> },
    /// `|p, ...| body`
    Closure { first_param: Option<usize>, body: Option<usize> },
    /// One closure parameter, `pat` or `pat: Type`.
    Param { pat: Option<usize> },
    /// `{ stmt... tail? }`; a tail expression is not a statement.
    Block { n_stmts: usize, first_stmt: Option<usize> },
    /// An expression used as a statement, with its `;` if any.
    ExprStmt { expr: usize },
    /// A `let` statement or an item.
    OtherStmt,
    /// `if cond { .. } else ..`
    IfExpr { cond: Option<usize>, then_branch: Option<usize>, else_branch: Option<usize> },
    /// A binding `ref? mut? name`.
    IdentPat { mut_tok: Option<usize> },
    /// Any other pattern (tuple, struct, reference, literal, wildcard).
    OtherPat,
    /// A `let` condition `let pat = expr`, alone or joined to others by
    /// operators, as in `if let` or `while let`: no expression of its own.
    LetExpr,
    /// Any other expression (path, literal, call, operator, ...).
    OtherExpr,
}

/// A node: its kind and the tokens `lo..hi` it spans, from its first
/// significant token to its last.
#[derive(Clone, Copy, PartialEq, Eq, Structural, Debug)]
pub struct Node {
    pub kind: NodeKind,
    pub lo: usize,
    pub hi: usize,
}

/// A parsed source file.
pub struct Tree {
    pub src: Vec<char>,
    pub toks: Vec<Token>,
    pub nodes: Vec<Node>,
}

pub open spec fn opt_below(o: Option<usize>, bound: int) -> bool {
    match o {
        Some(x) => x < bound,
        None => true,
    }
}

/// A node at index `i` refers only to nodes created before it, and only to
/// tokens inside its own span.
pub open spec fn node_wf(n: Node, i: int, ntoks: int) -> bool {
    &&& n.lo < n.hi <= ntoks
    &&& match n.kind {
        NodeKind::MethodCall { receiver, name, args } => receiver < i && args < i && n.lo <= name
            < n.hi,
        NodeKind::ArgList { first } => opt_below(first, i),
        NodeKind::Closure { first_param, body } => opt_below(first_param, i) && opt_below(body, i),
        NodeKind::Param { pat } => opt_below(pat, i),
        NodeKind::Block { n_stmts, first_stmt } => opt_below(first_stmt, i),
        NodeKind::ExprStmt { expr } => expr < i,
        NodeKind::IfExpr { cond, then_branch, else_branch } => opt_below(cond, i) && opt_below(
            then_branch,
            i,
        ) && opt_below(else_branch, i),
        NodeKind::IdentPat { mut_tok } => match mut_tok {
            Some(k) => n.lo <= k < n.hi,
            None => true,
        },
        _ => true,
    }
}

/// Node `c` lies within the span of `n`.
pub open spec fn inside(ns: Seq<Node>, c: usize, n: Node) -> bool {
    ns[c as int].lo >= n.lo && ns[c as int].hi <= n.hi
}

pub open spec fn opt_inside(ns: Seq<Node>, o: Option<usize>, n: Node) -> bool {
    match o {
        Some(c) => inside(ns, c, n),
        None => true,
    }
}

/// The children of node `i` lie within its span; a method call's receiver
/// ends before the method's name.
pub open spec fn links_ok(ns: Seq<Node>, i: int) -> bool {
    let n = ns[i];
    match n.kind {
        NodeKind::MethodCall { receiver, name, args } => ns[receiver as int].lo >= n.lo
            && ns[receiver as int].hi <= name && inside(ns, args, n),
        NodeKind::ArgList { first } => opt_inside(ns, first, n),
        NodeKind::Closure { first_param, body } => opt_inside(ns, first_param, n) && opt_inside(
            ns,
            body,
            n,
        ),
        NodeKind::Param { pat } => opt_inside(ns, pat, n),
        NodeKind::Block { n_stmts, first_stmt } => opt_inside(ns, first_stmt, n),
        NodeKind::ExprStmt { expr } => inside(ns, expr, n),
        NodeKind::IfExpr { cond, then_branch, else_branch } => opt_inside(ns, cond, n)
            && opt_inside(ns, then_branch, n) && opt_inside(ns, else_branch, n),
        _ => true,
    }
}

/// A method call's name is an identifier (or a tuple index) token.
pub open spec fn name_tok_ok(toks: Seq<Token>, n: Node) -> bool {
    match n.kind {
        NodeKind::MethodCall { name, .. } => toks[name as int].kind == TokKind::Ident
            || toks[name as int].kind == TokKind::Literal,
        _ => true,
    }
}

impl Tree {
    /// Tokens tile the text and every node is well formed.
    pub open spec fn wf(&self) -> bool {
        &&& tiles(self.src@, self.toks@)
        &&& forall|i: int|
            0 <= i < self.nodes@.len() ==> #[trigger] node_wf(self.nodes@[i], i, self.toks@.len() as int)
        &&& forall|i: int| 0 <= i < self.nodes@.len() ==> #[trigger] links_ok(self.nodes@, i)
        &&& forall|i: int|
            0 <= i < self.nodes@.len() ==> #[trigger] name_tok_ok(self.toks@, self.nodes@[i])
    }

    pub open spec fn text(&self, k: int) -> Seq<char> {
        tok_text(self.src@, self.toks@[k])
    }

    /// The text of tokens `lo..hi`, trivia included.
    pub open spec fn span(&self, lo: int, hi: int) -> Seq<char>
        decreases hi - lo,
    {
        if hi <= lo {
            Seq::empty()
        } else {
            self.span(lo, hi - 1) + self.text(hi - 1)
        }
    }

    pub open spec fn is_ws(&self, k: int) -> bool {
        self.toks@[k].kind == TokKind::Whitespace
    }
}

/// Relies on `str::chars`: it yields the characters of the string in order.
#[verifier::external_body]
pub(crate) fn chars_of(s: &str) -> (r: Vec<char>)
    ensures
        r@ == s@,
{
    s.chars().collect()
}

/// Relies on `String`'s `FromIterator<&char>`: it appends the characters in order.
#[verifier::external_body]
pub(crate) fn string_of(v: &Vec<char>) -> (r: String)
    ensures
        r@ == v@,
{
    v.iter().collect()
}

impl Tree {
    /// Parses `text` into a well-formed tree whose tokens cover it exactly:
    /// children lie inside their parents, and a method call's receiver ends
    /// before its name token, which is an identifier.
    pub fn parse(text: &str) -> (r: Tree)
        ensures
            r.wf(),
            r.src@ == text@,
    {
        let chars = chars_of(text);
        let toks = lex(&chars);
        let s = Src { chars, toks };
        let nodes = parse_nodes(&s);
        let ghost n = s.toks@.len() as int;
        assert(crate::parser::nodes_ok(&s, nodes@));
        assert(n == crate::parser::ntoks(&s));
        assert(forall|i: int| 0 <= i < nodes@.len() ==> #[trigger] node_wf(nodes@[i], i, n));
        assert(forall|i: int| 0 <= i < nodes@.len() ==> #[trigger] links_ok(nodes@, i));
        assert(forall|i: int|
            0 <= i < nodes@.len() ==> #[trigger] name_tok_ok(s.toks@, nodes@[i]));
        let r = Tree { src: s.chars, toks: s.toks, nodes };
        r
    }
}

/// The text of a token.
pub open spec fn tok_text(src: Seq<char>, t: Token) -> Seq<char> {
    src.subrange(t.lo as int, t.hi as int)
}

} // verus!
