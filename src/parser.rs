//! A recursive-descent parser for the part of Rust's expression, statement
//! and pattern grammar that the rewrite inspects. Anything else is kept as
//! opaque nodes or skipped as balanced token groups; parsing never fails.
use vstd::prelude::*;
use crate::tree::{Node, NodeKind, TokKind, Token, node_wf, links_ok, name_tok_ok};

verus! {

/// Source text and its tokens, read-only while parsing.
pub struct Src {
    pub chars: Vec<char>,
    pub toks: Vec<Token>,
}

pub open spec fn ntoks(s: &Src) -> int {
    s.toks@.len() as int
}

/// Token `p`, if there is one, is significant.
pub open spec fn sig(s: &Src, p: int) -> bool {
    p < ntoks(s) ==> !trivia_at(s, p)
}

/// Node `c` starts at or after `lo`, ends by `q`, and ends on a significant token.
pub open spec fn span_in(s: &Src, ns: Seq<Node>, c: int, lo: int, q: int) -> bool {
    0 <= c < ns.len() && ns[c].lo >= lo && ns[c].hi <= q && !trivia_at(s, ns[c].hi - 1)
}

/// Whether a parse result, when there is one, names a node that starts at
/// `pos` and ends by where parsing stopped, after `pos` and inside the tokens.
pub open spec fn advanced(s: &Src, pos: usize, r: Option<(usize, usize)>, ns: Seq<Node>) -> bool {
    match r {
        Some((i, q)) => pos < q <= ntoks(s) && sig(s, q as int) && span_in(s, ns, i as int, pos as int, q as int)
            && ns[i as int].lo == pos,
        None => true,
    }
}

/// Every node is well formed at its index.
pub open spec fn nodes_ok(s: &Src, ns: Seq<Node>) -> bool {
    &&& forall|i: int| 0 <= i < ns.len() ==> #[trigger] node_wf(ns[i], i, ntoks(s))
    &&& forall|i: int| 0 <= i < ns.len() ==> #[trigger] links_ok(ns, i)
    &&& forall|i: int| 0 <= i < ns.len() ==> #[trigger] name_tok_ok(s.toks@, ns[i])
}

/// Parsing added well-formed nodes and changed none of the earlier ones.
pub open spec fn grows(s: &Src, before: Seq<Node>, after: Seq<Node>) -> bool {
    &&& nodes_ok(s, after)
    &&& after.len() >= before.len()
    &&& forall|j: int| 0 <= j < before.len() ==> #[trigger] after[j] == before[j]
}

pub open spec fn trivia_at(s: &Src, k: int) -> bool {
    s.toks@[k].kind == TokKind::Whitespace || s.toks@[k].kind == TokKind::Comment
}

fn trivia(s: &Src, pos: usize) -> (r: bool)
    requires
        pos < ntoks(s),
    ensures
        r == trivia_at(s, pos as int),
{
    let k = s.toks[pos].kind;
    k == TokKind::Whitespace || k == TokKind::Comment
}

/// The first significant token at or after `pos`.
fn skip(s: &Src, pos: usize) -> (r: usize)
    requires
        pos <= ntoks(s),
    ensures
        pos <= r <= ntoks(s),
        sig(s, r as int),
{
    let mut r = pos;
    while r < s.toks.len() && trivia(s, r)
        invariant
            pos <= r <= ntoks(s),
        decreases ntoks(s) - r,
    {
        r = r + 1;
    }
    r
}

/// The first significant token after `pos`.
fn next(s: &Src, pos: usize) -> (r: usize)
    requires
        pos < ntoks(s),
    ensures
        pos < r <= ntoks(s),
        sig(s, r as int),
{
    let n = s.toks.len();
    skip(s, pos + 1)
}

/// The index just past the last significant token of `lo..q`.
fn end_of(s: &Src, lo: usize, q: usize) -> (r: usize)
    requires
        lo < q <= ntoks(s),
    ensures
        lo < r <= q,
        forall|k: int| lo <= k < q && !trivia_at(s, k) ==> k < r,
        !trivia_at(s, lo as int) ==> !trivia_at(s, r - 1),
{
    let mut r = q;
    while r > lo + 1 && trivia(s, r - 1)
        invariant
            lo < r <= q,
            q <= ntoks(s),
            forall|k: int| r <= k < q ==> trivia_at(s, k),
        decreases r,
    {
        r = r - 1;
    }
    r
}

fn tok_len_is(s: &Src, pos: usize, len: usize) -> (r: bool)
    requires
        pos < ntoks(s),
    ensures
        r ==> s.toks@[pos as int].lo < s.toks@[pos as int].hi <= s.chars@.len()
            && s.toks@[pos as int].hi - s.toks@[pos as int].lo == len,
{
    let t = s.toks[pos];
    t.lo < t.hi && t.hi <= s.chars.len() && t.hi - t.lo == len
}

/// Whether the token at `pos` is the one character `c`.
fn is_char(s: &Src, pos: usize, c: char) -> (r: bool)
    ensures
        r ==> pos < ntoks(s),
{
    pos < s.toks.len() && tok_len_is(s, pos, 1) && s.chars[s.toks[pos].lo] == c
}

/// Whether the token at `pos` is the two characters `a`, `b`.
fn is_pair(s: &Src, pos: usize, a: char, b: char) -> (r: bool)
    ensures
        r ==> pos < ntoks(s),
{
    pos < s.toks.len() && tok_len_is(s, pos, 2) && s.chars[s.toks[pos].lo] == a
        && s.chars[s.toks[pos].lo + 1] == b
}

/// Whether the token at `pos` is the word `w`.
fn is_word(s: &Src, pos: usize, w: &str) -> (r: bool)
    ensures
        r ==> pos < ntoks(s) && s.toks@[pos as int].kind == TokKind::Ident,
{
    if pos >= s.toks.len() || s.toks[pos].kind != TokKind::Ident {
        return false;
    }
    let t = s.toks[pos];
    let b = w.as_bytes();
    if !(t.lo < t.hi && t.hi <= s.chars.len() && t.hi - t.lo == b.len()) {
        return false;
    }
    let mut i: usize = 0;
    while i < b.len()
        invariant
            t.lo < t.hi <= s.chars.len(),
            t.hi - t.lo == b.len(),
        decreases b.len() - i,
    {
        if s.chars[t.lo + i] as u32 != b[i] as u32 {
            return false;
        }
        i = i + 1;
    }
    true
}

fn is_kind(s: &Src, pos: usize, k: TokKind) -> (r: bool)
    ensures
        r ==> pos < ntoks(s) && s.toks@[pos as int].kind == k,
{
    pos < s.toks.len() && s.toks[pos].kind == k
}

fn is_opener(s: &Src, pos: usize) -> (r: bool)
    ensures
        r ==> pos < ntoks(s),
{
    is_char(s, pos, '(') || is_char(s, pos, '[') || is_char(s, pos, '{')
}

fn is_closer(s: &Src, pos: usize) -> (r: bool)
    ensures
        r ==> pos < ntoks(s),
{
    is_char(s, pos, ')') || is_char(s, pos, ']') || is_char(s, pos, '}')
}

/// Skips one token, or a whole balanced group when `pos` opens one.
fn skip_group(s: &Src, pos: usize) -> (r: usize)
    requires
        pos < ntoks(s),
    ensures
        pos < r <= ntoks(s),
        sig(s, r as int),
{
    if !is_opener(s, pos) {
        return next(s, pos);
    }
    let mut level: usize = 1;
    let mut p = next(s, pos);
    while p < s.toks.len() && level > 0
        invariant
            pos < p <= ntoks(s),
            level <= p,
            sig(s, p as int),
        decreases ntoks(s) - p,
    {
        if is_opener(s, p) {
            level = level + 1;
        } else if is_closer(s, p) {
            level = level - 1;
        }
        p = next(s, p);
    }
    p
}

/// Skips a type, stopping at a separator outside brackets.
fn skip_type(s: &Src, pos: usize, bar_stops: bool) -> (r: usize)
    requires
        pos <= ntoks(s),
        sig(s, pos as int),
    ensures
        pos <= r <= ntoks(s),
        sig(s, r as int),
{
    let mut angle: usize = 0;
    let mut p = pos;
    while p < s.toks.len()
        invariant
            pos <= p <= ntoks(s),
            sig(s, p as int),
        decreases ntoks(s) - p,
    {
        if angle == 0 && (is_char(s, p, ',') || is_char(s, p, ';') || is_char(s, p, '=')
            || is_closer(s, p) || is_char(s, p, '{') || (bar_stops && is_char(s, p, '|'))) {
            return p;
        }
        if is_char(s, p, '<') {
            angle = if angle < usize::MAX { angle + 1 } else { angle };
        } else if is_char(s, p, '>') && angle > 0 {
            angle = angle - 1;
        }
        p = skip_group(s, p);
    }
    p
}

fn new_node(s: &Src, nodes: &mut Vec<Node>, kind: NodeKind, lo: usize, hi: usize) -> (r: usize)
    requires
        nodes_ok(s, old(nodes)@),
        node_wf(Node { kind, lo, hi }, old(nodes)@.len() as int, ntoks(s)),
        links_ok(old(nodes)@.push(Node { kind, lo, hi }), old(nodes)@.len() as int),
        name_tok_ok(s.toks@, Node { kind, lo, hi }),
    ensures
        nodes_ok(s, final(nodes)@),
        r == old(nodes)@.len(),
        final(nodes)@ == old(nodes)@.push(Node { kind, lo, hi }),
{
    let i = nodes.len();
    nodes.push(Node { kind, lo, hi });
    proof {
        let ns = nodes@;
        let before = old(nodes)@;
        assert forall|j: int| 0 <= j < ns.len() implies #[trigger] links_ok(ns, j) by {
            if j < before.len() {
                assert(links_ok(before, j));
                assert(node_wf(before[j], j, ntoks(s)));
            }
        }
    }
    i
}

/// Parses a pattern starting at `pos`.
fn pat(s: &Src, nodes: &mut Vec<Node>, pos: usize, depth: usize) -> (r: Option<(usize, usize)>)
    requires
        pos <= ntoks(s),
        sig(s, pos as int),
        nodes_ok(s, old(nodes)@),
    ensures
        grows(s, old(nodes)@, final(nodes)@),
        advanced(s, pos, r, final(nodes)@),
    decreases depth,
{
    if depth == 0 || pos >= s.toks.len() {
        return None;
    }
    let lo = pos;
    if is_word(s, pos, "ref") || is_word(s, pos, "mut") {
        let mut p = pos;
        if is_word(s, p, "ref") {
            p = next(s, p);
        }
        let mut mut_tok: Option<usize> = None;
        if p < s.toks.len() && is_word(s, p, "mut") {
            mut_tok = Some(p);
            p = next(s, p);
        }
        if p < s.toks.len() && is_kind(s, p, TokKind::Ident) {
            p = next(s, p);
            proof {
                if let Some(m) = mut_tok {
                    assert(!trivia_at(s, m as int));
                }
            }
            let i = new_node(s, nodes, NodeKind::IdentPat { mut_tok }, lo, end_of(s, lo, p));
            return Some((i, p));
        }
        return None;
    }
    if is_kind(s, pos, TokKind::Ident) && !is_word(s, pos, "_") {
        let mut p = next(s, pos);
        let mut path = false;
        while p < s.toks.len() && is_pair(s, p, ':', ':')
            invariant
                nodes_ok(s, nodes@),
                grows(s, old(nodes)@, nodes@),
                pos < p <= ntoks(s),
                sig(s, p as int),
            decreases ntoks(s) - p,
        {
            path = true;
            p = next(s, p);
            if p < s.toks.len() && is_kind(s, p, TokKind::Ident) {
                p = next(s, p);
            }
        }
        if p < s.toks.len() && is_char(s, p, '(') {
            p = pat_list(s, nodes, p, ')', depth - 1);
        } else if p < s.toks.len() && is_char(s, p, '{') {
            p = field_pats(s, nodes, p, depth - 1);
        } else if !path {
            let i = new_node(s, nodes, NodeKind::IdentPat { mut_tok: None }, lo, end_of(s, lo, p));
            return Some((i, p));
        }
        let i = new_node(s, nodes, NodeKind::OtherPat, lo, end_of(s, lo, p));
        return Some((i, p));
    }
    let p = if is_char(s, pos, '(') {
        pat_list(s, nodes, pos, ')', depth - 1)
    } else if is_char(s, pos, '[') {
        pat_list(s, nodes, pos, ']', depth - 1)
    } else if is_char(s, pos, '&') || is_pair(s, pos, '&', '&') {
        let mut p = next(s, pos);
        if p < s.toks.len() && is_word(s, p, "mut") {
            p = next(s, p);
        }
        match pat(s, nodes, p, depth - 1) {
            Some((_, q)) => q,
            None => p,
        }
    } else if is_kind(s, pos, TokKind::Literal) || is_word(s, pos, "_") || is_pair(s, pos, '.', '.') {
        next(s, pos)
    } else if is_char(s, pos, '-') {
        let p = next(s, pos);
        if p < s.toks.len() && is_kind(s, p, TokKind::Literal) {
            next(s, p)
        } else {
            p
        }
    } else {
        return None;
    };
    let i = new_node(s, nodes, NodeKind::OtherPat, lo, end_of(s, lo, p));
    Some((i, p))
}

/// Parses `(p, ...)` or `[p, ...]` from the opening token at `pos` through its closer.
fn pat_list(s: &Src, nodes: &mut Vec<Node>, pos: usize, close: char, depth: usize) -> (r: usize)
    requires
        pos < ntoks(s),
        sig(s, pos as int),
        nodes_ok(s, old(nodes)@),
    ensures
        grows(s, old(nodes)@, final(nodes)@),
        pos < r <= ntoks(s),
        sig(s, r as int),
    decreases depth,
{
    let mut p = next(s, pos);
    while p < s.toks.len() && !is_char(s, p, close)
        invariant
            nodes_ok(s, nodes@),
            grows(s, old(nodes)@, nodes@),
            pos < p <= ntoks(s),
            sig(s, p as int),
        decreases ntoks(s) - p,
    {
        if depth == 0 {
            p = skip_group(s, p);
        } else {
            match pat(s, nodes, p, depth - 1) {
                Some((_, q)) => {
                    p = q;
                },
                None => {
                    p = skip_group(s, p);
                },
            }
        }
        if p < s.toks.len() && is_char(s, p, ',') {
            p = next(s, p);
        }
    }
    if p < s.toks.len() {
        p = next(s, p);
    }
    p
}

/// Parses the fields `{ name: p, mut x, .. }` of a struct pattern.
fn field_pats(s: &Src, nodes: &mut Vec<Node>, pos: usize, depth: usize) -> (r: usize)
    requires
        pos < ntoks(s),
        sig(s, pos as int),
        nodes_ok(s, old(nodes)@),
    ensures
        grows(s, old(nodes)@, final(nodes)@),
        pos < r <= ntoks(s),
        sig(s, r as int),
    decreases depth,
{
    let mut p = next(s, pos);
    while p < s.toks.len() && !is_char(s, p, '}')
        invariant
            nodes_ok(s, nodes@),
            grows(s, old(nodes)@, nodes@),
            pos < p <= ntoks(s),
            sig(s, p as int),
        decreases ntoks(s) - p,
    {
        if is_kind(s, p, TokKind::Ident) {
            let q = next(s, p);
            if q < s.toks.len() && is_char(s, q, ':') {
                p = next(s, q);
            }
        }
        if depth == 0 || p >= s.toks.len() {
            if p < s.toks.len() {
                p = skip_group(s, p);
            }
        } else {
            match pat(s, nodes, p, depth - 1) {
                Some((_, q)) => {
                    p = q;
                },
                None => {
                    p = skip_group(s, p);
                },
            }
        }
        if p < s.toks.len() && is_char(s, p, ',') {
            p = next(s, p);
        }
    }
    if p < s.toks.len() {
        p = next(s, p);
    }
    p
}

/// Whether the token at `pos` is a binary operator.
fn is_binop(s: &Src, pos: usize) -> bool {
    if !is_kind(s, pos, TokKind::Punct) {
        return is_word(s, pos, "as");
    }
    is_char(s, pos, '+') || is_char(s, pos, '-') || is_char(s, pos, '*') || is_char(s, pos, '/')
        || is_char(s, pos, '%') || is_char(s, pos, '<') || is_char(s, pos, '>') || is_char(
        s,
        pos,
        '=',
    ) || is_char(s, pos, '&') || is_char(s, pos, '|') || is_char(s, pos, '^') || (tok_len_is(
        s,
        pos,
        2,
    ) && !is_pair(s, pos, ':', ':') && !is_pair(s, pos, '-', '>') && !is_pair(s, pos, '=', '>'))
}

/// Parses an expression: operands joined by binary operators.
fn expr(s: &Src, nodes: &mut Vec<Node>, pos: usize, depth: usize) -> (r: Option<(usize, usize)>)
    requires
        pos <= ntoks(s),
        sig(s, pos as int),
        nodes_ok(s, old(nodes)@),
    ensures
        grows(s, old(nodes)@, final(nodes)@),
        advanced(s, pos, r, final(nodes)@),
    decreases depth,
{
    if depth == 0 {
        return None;
    }
    let (mut e, mut q) = match unary(s, nodes, pos, depth - 1) {
        Some(x) => x,
        None => {
            return None;
        },
    };
    let mut has_let = nodes[e].kind == NodeKind::LetExpr;
    assert(!trivia_at(s, pos as int));
    while q < s.toks.len() && is_binop(s, q)
        invariant
            span_in(s, nodes@, e as int, pos as int, q as int),
            !trivia_at(s, pos as int),
            nodes@[e as int].lo == pos,
            nodes_ok(s, nodes@),
            grows(s, old(nodes)@, nodes@),
            pos < q <= ntoks(s),
            sig(s, q as int),
            depth > 0,
        decreases ntoks(s) - q,
    {
        if is_word(s, q, "as") {
            q = skip_type(s, next(s, q), true);
        } else {
            match unary(s, nodes, next(s, q), depth - 1) {
                Some((rhs, q2)) => {
                    if nodes[rhs].kind == NodeKind::LetExpr {
                        has_let = true;
                    }
                    q = q2;
                },
                None => {
                    return Some((e, q));
                },
            }
        }
        let kind = if has_let {
            NodeKind::LetExpr
        } else {
            NodeKind::OtherExpr
        };
        let hi = end_of(s, pos, q);
        e = new_node(s, nodes, kind, pos, hi);
    }
    Some((e, q))
}

/// Parses prefix operators and what they apply to.
fn unary(s: &Src, nodes: &mut Vec<Node>, pos: usize, depth: usize) -> (r: Option<(usize, usize)>)
    requires
        pos <= ntoks(s),
        sig(s, pos as int),
        nodes_ok(s, old(nodes)@),
    ensures
        grows(s, old(nodes)@, final(nodes)@),
        advanced(s, pos, r, final(nodes)@),
    decreases depth,
{
    if depth == 0 || pos >= s.toks.len() {
        return None;
    }
    if is_char(s, pos, '-') || is_char(s, pos, '!') || is_char(s, pos, '*') || is_char(s, pos, '&')
        || is_pair(s, pos, '&', '&') {
        let mut p = next(s, pos);
        if p < s.toks.len() && is_word(s, p, "mut") {
            p = next(s, p);
        }
        match unary(s, nodes, p, depth - 1) {
            Some((_, q)) => {
                let i = new_node(s, nodes, NodeKind::OtherExpr, pos, end_of(s, pos, q));
                Some((i, q))
            },
            None => None,
        }
    } else {
        postfix(s, nodes, pos, depth - 1)
    }
}

/// Parses an operand followed by method calls, field accesses, calls, indexing and `?`.
fn postfix(s: &Src, nodes: &mut Vec<Node>, pos: usize, depth: usize) -> (r: Option<(usize, usize)>)
    requires
        pos <= ntoks(s),
        sig(s, pos as int),
        nodes_ok(s, old(nodes)@),
    ensures
        grows(s, old(nodes)@, final(nodes)@),
        advanced(s, pos, r, final(nodes)@),
    decreases depth,
{
    if depth == 0 {
        return None;
    }
    let (mut e, mut q) = match primary(s, nodes, pos, depth - 1) {
        Some(x) => x,
        None => {
            return None;
        },
    };
    assert(!trivia_at(s, pos as int));
    while q < s.toks.len()
        invariant
            span_in(s, nodes@, e as int, pos as int, q as int),
            !trivia_at(s, pos as int),
            nodes@[e as int].lo == pos,
            nodes_ok(s, nodes@),
            grows(s, old(nodes)@, nodes@),
            pos < q <= ntoks(s),
            sig(s, q as int),
            depth > 0,
        decreases ntoks(s) - q,
    {
        if is_char(s, q, '.') {
            let name = next(s, q);
            if !(is_kind(s, name, TokKind::Ident) || is_kind(s, name, TokKind::Literal)) {
                return Some((e, q));
            }
            let mut p = next(s, name);
            if p < s.toks.len() && is_pair(s, p, ':', ':') {
                p = skip_type(s, next(s, p), false);
            }
            if p < s.toks.len() && is_char(s, p, '(') {
                let (args, q2) = arg_list(s, nodes, p, depth - 1);
                assert(!trivia_at(s, name as int));
                e = new_node(
                    s,
                    nodes,
                    NodeKind::MethodCall { receiver: e, name, args },
                    pos,
                    end_of(s, pos, q2),
                );
                q = q2;
            } else {
                e = new_node(s, nodes, NodeKind::OtherExpr, pos, end_of(s, pos, p));
                q = p;
            }
        } else if is_char(s, q, '(') {
            let (_, q2) = arg_list(s, nodes, q, depth - 1);
            e = new_node(s, nodes, NodeKind::OtherExpr, pos, end_of(s, pos, q2));
            q = q2;
        } else if is_char(s, q, '[') || is_char(s, q, '?') {
            let q2 = skip_group(s, q);
            e = new_node(s, nodes, NodeKind::OtherExpr, pos, end_of(s, pos, q2));
            q = q2;
        } else {
            return Some((e, q));
        }
    }
    Some((e, q))
}

/// Parses `(a, b, ...)` from the `(` at `pos` through its `)`.
fn arg_list(s: &Src, nodes: &mut Vec<Node>, pos: usize, depth: usize) -> (r: (usize, usize))
    requires
        pos < ntoks(s),
        sig(s, pos as int),
        nodes_ok(s, old(nodes)@),
    ensures
        grows(s, old(nodes)@, final(nodes)@),
        pos < r.1 <= ntoks(s),
        sig(s, r.1 as int),
        span_in(s, final(nodes)@, r.0 as int, pos as int, r.1 as int),
        final(nodes)@[r.0 as int].lo == pos,
    decreases depth,
{
    let mut first: Option<usize> = None;
    let mut p = next(s, pos);
    while p < s.toks.len() && !is_char(s, p, ')')
        invariant
            first matches Some(x) ==> span_in(s, nodes@, x as int, pos as int, p as int),
            nodes_ok(s, nodes@),
            grows(s, old(nodes)@, nodes@),
            pos < p <= ntoks(s),
            sig(s, p as int),
        decreases ntoks(s) - p,
    {
        let r = if depth == 0 {
            None
        } else {
            expr(s, nodes, p, depth - 1)
        };
        match r {
            Some((a, q)) => {
                if first.is_none() {
                    first = Some(a);
                }
                p = q;
            },
            None => {
                p = skip_group(s, p);
            },
        }
        if p < s.toks.len() && is_char(s, p, ',') {
            p = next(s, p);
        }
    }
    if p < s.toks.len() {
        p = next(s, p);
    }
    let i = new_node(s, nodes, NodeKind::ArgList { first }, pos, end_of(s, pos, p));
    (i, p)
}

/// Parses a literal, path, macro call, group, block, `if`, closure or keyword expression.
fn primary(s: &Src, nodes: &mut Vec<Node>, pos: usize, depth: usize) -> (r: Option<(usize, usize)>)
    requires
        pos <= ntoks(s),
        sig(s, pos as int),
        nodes_ok(s, old(nodes)@),
    ensures
        grows(s, old(nodes)@, final(nodes)@),
        advanced(s, pos, r, final(nodes)@),
    decreases depth,
{
    if depth == 0 || pos >= s.toks.len() {
        return None;
    }
    if is_word(s, pos, "if") {
        return Some(if_expr(s, nodes, pos, depth - 1));
    }
    if is_char(s, pos, '|') || is_pair(s, pos, '|', '|') || is_word(s, pos, "move") {
        return closure(s, nodes, pos, depth - 1);
    }
    if is_char(s, pos, '{') {
        return Some(block(s, nodes, pos, depth - 1));
    }
    let p = if is_char(s, pos, '(') {
        arg_list(s, nodes, pos, depth - 1).1
    } else if is_kind(s, pos, TokKind::Literal) || is_char(s, pos, '[') {
        skip_group(s, pos)
    } else if is_word(s, pos, "let") {
        let mut p = next(s, pos);
        if let Some((_, q)) = pat(s, nodes, p, depth - 1) {
            p = q;
        }
        if p < s.toks.len() && is_char(s, p, '=') {
            p = next(s, p);
            if let Some((_, q)) = expr(s, nodes, p, depth - 1) {
                p = q;
            }
        }
        p
    } else if is_word(s, pos, "loop") || is_word(s, pos, "unsafe") || is_word(s, pos, "while")
        || is_word(s, pos, "for") || is_word(s, pos, "match") {
        let mut p = next(s, pos);
        while p < s.toks.len() && !is_char(s, p, '{') && !is_char(s, p, ';') && !is_closer(s, p)
            invariant
                nodes_ok(s, nodes@),
                grows(s, old(nodes)@, nodes@),
                pos < p <= ntoks(s),
                sig(s, p as int),
            decreases ntoks(s) - p,
        {
            p = skip_group(s, p);
        }
        if p < s.toks.len() && is_char(s, p, '{') {
            p = block(s, nodes, p, depth - 1).1;
        }
        p
    } else if is_word(s, pos, "return") || is_word(s, pos, "break") || is_word(s, pos, "continue") {
        let p = next(s, pos);
        match expr(s, nodes, p, depth - 1) {
            Some((_, q)) => q,
            None => p,
        }
    } else if is_kind(s, pos, TokKind::Ident) {
        let mut p = next(s, pos);
        while p < s.toks.len() && is_pair(s, p, ':', ':')
            invariant
                nodes_ok(s, nodes@),
                grows(s, old(nodes)@, nodes@),
                pos < p <= ntoks(s),
                sig(s, p as int),
            decreases ntoks(s) - p,
        {
            p = next(s, p);
            let mid = p;
            if p < s.toks.len() && is_char(s, p, '<') {
                while p < s.toks.len() && !is_char(s, p, '>')
                    invariant
                        nodes_ok(s, nodes@),
                        grows(s, old(nodes)@, nodes@),
                        pos < mid <= p <= ntoks(s),
                        sig(s, p as int),
                    decreases ntoks(s) - p,
                {
                    p = skip_group(s, p);
                }
            }
            if p < s.toks.len() {
                p = next(s, p);
            }
        }
        if p < s.toks.len() && is_char(s, p, '!') {
            let q = next(s, p);
            if q < s.toks.len() && is_opener(s, q) {
                p = skip_group(s, q);
            }
        }
        p
    } else {
        return None;
    };
    let kind = if is_word(s, pos, "let") {
        NodeKind::LetExpr
    } else {
        NodeKind::OtherExpr
    };
    let i = new_node(s, nodes, kind, pos, end_of(s, pos, p));
    Some((i, p))
}

/// Parses `if cond { .. } else ..` from the `if` at `pos`.
fn if_expr(s: &Src, nodes: &mut Vec<Node>, pos: usize, depth: usize) -> (r: (usize, usize))
    requires
        pos < ntoks(s),
        sig(s, pos as int),
        nodes_ok(s, old(nodes)@),
    ensures
        grows(s, old(nodes)@, final(nodes)@),
        pos < r.1 <= ntoks(s),
        sig(s, r.1 as int),
        span_in(s, final(nodes)@, r.0 as int, pos as int, r.1 as int),
        final(nodes)@[r.0 as int].lo == pos,
    decreases depth,
{
    let mut p = next(s, pos);
    let mut cond: Option<usize> = None;
    let mut then_branch: Option<usize> = None;
    let mut else_branch: Option<usize> = None;
    if depth > 0 && !is_char(s, p, '{') {
        if let Some((c, q)) = expr(s, nodes, p, depth - 1) {
            cond = Some(c);
            p = q;
        }
    }
    if depth > 0 && p < s.toks.len() && is_char(s, p, '{') {
        let (b, q) = block(s, nodes, p, depth - 1);
        then_branch = Some(b);
        p = q;
        if p < s.toks.len() && is_word(s, p, "else") {
            let e = next(s, p);
            if e < s.toks.len() && is_word(s, e, "if") {
                let (b2, q2) = if_expr(s, nodes, e, depth - 1);
                else_branch = Some(b2);
                p = q2;
            } else if e < s.toks.len() && is_char(s, e, '{') {
                let (b2, q2) = block(s, nodes, e, depth - 1);
                else_branch = Some(b2);
                p = q2;
            }
        }
    }
    let i = new_node(
        s,
        nodes,
        NodeKind::IfExpr { cond, then_branch, else_branch },
        pos,
        end_of(s, pos, p),
    );
    (i, p)
}

/// Parses `move? |params| body` or `|| body` at `pos`.
fn closure(s: &Src, nodes: &mut Vec<Node>, pos: usize, depth: usize) -> (r: Option<(usize, usize)>)
    requires
        pos < ntoks(s),
        sig(s, pos as int),
        nodes_ok(s, old(nodes)@),
    ensures
        grows(s, old(nodes)@, final(nodes)@),
        advanced(s, pos, r, final(nodes)@),
    decreases depth,
{
    let mut p = pos;
    if is_word(s, p, "move") {
        p = next(s, p);
    }
    let mut first_param: Option<usize> = None;
    if p < s.toks.len() && is_pair(s, p, '|', '|') {
        p = next(s, p);
    } else if p < s.toks.len() && is_char(s, p, '|') {
        p = next(s, p);
        while p < s.toks.len() && !is_char(s, p, '|')
            invariant
                first_param matches Some(x) ==> span_in(s, nodes@, x as int, pos as int, p as int),
                nodes_ok(s, nodes@),
                grows(s, old(nodes)@, nodes@),
                pos < p <= ntoks(s),
                sig(s, p as int),
            decreases ntoks(s) - p,
        {
            let lo = p;
            let mut pt: Option<usize> = None;
            if depth > 0 {
                if let Some((x, q)) = pat(s, nodes, p, depth - 1) {
                    pt = Some(x);
                    p = q;
                }
            }
            if p < s.toks.len() && is_char(s, p, ':') {
                p = skip_type(s, next(s, p), true);
            }
            if p == lo {
                p = skip_group(s, p);
            }
            let prm = new_node(s, nodes, NodeKind::Param { pat: pt }, lo, end_of(s, lo, p));
            if first_param.is_none() {
                first_param = Some(prm);
            }
            if p < s.toks.len() && is_char(s, p, ',') {
                p = next(s, p);
            }
        }
        if p < s.toks.len() {
            p = next(s, p);
        }
    } else {
        return None;
    }
    let mut body: Option<usize> = None;
    if p < s.toks.len() && is_pair(s, p, '-', '>') {
        p = skip_type(s, next(s, p), false);
    }
    if depth > 0 {
        if let Some((b, q)) = expr(s, nodes, p, depth - 1) {
            body = Some(b);
            p = q;
        }
    }
    let i = new_node(s, nodes, NodeKind::Closure { first_param, body }, pos, end_of(s, pos, p));
    Some((i, p))
}

/// Parses `{ ... }` from the `{` at `pos` through its `}`.
fn block(s: &Src, nodes: &mut Vec<Node>, pos: usize, depth: usize) -> (r: (usize, usize))
    requires
        pos < ntoks(s),
        sig(s, pos as int),
        nodes_ok(s, old(nodes)@),
    ensures
        grows(s, old(nodes)@, final(nodes)@),
        pos < r.1 <= ntoks(s),
        sig(s, r.1 as int),
        span_in(s, final(nodes)@, r.0 as int, pos as int, r.1 as int),
        final(nodes)@[r.0 as int].lo == pos,
    decreases depth,
{
    if depth == 0 {
        let p = skip_group(s, pos);
        let i = new_node(s, nodes, NodeKind::OtherExpr, pos, end_of(s, pos, p));
        return (i, p);
    }
    let (p, n_stmts, first_stmt) = stmts(s, nodes, next(s, pos), depth - 1);
    let p = if p < s.toks.len() {
        next(s, p)
    } else {
        p
    };
    let i = new_node(s, nodes, NodeKind::Block { n_stmts, first_stmt }, pos, end_of(s, pos, p));
    (i, p)
}

/// Parses statements from `pos` up to a `}` or the end; returns where it
/// stopped, the number of statements and the first of them.
fn stmts(s: &Src, nodes: &mut Vec<Node>, pos: usize, depth: usize) -> (r: (
    usize,
    usize,
    Option<usize>,
))
    requires
        pos <= ntoks(s),
        sig(s, pos as int),
        nodes_ok(s, old(nodes)@),
    ensures
        grows(s, old(nodes)@, final(nodes)@),
        pos <= r.0 <= ntoks(s),
        sig(s, r.0 as int),
        r.2 matches Some(x) ==> span_in(s, final(nodes)@, x as int, pos as int, r.0 as int),
    decreases depth,
{
    let mut p = pos;
    let mut count: usize = 0;
    let mut first: Option<usize> = None;
    while p < s.toks.len() && !is_char(s, p, '}')
        invariant
            first matches Some(x) ==> span_in(s, nodes@, x as int, pos as int, p as int),
            nodes_ok(s, nodes@),
            grows(s, old(nodes)@, nodes@),
            pos <= p <= ntoks(s),
            sig(s, p as int),
            count <= p,
        decreases ntoks(s) - p,
    {
        let lo = p;
        let mut stmt: Option<usize> = None;
        if depth == 0 {
            p = skip_group(s, p);
        } else if is_char(s, p, ';') || is_char(s, p, '#') || is_word(s, p, "pub") {
            p = next(s, p);
        } else if is_word(s, p, "let") {
            p = next(s, p);
            if let Some((_, q)) = pat(s, nodes, p, depth - 1) {
                p = q;
            }
            if p < s.toks.len() && is_char(s, p, ':') {
                p = skip_type(s, next(s, p), false);
            }
            if p < s.toks.len() && is_char(s, p, '=') {
                p = next(s, p);
                if let Some((_, q)) = expr(s, nodes, p, depth - 1) {
                    p = q;
                }
            }
            if p < s.toks.len() && is_char(s, p, ';') {
                p = next(s, p);
            }
            stmt = Some(new_node(s, nodes, NodeKind::OtherStmt, lo, end_of(s, lo, p)));
        } else if is_word(s, p, "fn") || is_word(s, p, "impl") || is_word(s, p, "mod") || is_word(
            s,
            p,
            "trait",
        ) || is_word(s, p, "struct") || is_word(s, p, "enum") || is_word(s, p, "use") || is_word(
            s,
            p,
            "const",
        ) || is_word(s, p, "static") || is_word(s, p, "type") {
            let with_body = is_word(s, p, "fn") || is_word(s, p, "impl") || is_word(s, p, "mod")
                || is_word(s, p, "trait");
            p = next(s, p);
            while p < s.toks.len() && !is_char(s, p, '{') && !is_char(s, p, ';') && !is_closer(s, p)
                invariant
                    nodes_ok(s, nodes@),
                    grows(s, old(nodes)@, nodes@),
                    lo < p <= ntoks(s),
                    sig(s, p as int),
                decreases ntoks(s) - p,
            {
                p = skip_group(s, p);
            }
            if p < s.toks.len() && is_char(s, p, '{') && with_body {
                p = block(s, nodes, p, depth - 1).1;
            } else if p < s.toks.len() && (is_char(s, p, '{') || is_char(s, p, ';')) {
                p = skip_group(s, p);
            }
            stmt = Some(new_node(s, nodes, NodeKind::OtherStmt, lo, end_of(s, lo, p)));
        } else {
            match expr(s, nodes, p, depth - 1) {
                Some((e, q)) => {
                    p = q;
                    if p < s.toks.len() && is_char(s, p, ';') {
                        p = next(s, p);
                        stmt = Some(new_node(s, nodes, NodeKind::ExprStmt { expr: e }, lo, end_of(s, lo, p)));
                    } else if !(p < s.toks.len() && is_char(s, p, '}')) {
                        stmt = Some(new_node(s, nodes, NodeKind::ExprStmt { expr: e }, lo, end_of(s, lo, p)));
                    }
                },
                None => {
                    p = skip_group(s, p);
                },
            }
        }
        if let Some(st) = stmt {
            if first.is_none() {
                first = Some(st);
            }
            count = count + 1;
        }
    }
    (p, count, first)
}

/// Parses a whole source file into nodes.
pub fn parse_nodes(s: &Src) -> (r: Vec<Node>)
    ensures
        nodes_ok(s, r@),
{
    let mut nodes: Vec<Node> = Vec::new();
    let mut p = skip(s, 0);
    while p < s.toks.len()
        invariant
            nodes_ok(s, nodes@),
            p <= ntoks(s),
            sig(s, p as int),
        decreases ntoks(s) - p,
    {
        // The recursion depth is bounded by the nesting of the input; `depth`
        // only makes termination evident.
        let (q, _, _) = stmts(s, &mut nodes, p, usize::MAX);
        p = if q < s.toks.len() {
            next(s, q)
        } else {
            q
        };
    }
    nodes
}

} // verus!
