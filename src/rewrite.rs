//! Builds the replacement text for a match: the filter call with a pattern
//! stripped of binding `mut`s, and the for_each call with the then-branch
//! re-indented one nesting level out.
use vstd::prelude::*;
use crate::tree::{NodeKind, Tree, tiles};
use crate::matcher::{MatchRecord, node_wf_at};

verus! {

pub open spec fn spaces(n: nat) -> Seq<char> {
    Seq::new(n, |i: int| ' ')
}

/// The number of characters after the last newline of `s`, if it has one.
pub open spec fn nl_cols(s: Seq<char>) -> Option<nat>
    decreases s.len(),
{
    if s.len() == 0 {
        None
    } else if s.last() == '\n' {
        Some(0)
    } else {
        match nl_cols(s.drop_last()) {
            Some(c) => Some(c + 1),
            None => None,
        }
    }
}

/// The indentation level, in steps of four columns, of the line on which
/// token `k` stands: read from the nearest whitespace before it that holds a
/// newline, and 0 if there is none.
pub open spec fn level_before(t: &Tree, k: int) -> nat
    decreases k,
{
    if k <= 0 {
        0
    } else if t.is_ws(k - 1) && nl_cols(t.text(k - 1)) is Some {
        nl_cols(t.text(k - 1))->0 / 4
    } else {
        level_before(t, k - 1)
    }
}

/// Token `k` is the `mut` of a binding pattern.
pub open spec fn is_binding_mut(t: &Tree, k: int) -> bool {
    exists|i: int|
        0 <= i < t.nodes@.len() && #[trigger] t.node(i).kind == (NodeKind::IdentPat {
            mut_tok: Some(k as usize),
        })
}

/// Token `k` survives stripping: it is no binding `mut`, nor whitespace right
/// after one.
pub open spec fn kept(t: &Tree, k: int) -> bool {
    !is_binding_mut(t, k) && !(k > 0 && is_binding_mut(t, k - 1) && t.is_ws(k))
}

/// The text of tokens `lo..hi` without binding `mut`s and the whitespace that
/// follows each.
pub open spec fn stripped(t: &Tree, lo: int, hi: int) -> Seq<char>
    decreases hi - lo,
{
    if hi <= lo {
        Seq::empty()
    } else {
        stripped(t, lo, hi - 1) + if kept(t, hi - 1) {
            t.text(hi - 1)
        } else {
            Seq::empty()
        }
    }
}

/// Re-indents whitespace text: after each newline, up to `4 * from` spaces are
/// dropped and `4 * to` spaces are put in. Also gives how many more spaces
/// would be dropped.
pub open spec fn reindent_ws(s: Seq<char>, from: nat, to: nat) -> (Seq<char>, nat)
    decreases s.len(),
{
    if s.len() == 0 {
        (Seq::empty(), 0)
    } else {
        let (out, budget) = reindent_ws(s.drop_last(), from, to);
        let c = s.last();
        if c == '\n' {
            (out + seq!['\n'] + spaces(4 * to), 4 * from)
        } else if c == ' ' && budget > 0 {
            (out, (budget - 1) as nat)
        } else {
            (out.push(c), 0)
        }
    }
}

/// The text of tokens `lo..hi` with each whitespace token re-indented.
pub open spec fn reindented(t: &Tree, lo: int, hi: int, from: nat, to: nat) -> Seq<char>
    decreases hi - lo,
{
    if hi <= lo {
        Seq::empty()
    } else {
        reindented(t, lo, hi - 1, from, to) + if t.is_ws(hi - 1) {
            reindent_ws(t.text(hi - 1), from, to).0
        } else {
            t.text(hi - 1)
        }
    }
}

pub open spec fn filter_open() -> Seq<char> {
    seq!['.', 'f', 'i', 'l', 't', 'e', 'r', '(', '|', '&']
}

pub open spec fn for_each_open() -> Seq<char> {
    seq!['.', 'f', 'o', 'r', '_', 'e', 'a', 'c', 'h', '(', '|']
}

pub open spec fn bar_space() -> Seq<char> {
    seq!['|', ' ']
}

pub open spec fn close_paren() -> Seq<char> {
    seq![')']
}

pub open spec fn node_span(t: &Tree, i: int) -> Seq<char> {
    t.span(t.node(i).lo as int, t.node(i).hi as int)
}

/// The filter-side pattern: the parameter pattern without binding `mut`s.
pub open spec fn filter_pat(t: &Tree, m: MatchRecord) -> Seq<char> {
    stripped(t, t.node(m.pat as int).lo as int, t.node(m.pat as int).hi as int)
}

/// The then-branch, moved from the `if`'s level to the call's level.
pub open spec fn moved_block(t: &Tree, m: MatchRecord) -> Seq<char> {
    let b = t.node(m.then_branch as int);
    reindented(
        t,
        b.lo as int,
        b.hi as int,
        level_before(t, b.lo as int),
        level_before(t, t.node(m.call as int).lo as int),
    )
}

/// `recv.filter(|&pat'| cond).for_each(|pat| block')`.
pub open spec fn replacement(t: &Tree, m: MatchRecord) -> Seq<char> {
    node_span(t, m.receiver as int) + filter_open() + filter_pat(t, m) + bar_space() + node_span(
        t,
        m.cond as int,
    ) + close_paren() + for_each_open() + node_span(t, m.pat as int) + bar_space() + moved_block(
        t,
        m,
    ) + close_paren()
}

pub open spec fn tok_ok(t: &Tree, k: int) -> bool {
    0 <= k < t.toks@.len() && t.toks@[k].lo < t.toks@[k].hi <= t.src@.len()
}

proof fn lemma_tok_ok(t: &Tree, k: int)
    requires
        t.wf(),
        0 <= k < t.toks@.len(),
    ensures
        tok_ok(t, k),
{
    assert(tiles(t.src@, t.toks@));
    assert(t.toks@[k].lo < t.toks@[k].hi <= t.src@.len());
}

/// Appends `piece`.
fn push_all(out: &mut Vec<char>, piece: &Vec<char>)
    ensures
        final(out)@ == old(out)@ + piece@,
{
    let mut i: usize = 0;
    while i < piece.len()
        invariant
            i <= piece@.len(),
            out@ == old(out)@ + piece@.subrange(0, i as int),
        decreases piece.len() - i,
    {
        out.push(piece[i]);
        i = i + 1;
        assert(piece@.subrange(0, i as int) =~= piece@.subrange(0, i - 1) + seq![piece@[i - 1]]);
    }
    assert(piece@.subrange(0, piece@.len() as int) =~= piece@);
}

/// Appends the text of token `k`.
fn push_token(t: &Tree, out: &mut Vec<char>, k: usize)
    requires
        t.wf(),
        k < t.toks@.len(),
    ensures
        final(out)@ == old(out)@ + t.text(k as int),
{
    proof {
        lemma_tok_ok(t, k as int);
    }
    let lo = t.toks[k].lo;
    let hi = t.toks[k].hi;
    let mut j = lo;
    while j < hi
        invariant
            lo == t.toks@[k as int].lo,
            hi == t.toks@[k as int].hi,
            lo <= j <= hi <= t.src@.len(),
            out@ == old(out)@ + t.src@.subrange(lo as int, j as int),
        decreases hi - j,
    {
        out.push(t.src[j]);
        j = j + 1;
        assert(t.src@.subrange(lo as int, j as int) =~= t.src@.subrange(lo as int, j - 1) + seq![
            t.src@[j - 1],
        ]);
    }
}

/// Appends the text of tokens `lo..hi`.
fn push_span(t: &Tree, out: &mut Vec<char>, lo: usize, hi: usize)
    requires
        t.wf(),
        lo <= hi <= t.toks@.len(),
    ensures
        final(out)@ == old(out)@ + t.span(lo as int, hi as int),
{
    let mut k = lo;
    while k < hi
        invariant
            t.wf(),
            lo <= k <= hi <= t.toks@.len(),
            out@ == old(out)@ + t.span(lo as int, k as int),
        decreases hi - k,
    {
        push_token(t, out, k);
        k = k + 1;
        assert(out@ =~= old(out)@ + t.span(lo as int, k as int));
    }
}

/// Whether token `k` is the `mut` of a binding pattern.
fn binding_mut(t: &Tree, k: usize) -> (r: bool)
    ensures
        r == is_binding_mut(t, k as int),
{
    let mut i: usize = 0;
    while i < t.nodes.len()
        invariant
            i <= t.nodes@.len(),
            forall|j: int|
                0 <= j < i ==> #[trigger] t.node(j).kind != (NodeKind::IdentPat {
                    mut_tok: Some(k),
                }),
        decreases t.nodes.len() - i,
    {
        if t.nodes[i].kind == (NodeKind::IdentPat { mut_tok: Some(k) }) {
            assert(t.node(i as int).kind == (NodeKind::IdentPat { mut_tok: Some(k) }));
            return true;
        }
        i = i + 1;
    }
    false
}

/// Appends the text of tokens `lo..hi` without binding `mut`s and the
/// whitespace right after each.
fn push_stripped(t: &Tree, out: &mut Vec<char>, lo: usize, hi: usize)
    requires
        t.wf(),
        lo <= hi <= t.toks@.len(),
    ensures
        final(out)@ == old(out)@ + stripped(t, lo as int, hi as int),
{
    let mut k = lo;
    while k < hi
        invariant
            t.wf(),
            lo <= k <= hi <= t.toks@.len(),
            out@ == old(out)@ + stripped(t, lo as int, k as int),
        decreases hi - k,
    {
        let keep = !binding_mut(t, k) && !(k > 0 && binding_mut(t, k - 1) && t.toks[k].kind
            == crate::tree::TokKind::Whitespace);
        assert(keep == kept(t, k as int));
        if keep {
            push_token(t, out, k);
        }
        k = k + 1;
        assert(out@ =~= old(out)@ + stripped(t, lo as int, k as int));
    }
}

/// The columns after the last newline of token `k`, if it holds one.
fn newline_cols(t: &Tree, k: usize) -> (r: Option<usize>)
    requires
        t.wf(),
        k < t.toks@.len(),
    ensures
        match r {
            Some(c) => nl_cols(t.text(k as int)) == Some(c as nat),
            None => nl_cols(t.text(k as int)) is None,
        },
{
    proof {
        lemma_tok_ok(t, k as int);
    }
    let lo = t.toks[k].lo;
    let hi = t.toks[k].hi;
    let ghost s = t.text(k as int);
    let mut i = hi;
    while i > lo && t.src[i - 1] != '\n'
        invariant
            lo == t.toks@[k as int].lo,
            hi == t.toks@[k as int].hi,
            s == t.src@.subrange(lo as int, hi as int),
            lo <= i <= hi <= t.src@.len(),
            nl_cols(s) == match nl_cols(t.src@.subrange(lo as int, i as int)) {
                Some(c) => Some(c + (hi - i) as nat),
                None => None,
            },
        decreases i,
    {
        let ghost pre = t.src@.subrange(lo as int, i as int);
        assert(pre.drop_last() =~= t.src@.subrange(lo as int, i - 1));
        i = i - 1;
    }
    if i == lo {
        assert(t.src@.subrange(lo as int, i as int).len() == 0);
        None
    } else {
        Some(hi - i)
    }
}

/// The indentation level of the line on which token `k` stands.
fn indent_level(t: &Tree, k: usize) -> (r: usize)
    requires
        t.wf(),
        k <= t.toks@.len(),
    ensures
        r == level_before(t, k as int),
        r <= usize::MAX / 4,
{
    let mut j = k;
    while j > 0
        invariant
            t.wf(),
            j <= k <= t.toks@.len(),
            level_before(t, k as int) == level_before(t, j as int),
        decreases j,
    {
        if t.toks[j - 1].kind == crate::tree::TokKind::Whitespace {
            if let Some(c) = newline_cols(t, j - 1) {
                return c / 4;
            }
        }
        j = j - 1;
    }
    0
}

/// Appends `n` spaces.
fn push_spaces(out: &mut Vec<char>, n: usize)
    ensures
        final(out)@ == old(out)@ + spaces(n as nat),
{
    let mut i: usize = 0;
    while i < n
        invariant
            i <= n,
            out@ == old(out)@ + spaces(i as nat),
        decreases n - i,
    {
        out.push(' ');
        i = i + 1;
        assert(out@ =~= old(out)@ + spaces(i as nat));
    }
}

/// Appends whitespace token `k` re-indented from level `from` to level `to`.
fn push_reindented_ws(t: &Tree, out: &mut Vec<char>, k: usize, from: usize, to: usize)
    requires
        t.wf(),
        k < t.toks@.len(),
        from <= usize::MAX / 4,
        to <= usize::MAX / 4,
    ensures
        final(out)@ == old(out)@ + reindent_ws(t.text(k as int), from as nat, to as nat).0,
{
    proof {
        lemma_tok_ok(t, k as int);
    }
    let lo = t.toks[k].lo;
    let hi = t.toks[k].hi;
    let mut budget: usize = 0;
    let mut j = lo;
    while j < hi
        invariant
            lo == t.toks@[k as int].lo,
            hi == t.toks@[k as int].hi,
            lo <= j <= hi <= t.src@.len(),
            from <= usize::MAX / 4,
            to <= usize::MAX / 4,
            out@ == old(out)@ + reindent_ws(
                t.src@.subrange(lo as int, j as int),
                from as nat,
                to as nat,
            ).0,
            budget == reindent_ws(t.src@.subrange(lo as int, j as int), from as nat, to as nat).1,
        decreases hi - j,
    {
        let ghost pre = t.src@.subrange(lo as int, j + 1);
        assert(pre.drop_last() =~= t.src@.subrange(lo as int, j as int));
        let c = t.src[j];
        if c == '\n' {
            out.push('\n');
            push_spaces(out, 4 * to);
            budget = 4 * from;
        } else if c == ' ' && budget > 0 {
            budget = budget - 1;
        } else {
            out.push(c);
            budget = 0;
        }
        j = j + 1;
        assert(out@ =~= old(out)@ + reindent_ws(pre, from as nat, to as nat).0);
    }
}

/// Appends tokens `lo..hi`, whitespace re-indented from level `from` to `to`.
fn push_reindented(t: &Tree, out: &mut Vec<char>, lo: usize, hi: usize, from: usize, to: usize)
    requires
        t.wf(),
        lo <= hi <= t.toks@.len(),
        from <= usize::MAX / 4,
        to <= usize::MAX / 4,
    ensures
        final(out)@ == old(out)@ + reindented(t, lo as int, hi as int, from as nat, to as nat),
{
    let mut k = lo;
    while k < hi
        invariant
            t.wf(),
            lo <= k <= hi <= t.toks@.len(),
            from <= usize::MAX / 4,
            to <= usize::MAX / 4,
            out@ == old(out)@ + reindented(t, lo as int, k as int, from as nat, to as nat),
        decreases hi - k,
    {
        if t.toks[k].kind == crate::tree::TokKind::Whitespace {
            push_reindented_ws(t, out, k, from, to);
        } else {
            push_token(t, out, k);
        }
        k = k + 1;
        assert(out@ =~= old(out)@ + reindented(t, lo as int, k as int, from as nat, to as nat));
    }
}

/// A text edit: replace characters `start..end` of the source with `text`.
pub struct Edit {
    pub start: usize,
    pub end: usize,
    pub text: String,
}

/// The nodes that a match names lie before the call in the node list.
proof fn lemma_match_nodes(t: &Tree, m: MatchRecord)
    requires
        t.wf(),
        m.call < t.nodes@.len(),
        t.match_call(m.call as int) == Some(m),
    ensures
        m.receiver < t.nodes@.len(),
        m.pat < t.nodes@.len(),
        m.cond < t.nodes@.len(),
        m.then_branch < t.nodes@.len(),
{
    assert(node_wf_at(t, m.call as int));
    if let NodeKind::MethodCall { receiver, name, args } = t.node(m.call as int).kind {
        assert(node_wf_at(t, args as int));
        if let NodeKind::ArgList { first: Some(arg) } = t.node(args as int).kind {
            assert(node_wf_at(t, arg as int));
            if let NodeKind::Closure { first_param: Some(prm), body: Some(b) } = t.node(
                arg as int,
            ).kind {
                assert(node_wf_at(t, prm as int));
                assert(node_wf_at(t, b as int));
                if let NodeKind::Block { n_stmts, first_stmt: Some(st) } = t.node(b as int).kind {
                    assert(node_wf_at(t, st as int));
                }
                let ix = t.body_if(b as int)->0;
                assert(node_wf_at(t, ix as int));
            }
        }
    }
}

/// Builds the edit for match `m`: the call's text range, and
/// `recv.filter(|&pat'| cond).for_each(|pat| block')`, where `pat'` is the
/// parameter pattern without binding `mut`s and `block'` is the then-branch
/// re-indented from the `if`'s level to the call's.
pub fn build(t: &Tree, m: MatchRecord) -> (r: Edit)
    requires
        t.wf(),
        m.call < t.nodes@.len(),
        t.match_call(m.call as int) == Some(m),
    ensures
        r.start == t.start(m.call as int),
        r.end == t.end(m.call as int),
        r.text@ == replacement(t, m),
{
    proof {
        lemma_match_nodes(t, m);
        assert(node_wf_at(t, m.call as int));
        assert(node_wf_at(t, m.receiver as int));
        assert(node_wf_at(t, m.pat as int));
        assert(node_wf_at(t, m.cond as int));
        assert(node_wf_at(t, m.then_branch as int));
    }
    let call = t.nodes[m.call];
    let recv = t.nodes[m.receiver];
    let pat = t.nodes[m.pat];
    let cond = t.nodes[m.cond];
    let block = t.nodes[m.then_branch];
    let indent = indent_level(t, call.lo);
    let from = indent_level(t, block.lo);
    let mut out: Vec<char> = Vec::new();
    push_span(t, &mut out, recv.lo, recv.hi);
    let piece = vec!['.', 'f', 'i', 'l', 't', 'e', 'r', '(', '|', '&'];
    assert(piece@ =~= filter_open());
    push_all(&mut out, &piece);
    push_stripped(t, &mut out, pat.lo, pat.hi);
    let piece = vec!['|', ' '];
    assert(piece@ =~= bar_space());
    push_all(&mut out, &piece);
    push_span(t, &mut out, cond.lo, cond.hi);
    let piece = vec![')'];
    assert(piece@ =~= close_paren());
    push_all(&mut out, &piece);
    let piece = vec!['.', 'f', 'o', 'r', '_', 'e', 'a', 'c', 'h', '(', '|'];
    assert(piece@ =~= for_each_open());
    push_all(&mut out, &piece);
    push_span(t, &mut out, pat.lo, pat.hi);
    let piece = vec!['|', ' '];
    push_all(&mut out, &piece);
    push_reindented(t, &mut out, block.lo, block.hi, from, indent);
    let piece = vec![')'];
    push_all(&mut out, &piece);
    assert(out@ =~= replacement(t, m));
    Edit { start: t.toks[call.lo].lo, end: t.toks[call.hi - 1].hi, text: crate::tree::string_of(&out) }
}

} // verus!
