//! Properties of the assist, proved over the specifications of the matcher
//! and the rewrite.
use vstd::prelude::*;
use crate::tree::{NodeKind, Tree, tiles};
use crate::matcher::MatchRecord;
use crate::assist::assist_result;
use crate::rewrite::{is_binding_mut, kept, reindent_ws, spaces, level_before, stripped};

verus! {

/// Where the narrowest method call at `offset` fails any of the required
/// conditions, or there is none, the assist gives no edit. `assist_result` is
/// a function of the tree and the offset alone, so asking again at the same
/// place of the same tree gives no edit again.
pub proof fn lemma_no_match_no_edit(t: &Tree, offset: int)
    requires
        match t.call_at(offset) {
            Some(c) => t.match_call(c as int) is None,
            None => true,
        },
    ensures
        assist_result(t, offset) is None,
{
}

/// The `if` that makes up the body of the closure passed first to call `c`.
pub open spec fn closure_if(t: &Tree, c: int) -> Option<usize> {
    match t.node(c).kind {
        NodeKind::MethodCall { args, .. } => match t.node(args as int).kind {
            NodeKind::ArgList { first: Some(a) } => match t.node(a as int).kind {
                NodeKind::Closure { body: Some(b), .. } => t.body_if(b as int),
                _ => None,
            },
            _ => None,
        },
        _ => None,
    }
}

/// An `if` with an else-branch is never rewritten, whatever the receiver,
/// condition or body.
pub proof fn lemma_else_branch_excluded(t: &Tree, offset: int, c: usize, ix: usize)
    requires
        t.call_at(offset) == Some(c),
        closure_if(t, c as int) == Some(ix),
        t.node(ix as int).kind matches NodeKind::IfExpr { else_branch: Some(_), .. },
    ensures
        assist_result(t, offset) is None,
{
}

/// An `if let` (or a condition chained with a `let`) is never rewritten:
/// a `let` is no expression that a `filter` closure could return.
pub proof fn lemma_let_condition_excluded(t: &Tree, offset: int, c: usize, ix: usize, cond: usize)
    requires
        t.call_at(offset) == Some(c),
        closure_if(t, c as int) == Some(ix),
        t.node(ix as int).kind matches NodeKind::IfExpr { cond: Some(k), .. } && k == cond,
        t.node(cond as int).kind is LetExpr,
    ensures
        assist_result(t, offset) is None,
{
}

/// The number of binding `mut`s among tokens `lo..hi` that stripping keeps.
pub open spec fn kept_binding_muts(t: &Tree, lo: int, hi: int) -> nat
    decreases hi - lo,
{
    if hi <= lo {
        0
    } else {
        kept_binding_muts(t, lo, hi - 1) + if kept(t, hi - 1) && is_binding_mut(t, hi - 1) {
            1nat
        } else {
            0nat
        }
    }
}

/// Stripping keeps none of the binding `mut`s of tokens `lo..hi`, at any
/// depth of the pattern; `replacement` puts the stripped text on the filter
/// side and the pattern's own text, with all of its binding `mut`s, on the
/// for_each side.
pub proof fn lemma_mut_stripping_complete(t: &Tree, lo: int, hi: int)
    ensures
        kept_binding_muts(t, lo, hi) == 0,
    decreases hi - lo,
{
    if hi > lo {
        lemma_mut_stripping_complete(t, lo, hi - 1);
    }
}

/// Stripping touches nothing but binding `mut`s and the whitespace after
/// them: over tokens with no binding `mut` among them (nor just before them),
/// the stripped text is the text itself.
pub proof fn lemma_strip_keeps_the_rest(t: &Tree, lo: int, hi: int)
    requires
        forall|k: int| lo <= k < hi ==> !#[trigger] is_binding_mut(t, k),
        lo > 0 ==> !is_binding_mut(t, lo - 1),
    ensures
        stripped(t, lo, hi) == t.span(lo, hi),
    decreases hi - lo,
{
    if hi > lo {
        lemma_strip_keeps_the_rest(t, lo, hi - 1);
        assert(!is_binding_mut(t, hi - 1));
        if hi - 1 > lo {
            assert(!is_binding_mut(t, hi - 2));
        }
        assert(kept(t, hi - 1));
    }
}

/// Re-indenting whitespace that ends in a newline and `j` spaces: what comes
/// before is re-indented on its own, then the newline, `4 * to` spaces, and
/// what is left of the `j` spaces after dropping up to `4 * from`.
pub proof fn lemma_reindent_line(pre: Seq<char>, j: nat, from: nat, to: nat)
    ensures
        reindent_ws(pre + seq!['\n'] + spaces(j), from, to) == (
            reindent_ws(pre, from, to).0 + seq!['\n'] + spaces(4 * to) + spaces(
                (j - (if j < 4 * from {
                    j
                } else {
                    4 * from
                })) as nat,
            ),
            (4 * from - (if j < 4 * from {
                j
            } else {
                4 * from
            })) as nat,
        ),
    decreases j,
{
    let s = pre + seq!['\n'] + spaces(j);
    let base = reindent_ws(pre, from, to).0;
    let cut = if j < 4 * from {
        j
    } else {
        4 * from
    };
    if j == 0 {
        assert(s.drop_last() =~= pre);
        assert(s.last() == '\n');
        assert(spaces(0) =~= Seq::<char>::empty());
        assert(base + seq!['\n'] + spaces(4 * to) + spaces(0) =~= base + seq!['\n'] + spaces(
            4 * to,
        ));
    } else {
        lemma_reindent_line(pre, (j - 1) as nat, from, to);
        assert(s.drop_last() =~= pre + seq!['\n'] + spaces((j - 1) as nat));
        assert(s.last() == ' ');
        let prev = reindent_ws(s.drop_last(), from, to);
        if j - 1 >= 4 * from {
            assert(prev.1 == 0);
            assert((base + seq!['\n'] + spaces(4 * to) + spaces((j - 1 - 4 * from) as nat)).push(
                ' ',
            ) =~= base + seq!['\n'] + spaces(4 * to) + spaces((j - 4 * from) as nat));
            assert(reindent_ws(s, from, to) == (prev.0.push(' '), 0nat));
            assert(cut == 4 * from);
            assert(reindent_ws(s, from, to).0 == base + seq!['\n'] + spaces(4 * to) + spaces(
                (j - cut) as nat,
            ));
            assert(reindent_ws(s, from, to).1 == (4 * from - cut) as nat);
        } else {
            assert(prev.1 == 4 * from - (j - 1));
            assert(prev.1 > 0);
            assert(reindent_ws(s, from, to) == (prev.0, (prev.1 - 1) as nat));
            assert(cut == j);
            assert(spaces((j - 1 - (j - 1)) as nat) =~= spaces((j - cut) as nat));
            assert(reindent_ws(s, from, to).0 == base + seq!['\n'] + spaces(4 * to) + spaces(
                (j - cut) as nat,
            ));
            assert(reindent_ws(s, from, to).1 == (4 * from - cut) as nat);
        }
    }
}

/// Inside the moved then-branch, the line that follows a whitespace token
/// (after any blank lines in it) and is indented `cols` columns, at least as
/// deep as the `if`, comes out indented four columns less when the `if`
/// stands one level inside the call; the blank lines before it are
/// re-indented on their own.
pub proof fn lemma_body_lines_one_level_out(
    t: &Tree,
    m: MatchRecord,
    k: int,
    pre: Seq<char>,
    cols: nat,
)
    requires
        t.wf(),
        m.call < t.nodes@.len(),
        t.match_call(m.call as int) == Some(m),
        t.node(m.then_branch as int).lo <= k < t.node(m.then_branch as int).hi,
        t.is_ws(k),
        t.text(k) == pre + seq!['\n'] + spaces(cols),
        cols >= 4 * level_before(t, t.node(m.then_branch as int).lo as int),
        level_before(t, t.node(m.then_branch as int).lo as int) == level_before(
            t,
            t.node(m.call as int).lo as int,
        ) + 1,
    ensures
        reindent_ws(
            t.text(k),
            level_before(t, t.node(m.then_branch as int).lo as int),
            level_before(t, t.node(m.call as int).lo as int),
        ).0 == reindent_ws(
            pre,
            level_before(t, t.node(m.then_branch as int).lo as int),
            level_before(t, t.node(m.call as int).lo as int),
        ).0 + seq!['\n'] + spaces((cols - 4) as nat),
{
    let from = level_before(t, t.node(m.then_branch as int).lo as int);
    let to = level_before(t, t.node(m.call as int).lo as int);
    let base = reindent_ws(pre, from, to).0;
    lemma_reindent_line(pre, cols, from, to);
    assert(spaces(4 * to) + spaces((cols - 4 * from) as nat) =~= spaces((cols - 4) as nat));
    assert(base + seq!['\n'] + spaces(4 * to) + spaces((cols - 4 * from) as nat) =~= base
        + seq!['\n'] + spaces((cols - 4) as nat));
}

proof fn lemma_span_prefix(t: &Tree, k: int)
    requires
        t.wf(),
        0 < k <= t.toks@.len(),
    ensures
        t.span(0, k) == t.src@.subrange(0, t.toks@[k - 1].hi as int),
    decreases k,
{
    assert(tiles(t.src@, t.toks@));
    if k == 1 {
        assert(t.span(0, 0) =~= Seq::<char>::empty());
        assert(t.span(0, 1) =~= t.src@.subrange(0, t.toks@[0].hi as int));
    } else {
        lemma_span_prefix(t, k - 1);
        assert(t.toks@[k - 2].hi == t.toks@[k - 1].lo);
        assert(t.span(0, k) =~= t.src@.subrange(0, t.toks@[k - 1].hi as int));
    }
}

/// The tree is lossless: its tokens, trivia included, put back together give
/// the source text exactly.
pub proof fn lemma_tree_lossless(t: &Tree)
    requires
        t.wf(),
    ensures
        t.span(0, t.toks@.len() as int) == t.src@,
{
    assert(tiles(t.src@, t.toks@));
    if t.toks@.len() == 0 {
        assert(t.span(0, 0) =~= t.src@);
    } else {
        lemma_span_prefix(t, t.toks@.len() as int);
        assert(t.src@.subrange(0, t.src@.len() as int) =~= t.src@);
    }
}

} // verus!
