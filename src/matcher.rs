//! Finds `recv.for_each(|p| { if c { body } })` at a cursor offset.
use vstd::prelude::*;
use crate::tree::{Node, NodeKind, Tree};

verus! {

/// The pieces of a match: node indices into the tree.
#[derive(Clone, Copy, PartialEq, Eq, Structural, Debug)]
pub struct MatchRecord {
    /// The whole `recv.for_each(..)` call, which the rewrite replaces.
    pub call: usize,
    pub receiver: usize,
    /// The pattern of the closure's first parameter.
    pub pat: usize,
    pub cond: usize,
    pub then_branch: usize,
}

pub open spec fn for_each_word() -> Seq<char> {
    seq!['f', 'o', 'r', '_', 'e', 'a', 'c', 'h']
}

impl Tree {
    pub open spec fn node(&self, i: int) -> Node {
        self.nodes@[i]
    }

    /// First character of node `i`.
    pub open spec fn start(&self, i: int) -> int {
        self.toks@[self.node(i).lo as int].lo as int
    }

    /// One past the last character of node `i`.
    pub open spec fn end(&self, i: int) -> int {
        self.toks@[self.node(i).hi - 1].hi as int
    }

    pub open spec fn is_call(&self, i: int) -> bool {
        self.node(i).kind is MethodCall
    }

    /// Node `i` is a method call whose text touches `offset`.
    pub open spec fn call_covers(&self, i: int, offset: int) -> bool {
        0 <= i < self.nodes@.len() && self.is_call(i) && self.start(i) <= offset <= self.end(i)
    }

    /// Node `i` is the narrowest method call touching `offset`; among equally
    /// wide ones, the first in the node list.
    pub open spec fn innermost_call(&self, offset: int, i: int) -> bool {
        &&& self.call_covers(i, offset)
        &&& forall|j: int|
            #[trigger] self.call_covers(j, offset) ==> self.end(i) - self.start(i) < self.end(j)
                - self.start(j) || (self.end(i) - self.start(i) == self.end(j) - self.start(j) && i
                <= j)
    }

    pub open spec fn call_at(&self, offset: int) -> Option<usize> {
        if exists|i: int| self.innermost_call(offset, i) {
            Some((choose|i: int| self.innermost_call(offset, i)) as usize)
        } else {
            None
        }
    }

    /// The `if` a closure body consists of: the body itself, or the one
    /// expression statement of a block body.
    pub open spec fn body_if(&self, b: int) -> Option<usize> {
        match self.node(b).kind {
            NodeKind::IfExpr { .. } => Some(b as usize),
            NodeKind::Block { n_stmts, first_stmt: Some(st) } => if n_stmts == 1 {
                match self.node(st as int).kind {
                    NodeKind::ExprStmt { expr } => if self.node(expr as int).kind is IfExpr {
                        Some(expr)
                    } else {
                        None
                    },
                    _ => None,
                }
            } else {
                None
            },
            _ => None,
        }
    }

    /// The method call `call` is named `for_each`, its first argument is a
    /// closure whose first parameter has a pattern and whose body is an `if`
    /// with a condition that is no `let`, a then-branch and no else-branch.
    pub open spec fn match_call(&self, call: int) -> Option<MatchRecord> {
        match self.node(call).kind {
            NodeKind::MethodCall { receiver, name, args } => match self.node(args as int).kind {
                NodeKind::ArgList { first: Some(arg) } => match self.node(arg as int).kind {
                    NodeKind::Closure { first_param: Some(prm), body: Some(b) } => {
                        if self.text(name as int) != for_each_word() {
                            None
                        } else {
                            match (self.node(prm as int).kind, self.body_if(b as int)) {
                                (NodeKind::Param { pat: Some(pt) }, Some(ix)) => match self.node(
                                    ix as int,
                                ).kind {
                                    NodeKind::IfExpr {
                                        cond: Some(c),
                                        then_branch: Some(th),
                                        else_branch: None,
                                    } => if self.node(c as int).kind is LetExpr {
                                        None
                                    } else {
                                        Some(
                                            MatchRecord {
                                                call: call as usize,
                                                receiver,
                                                pat: pt,
                                                cond: c,
                                                then_branch: th,
                                            },
                                        )
                                    },
                                    _ => None,
                                },
                                _ => None,
                            }
                        }
                    },
                    _ => None,
                },
                _ => None,
            },
            _ => None,
        }
    }

    /// What the matcher finds at `offset`.
    pub open spec fn find(&self, offset: int) -> Option<MatchRecord> {
        match self.call_at(offset) {
            Some(call) => self.match_call(call as int),
            None => None,
        }
    }
}

/// Two innermost calls at one offset are the same node.
proof fn lemma_innermost_unique(t: &Tree, offset: int, i: int, j: int)
    requires
        t.innermost_call(offset, i),
        t.innermost_call(offset, j),
    ensures
        i == j,
{
    assert(t.call_covers(i, offset));
    assert(t.call_covers(j, offset));
}

/// Finds the narrowest method call whose text touches `offset`.
pub fn find_node_at_offset(t: &Tree, offset: usize) -> (r: Option<usize>)
    requires
        t.wf(),
    ensures
        r == t.call_at(offset as int),
{
    let n = t.nodes.len();
    let mut best: Option<usize> = None;
    let mut bw: usize = 0;
    let mut j: usize = 0;
    while j < n
        invariant
            t.wf(),
            n == t.nodes@.len(),
            j <= n,
            match best {
                Some(b) => {
                    &&& b < j
                    &&& t.call_covers(b as int, offset as int)
                    &&& bw == t.end(b as int) - t.start(b as int)
                    &&& forall|k: int|
                        0 <= k < j && #[trigger] t.call_covers(k, offset as int) ==> t.end(b as int)
                            - t.start(b as int) < t.end(k) - t.start(k) || (t.end(b as int)
                            - t.start(b as int) == t.end(k) - t.start(k) && b <= k)
                },
                None => forall|k: int| 0 <= k < j ==> !#[trigger] t.call_covers(k, offset as int),
            },
        decreases n - j,
    {
        let nd = t.nodes[j];
        assert(node_wf_at(t, j as int));
        let is_call = match nd.kind {
            NodeKind::MethodCall { .. } => true,
            _ => false,
        };
        let st = t.toks[nd.lo].lo;
        let en = t.toks[nd.hi - 1].hi;
        if is_call && st <= offset && offset <= en {
            let w = en - st;
            let better = match best {
                Some(_) => w < bw,
                None => true,
            };
            if better {
                best = Some(j);
                bw = w;
            }
        }
        j = j + 1;
    }
    proof {
        match best {
            Some(b) => {
                assert(t.innermost_call(offset as int, b as int));
                let c = choose|i: int| t.innermost_call(offset as int, i);
                lemma_innermost_unique(t, offset as int, b as int, c);
            },
            None => {
                assert(!exists|i: int| t.innermost_call(offset as int, i));
            },
        }
    }
    best
}

pub open spec fn node_wf_at(t: &Tree, i: int) -> bool {
    crate::tree::node_wf(t.nodes@[i], i, t.toks@.len() as int)
}

/// Whether token `k` reads `w`.
fn token_is(t: &Tree, k: usize, w: &Vec<char>) -> (r: bool)
    requires
        t.wf(),
        k < t.toks@.len(),
    ensures
        r == (t.text(k as int) == w@),
{
    let tk = t.toks[k];
    if tk.hi - tk.lo != w.len() {
        return false;
    }
    let mut i: usize = 0;
    while i < w.len()
        invariant
            tk == t.toks@[k as int],
            tk.lo < tk.hi <= t.src@.len(),
            tk.hi - tk.lo == w@.len(),
            i <= w@.len(),
            forall|m: int| 0 <= m < i ==> t.text(k as int)[m] == w@[m],
        decreases w.len() - i,
    {
        if t.src[tk.lo + i] != w[i] {
            return false;
        }
        i = i + 1;
    }
    assert(t.text(k as int) =~= w@);
    true
}

/// The call and its receiver, when the method is `for_each`.
pub fn validate_method_call_expr(t: &Tree, call: usize) -> (r: Option<(usize, usize)>)
    requires
        t.wf(),
        call < t.nodes@.len(),
    ensures
        r == match t.node(call as int).kind {
            NodeKind::MethodCall { receiver, name, .. } => if t.text(name as int)
                == for_each_word() {
                Some((call, receiver))
            } else {
                None
            },
            _ => None,
        },
        r matches Some((e, rc)) ==> t.node(rc as int).lo >= t.node(e as int).lo && t.node(
            rc as int,
        ).hi < t.node(e as int).hi,
{
    assert(node_wf_at(t, call as int));
    assert(crate::tree::links_ok(t.nodes@, call as int));
    match t.nodes[call].kind {
        NodeKind::MethodCall { receiver, name, .. } => {
            let w = vec!['f', 'o', 'r', '_', 'e', 'a', 'c', 'h'];
            assert(w@ =~= for_each_word());
            if !token_is(t, name, &w) {
                return None;
            }
            Some((call, receiver))
        },
        _ => None,
    }
}

/// The `if` that a closure body consists of, if it is one.
fn if_of_body(t: &Tree, b: usize) -> (r: Option<usize>)
    requires
        t.wf(),
        b < t.nodes@.len(),
    ensures
        r == t.body_if(b as int),
        r matches Some(x) ==> x < t.nodes@.len(),
{
    assert(node_wf_at(t, b as int));
    match t.nodes[b].kind {
        NodeKind::IfExpr { .. } => Some(b),
        NodeKind::Block { n_stmts, first_stmt } => {
            let st = first_stmt?;
            continue_iff(n_stmts == 1)?;
            assert(node_wf_at(t, st as int));
            let e = match t.nodes[st].kind {
                NodeKind::ExprStmt { expr } => expr,
                _ => {
                    return None;
                },
            };
            match t.nodes[e].kind {
                NodeKind::IfExpr { .. } => Some(e),
                _ => None,
            }
        },
        _ => None,
    }
}

/// Matches `recv.for_each(|p| { if c { body } })` at `offset`: the narrowest
/// method call there must be named `for_each`, take a closure as its first
/// argument whose first parameter has a pattern, and the closure body must be
/// an `if` (alone, or as the one statement of a block) with a condition that
/// is no `let`, a then-branch and no else-branch.
pub fn match_for_each(t: &Tree, offset: usize) -> (r: Option<MatchRecord>)
    requires
        t.wf(),
    ensures
        r == t.find(offset as int),
{
    let call = find_node_at_offset(t, offset)?;
    assert(node_wf_at(t, call as int));
    let args = match t.nodes[call].kind {
        NodeKind::MethodCall { args, .. } => args,
        _ => {
            return None;
        },
    };
    assert(node_wf_at(t, args as int));
    let arg = match t.nodes[args].kind {
        NodeKind::ArgList { first } => first?,
        _ => {
            return None;
        },
    };
    assert(node_wf_at(t, arg as int));
    let (prm, body) = match t.nodes[arg].kind {
        NodeKind::Closure { first_param, body } => (first_param, body),
        _ => {
            return None;
        },
    };
    let (call, receiver) = validate_method_call_expr(t, call)?;
    let prm = prm?;
    assert(node_wf_at(t, prm as int));
    let pat = match t.nodes[prm].kind {
        NodeKind::Param { pat } => pat?,
        _ => {
            return None;
        },
    };
    let body = body?;
    let ix = if_of_body(t, body)?;
    assert(node_wf_at(t, ix as int));
    match t.nodes[ix].kind {
        NodeKind::IfExpr { cond, then_branch, else_branch } => {
            let cond = cond?;
            assert(node_wf_at(t, cond as int));
            continue_iff(t.nodes[cond].kind != NodeKind::LetExpr)?;
            continue_iff(else_branch.is_none())?;
            let then_branch = then_branch?;
            Some(MatchRecord { call, receiver, pat, cond, then_branch })
        },
        _ => None,
    }
}

/// `Some(())` exactly when `b` holds.
pub fn continue_iff(b: bool) -> (r: Option<()>)
    ensures
        r is Some <==> b,
{
    if b {
        Some(())
    } else {
        None
    }
}

} // verus!
