//! The assist: replace `if` inside a `for_each` closure with a `filter` call.
use vstd::prelude::*;
use crate::tree::Tree;
use crate::matcher::match_for_each;
use crate::rewrite::{Edit, build, replacement};

verus! {

/// The identifier under which the host registers this assist.
pub const ASSIST_ID: &'static str = "convert_if_to_filter";

/// The label that the host shows for this assist.
pub const ASSIST_LABEL: &'static str = "Replace this `if { ... }` with a `filter()`";

/// The category of an assist, as the host groups them.
#[derive(Clone, Copy, PartialEq, Eq, Structural, Debug)]
pub enum AssistKind {
    RefactorRewrite,
}

/// The category of this assist.
pub const ASSIST_KIND: AssistKind = AssistKind::RefactorRewrite;

/// A parsed file and the cursor offset, in characters, at which the assist is asked for.
pub struct AssistContext {
    pub tree: Tree,
    pub offset: usize,
}

impl AssistContext {
    pub fn new(text: &str, offset: usize) -> (r: AssistContext)
        ensures
            r.tree.wf(),
            r.tree.src@ == text@,
            r.offset == offset,
    {
        AssistContext { tree: Tree::parse(text), offset }
    }
}

/// The edit that the assist makes at `offset`, as (start, end, text), or
/// `None` where the code there has not the required shape.
pub open spec fn assist_result(t: &Tree, offset: int) -> Option<(int, int, Seq<char>)> {
    match t.find(offset) {
        Some(m) => Some((t.start(m.call as int), t.end(m.call as int), replacement(t, m))),
        None => None,
    }
}

/// Rewrites `recv.for_each(|p| { if c { body } })` at the cursor into
/// `recv.filter(|&p'| c).for_each(|p| { body })`, or gives `None` where the
/// cursor is not on such a call.
pub fn convert_if_to_filter(ctx: &AssistContext) -> (r: Option<Edit>)
    requires
        ctx.tree.wf(),
    ensures
        match r {
            Some(e) => assist_result(&ctx.tree, ctx.offset as int) == Some(
                (e.start as int, e.end as int, e.text@),
            ),
            None => assist_result(&ctx.tree, ctx.offset as int) is None,
        },
{
    let t = &ctx.tree;
    let m = match_for_each(t, ctx.offset)?;
    Some(build(t, m))
}

} // verus!
