//! Splits source text into tokens, keeping whitespace and comments.
use vstd::prelude::*;
use crate::tree::{TokKind, Token, tiles};

verus! {

pub open spec fn is_ws_char(c: char) -> bool {
    c == ' ' || c == '\t' || c == '\n' || c == '\r'
}

pub open spec fn is_ident_char(c: char) -> bool {
    ('a' <= c && c <= 'z') || ('A' <= c && c <= 'Z') || ('0' <= c && c <= '9') || c == '_'
}

fn ws_char(c: char) -> (r: bool)
    ensures
        r == is_ws_char(c),
{
    c == ' ' || c == '\t' || c == '\n' || c == '\r'
}

fn ident_char(c: char) -> (r: bool)
    ensures
        r == is_ident_char(c),
{
    ('a' <= c && c <= 'z') || ('A' <= c && c <= 'Z') || ('0' <= c && c <= '9') || c == '_'
}

/// Whether `a` followed by `b` forms one operator token.
fn is_two_char_op(a: char, b: char) -> bool {
    (a == ':' && b == ':') || (b == '=' && (a == '=' || a == '!' || a == '<' || a == '>'
        || a == '+' || a == '-' || a == '*' || a == '/' || a == '%')) || (a == '&' && b == '&')
        || (a == '|' && b == '|') || (a == '-' && b == '>') || (a == '=' && b == '>') || (a
        == '.' && b == '.')
}

/// The end of the token that starts at `pos`, and its kind.
fn scan_token(src: &Vec<char>, pos: usize) -> (r: (TokKind, usize))
    requires
        pos < src.len(),
    ensures
        pos < r.1 <= src.len(),
{
    let n = src.len();
    let c = src[pos];
    let mut end: usize = pos + 1;
    if ws_char(c) {
        while end < n && ws_char(src[end])
            invariant
                pos < end <= n,
                n == src.len(),
            decreases n - end,
        {
            end = end + 1;
        }
        (TokKind::Whitespace, end)
    } else if c == '/' && end < n && src[end] == '/' {
        while end < n && src[end] != '\n'
            invariant
                pos < end <= n,
                n == src.len(),
            decreases n - end,
        {
            end = end + 1;
        }
        (TokKind::Comment, end)
    } else if c == '/' && end < n && src[end] == '*' {
        end = end + 1;
        let mut closed = false;
        while end < n && !closed
            invariant
                pos < end <= n,
                n == src.len(),
            decreases n - end,
        {
            if src[end] == '/' && src[end - 1] == '*' && end > pos + 2 {
                closed = true;
            }
            end = end + 1;
        }
        (TokKind::Comment, end)
    } else if ident_char(c) {
        while end < n && ident_char(src[end])
            invariant
                pos < end <= n,
                n == src.len(),
            decreases n - end,
        {
            end = end + 1;
        }
        if '0' <= c && c <= '9' {
            (TokKind::Literal, end)
        } else {
            (TokKind::Ident, end)
        }
    } else if c == '"' {
        let mut closed = false;
        while end < n && !closed
            invariant
                pos < end <= n,
                n == src.len(),
            decreases n - end,
        {
            if src[end] == '\\' && end + 1 < n {
                end = end + 1;
            } else if src[end] == '"' {
                closed = true;
            }
            end = end + 1;
        }
        (TokKind::Literal, end)
    } else if c == '\'' {
        if end < n && end + 1 < n && src[end + 1] == '\'' {
            (TokKind::Literal, end + 2)
        } else if end < n && src[end] == '\\' {
            let mut closed = false;
            end = end + 1;
            while end < n && !closed
                invariant
                    pos < end <= n,
                    n == src.len(),
                decreases n - end,
            {
                if src[end] == '\'' {
                    closed = true;
                }
                end = end + 1;
            }
            (TokKind::Literal, end)
        } else {
            while end < n && ident_char(src[end])
                invariant
                    pos < end <= n,
                    n == src.len(),
                decreases n - end,
            {
                end = end + 1;
            }
            (TokKind::Ident, end)
        }
    } else if end < n && is_two_char_op(c, src[end]) {
        (TokKind::Punct, end + 1)
    } else {
        (TokKind::Punct, end)
    }
}

/// Splits `src` into tokens that cover it exactly.
pub fn lex(src: &Vec<char>) -> (r: Vec<Token>)
    ensures
        tiles(src@, r@),
{
    let n = src.len();
    let mut toks: Vec<Token> = Vec::new();
    let mut pos: usize = 0;
    while pos < n
        invariant
            n == src.len(),
            pos <= n,
            toks.len() == 0 <==> pos == 0,
            forall|i: int| 0 <= i < toks.len() ==> #[trigger] toks[i].lo < toks[i].hi <= pos,
            toks.len() > 0 ==> toks[0].lo == 0 && toks@.last().hi == pos,
            forall|i: int| 0 <= i < toks.len() - 1 ==> #[trigger] toks[i].hi == toks[i + 1].lo,
        decreases n - pos,
    {
        let (kind, end) = scan_token(src, pos);
        toks.push(Token { kind, lo: pos, hi: end });
        pos = end;
    }
    toks
}

} // verus!
