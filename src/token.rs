use vstd::prelude::*;

use crate::bytes::{align4, be_u32_at, read_be_u32};

verus! {

pub const FDT_BEGIN_NODE: u32 = 1;
pub const FDT_END_NODE: u32 = 2;
pub const FDT_PROP: u32 = 3;
pub const FDT_NOP: u32 = 4;
pub const FDT_END: u32 = 9;

/// Index of the first zero byte of `s` at or after `i`, or `s.len()` if none.
pub open spec fn first_nul(s: Seq<u8>, i: int) -> int
    decreases s.len() - i,
{
    if i >= s.len() || i < 0 {
        s.len() as int
    } else if s[i] == 0 {
        i
    } else {
        first_nul(s, i + 1)
    }
}

pub proof fn lemma_first_nul_bounds(s: Seq<u8>, i: int)
    requires
        0 <= i,
    ensures
        i <= first_nul(s, i) || i > s.len(),
        first_nul(s, i) <= s.len(),
    decreases s.len() - i,
{
    if i < s.len() && s[i] != 0 {
        lemma_first_nul_bounds(s, i + 1);
    }
}

/// Finds the end of the NUL-terminated string that starts at `i`.
pub fn find_nul(s: &[u8], i: usize) -> (r: usize)
    requires
        i <= s@.len(),
    ensures
        r as int == first_nul(s@, i as int),
{
    let mut j: usize = i;
    while j < s.len() && s[j] != 0
        invariant
            i <= j <= s@.len(),
            first_nul(s@, j as int) == first_nul(s@, i as int),
        decreases s@.len() - j,
    {
        j = j + 1;
    }
    j
}

/// The NUL-terminated string at `i`, when one ends inside `s`.
pub open spec fn cstr_at(s: Seq<u8>, i: int) -> Option<Seq<u8>> {
    if 0 <= i && first_nul(s, i) < s.len() {
        Some(s.subrange(i, first_nul(s, i)))
    } else {
        None
    }
}

/// One token of the structure block, as plain bytes.
pub enum TokenView {
    BeginNode(Seq<u8>),
    EndNode,
    Prop(Seq<u8>, Seq<u8>),
    Nop,
    End,
}

/// One token of the structure block, borrowed from the blob.
pub enum Token<'a> {
    /// Opens a node; holds the node's unit name.
    BeginNode(&'a [u8]),
    /// Closes the innermost open node.
    EndNode,
    /// A property: its name, from the strings block, and its value.
    Prop(&'a [u8], &'a [u8]),
    Nop,
    /// Ends the structure block.
    End,
}

impl<'a> View for Token<'a> {
    type V = TokenView;

    open spec fn view(&self) -> TokenView {
        match *self {
            Token::BeginNode(n) => TokenView::BeginNode(n@),
            Token::EndNode => TokenView::EndNode,
            Token::Prop(n, v) => TokenView::Prop(n@, v@),
            Token::Nop => TokenView::Nop,
            Token::End => TokenView::End,
        }
    }
}

/// The token at `pos` of structure block `s` (property names looked up in strings
/// block `t`), with the position after it; `None` where the bytes do not form one.
pub open spec fn token_at(s: Seq<u8>, t: Seq<u8>, pos: int) -> Option<(TokenView, int)> {
    if pos < 0 || pos + 4 > s.len() {
        None
    } else {
        let tag = be_u32_at(s, pos);
        if tag == FDT_BEGIN_NODE {
            let nul = first_nul(s, pos + 4);
            if nul < s.len() && align4(nul + 1) <= s.len() {
                Some((TokenView::BeginNode(s.subrange(pos + 4, nul)), align4(nul + 1)))
            } else {
                None
            }
        } else if tag == FDT_PROP {
            if pos + 12 > s.len() {
                None
            } else {
                let len = be_u32_at(s, pos + 4);
                let end = pos + 12 + len;
                if end > s.len() || align4(end) > s.len() {
                    None
                } else {
                    match cstr_at(t, be_u32_at(s, pos + 8)) {
                        Some(name) => Some(
                            (TokenView::Prop(name, s.subrange(pos + 12, end)), align4(end)),
                        ),
                        None => None,
                    }
                }
            }
        } else if tag == FDT_END_NODE {
            Some((TokenView::EndNode, pos + 4))
        } else if tag == FDT_NOP {
            Some((TokenView::Nop, pos + 4))
        } else if tag == FDT_END {
            Some((TokenView::End, pos + 4))
        } else {
            None
        }
    }
}

/// Rounds `v` up to a multiple of four.
fn align_up(v: usize) -> (r: usize)
    requires
        v + 3 <= usize::MAX,
    ensures
        r as int == align4(v as int),
{
    if v % 4 == 0 {
        v
    } else {
        v + (4 - v % 4)
    }
}

/// Reads the token at `pos`.
pub fn next_token<'a>(s: &'a [u8], t: &'a [u8], pos: usize) -> (r: Option<(Token<'a>, usize)>)
    requires
        s@.len() + 8 <= usize::MAX,
    ensures
        match r {
            Some((tok, next)) => token_at(s@, t@, pos as int) == Some((tok@, next as int)),
            None => token_at(s@, t@, pos as int) is None,
        },
        r matches Some((_, next)) ==> pos < next <= s@.len(),
{
    if pos > s.len() || s.len() - pos < 4 {
        return None;
    }
    let tag = read_be_u32(s, pos);
    if tag == FDT_BEGIN_NODE {
        proof {
            lemma_first_nul_bounds(s@, pos + 4);
        }
        let nul = find_nul(s, pos + 4);
        if nul < s.len() && align_up(nul + 1) <= s.len() {
            let name = vstd::slice::slice_subrange(s, pos + 4, nul);
            Some((Token::BeginNode(name), align_up(nul + 1)))
        } else {
            None
        }
    } else if tag == FDT_PROP {
        if s.len() - pos < 12 {
            return None;
        }
        let len = read_be_u32(s, pos + 4) as usize;
        if len > s.len() - pos - 12 {
            return None;
        }
        let end = pos + 12 + len;
        if align_up(end) > s.len() {
            return None;
        }
        let name_off = read_be_u32(s, pos + 8) as usize;
        if name_off > t.len() {
            return None;
        }
        proof {
            lemma_first_nul_bounds(t@, name_off as int);
        }
        let name_end = find_nul(t, name_off);
        if name_end >= t.len() {
            return None;
        }
        let name = vstd::slice::slice_subrange(t, name_off, name_end);
        let value = vstd::slice::slice_subrange(s, pos + 12, end);
        Some((Token::Prop(name, value), align_up(end)))
    } else if tag == FDT_END_NODE {
        Some((Token::EndNode, pos + 4))
    } else if tag == FDT_NOP {
        Some((Token::Nop, pos + 4))
    } else if tag == FDT_END {
        Some((Token::End, pos + 4))
    } else {
        None
    }
}

} // verus!
