use vstd::prelude::*;

use crate::blob::Dtb;
use crate::bytes::{be_u32_at, read_be_u32};
use crate::token::{next_token, token_at, Token, TokenView};

verus! {

/// Number of address and of size cells for a node whose ancestors declare none.
pub const DEFAULT_CELLS: u32 = 2;

/// The value of property `name` among the properties of the node whose body starts
/// at `pos` (nested at `depth`): properties of nested child nodes are skipped, and
/// the search ends at the node's end or at bytes that form no token.
pub open spec fn find_prop(s: Seq<u8>, t: Seq<u8>, pos: int, depth: nat, name: Seq<u8>) -> Option<
    Seq<u8>,
>
    decreases s.len() - pos,
{
    match token_at(s, t, pos) {
        None => None,
        Some((tok, next)) => if next <= pos || next > s.len() {
            None
        } else {
            match tok {
                TokenView::Prop(n, v) => if depth == 0 && n == name {
                    Some(v)
                } else {
                    find_prop(s, t, next, depth, name)
                },
                TokenView::BeginNode(_) => find_prop(s, t, next, depth + 1, name),
                TokenView::EndNode => if depth == 0 {
                    None
                } else {
                    find_prop(s, t, next, (depth - 1) as nat, name)
                },
                TokenView::Nop => find_prop(s, t, next, depth, name),
                TokenView::End => None,
            }
        },
    }
}

/// Whatever the bytes of a blob hold, a property value that the search finds is
/// a contiguous run of bytes inside the structure block: nothing outside the block
/// is ever handed out.
pub proof fn lemma_found_value_in_block(s: Seq<u8>, t: Seq<u8>, pos: int, depth: nat, name: Seq<u8>)
    requires
        find_prop(s, t, pos, depth, name) is Some,
    ensures
        exists|a: int, b: int|
            0 <= a <= b <= s.len() && s.subrange(a, b) == find_prop(s, t, pos, depth, name).unwrap(),
    decreases s.len() - pos,
{
    match token_at(s, t, pos) {
        None => {},
        Some((tok, next)) => {
            if next <= pos || next > s.len() {
            } else {
                match tok {
                    TokenView::Prop(n, v) => {
                        if depth == 0 && n == name {
                            let a = pos + 12;
                            let b = pos + 12 + be_u32_at(s, pos + 4);
                            assert(s.subrange(a, b) == v);
                        } else {
                            lemma_found_value_in_block(s, t, next, depth, name);
                        }
                    },
                    TokenView::BeginNode(_) => {
                        lemma_found_value_in_block(s, t, next, depth + 1, name);
                    },
                    TokenView::EndNode => {
                        if depth > 0 {
                            lemma_found_value_in_block(s, t, next, (depth - 1) as nat, name);
                        }
                    },
                    TokenView::Nop => {
                        lemma_found_value_in_block(s, t, next, depth, name);
                    },
                    TokenView::End => {},
                }
            }
        },
    }
}

/// `n` names a node of kind `base`: it is `base` itself or `base@unit-address`.
pub open spec fn name_matches(n: Seq<u8>, base: Seq<u8>) -> bool {
    n == base || (n.len() > base.len() && n.subrange(0, base.len() as int) == base && n[base.len()
        as int] == 0x40u8)
}

/// The direct children of the node whose body starts at `pos` (nested at `depth`)
/// whose names match `base`, in document order, each as its name and the position
/// of its body.
pub open spec fn children_named(s: Seq<u8>, t: Seq<u8>, pos: int, depth: nat, base: Seq<u8>) -> Seq<
    (Seq<u8>, int),
>
    decreases s.len() - pos,
{
    match token_at(s, t, pos) {
        None => seq![],
        Some((tok, next)) => if next <= pos || next > s.len() {
            seq![]
        } else {
            match tok {
                TokenView::BeginNode(n) => if depth == 0 && name_matches(n, base) {
                    seq![(n, next)] + children_named(s, t, next, depth + 1, base)
                } else {
                    children_named(s, t, next, depth + 1, base)
                },
                TokenView::EndNode => if depth == 0 {
                    seq![]
                } else {
                    children_named(s, t, next, (depth - 1) as nat, base)
                },
                TokenView::Prop(_, _) => children_named(s, t, next, depth, base),
                TokenView::Nop => children_named(s, t, next, depth, base),
                TokenView::End => seq![],
            }
        },
    }
}

/// A one-cell property value, as `#address-cells` holds it.
pub open spec fn cell_value(v: Option<Seq<u8>>) -> Option<int> {
    match v {
        Some(b) => if b.len() == 4 {
            Some(be_u32_at(b, 0))
        } else {
            None
        },
        None => None,
    }
}

/// The cell count that children of a node see: the node's own declaration when it
/// has a well-formed one, else what the node inherited.
pub open spec fn inherited_cells(declared: Option<Seq<u8>>, inherited: int) -> int {
    match cell_value(declared) {
        Some(c) => c,
        None => inherited,
    }
}

/// `#address-cells`
pub open spec fn address_cells_name() -> Seq<u8> {
    seq![0x23u8, 0x61, 0x64, 0x64, 0x72, 0x65, 0x73, 0x73, 0x2d, 0x63, 0x65, 0x6c, 0x6c, 0x73]
}

/// `#size-cells`
pub open spec fn size_cells_name() -> Seq<u8> {
    seq![0x23u8, 0x73, 0x69, 0x7a, 0x65, 0x2d, 0x63, 0x65, 0x6c, 0x6c, 0x73]
}

/// The node that opens the structure block at or after `pos`, past `NOP`s: its
/// name and the position of its body.
pub open spec fn root_at(s: Seq<u8>, t: Seq<u8>, pos: int) -> Option<(Seq<u8>, int)>
    decreases s.len() - pos,
{
    match token_at(s, t, pos) {
        Some((TokenView::BeginNode(n), next)) => Some((n, next)),
        Some((TokenView::Nop, next)) => if next <= pos || next > s.len() {
            None
        } else {
            root_at(s, t, next)
        },
        _ => None,
    }
}

/// A node of the tree: a position in the structure block, its name, and the cell
/// widths that its own `reg` is written with (declared by its nearest ancestor).
#[derive(Clone, Copy)]
pub struct Node<'a> {
    pub structure: &'a [u8],
    pub strings: &'a [u8],
    /// Position of the first token after the node's opening token.
    pub body: usize,
    pub name: &'a [u8],
    pub address_cells: u32,
    pub size_cells: u32,
}

/// Compares two byte strings.
pub fn bytes_eq(a: &[u8], b: &[u8]) -> (r: bool)
    ensures
        r == (a@ == b@),
{
    if a.len() != b.len() {
        return false;
    }
    let mut i: usize = 0;
    while i < a.len()
        invariant
            a@.len() == b@.len(),
            i <= a@.len(),
            forall|k: int| 0 <= k < i ==> a@[k] == b@[k],
        decreases a@.len() - i,
    {
        if a[i] != b[i] {
            return false;
        }
        i = i + 1;
    }
    assert(a@ =~= b@);
    true
}

/// Tests whether `n` is `base` or `base@...`.
pub fn matches_base(n: &[u8], base: &[u8]) -> (r: bool)
    ensures
        r == name_matches(n@, base@),
{
    if bytes_eq(n, base) {
        return true;
    }
    if n.len() <= base.len() {
        return false;
    }
    let head = vstd::slice::slice_subrange(n, 0, base.len());
    bytes_eq(head, base) && n[base.len()] == 0x40u8
}

impl<'a> Node<'a> {
    pub open spec fn wf(&self) -> bool {
        &&& self.structure@.len() + 8 <= usize::MAX
        &&& self.body <= self.structure@.len()
    }

    /// The value of property `name` of this node.
    pub open spec fn prop(&self, name: Seq<u8>) -> Option<Seq<u8>> {
        find_prop(self.structure@, self.strings@, self.body as int, 0, name)
    }

    /// The cell widths that the children of this node write their `reg` with.
    pub open spec fn child_address_cells(&self) -> int {
        inherited_cells(self.prop(address_cells_name()), self.address_cells as int)
    }

    pub open spec fn child_size_cells(&self) -> int {
        inherited_cells(self.prop(size_cells_name()), self.size_cells as int)
    }

    /// Looks up property `name` of this node.
    pub fn get_prop(&self, name: &[u8]) -> (r: Option<&'a [u8]>)
        requires
            self.wf(),
        ensures
            match r {
                Some(v) => self.prop(name@) == Some(v@),
                None => self.prop(name@) is None,
            },
    {
        let s = self.structure;
        let t = self.strings;
        let mut pos: usize = self.body;
        let mut depth: usize = 0;
        loop
            invariant
                s == self.structure,
                t == self.strings,
                self.wf(),
                pos <= s@.len(),
                depth <= pos,
                find_prop(s@, t@, pos as int, depth as nat, name@) == self.prop(name@),
            decreases s@.len() - pos,
        {
            match next_token(s, t, pos) {
                None => return None,
                Some((tok, next)) => {
                    match tok {
                        Token::Prop(n, v) => {
                            if depth == 0 && bytes_eq(n, name) {
                                return Some(v);
                            }
                        },
                        Token::BeginNode(_) => {
                            depth = depth + 1;
                        },
                        Token::EndNode => {
                            if depth == 0 {
                                return None;
                            }
                            depth = depth - 1;
                        },
                        Token::Nop => {},
                        Token::End => return None,
                    }
                    pos = next;
                },
            }
        }
    }

    /// Reads a one-cell count property, falling back to `inherited`.
    fn read_cells(&self, name: &[u8], inherited: u32) -> (r: u32)
        requires
            self.wf(),
        ensures
            r as int == inherited_cells(self.prop(name@), inherited as int),
    {
        match self.get_prop(name) {
            Some(v) => if v.len() == 4 {
                read_be_u32(v, 0)
            } else {
                inherited
            },
            None => inherited,
        }
    }

    /// The cell widths declared for the children of this node, as
    /// `(address cells, size cells)`.
    pub fn child_cells(&self) -> (r: (u32, u32))
        requires
            self.wf(),
        ensures
            r.0 as int == self.child_address_cells(),
            r.1 as int == self.child_size_cells(),
    {
        let a: [u8; 14] = [
            0x23u8, 0x61, 0x64, 0x64, 0x72, 0x65, 0x73, 0x73, 0x2d, 0x63, 0x65, 0x6c, 0x6c, 0x73,
        ];
        let z: [u8; 11] = [0x23u8, 0x73, 0x69, 0x7a, 0x65, 0x2d, 0x63, 0x65, 0x6c, 0x6c, 0x73];
        let an: &[u8] = vstd::array::array_as_slice(&a);
        let zn: &[u8] = vstd::array::array_as_slice(&z);
        assert(an@ == address_cells_name());
        assert(zn@ == size_cells_name());
        (self.read_cells(an, self.address_cells), self.read_cells(zn, self.size_cells))
    }

    /// `n` is the child of this node that `c` gives the name and body position of,
    /// with the cell widths this node passes down.
    pub open spec fn is_child(&self, n: Node<'a>, c: (Seq<u8>, int)) -> bool {
        &&& n.wf()
        &&& n.structure == self.structure
        &&& n.strings == self.strings
        &&& n.name@ == c.0
        &&& n.body as int == c.1
        &&& n.address_cells as int == self.child_address_cells()
        &&& n.size_cells as int == self.child_size_cells()
    }

    /// The direct children of this node named `base` or `base@...`, as positions.
    pub open spec fn spec_children(&self, base: Seq<u8>) -> Seq<(Seq<u8>, int)> {
        children_named(self.structure@, self.strings@, self.body as int, 0, base)
    }

    /// The number of direct children of this node named `base` or `base@...`.
    pub fn count_children_named(&self, base: &[u8]) -> (r: usize)
        requires
            self.wf(),
        ensures
            r == self.spec_children(base@).len(),
    {
        let s = self.structure;
        let t = self.strings;
        let ghost all = self.spec_children(base@);
        let mut count: usize = 0;
        let mut pos: usize = self.body;
        let mut depth: usize = 0;
        let mut stop = false;
        while !stop
            invariant
                s == self.structure,
                t == self.strings,
                self.wf(),
                pos <= s@.len(),
                depth <= pos,
                count <= pos,
                all == self.spec_children(base@),
                stop ==> count == all.len(),
                !stop ==> count + children_named(s@, t@, pos as int, depth as nat, base@).len()
                    == all.len(),
            decreases s@.len() - pos, if stop { 0int } else { 1int },
        {
            match next_token(s, t, pos) {
                None => {
                    stop = true;
                },
                Some((tok, next)) => {
                    match tok {
                        Token::BeginNode(n) => {
                            if depth == 0 && matches_base(n, base) {
                                count = count + 1;
                            }
                            depth = depth + 1;
                            pos = next;
                        },
                        Token::EndNode => {
                            if depth == 0 {
                                stop = true;
                            } else {
                                depth = depth - 1;
                                pos = next;
                            }
                        },
                        Token::End => {
                            stop = true;
                        },
                        _ => {
                            pos = next;
                        },
                    }
                },
            }
        }
        count
    }

    /// Child `i` (counting from zero, in document order) among the direct children
    /// of this node named `base` or `base@...`.
    pub fn nth_child_named(&self, base: &[u8], i: usize) -> (r: Option<Node<'a>>)
        requires
            self.wf(),
        ensures
            r is Some <==> i < self.spec_children(base@).len(),
            r matches Some(n) ==> self.is_child(n, self.spec_children(base@)[i as int]),
    {
        let (ac, sc) = self.child_cells();
        let s = self.structure;
        let t = self.strings;
        let ghost all = self.spec_children(base@);
        let mut seen: usize = 0;
        let mut pos: usize = self.body;
        let mut depth: usize = 0;
        loop
            invariant
                s == self.structure,
                t == self.strings,
                self.wf(),
                ac as int == self.child_address_cells(),
                sc as int == self.child_size_cells(),
                pos <= s@.len(),
                depth <= pos,
                seen <= i,
                seen <= all.len(),
                all == self.spec_children(base@),
                children_named(s@, t@, pos as int, depth as nat, base@) == all.subrange(
                    seen as int,
                    all.len() as int,
                ),
            decreases s@.len() - pos,
        {
            match next_token(s, t, pos) {
                None => {
                    assert(all.subrange(seen as int, all.len() as int).len() == 0);
                    return None;
                },
                Some((tok, next)) => {
                    match tok {
                        Token::BeginNode(n) => {
                            if depth == 0 && matches_base(n, base) {
                                let ghost rest = children_named(s@, t@, next as int, depth as nat + 1, base@);
                                assert(children_named(s@, t@, pos as int, depth as nat, base@)
                                    == seq![(n@, next as int)] + rest);
                                assert(all.subrange(seen as int, all.len() as int)[0] == (n@, next as int));
                                assert(all[seen as int] == (n@, next as int));
                                if seen == i {
                                    return Some(
                                        Node {
                                            structure: s,
                                            strings: t,
                                            body: next,
                                            name: n,
                                            address_cells: ac,
                                            size_cells: sc,
                                        },
                                    );
                                }
                                assert((seq![(n@, next as int)] + rest).subrange(1, rest.len() as int + 1)
                                    =~= rest);
                                assert(all.subrange(seen as int, all.len() as int).subrange(
                                    1,
                                    rest.len() as int + 1,
                                ) =~= all.subrange(seen + 1, all.len() as int));
                                seen = seen + 1;
                            }
                            depth = depth + 1;
                        },
                        Token::EndNode => {
                            if depth == 0 {
                                assert(children_named(s@, t@, pos as int, 0, base@) =~= seq![]);
                                assert(all.subrange(seen as int, all.len() as int).len() == 0);
                                return None;
                            }
                            depth = depth - 1;
                        },
                        Token::End => {
                            assert(children_named(s@, t@, pos as int, depth as nat, base@) =~= seq![]);
                            assert(all.subrange(seen as int, all.len() as int).len() == 0);
                            return None;
                        },
                        _ => {},
                    }
                    pos = next;
                },
            }
        }
    }
}

impl<'a> Dtb<'a> {
    /// The root node, with the default cell widths.
    pub fn root(&self) -> (r: Option<Node<'a>>)
        requires
            self.wf(),
        ensures
            match r {
                Some(n) => {
                    &&& self.structure@.len() + 8 <= usize::MAX
                    &&& root_at(self.structure@, self.strings@, 0) == Some((n.name@, n.body as int))
                    &&& n.wf()
                    &&& n.structure == self.structure
                    &&& n.strings == self.strings
                    &&& n.address_cells == DEFAULT_CELLS
                    &&& n.size_cells == DEFAULT_CELLS
                },
                None => self.structure@.len() + 8 > usize::MAX || root_at(
                    self.structure@,
                    self.strings@,
                    0,
                ) is None,
            },
    {
        let s = self.structure;
        let t = self.strings;
        if s.len() > usize::MAX - 8 {
            return None;
        }
        let mut pos: usize = 0;
        loop
            invariant
                s == self.structure,
                t == self.strings,
                s@.len() + 8 <= usize::MAX,
                pos <= s@.len(),
                root_at(s@, t@, pos as int) == root_at(s@, t@, 0),
            decreases s@.len() - pos,
        {
            match next_token(s, t, pos) {
                Some((Token::BeginNode(n), next)) => {
                    return Some(
                        Node {
                            structure: s,
                            strings: t,
                            body: next,
                            name: n,
                            address_cells: DEFAULT_CELLS,
                            size_cells: DEFAULT_CELLS,
                        },
                    );
                },
                Some((Token::Nop, next)) => {
                    pos = next;
                },
                _ => return None,
            }
        }
    }
}

} // verus!
