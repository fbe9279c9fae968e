use vstd::prelude::*;

use crate::blob::Dtb;
use crate::names::{
    compatible_name, event_to_mhpmcounters_name, kind_name, NodeKind, event_to_mhpmevent_name,
    isa_extensions_name, isa_name, model_name, raw_event_to_mhpmcounters_name,
    reg_name,
};
use crate::node::{root_at, Node, DEFAULT_CELLS};
use crate::props::{entry_range, entry_width, first_entry_ok, first_range, reg_count, reg_entry, reg_ok, str_seq_ok, table_ok, CellTable, Reg, StrSeq};

verus! {

/// Cells per row of `riscv,event-to-mhpmevent`: event id, selector high, selector low.
pub const EVENT_TO_MHPMEVENT_CELLS: usize = 3;

/// Cells per row of `riscv,event-to-mhpmcounters`: first event, last event, counter mask.
pub const EVENT_TO_MHPMCOUNTERS_CELLS: usize = 3;

/// Cells per row of `riscv,raw-event-to-mhpmcounters`: selector high and low, mask
/// high and low, counter mask.
pub const RAW_EVENT_TO_MHPMCOUNTERS_CELLS: usize = 5;

/// A property value kept when it is a string list.
pub open spec fn decoded_str_seq(v: Option<Seq<u8>>) -> Option<Seq<u8>> {
    match v {
        Some(b) => if str_seq_ok(b) {
            Some(b)
        } else {
            None
        },
        None => None,
    }
}

/// An optional string-list field: absent, or present and well-formed.
pub open spec fn optional_str_seq_ok(v: Option<Seq<u8>>) -> bool {
    match v {
        Some(b) => str_seq_ok(b),
        None => true,
    }
}

/// An optional table field: absent, or present with whole rows of `width` cells.
pub open spec fn optional_table_ok(v: Option<Seq<u8>>, width: int) -> bool {
    match v {
        Some(b) => table_ok(b, width),
        None => true,
    }
}

pub open spec fn opt_view(o: Option<&[u8]>) -> Option<Seq<u8>> {
    match o {
        Some(b) => Some(b@),
        None => None,
    }
}

pub open spec fn str_seq_bytes(o: Option<StrSeq>) -> Option<Seq<u8>> {
    match o {
        Some(s) => Some(s.bytes@),
        None => None,
    }
}

pub open spec fn table_bytes(o: Option<CellTable>, width: int) -> Option<Seq<u8>> {
    match o {
        Some(t) => if t.width == width {
            Some(t.bytes@)
        } else {
            None
        },
        None => None,
    }
}

/// The `reg` value of `n`, when it decodes with the cell widths `n` inherits.
pub open spec fn node_reg(n: Node) -> Option<Seq<u8>> {
    match n.prop(reg_name()) {
        Some(b) => if reg_ok(b, n.address_cells as int, n.size_cells as int) {
            Some(b)
        } else {
            None
        },
        None => None,
    }
}

/// `g` is the decoded `reg` of `n`.
pub open spec fn is_node_reg(n: Node, g: Reg) -> bool {
    &&& g.wf()
    &&& node_reg(n) == Some(g.bytes@)
    &&& g.address_cells == n.address_cells
    &&& g.size_cells == n.size_cells
}

impl<'a> Node<'a> {
    /// The `reg` property of this node, decoded with the cell widths it inherits.
    pub fn reg(&self) -> (r: Option<Reg<'a>>)
        requires
            self.wf(),
        ensures
            r is Some <==> node_reg(*self) is Some,
            r matches Some(g) ==> is_node_reg(*self, g),
    {
        match self.prop_reg() {
            Some(v) => Reg::decode(v, self.address_cells, self.size_cells),
            None => None,
        }
    }
}

/// The `compatible` strings of `node`; `None` where the property is absent or is
/// not a string list.
pub fn get_compatible<'a>(node: &Node<'a>) -> (r: Option<StrSeq<'a>>)
    requires
        node.wf(),
    ensures
        str_seq_bytes(r) == decoded_str_seq(node.prop(compatible_name())),
{
    match node.prop_compatible() {
        Some(v) => StrSeq::decode(v),
        None => None,
    }
}

/// The `compatible` strings of `node` with the first range of its `reg`.
///
/// `None` unless `compatible` is present and a string list, and `reg` is present
/// with a supported shape, at least one entry, and a first range that ends within
/// 64 bits; later `reg` entries are neither read nor checked.
pub fn get_compatible_and_range<'a>(node: &Node<'a>) -> (r: Option<(StrSeq<'a>, core::ops::Range<u64>)>)
    requires
        node.wf(),
    ensures
        r is Some <==> {
            &&& decoded_str_seq(node.prop(compatible_name())) is Some
            &&& node.prop(reg_name()) is Some
            &&& first_entry_ok(
                node.prop(reg_name()).unwrap(),
                node.address_cells as int,
                node.size_cells as int,
            )
        },
        node.prop(compatible_name()) is None ==> r is None,
        node.prop(reg_name()) is None ==> r is None,
        r matches Some((c, g)) ==> {
            &&& decoded_str_seq(node.prop(compatible_name())) == Some(c.bytes@)
            &&& (g.start as int, g.end as int) == entry_range(
                reg_entry(
                    node.prop(reg_name()).unwrap(),
                    node.address_cells as int,
                    node.size_cells as int,
                    0,
                ),
            )
        },
{
    let compatible = get_compatible(node);
    let first = match node.prop_reg() {
        Some(v) => first_range(v, node.address_cells, node.size_cells),
        None => None,
    };
    match (compatible, first) {
        (Some(c), Some(g)) => Some((c, g)),
        _ => None,
    }
}

/// Decodes an optional string-list field: `Ok(None)` when absent, `Err` when
/// present but malformed.
fn optional_str_seq<'a>(v: Option<&'a [u8]>) -> (r: Result<Option<StrSeq<'a>>, ()>)
    ensures
        r is Ok <==> optional_str_seq_ok(opt_view(v)),
        r matches Ok(o) ==> str_seq_bytes(o) == opt_view(v),
{
    match v {
        Some(b) => match StrSeq::decode(b) {
            Some(s) => Ok(Some(s)),
            None => Err(()),
        },
        None => Ok(None),
    }
}

/// Decodes an optional table field of `width` cells per row.
fn optional_table<'a>(v: Option<&'a [u8]>, width: usize) -> (r: Result<Option<CellTable<'a>>, ()>)
    ensures
        r is Ok <==> optional_table_ok(opt_view(v), width as int),
        r matches Ok(o) ==> table_bytes(o, width as int) == opt_view(v),
        r matches Ok(Some(t)) ==> t.wf(),
{
    match v {
        Some(b) => match CellTable::decode(b, width) {
            Some(t) => Ok(Some(t)),
            None => Err(()),
        },
        None => Ok(None),
    }
}

/// The children of `parent` of one kind, in document order, read on demand.
#[derive(Clone, Copy)]
pub struct NodeSeq<'a> {
    pub parent: Node<'a>,
    pub kind: NodeKind,
}

impl<'a> NodeSeq<'a> {
    /// The children in the sequence, as names and body positions.
    pub open spec fn view_children(&self) -> Seq<(Seq<u8>, int)> {
        self.parent.spec_children(kind_name(self.kind))
    }

    /// Number of nodes in the sequence.
    pub fn len(&self) -> (r: usize)
        requires
            self.parent.wf(),
        ensures
            r == self.view_children().len(),
    {
        self.parent.count_kind(self.kind)
    }

    /// Node `i` of the sequence.
    pub fn get(&self, i: usize) -> (r: Node<'a>)
        requires
            self.parent.wf(),
            i < self.view_children().len(),
        ensures
            self.parent.is_child(r, self.view_children()[i as int]),
    {
        match self.parent.nth_kind(self.kind, i) {
            Some(n) => n,
            None => {
                assert(false);
                self.parent
            },
        }
    }
}

/// CPU information container.
pub struct Cpus<'a> {
    /// Sequence of CPU nodes.
    pub cpu: NodeSeq<'a>,
}

impl<'a> Cpus<'a> {
    /// Reads the `cpus` node `node`: its `cpu` children.
    pub fn from_node(node: &Node<'a>) -> (r: Cpus<'a>)
        requires
            node.wf(),
        ensures
            r.cpu.parent == *node,
            r.cpu.kind == NodeKind::Cpu,
    {
        Cpus { cpu: NodeSeq { parent: *node, kind: NodeKind::Cpu } }
    }
}

/// Root device tree structure containing system information.
pub struct Tree<'a> {
    /// Optional model name string.
    pub model: Option<StrSeq<'a>>,
    /// Memory information.
    pub memory: NodeSeq<'a>,
    /// CPU information.
    pub cpus: Cpus<'a>,
}

impl<'a> Tree<'a> {
    /// The `cpus` children of `root`, as positions.
    pub open spec fn cpus_children(root: Node) -> Seq<(Seq<u8>, int)> {
        root.spec_children(kind_name(NodeKind::Cpus))
    }

    /// `root` can be read as a tree: `model`, if present, is a string list, and
    /// there is a `cpus` child.
    pub open spec fn accepts(root: Node) -> bool {
        optional_str_seq_ok(root.prop(model_name())) && Self::cpus_children(root).len() > 0
    }

    /// `self` is what reading `root` gives.
    pub open spec fn describes(self, root: Node<'a>) -> bool {
        &&& str_seq_bytes(self.model) == root.prop(model_name())
        &&& self.memory.parent == root
        &&& self.memory.kind == NodeKind::Memory
        &&& root.is_child(self.cpus.cpu.parent, Self::cpus_children(root)[0])
        &&& self.cpus.cpu.kind == NodeKind::Cpu
    }

    /// Reads the root node `root`: `None` where it has no `cpus` child or where
    /// `model` is present but not a string list.
    pub fn from_node(root: &Node<'a>) -> (r: Option<Tree<'a>>)
        requires
            root.wf(),
        ensures
            r is Some <==> Self::accepts(*root),
            r matches Some(t) ==> t.describes(*root),
    {
        let model = match optional_str_seq(root.prop_model()) {
            Ok(m) => m,
            Err(()) => return None,
        };
        let cpus_node = match root.nth_kind(NodeKind::Cpus, 0) {
            Some(n) => n,
            None => return None,
        };
        let cpus = Cpus::from_node(&cpus_node);
        let memory = NodeSeq { parent: *root, kind: NodeKind::Memory };
        Some(Tree { model, memory, cpus })
    }
}

impl<'a> Dtb<'a> {
    /// Reads the whole blob as a `Tree`, starting at the root node.
    pub fn tree(&self) -> (r: Option<Tree<'a>>)
        requires
            self.wf(),
        ensures
            match r {
                Some(t) => {
                    let root = t.memory.parent;
                    &&& root_at(self.structure@, self.strings@, 0) == Some(
                        (root.name@, root.body as int),
                    )
                    &&& root.structure == self.structure
                    &&& root.strings == self.strings
                    &&& root.address_cells == DEFAULT_CELLS
                    &&& root.size_cells == DEFAULT_CELLS
                    &&& t.describes(root)
                },
                None => self.structure@.len() + 8 > usize::MAX || match root_at(
                    self.structure@,
                    self.strings@,
                    0,
                ) {
                    None => true,
                    Some((_, body)) => forall|n: Node|
                        n.structure == self.structure && n.strings == self.strings && n.body
                            == body && n.address_cells == DEFAULT_CELLS && n.size_cells
                            == DEFAULT_CELLS ==> !#[trigger] Tree::accepts(n),
                },
            },
    {
        match self.root() {
            Some(root) => Tree::from_node(&root),
            None => None,
        }
    }
}

/// Individual CPU node information.
pub struct Cpu<'a> {
    /// RISC-V ISA extensions supported by this CPU.
    pub isa_extensions: Option<StrSeq<'a>>,
    pub isa: Option<StrSeq<'a>>,
    /// CPU register information.
    pub reg: Reg<'a>,
}

impl<'a> Cpu<'a> {
    /// Reads a `cpu` node: `None` where `reg` is missing or malformed, or where an
    /// ISA property is present but not a string list.
    pub fn from_node(node: &Node<'a>) -> (r: Option<Cpu<'a>>)
        requires
            node.wf(),
        ensures
            r is Some <==> {
                &&& node_reg(*node) is Some
                &&& optional_str_seq_ok(node.prop(isa_extensions_name()))
                &&& optional_str_seq_ok(node.prop(isa_name()))
            },
            node.prop(isa_extensions_name()) is None && node_reg(*node) is Some
                && optional_str_seq_ok(node.prop(isa_name())) ==> (r matches Some(c)
                && c.isa_extensions is None),
            node.prop(reg_name()) is None ==> r is None,
            r matches Some(c) ==> {
                &&& is_node_reg(*node, c.reg)
                &&& str_seq_bytes(c.isa_extensions) == node.prop(isa_extensions_name())
                &&& str_seq_bytes(c.isa) == node.prop(isa_name())
            },
    {
        let isa_extensions = match optional_str_seq(node.prop_isa_extensions()) {
            Ok(v) => v,
            Err(()) => return None,
        };
        let isa = match optional_str_seq(node.prop_isa()) {
            Ok(v) => v,
            Err(()) => return None,
        };
        match node.reg() {
            Some(reg) => Some(Cpu { isa_extensions, isa, reg }),
            None => None,
        }
    }
}

/// Generic device node information.
pub struct Device<'a> {
    /// Device register information.
    pub reg: Reg<'a>,
}

impl<'a> Device<'a> {
    /// Reads any node by its `reg` alone.
    pub fn from_node(node: &Node<'a>) -> (r: Option<Device<'a>>)
        requires
            node.wf(),
        ensures
            r is Some <==> node_reg(*node) is Some,
            r matches Some(d) ==> is_node_reg(*node, d.reg),
    {
        match node.reg() {
            Some(reg) => Some(Device { reg }),
            None => None,
        }
    }
}

/// Memory range.
pub struct Memory<'a> {
    pub reg: Reg<'a>,
}

impl<'a> Memory<'a> {
    /// Reads a `memory` node by its `reg`.
    pub fn from_node(node: &Node<'a>) -> (r: Option<Memory<'a>>)
        requires
            node.wf(),
        ensures
            r is Some <==> node_reg(*node) is Some,
            r matches Some(m) ==> is_node_reg(*node, m.reg),
    {
        match node.reg() {
            Some(reg) => Some(Memory { reg }),
            None => None,
        }
    }
}

/// Performance-monitor event mappings; each table may be absent.
pub struct Pmu<'a> {
    pub event_to_mhpmevent: Option<CellTable<'a>>,
    pub event_to_mhpmcounters: Option<CellTable<'a>>,
    pub raw_event_to_mhpmcounters: Option<CellTable<'a>>,
}

impl<'a> Pmu<'a> {
    /// Reads a PMU node: `None` where a table is present but not made of whole rows.
    pub fn from_node(node: &Node<'a>) -> (r: Option<Pmu<'a>>)
        requires
            node.wf(),
        ensures
            r is Some <==> {
                &&& optional_table_ok(
                    node.prop(event_to_mhpmevent_name()),
                    EVENT_TO_MHPMEVENT_CELLS as int,
                )
                &&& optional_table_ok(
                    node.prop(event_to_mhpmcounters_name()),
                    EVENT_TO_MHPMCOUNTERS_CELLS as int,
                )
                &&& optional_table_ok(
                    node.prop(raw_event_to_mhpmcounters_name()),
                    RAW_EVENT_TO_MHPMCOUNTERS_CELLS as int,
                )
            },
            r matches Some(p) ==> {
                &&& table_bytes(p.event_to_mhpmevent, EVENT_TO_MHPMEVENT_CELLS as int) == node.prop(
                    event_to_mhpmevent_name(),
                )
                &&& table_bytes(p.event_to_mhpmcounters, EVENT_TO_MHPMCOUNTERS_CELLS as int)
                    == node.prop(event_to_mhpmcounters_name())
                &&& table_bytes(
                    p.raw_event_to_mhpmcounters,
                    RAW_EVENT_TO_MHPMCOUNTERS_CELLS as int,
                ) == node.prop(raw_event_to_mhpmcounters_name())
            },
    {
        let event_to_mhpmevent = match optional_table(
            node.prop_event_to_mhpmevent(),
            EVENT_TO_MHPMEVENT_CELLS,
        ) {
            Ok(v) => v,
            Err(()) => return None,
        };
        let event_to_mhpmcounters = match optional_table(
            node.prop_event_to_mhpmcounters(),
            EVENT_TO_MHPMCOUNTERS_CELLS,
        ) {
            Ok(v) => v,
            Err(()) => return None,
        };
        let raw_event_to_mhpmcounters = match optional_table(
            node.prop_raw_event_to_mhpmcounters(),
            RAW_EVENT_TO_MHPMCOUNTERS_CELLS,
        ) {
            Ok(v) => v,
            Err(()) => return None,
        };
        Some(Pmu { event_to_mhpmevent, event_to_mhpmcounters, raw_event_to_mhpmcounters })
    }
}

/// The range that `get_compatible_and_range` pairs with a node's `compatible`
/// strings is the first of the ranges that a full decode of the node's `reg`
/// yields, and a full decode that has entries always has a first range for it;
/// a full decode keeps every entry, in document order.
pub proof fn lemma_first_range_is_first_entry(node: Node, g: Reg)
    requires
        is_node_reg(node, g),
    ensures
        node.prop(reg_name()) == Some(g.bytes@),
        g.view_ranges().len() > 0 <==> first_entry_ok(
            g.bytes@,
            node.address_cells as int,
            node.size_cells as int,
        ),
        g.view_ranges().len() > 0 ==> g.view_ranges()[0] == entry_range(
            reg_entry(g.bytes@, node.address_cells as int, node.size_cells as int, 0),
        ),
        forall|i: int|
            0 <= i < g.view_ranges().len() ==> #[trigger] g.view_ranges()[i] == entry_range(
                reg_entry(g.bytes@, node.address_cells as int, node.size_cells as int, i),
            ),
{
    let b = g.bytes@;
    let ac = node.address_cells as int;
    let sc = node.size_cells as int;
    let w = entry_width(ac, sc);
    assert(w >= 4);
    assert(b.len() as int / w > 0 <==> b.len() >= w) by (nonlinear_arith)
        requires
            w >= 4,
            b.len() >= 0,
    ;
    if b.len() >= w {
        assert(0 < reg_count(b, ac, sc));
        assert(reg_entry(b, ac, sc, 0).0 + reg_entry(b, ac, sc, 0).1 <= u64::MAX);
    }
}

} // verus!
