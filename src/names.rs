use vstd::prelude::*;

use crate::node::Node;

verus! {

/// `compatible`
pub open spec fn compatible_name() -> Seq<u8> {
    seq![0x63u8, 0x6f, 0x6d, 0x70, 0x61, 0x74, 0x69, 0x62, 0x6c, 0x65]
}

/// `reg`
pub open spec fn reg_name() -> Seq<u8> {
    seq![0x72u8, 0x65, 0x67]
}

/// `riscv,isa-extensions`
pub open spec fn isa_extensions_name() -> Seq<u8> {
    seq![0x72u8, 0x69, 0x73, 0x63, 0x76, 0x2c, 0x69, 0x73, 0x61, 0x2d, 0x65, 0x78, 0x74, 0x65, 0x6e, 0x73, 0x69, 0x6f, 0x6e, 0x73]
}

/// `riscv,isa`
pub open spec fn isa_name() -> Seq<u8> {
    seq![0x72u8, 0x69, 0x73, 0x63, 0x76, 0x2c, 0x69, 0x73, 0x61]
}

/// `model`
pub open spec fn model_name() -> Seq<u8> {
    seq![0x6du8, 0x6f, 0x64, 0x65, 0x6c]
}

/// `riscv,event-to-mhpmevent`
pub open spec fn event_to_mhpmevent_name() -> Seq<u8> {
    seq![0x72u8, 0x69, 0x73, 0x63, 0x76, 0x2c, 0x65, 0x76, 0x65, 0x6e, 0x74, 0x2d, 0x74, 0x6f, 0x2d, 0x6d, 0x68, 0x70, 0x6d, 0x65, 0x76, 0x65, 0x6e, 0x74]
}

/// `riscv,event-to-mhpmcounters`
pub open spec fn event_to_mhpmcounters_name() -> Seq<u8> {
    seq![0x72u8, 0x69, 0x73, 0x63, 0x76, 0x2c, 0x65, 0x76, 0x65, 0x6e, 0x74, 0x2d, 0x74, 0x6f, 0x2d, 0x6d, 0x68, 0x70, 0x6d, 0x63, 0x6f, 0x75, 0x6e, 0x74, 0x65, 0x72, 0x73]
}

/// `riscv,raw-event-to-mhpmcounters`
pub open spec fn raw_event_to_mhpmcounters_name() -> Seq<u8> {
    seq![0x72u8, 0x69, 0x73, 0x63, 0x76, 0x2c, 0x72, 0x61, 0x77, 0x2d, 0x65, 0x76, 0x65, 0x6e, 0x74, 0x2d, 0x74, 0x6f, 0x2d, 0x6d, 0x68, 0x70, 0x6d, 0x63, 0x6f, 0x75, 0x6e, 0x74, 0x65, 0x72, 0x73]
}

/// `memory`
pub open spec fn memory_kind() -> Seq<u8> {
    seq![0x6du8, 0x65, 0x6d, 0x6f, 0x72, 0x79]
}

/// `cpus`
pub open spec fn cpus_kind() -> Seq<u8> {
    seq![0x63u8, 0x70, 0x75, 0x73]
}

/// `cpu`
pub open spec fn cpu_kind() -> Seq<u8> {
    seq![0x63u8, 0x70, 0x75]
}

/// The kinds of child node that the schema types collect.
#[derive(Clone, Copy, Debug, PartialEq, Eq, Structural)]
pub enum NodeKind {
    Memory,
    Cpus,
    Cpu,
}

/// The node name (before any `@`) of kind `k`.
pub open spec fn kind_name(k: NodeKind) -> Seq<u8> {
    match k {
        NodeKind::Memory => memory_kind(),
        NodeKind::Cpus => cpus_kind(),
        NodeKind::Cpu => cpu_kind(),
    }
}

impl<'a> Node<'a> {
    /// The `compatible` property of this node.
    pub fn prop_compatible(&self) -> (r: Option<&'a [u8]>)
        requires
            self.wf(),
        ensures
            match r {
                Some(v) => self.prop(compatible_name()) == Some(v@),
                None => self.prop(compatible_name()) is None,
            },
    {
        let a: [u8; 10] = [0x63u8, 0x6f, 0x6d, 0x70, 0x61, 0x74, 0x69, 0x62, 0x6c, 0x65];
        let n: &[u8] = vstd::array::array_as_slice(&a);
        assert(n@ == compatible_name());
        self.get_prop(n)
    }

    /// The `reg` property of this node.
    pub fn prop_reg(&self) -> (r: Option<&'a [u8]>)
        requires
            self.wf(),
        ensures
            match r {
                Some(v) => self.prop(reg_name()) == Some(v@),
                None => self.prop(reg_name()) is None,
            },
    {
        let a: [u8; 3] = [0x72u8, 0x65, 0x67];
        let n: &[u8] = vstd::array::array_as_slice(&a);
        assert(n@ == reg_name());
        self.get_prop(n)
    }

    /// The `riscv,isa-extensions` property of this node.
    pub fn prop_isa_extensions(&self) -> (r: Option<&'a [u8]>)
        requires
            self.wf(),
        ensures
            match r {
                Some(v) => self.prop(isa_extensions_name()) == Some(v@),
                None => self.prop(isa_extensions_name()) is None,
            },
    {
        let a: [u8; 20] = [0x72u8, 0x69, 0x73, 0x63, 0x76, 0x2c, 0x69, 0x73, 0x61, 0x2d, 0x65, 0x78, 0x74, 0x65, 0x6e, 0x73, 0x69, 0x6f, 0x6e, 0x73];
        let n: &[u8] = vstd::array::array_as_slice(&a);
        assert(n@ == isa_extensions_name());
        self.get_prop(n)
    }

    /// The `riscv,isa` property of this node.
    pub fn prop_isa(&self) -> (r: Option<&'a [u8]>)
        requires
            self.wf(),
        ensures
            match r {
                Some(v) => self.prop(isa_name()) == Some(v@),
                None => self.prop(isa_name()) is None,
            },
    {
        let a: [u8; 9] = [0x72u8, 0x69, 0x73, 0x63, 0x76, 0x2c, 0x69, 0x73, 0x61];
        let n: &[u8] = vstd::array::array_as_slice(&a);
        assert(n@ == isa_name());
        self.get_prop(n)
    }

    /// The `model` property of this node.
    pub fn prop_model(&self) -> (r: Option<&'a [u8]>)
        requires
            self.wf(),
        ensures
            match r {
                Some(v) => self.prop(model_name()) == Some(v@),
                None => self.prop(model_name()) is None,
            },
    {
        let a: [u8; 5] = [0x6du8, 0x6f, 0x64, 0x65, 0x6c];
        let n: &[u8] = vstd::array::array_as_slice(&a);
        assert(n@ == model_name());
        self.get_prop(n)
    }

    /// The `riscv,event-to-mhpmevent` property of this node.
    pub fn prop_event_to_mhpmevent(&self) -> (r: Option<&'a [u8]>)
        requires
            self.wf(),
        ensures
            match r {
                Some(v) => self.prop(event_to_mhpmevent_name()) == Some(v@),
                None => self.prop(event_to_mhpmevent_name()) is None,
            },
    {
        let a: [u8; 24] = [0x72u8, 0x69, 0x73, 0x63, 0x76, 0x2c, 0x65, 0x76, 0x65, 0x6e, 0x74, 0x2d, 0x74, 0x6f, 0x2d, 0x6d, 0x68, 0x70, 0x6d, 0x65, 0x76, 0x65, 0x6e, 0x74];
        let n: &[u8] = vstd::array::array_as_slice(&a);
        assert(n@ == event_to_mhpmevent_name());
        self.get_prop(n)
    }

    /// The `riscv,event-to-mhpmcounters` property of this node.
    pub fn prop_event_to_mhpmcounters(&self) -> (r: Option<&'a [u8]>)
        requires
            self.wf(),
        ensures
            match r {
                Some(v) => self.prop(event_to_mhpmcounters_name()) == Some(v@),
                None => self.prop(event_to_mhpmcounters_name()) is None,
            },
    {
        let a: [u8; 27] = [0x72u8, 0x69, 0x73, 0x63, 0x76, 0x2c, 0x65, 0x76, 0x65, 0x6e, 0x74, 0x2d, 0x74, 0x6f, 0x2d, 0x6d, 0x68, 0x70, 0x6d, 0x63, 0x6f, 0x75, 0x6e, 0x74, 0x65, 0x72, 0x73];
        let n: &[u8] = vstd::array::array_as_slice(&a);
        assert(n@ == event_to_mhpmcounters_name());
        self.get_prop(n)
    }

    /// The `riscv,raw-event-to-mhpmcounters` property of this node.
    pub fn prop_raw_event_to_mhpmcounters(&self) -> (r: Option<&'a [u8]>)
        requires
            self.wf(),
        ensures
            match r {
                Some(v) => self.prop(raw_event_to_mhpmcounters_name()) == Some(v@),
                None => self.prop(raw_event_to_mhpmcounters_name()) is None,
            },
    {
        let a: [u8; 31] = [0x72u8, 0x69, 0x73, 0x63, 0x76, 0x2c, 0x72, 0x61, 0x77, 0x2d, 0x65, 0x76, 0x65, 0x6e, 0x74, 0x2d, 0x74, 0x6f, 0x2d, 0x6d, 0x68, 0x70, 0x6d, 0x63, 0x6f, 0x75, 0x6e, 0x74, 0x65, 0x72, 0x73];
        let n: &[u8] = vstd::array::array_as_slice(&a);
        assert(n@ == raw_event_to_mhpmcounters_name());
        self.get_prop(n)
    }

    /// The number of direct children of this node of kind `k`.
    pub fn count_kind(&self, k: NodeKind) -> (r: usize)
        requires
            self.wf(),
        ensures
            r == self.spec_children(kind_name(k)).len(),
    {
        match k {
            NodeKind::Memory => {
                let a: [u8; 6] = [0x6du8, 0x65, 0x6d, 0x6f, 0x72, 0x79];
                let n: &[u8] = vstd::array::array_as_slice(&a);
                assert(n@ == memory_kind());
                self.count_children_named(n)
            },
            NodeKind::Cpus => {
                let a: [u8; 4] = [0x63u8, 0x70, 0x75, 0x73];
                let n: &[u8] = vstd::array::array_as_slice(&a);
                assert(n@ == cpus_kind());
                self.count_children_named(n)
            },
            NodeKind::Cpu => {
                let a: [u8; 3] = [0x63u8, 0x70, 0x75];
                let n: &[u8] = vstd::array::array_as_slice(&a);
                assert(n@ == cpu_kind());
                self.count_children_named(n)
            },
        }
    }

    /// Child `i` of kind `k` of this node, in document order.
    pub fn nth_kind(&self, k: NodeKind, i: usize) -> (r: Option<Node<'a>>)
        requires
            self.wf(),
        ensures
            r is Some <==> i < self.spec_children(kind_name(k)).len(),
            r matches Some(n) ==> self.is_child(n, self.spec_children(kind_name(k))[i as int]),
    {
        match k {
            NodeKind::Memory => {
                let a: [u8; 6] = [0x6du8, 0x65, 0x6d, 0x6f, 0x72, 0x79];
                let n: &[u8] = vstd::array::array_as_slice(&a);
                assert(n@ == memory_kind());
                self.nth_child_named(n, i)
            },
            NodeKind::Cpus => {
                let a: [u8; 4] = [0x63u8, 0x70, 0x75, 0x73];
                let n: &[u8] = vstd::array::array_as_slice(&a);
                assert(n@ == cpus_kind());
                self.nth_child_named(n, i)
            },
            NodeKind::Cpu => {
                let a: [u8; 3] = [0x63u8, 0x70, 0x75];
                let n: &[u8] = vstd::array::array_as_slice(&a);
                assert(n@ == cpu_kind());
                self.nth_child_named(n, i)
            },
        }
    }
}

} // verus!
