use prototyper_devicetree::{
    get_compatible, get_compatible_and_range, parse_device_tree, Cpu, Device, Memory, Node,
    ParseDeviceTreeError, Pmu,
};

/// Builds a blob token by token.
struct Builder {
    structure: Vec<u8>,
    strings: Vec<u8>,
}

fn push_u32(v: &mut Vec<u8>, x: u32) {
    v.extend_from_slice(&x.to_be_bytes());
}

fn pad(v: &mut Vec<u8>) {
    while v.len() % 4 != 0 {
        v.push(0);
    }
}

fn cells(xs: &[u32]) -> Vec<u8> {
    let mut v = Vec::new();
    for x in xs {
        push_u32(&mut v, *x);
    }
    v
}

fn strs(xs: &[&str]) -> Vec<u8> {
    let mut v = Vec::new();
    for x in xs {
        v.extend_from_slice(x.as_bytes());
        v.push(0);
    }
    v
}

impl Builder {
    fn new() -> Builder {
        Builder { structure: Vec::new(), strings: Vec::new() }
    }

    fn begin(&mut self, name: &str) -> &mut Builder {
        push_u32(&mut self.structure, 1);
        self.structure.extend_from_slice(name.as_bytes());
        self.structure.push(0);
        pad(&mut self.structure);
        self
    }

    fn end(&mut self) -> &mut Builder {
        push_u32(&mut self.structure, 2);
        self
    }

    fn nop(&mut self) -> &mut Builder {
        push_u32(&mut self.structure, 4);
        self
    }

    fn prop(&mut self, name: &str, value: &[u8]) -> &mut Builder {
        let off = self.strings.len() as u32;
        self.strings.extend_from_slice(name.as_bytes());
        self.strings.push(0);
        push_u32(&mut self.structure, 3);
        push_u32(&mut self.structure, value.len() as u32);
        push_u32(&mut self.structure, off);
        self.structure.extend_from_slice(value);
        pad(&mut self.structure);
        self
    }

    fn finish(&mut self) -> Vec<u8> {
        push_u32(&mut self.structure, 9);
        let off_struct = 40u32;
        let off_strings = off_struct + self.structure.len() as u32;
        let total = off_strings + self.strings.len() as u32;
        let mut v = Vec::new();
        push_u32(&mut v, 0xd00dfeed);
        push_u32(&mut v, total);
        push_u32(&mut v, off_struct);
        push_u32(&mut v, off_strings);
        push_u32(&mut v, 40);
        push_u32(&mut v, 17);
        push_u32(&mut v, 16);
        push_u32(&mut v, 0);
        push_u32(&mut v, self.strings.len() as u32);
        push_u32(&mut v, self.structure.len() as u32);
        v.extend_from_slice(&self.structure);
        v.extend_from_slice(&self.strings);
        v
    }
}

/// The children of `n` named `base`, collected through the lazy accessors.
fn kids<'a>(n: &Node<'a>, base: &[u8]) -> Vec<Node<'a>> {
    let mut out = Vec::new();
    for i in 0..n.count_children_named(base) {
        out.push(n.nth_child_named(base, i).unwrap());
    }
    assert!(n.nth_child_named(base, out.len()).is_none());
    out
}

fn sample_blob() -> Vec<u8> {
    Builder::new()
        .begin("")
        .prop("#address-cells", &cells(&[1]))
        .prop("#size-cells", &cells(&[1]))
        .prop("model", &strs(&["test,board"]))
        .begin("memory@80000000")
        .prop("device_type", &strs(&["memory"]))
        .prop("reg", &cells(&[0x80000000, 0x40000000]))
        .end()
        .begin("cpus")
        .prop("#address-cells", &cells(&[1]))
        .prop("#size-cells", &cells(&[0]))
        .begin("cpu@0")
        .prop("reg", &cells(&[0]))
        .prop("riscv,isa", &strs(&["rv64imafdc"]))
        .end()
        .end()
        .begin("soc")
        .begin("uart@10000000")
        .prop("compatible", &strs(&["ns16550a", "ns16550"]))
        .prop("reg", &cells(&[0x10000000, 0x100, 0x10001000, 0x100]))
        .end()
        .begin("clint@2000000")
        .prop("compatible", &strs(&["riscv,clint0"]))
        .end()
        .begin("plain")
        .end()
        .begin("pmu")
        .prop("compatible", &strs(&["riscv,pmu"]))
        .prop("riscv,event-to-mhpmevent", &cells(&[5, 0, 1, 6, 0, 2]))
        .prop("riscv,event-to-mhpmcounters", &cells(&[1, 2, 0x7ff8]))
        .end()
        .end()
        .end()
        .finish()
}

#[test]
fn rejects_wrong_magic() {
    let mut blob = sample_blob();
    blob[0] = 0xfe;
    assert_eq!(parse_device_tree(&blob).err(), Some(ParseDeviceTreeError::Format));
    let short = [0xd0u8, 0x0d];
    assert_eq!(parse_device_tree(&short).err(), Some(ParseDeviceTreeError::Format));
    let zeros = [0u8; 64];
    assert_eq!(parse_device_tree(&zeros).err(), Some(ParseDeviceTreeError::Format));
}

#[test]
fn rejects_bad_sizes_and_versions() {
    let blob = sample_blob();
    assert!(parse_device_tree(&blob).is_ok());
    assert!(parse_device_tree(&blob[..blob.len() - 1]).is_err());
    let mut newer = blob.clone();
    newer[27] = 18;
    assert!(parse_device_tree(&newer).is_err());
    let mut bad_struct = blob.clone();
    bad_struct[39] = 0xff;
    bad_struct[38] = 0xff;
    assert!(parse_device_tree(&bad_struct).is_err());
    assert!(parse_device_tree(&blob[..39]).is_err());
}

#[test]
fn memory_round_trip() {
    let blob = sample_blob();
    let dtb = parse_device_tree(&blob).ok().unwrap();
    let tree = dtb.tree().unwrap();
    assert_eq!(tree.memory.len(), 1);
    let node = tree.memory.get(0);
    assert_eq!(node.name, b"memory@80000000");
    let mem = Memory::from_node(&node).unwrap();
    assert_eq!(mem.reg.len(), 1);
    assert_eq!(mem.reg.get(0), 0x80000000u64..0xC0000000u64);
    assert_eq!(mem.reg.ranges(), vec![0x80000000u64..0xC0000000u64]);
}

#[test]
fn cpu_scenario() {
    let blob = sample_blob();
    let dtb = parse_device_tree(&blob).ok().unwrap();
    let tree = dtb.tree().unwrap();
    assert_eq!(tree.model.unwrap().first(), b"test,board");
    assert_eq!(tree.cpus.cpu.len(), 1);
    let cpu = Cpu::from_node(&tree.cpus.cpu.get(0)).unwrap();
    assert_eq!(cpu.isa.unwrap().first(), b"rv64imafdc");
    assert!(cpu.isa_extensions.is_none());
    assert_eq!(cpu.reg.len(), 1);
    assert_eq!(cpu.reg.get(0), 0u64..0u64);
}

#[test]
fn cpu_without_reg_fails() {
    let blob = Builder::new()
        .begin("")
        .begin("cpus")
        .begin("cpu@0")
        .prop("riscv,isa", &strs(&["rv64imac"]))
        .prop("riscv,isa-extensions", &strs(&["i", "m", "a", "c"]))
        .end()
        .end()
        .end()
        .finish();
    let dtb = parse_device_tree(&blob).ok().unwrap();
    let tree = dtb.tree().unwrap();
    assert_eq!(tree.cpus.cpu.len(), 1);
    assert!(Cpu::from_node(&tree.cpus.cpu.get(0)).is_none());
    assert!(Device::from_node(&tree.cpus.cpu.get(0)).is_none());
}

#[test]
fn tree_needs_cpus() {
    let blob = Builder::new().begin("").begin("memory").end().end().finish();
    let dtb = parse_device_tree(&blob).ok().unwrap();
    assert!(dtb.root().is_some());
    assert!(dtb.tree().is_none());
}

fn soc_children<'a>(dtb: &prototyper_devicetree::Dtb<'a>) -> Vec<Node<'a>> {
    let root = dtb.root().unwrap();
    let a: Vec<u8> = b"soc".to_vec();
    let soc = kids(&root, &a);
    assert_eq!(soc.len(), 1);
    let mut out = Vec::new();
    for kind in [&b"uart"[..], &b"clint"[..], &b"plain"[..], &b"pmu"[..]] {
        let found = kids(&soc[0], kind);
        assert_eq!(found.len(), 1);
        out.push(found[0]);
    }
    out
}

#[test]
fn extractor_absence_policy() {
    let blob = sample_blob();
    let dtb = parse_device_tree(&blob).ok().unwrap();
    let nodes = soc_children(&dtb);
    // both present: first range only
    let (compatible, range) = get_compatible_and_range(&nodes[0]).unwrap();
    assert_eq!(compatible.bytes, b"ns16550a\0ns16550\0");
    assert_eq!(compatible.first(), b"ns16550a");
    let names: Vec<&[u8]> = compatible.strings();
    assert_eq!(names, vec![&b"ns16550a"[..], &b"ns16550"[..]]);
    assert_eq!(range, 0x10000000u64..0x10000100u64);
    // compatible without reg
    assert!(get_compatible_and_range(&nodes[1]).is_none());
    assert_eq!(get_compatible(&nodes[1]).unwrap().first(), b"riscv,clint0");
    // neither
    assert!(get_compatible_and_range(&nodes[2]).is_none());
    assert!(get_compatible(&nodes[2]).is_none());
}

#[test]
fn empty_reg_gives_none() {
    let blob = Builder::new()
        .begin("")
        .begin("dev")
        .prop("compatible", &strs(&["vendor,dev"]))
        .prop("reg", &[])
        .end()
        .end()
        .finish();
    let dtb = parse_device_tree(&blob).ok().unwrap();
    let root = dtb.root().unwrap();
    let dev = kids(&root, b"dev");
    assert_eq!(dev.len(), 1);
    assert!(get_compatible_and_range(&dev[0]).is_none());
    assert_eq!(Device::from_node(&dev[0]).unwrap().reg.len(), 0);
}

#[test]
fn first_range_only() {
    let blob = sample_blob();
    let dtb = parse_device_tree(&blob).ok().unwrap();
    let nodes = soc_children(&dtb);
    let (_, range) = get_compatible_and_range(&nodes[0]).unwrap();
    let reg = nodes[0].reg().unwrap();
    assert_eq!(
        reg.ranges(),
        vec![0x10000000u64..0x10000100u64, 0x10001000u64..0x10001100u64]
    );
    assert_eq!(reg.first(), Some(range));
}

#[test]
fn default_cells_are_two_each() {
    let blob = Builder::new()
        .begin("")
        .begin("dev")
        .prop("reg", &cells(&[0x1, 0x2, 0x0, 0x10]))
        .end()
        .end()
        .finish();
    let dtb = parse_device_tree(&blob).ok().unwrap();
    let root = dtb.root().unwrap();
    assert_eq!(root.child_cells(), (2, 2));
    let dev = kids(&root, b"dev");
    let d = Device::from_node(&dev[0]).unwrap();
    assert_eq!(d.reg.len(), 1);
    assert_eq!(d.reg.get(0), 0x1_0000_0002u64..0x1_0000_0012u64);
}

#[test]
fn cells_inherit_from_nearest_ancestor() {
    let blob = Builder::new()
        .begin("")
        .prop("#address-cells", &cells(&[1]))
        .prop("#size-cells", &cells(&[1]))
        .begin("bus")
        .begin("dev@4")
        .prop("reg", &cells(&[0x4, 0x8]))
        .end()
        .end()
        .end()
        .finish();
    let dtb = parse_device_tree(&blob).ok().unwrap();
    let root = dtb.root().unwrap();
    let bus = kids(&root, b"bus");
    assert_eq!(bus[0].address_cells, 1);
    let dev = kids(&bus[0], b"dev");
    assert_eq!(dev[0].address_cells, 1);
    assert_eq!(dev[0].size_cells, 1);
    assert_eq!(Device::from_node(&dev[0]).unwrap().reg.get(0), 4u64..12u64);
}

#[test]
fn malformed_reg_length_fails() {
    let blob = Builder::new()
        .begin("")
        .prop("#address-cells", &cells(&[1]))
        .prop("#size-cells", &cells(&[1]))
        .begin("memory@0")
        .prop("reg", &cells(&[0x0, 0x10, 0x20]))
        .end()
        .end()
        .finish();
    let dtb = parse_device_tree(&blob).ok().unwrap();
    let root = dtb.root().unwrap();
    let mem = kids(&root, b"memory");
    assert!(Memory::from_node(&mem[0]).is_none());
}

#[test]
fn reg_overflow_fails() {
    let blob = Builder::new()
        .begin("")
        .begin("dev")
        .prop("reg", &cells(&[0xffffffff, 0xffffffff, 0x0, 0x1]))
        .end()
        .end()
        .finish();
    let dtb = parse_device_tree(&blob).ok().unwrap();
    let dev = kids(&dtb.root().unwrap(), b"dev");
    assert!(dev[0].reg().is_none());
}

#[test]
fn pmu_tables() {
    let blob = sample_blob();
    let dtb = parse_device_tree(&blob).ok().unwrap();
    let nodes = soc_children(&dtb);
    let pmu = Pmu::from_node(&nodes[3]).unwrap();
    let t = pmu.event_to_mhpmevent.unwrap();
    assert_eq!(t.rows(), 2);
    assert_eq!(t.cell(1, 0), 6);
    assert_eq!(t.cell(1, 2), 2);
    let c = pmu.event_to_mhpmcounters.unwrap();
    assert_eq!(c.rows(), 1);
    assert_eq!(c.cell(0, 2), 0x7ff8);
    assert!(pmu.raw_event_to_mhpmcounters.is_none());
}

#[test]
fn pmu_bad_table_fails() {
    let blob = Builder::new()
        .begin("")
        .begin("pmu")
        .prop("riscv,raw-event-to-mhpmcounters", &cells(&[1, 2, 3, 4]))
        .end()
        .end()
        .finish();
    let dtb = parse_device_tree(&blob).ok().unwrap();
    let pmu = kids(&dtb.root().unwrap(), b"pmu");
    assert!(Pmu::from_node(&pmu[0]).is_none());
}

#[test]
fn nested_properties_are_not_the_parents() {
    let blob = Builder::new()
        .begin("")
        .nop()
        .begin("a")
        .begin("b")
        .prop("compatible", &strs(&["inner"]))
        .end()
        .end()
        .end()
        .finish();
    let dtb = parse_device_tree(&blob).ok().unwrap();
    let root = dtb.root().unwrap();
    let a = kids(&root, b"a");
    assert!(a[0].get_prop(b"compatible").is_none());
    let b = kids(&a[0], b"b");
    assert_eq!(b[0].get_prop(b"compatible").unwrap(), b"inner\0");
    assert!(kids(&root, b"b").is_empty());
}

#[test]
fn unit_names_match_kind() {
    let blob = Builder::new()
        .begin("")
        .begin("cpus")
        .begin("cpu@0")
        .end()
        .begin("cpu@1")
        .end()
        .begin("cpux")
        .end()
        .begin("cpu-map")
        .end()
        .end()
        .end()
        .finish();
    let dtb = parse_device_tree(&blob).ok().unwrap();
    let tree = dtb.tree().unwrap();
    assert_eq!(tree.cpus.cpu.len(), 2);
    assert_eq!(tree.cpus.cpu.get(1).name, b"cpu@1");
}

#[test]
fn malformed_strings_are_absent() {
    let blob = Builder::new()
        .begin("")
        .begin("dev")
        .prop("compatible", b"no-terminator")
        .prop("reg", &cells(&[0, 0, 0, 4]))
        .end()
        .end()
        .finish();
    let dtb = parse_device_tree(&blob).ok().unwrap();
    let dev = kids(&dtb.root().unwrap(), b"dev");
    assert!(get_compatible(&dev[0]).is_none());
    assert!(get_compatible_and_range(&dev[0]).is_none());
}

fn walk_everything(blob: &[u8]) {
    if let Ok(dtb) = parse_device_tree(blob) {
        let _ = dtb.tree();
        if let Some(root) = dtb.root() {
            let _ = root.child_cells();
            for kind in [&b"memory"[..], &b"cpus"[..], &b"soc"[..]] {
                for child in kids(&root, kind) {
                    let _ = get_compatible_and_range(&child);
                    let _ = Cpu::from_node(&child);
                    let _ = Pmu::from_node(&child);
                    for grandchild in kids(&child, b"uart") {
                        let _ = get_compatible_and_range(&grandchild);
                    }
                    for grandchild in kids(&child, b"cpu") {
                        let _ = Cpu::from_node(&grandchild);
                    }
                }
            }
        }
    }
}

#[test]
fn corrupted_blobs_do_not_panic() {
    let blob = sample_blob();
    for cut in 0..blob.len() {
        walk_everything(&blob[..cut]);
        let mut fixed_total = blob[..cut].to_vec();
        if cut >= 8 {
            fixed_total[4..8].copy_from_slice(&(cut as u32).to_be_bytes());
        }
        walk_everything(&fixed_total);
    }
    for i in 40..blob.len() {
        for b in [0x00u8, 0x01, 0x03, 0x09, 0x7f, 0xff] {
            let mut v = blob.clone();
            v[i] = b;
            walk_everything(&v);
        }
    }
}

#[test]
fn string_list_decoding() {
    let v = strs(&["a", "", "bc"]);
    let s = prototyper_devicetree::StrSeq::decode(&v).unwrap();
    assert_eq!(s.strings(), vec![&b"a"[..], &b""[..], &b"bc"[..]]);
    assert_eq!(s.first(), b"a");
    assert!(prototyper_devicetree::StrSeq::decode(b"abc").is_none());
    let empty = prototyper_devicetree::StrSeq::decode(b"").unwrap();
    assert!(empty.strings().is_empty());
    assert_eq!(empty.first(), b"");
    let raw = prototyper_devicetree::StrSeq { bytes: b"x\0yz" };
    assert_eq!(raw.strings(), vec![&b"x"[..], &b"yz"[..]]);
}

#[test]
fn reg_decoding_widths() {
    let v = cells(&[0x1, 0x2, 0x3, 0x4, 0x5, 0x6]);
    assert!(prototyper_devicetree::Reg::decode(&v, 2, 2).is_none());
    let r = prototyper_devicetree::Reg::decode(&v, 2, 1).unwrap();
    assert_eq!(r.len(), 2);
    assert_eq!(r.get(0), 0x1_0000_0002u64..0x1_0000_0005u64);
    assert_eq!(r.get(1), 0x4_0000_0005u64..0x4_0000_000bu64);
    assert!(prototyper_devicetree::Reg::decode(&v, 3, 0).is_none());
    assert!(prototyper_devicetree::Reg::decode(&v, 0, 0).is_none());
    let one = prototyper_devicetree::Reg::decode(&v, 1, 0).unwrap();
    assert_eq!(one.len(), 6);
    assert_eq!(one.get(5), 6u64..6u64);
    assert_eq!(prototyper_devicetree::Reg::decode(&[], 1, 1).unwrap().first(), None);
}

#[test]
fn later_reg_overflow_keeps_first_range() {
    let blob = Builder::new()
        .begin("")
        .begin("dev")
        .prop("compatible", &strs(&["vendor,dev"]))
        .prop(
            "reg",
            &cells(&[0x0, 0x0, 0x0, 0x1000, 0xffffffff, 0xffffffff, 0x0, 0x1]),
        )
        .end()
        .end()
        .finish();
    let dtb = parse_device_tree(&blob).ok().unwrap();
    let dev = kids(&dtb.root().unwrap(), b"dev");
    let (c, range) = get_compatible_and_range(&dev[0]).unwrap();
    assert_eq!(c.first(), b"vendor,dev");
    assert_eq!(range, 0u64..0x1000u64);
    assert!(dev[0].reg().is_none());
    assert_eq!(
        prototyper_devicetree::props::first_range(&cells(&[0xffffffff, 0xffffffff, 0x0, 0x1]), 2, 2),
        None
    );
}

#[test]
fn empty_string_lists_are_present() {
    let blob = Builder::new()
        .begin("")
        .prop("model", &[])
        .begin("cpus")
        .begin("cpu@0")
        .prop("reg", &cells(&[0, 0, 0, 0]))
        .prop("riscv,isa-extensions", &[])
        .prop("compatible", &[])
        .end()
        .end()
        .end()
        .finish();
    let dtb = parse_device_tree(&blob).ok().unwrap();
    let tree = dtb.tree().unwrap();
    assert!(tree.model.unwrap().strings().is_empty());
    let cpu_node = tree.cpus.cpu.get(0);
    let compatible = get_compatible(&cpu_node).unwrap();
    assert!(compatible.strings().is_empty());
    let cpu = Cpu::from_node(&cpu_node).unwrap();
    assert!(cpu.isa_extensions.unwrap().strings().is_empty());
    assert!(cpu.isa.is_none());
}

#[test]
fn truncated_structure_block() {
    let blob = sample_blob();
    let off_struct = 40usize;
    let size_struct = u32::from_be_bytes([blob[36], blob[37], blob[38], blob[39]]) as usize;
    // cut the structure block just after the memory node's `reg` property
    let mut cut = blob.clone();
    let keep = 4 + 4 + (3 * 4 + 4) * 3 + 16 + 12 + 8 + (12 + 8) + (12 + 8);
    assert!(keep < size_struct);
    cut[36..40].copy_from_slice(&(keep as u32).to_be_bytes());
    let dtb = parse_device_tree(&cut).ok().unwrap();
    assert_eq!(dtb.structure.len(), keep);
    assert_eq!(dtb.structure, &blob[off_struct..off_struct + keep]);
    let root = dtb.root().unwrap();
    let mem = kids(&root, b"memory");
    assert_eq!(mem.len(), 1);
    assert_eq!(Memory::from_node(&mem[0]).unwrap().reg.get(0), 0x80000000u64..0xC0000000u64);
    assert!(mem[0].get_prop(b"compatible").is_none());
    assert!(dtb.tree().is_none());
    assert!(kids(&root, b"soc").is_empty());
}
