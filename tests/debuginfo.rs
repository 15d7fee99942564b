use dwarf_a2l_obfuscate::debuginfo::{
    mask_address, obfuscate_attribute_value, obfuscate_dwarf, CodeKind, DwarfError, InputAttribute,
    InputEntry, InputUnit, InputValue, OutputValue, DW_AT_COMP_DIR, DW_AT_NAME, DW_AT_PRODUCER,
    DW_TAG_COMPILE_UNIT, DW_TAG_PARTIAL_UNIT,
};
use dwarf_a2l_obfuscate::table::NameTable;
use std::collections::HashMap;

const DW_TAG_VARIABLE: u16 = 0x34;
const DW_TAG_SUBPROGRAM: u16 = 0x2e;
const DW_TAG_BASE_TYPE: u16 = 0x24;
const DW_AT_TYPE: u16 = 0x49;
const DW_AT_LOCATION: u16 = 0x02;
const DW_AT_BYTE_SIZE: u16 = 0x0b;

fn entry(delta: isize, offset: usize, tag: u16, attributes: Vec<InputAttribute>) -> InputEntry {
    InputEntry { depth_delta: delta, unit_offset: offset, section_offset: offset + 100, tag, attributes }
}

fn attr(name: u16, value: InputValue) -> InputAttribute {
    InputAttribute { name, value }
}

fn is_letter(c: char) -> bool {
    c.is_ascii_alphabetic()
}

#[test]
fn mask_address_keeps_low_byte() {
    assert_eq!(mask_address(0x1000_0040, 0, 4), 0x40);
    assert_eq!(mask_address(0x1000_0040, 0xffff_ffff_ffff_ffff, 4), 0xffff_ff40);
    assert_eq!(mask_address(0xdead_beef, 0x1234_5678, 4), 0x1234_56ef);
    assert_eq!(mask_address(0x1000_0040, 0xffff_ffff_ffff_ffff, 8), 0xffff_ffff_ffff_ff40);
    assert_eq!(mask_address(0x1234, 0xffff_ffff, 2), 0xff34);
}

#[test]
fn mask_address_never_gives_the_address_back() {
    // the random bits reproduce the address: bit 8 is flipped
    assert_eq!(mask_address(0x1234_5640, 0x1234_5600, 4), 0x1234_5740);
    assert_eq!(mask_address(0x40, 0, 4), 0x140);
    // one-byte addresses have no bits to replace
    assert_eq!(mask_address(0x40, 0xffff, 1), 0x40);
}

#[test]
fn location_address_is_masked() {
    let uo = HashMap::new();
    let so = HashMap::new();
    let mut t = NameTable::new();
    for _ in 0..20 {
        let r = obfuscate_attribute_value(DW_AT_LOCATION, &InputValue::Location(Some(0x1000_0040)), 4, &uo, &so, &mut t);
        match r {
            Some(OutputValue::Location(a)) => {
                assert_eq!(a & 0xff, 0x40);
                assert!(a <= 0xffff_ffff);
                assert_ne!(a, 0x1000_0040);
            }
            other => panic!("unexpected {:?}", other),
        }
    }
    let r = obfuscate_attribute_value(DW_AT_LOCATION, &InputValue::Location(None), 4, &uo, &so, &mut t);
    assert!(r.is_none());
}

#[test]
fn fixed_addresses_are_masked() {
    let uo = HashMap::new();
    let so = HashMap::new();
    let mut t = NameTable::new();
    for _ in 0..20 {
        match obfuscate_attribute_value(0x11, &InputValue::Address(0x0800_1234), 4, &uo, &so, &mut t) {
            Some(OutputValue::Address(a)) => {
                assert_eq!(a & 0xff, 0x34);
                assert!(a <= 0xffff_ffff);
                assert_ne!(a, 0x0800_1234);
            }
            other => panic!("unexpected {:?}", other),
        }
    }
}

#[test]
fn references_go_through_offset_maps() {
    let mut uo = HashMap::new();
    uo.insert(0x2a, 3usize);
    let mut so = HashMap::new();
    so.insert(0x400, (1usize, 7usize));
    let mut t = NameTable::new();
    let r = obfuscate_attribute_value(DW_AT_TYPE, &InputValue::UnitRef(0x2a), 4, &uo, &so, &mut t);
    assert!(matches!(r, Some(OutputValue::UnitRef(3))));
    let r = obfuscate_attribute_value(DW_AT_TYPE, &InputValue::UnitRef(0x2b), 4, &uo, &so, &mut t);
    assert!(r.is_none());
    let r = obfuscate_attribute_value(DW_AT_TYPE, &InputValue::DebugInfoRef(0x400), 4, &uo, &so, &mut t);
    assert!(matches!(r, Some(OutputValue::DebugInfoRef(1, 7))));
    let r = obfuscate_attribute_value(DW_AT_TYPE, &InputValue::DebugInfoRef(0x401), 4, &uo, &so, &mut t);
    assert!(r.is_none());
}

#[test]
fn scalars_are_copied_and_unsupported_dropped() {
    let uo = HashMap::new();
    let so = HashMap::new();
    let mut t = NameTable::new();
    let r = obfuscate_attribute_value(DW_AT_BYTE_SIZE, &InputValue::Data1(4), 4, &uo, &so, &mut t);
    assert!(matches!(r, Some(OutputValue::Data1(4))));
    let r = obfuscate_attribute_value(0x3e, &InputValue::Code(CodeKind::Encoding, 7), 4, &uo, &so, &mut t);
    assert!(matches!(r, Some(OutputValue::Code(CodeKind::Encoding, 7))));
    let r = obfuscate_attribute_value(0x10, &InputValue::Block(vec![1, 2, 3]), 4, &uo, &so, &mut t);
    match r {
        Some(OutputValue::Block(b)) => assert_eq!(b, vec![1, 2, 3]),
        other => panic!("unexpected {:?}", other),
    }
    let r = obfuscate_attribute_value(0x10, &InputValue::Unsupported, 4, &uo, &so, &mut t);
    assert!(r.is_none());
}

#[test]
fn strings_by_attribute_kind() {
    let uo = HashMap::new();
    let so = HashMap::new();
    let mut t = NameTable::new();
    let dir = InputValue::Text("/home/build".to_string());
    assert!(obfuscate_attribute_value(DW_AT_COMP_DIR, &dir, 4, &uo, &so, &mut t).is_none());
    assert!(obfuscate_attribute_value(DW_AT_PRODUCER, &dir, 4, &uo, &so, &mut t).is_none());
    match obfuscate_attribute_value(0x6e, &dir, 4, &uo, &so, &mut t) {
        Some(OutputValue::Text(s)) => assert_eq!(s, "/home/build"),
        other => panic!("unexpected {:?}", other),
    }
    let name = InputValue::Text("engineSpeed".to_string());
    let first = match obfuscate_attribute_value(DW_AT_NAME, &name, 4, &uo, &so, &mut t) {
        Some(OutputValue::Text(s)) => s,
        other => panic!("unexpected {:?}", other),
    };
    assert_ne!(first, "engineSpeed");
    assert_eq!(first.chars().count(), 11);
    assert!(first.chars().all(is_letter));
    assert!(first.chars().next().unwrap().is_ascii_lowercase());
    let second = match obfuscate_attribute_value(DW_AT_NAME, &name, 4, &uo, &so, &mut t) {
        Some(OutputValue::Text(s)) => s,
        other => panic!("unexpected {:?}", other),
    };
    assert_eq!(first, second);
    assert_eq!(t.get(&"engineSpeed".to_string()), Some(first));
}

#[test]
fn empty_name_gets_one_letter() {
    let uo = HashMap::new();
    let so = HashMap::new();
    let mut t = NameTable::new();
    match obfuscate_attribute_value(DW_AT_NAME, &InputValue::Text(String::new()), 4, &uo, &so, &mut t) {
        Some(OutputValue::Text(s)) => {
            assert_eq!(s.len(), 1);
            assert!(s.chars().all(|c| c.is_ascii_lowercase()));
        }
        other => panic!("unexpected {:?}", other),
    }
}

fn sample_units() -> Vec<InputUnit> {
    // unit 0: cu { int; var engineSpeed : int; sub main { var engineSpeed } }
    let u0 = InputUnit {
        address_size: 4,
        entries: vec![
            entry(0, 0x0b, DW_TAG_COMPILE_UNIT, vec![
                attr(DW_AT_NAME, InputValue::Text("main.c".to_string())),
                attr(DW_AT_PRODUCER, InputValue::Text("gcc".to_string())),
            ]),
            entry(1, 0x20, DW_TAG_BASE_TYPE, vec![attr(DW_AT_BYTE_SIZE, InputValue::Data1(4))]),
            entry(0, 0x30, DW_TAG_VARIABLE, vec![
                attr(DW_AT_NAME, InputValue::Text("engineSpeed".to_string())),
                attr(DW_AT_TYPE, InputValue::UnitRef(0x20)),
                attr(DW_AT_LOCATION, InputValue::Location(Some(0x1000_0040))),
            ]),
            entry(0, 0x40, DW_TAG_SUBPROGRAM, vec![attr(DW_AT_NAME, InputValue::Text("main".to_string()))]),
            entry(1, 0x50, DW_TAG_VARIABLE, vec![
                attr(DW_AT_NAME, InputValue::Text("engineSpeed".to_string())),
                attr(DW_AT_TYPE, InputValue::DebugInfoRef(0x200 + 100)),
            ]),
        ],
    };
    // unit 1: partial unit { base type }
    let u1 = InputUnit {
        address_size: 4,
        entries: vec![
            InputEntry { depth_delta: 0, unit_offset: 0x0b, section_offset: 0x1f0, tag: DW_TAG_PARTIAL_UNIT, attributes: vec![] },
            InputEntry { depth_delta: 1, unit_offset: 0x10, section_offset: 0x200 + 100, tag: DW_TAG_BASE_TYPE, attributes: vec![] },
        ],
    };
    vec![u0, u1]
}

#[test]
fn dwarf_structure_is_conserved() {
    let input = sample_units();
    let (out, _) = obfuscate_dwarf(&input).expect("well formed");
    assert_eq!(out.len(), 2);
    assert_eq!(out[0].entries.len(), 5);
    assert_eq!(out[1].entries.len(), 2);
    let tags: Vec<u16> = out[0].entries.iter().map(|e| e.tag).collect();
    assert_eq!(tags, vec![DW_TAG_COMPILE_UNIT, DW_TAG_BASE_TYPE, DW_TAG_VARIABLE, DW_TAG_SUBPROGRAM, DW_TAG_VARIABLE]);
    let parents: Vec<Option<usize>> = out[0].entries.iter().map(|e| e.parent).collect();
    assert_eq!(parents, vec![None, Some(0), Some(0), Some(0), Some(3)]);
    assert_eq!(out[1].entries[1].parent, Some(0));
    // references resolve to existing handles
    let var = &out[0].entries[2];
    assert!(var.attributes.iter().any(|a| matches!(a.value, OutputValue::UnitRef(1))));
    let local = &out[0].entries[4];
    assert!(local.attributes.iter().any(|a| matches!(a.value, OutputValue::DebugInfoRef(1, 1))));
    // producer dropped
    assert_eq!(out[0].entries[0].attributes.len(), 1);
}

#[test]
fn same_name_same_pseudonym_across_entries() {
    let input = sample_units();
    let (out, table) = obfuscate_dwarf(&input).expect("well formed");
    let name_of = |e: usize| -> String {
        out[0].entries[e].attributes.iter().find_map(|a| match (&a.value, a.name) {
            (OutputValue::Text(s), DW_AT_NAME) => Some(s.clone()),
            _ => None,
        }).unwrap()
    };
    let p = name_of(2);
    assert_eq!(p, name_of(4));
    assert_ne!(p, name_of(3));
    assert_eq!(table.get(&"engineSpeed".to_string()), Some(p.clone()));
    assert_eq!(p.len(), 11);
    assert!(p.chars().all(is_letter));
}

#[test]
fn nested_depths_rebuild_parents() {
    let input = vec![InputUnit {
        address_size: 4,
        entries: vec![
            entry(0, 0, DW_TAG_COMPILE_UNIT, vec![]),
            entry(1, 1, DW_TAG_SUBPROGRAM, vec![]),
            entry(1, 2, 0x0b, vec![]),
            entry(1, 3, DW_TAG_VARIABLE, vec![]),
            entry(-1, 4, DW_TAG_VARIABLE, vec![]),
            entry(-1, 5, DW_TAG_SUBPROGRAM, vec![]),
        ],
    }];
    let (out, _) = obfuscate_dwarf(&input).expect("well formed");
    let parents: Vec<Option<usize>> = out[0].entries.iter().map(|e| e.parent).collect();
    assert_eq!(parents, vec![None, Some(0), Some(1), Some(2), Some(1), Some(0)]);
}

#[test]
fn no_units_is_an_error() {
    assert_eq!(obfuscate_dwarf(&vec![]).err(), Some(DwarfError::NoUnits));
}

#[test]
fn empty_unit_is_an_error() {
    let input = vec![sample_units().remove(0), InputUnit { address_size: 4, entries: vec![] }];
    assert_eq!(obfuscate_dwarf(&input).err(), Some(DwarfError::EmptyUnit(1)));
}

#[test]
fn unit_root_must_be_a_unit() {
    let input = vec![InputUnit { address_size: 4, entries: vec![entry(0, 0, DW_TAG_VARIABLE, vec![])] }];
    assert_eq!(obfuscate_dwarf(&input).err(), Some(DwarfError::NotAUnitRoot(0)));
}

#[test]
fn malformed_depth_is_an_error() {
    let jump = vec![InputUnit {
        address_size: 4,
        entries: vec![entry(0, 0, DW_TAG_COMPILE_UNIT, vec![]), entry(2, 1, DW_TAG_VARIABLE, vec![])],
    }];
    assert_eq!(obfuscate_dwarf(&jump).err(), Some(DwarfError::MalformedDepth(0, 1)));
    let second_root = vec![InputUnit {
        address_size: 4,
        entries: vec![
            entry(0, 0, DW_TAG_COMPILE_UNIT, vec![]),
            entry(1, 1, DW_TAG_VARIABLE, vec![]),
            entry(-1, 2, DW_TAG_VARIABLE, vec![]),
        ],
    }];
    assert_eq!(obfuscate_dwarf(&second_root).err(), Some(DwarfError::MalformedDepth(0, 2)));
    let sibling_of_root = vec![InputUnit {
        address_size: 4,
        entries: vec![entry(0, 0, DW_TAG_COMPILE_UNIT, vec![]), entry(0, 1, DW_TAG_VARIABLE, vec![])],
    }];
    assert_eq!(obfuscate_dwarf(&sibling_of_root).err(), Some(DwarfError::MalformedDepth(0, 1)));
}

#[test]
fn non_ascii_name_keeps_byte_length() {
    let uo = HashMap::new();
    let so = HashMap::new();
    let mut t = NameTable::new();
    let name = InputValue::Text("gr\u{f6}\u{df}e".to_string());
    match obfuscate_attribute_value(DW_AT_NAME, &name, 4, &uo, &so, &mut t) {
        Some(OutputValue::Text(s)) => {
            assert_eq!(s.len(), "gr\u{f6}\u{df}e".len());
            assert!(s.chars().all(is_letter));
        }
        other => panic!("unexpected {:?}", other),
    }
}

#[test]
fn each_entry_has_exactly_its_outcomes() {
    let input = sample_units();
    let (out, table) = obfuscate_dwarf(&input).expect("well formed");
    let var = &out[0].entries[2];
    assert_eq!(var.attributes.len(), 3);
    assert_eq!(var.attributes[0].name, DW_AT_NAME);
    assert!(matches!(&var.attributes[0].value, OutputValue::Text(s) if Some(s.clone()) == table.get(&"engineSpeed".to_string())));
    assert_eq!(var.attributes[1].name, DW_AT_TYPE);
    assert_eq!(var.attributes[2].name, DW_AT_LOCATION);
    let names = var.attributes.iter().filter(|a| a.name == DW_AT_NAME).count();
    assert_eq!(names, 1);
}
