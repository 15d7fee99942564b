use dwarf_a2l_obfuscate::sections::{keeps_section, place_section, SectionPlacement};

#[test]
fn debug_sections_are_kept() {
    assert!(keeps_section(b".debug_info"));
    assert!(keeps_section(b".debug_str"));
    assert!(keeps_section(b".debug"));
    assert!(keeps_section(b".shstrtab"));
    assert!(!keeps_section(b".text"));
    assert!(!keeps_section(b".symtab"));
    assert!(!keeps_section(b".debu"));
    assert!(!keeps_section(b""));
}

#[test]
fn rebuilt_sections_are_placed() {
    assert_eq!(place_section(true, true), SectionPlacement::Replace);
    assert_eq!(place_section(true, false), SectionPlacement::Missing);
    assert_eq!(place_section(false, true), SectionPlacement::Delete);
    assert_eq!(place_section(false, false), SectionPlacement::Unchanged);
}
