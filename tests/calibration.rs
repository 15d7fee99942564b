use dwarf_a2l_obfuscate::bridge::{correlate_symbol, find_symbol, obfuscate_ifdata, obfuscate_symbol_link};
use dwarf_a2l_obfuscate::calibration::{
    AxisDescr, AxisPts, Characteristic, CompuMethod, CompuTable, Function, Group, Measurement, Module,
    Project, RecordLayout, Transformer, TypedefAxis, UserRights,
};
use dwarf_a2l_obfuscate::debuginfo::{
    obfuscate_dwarf, InputAttribute, InputEntry, InputUnit, InputValue, OutputValue, DW_AT_NAME,
    DW_TAG_COMPILE_UNIT,
};
use dwarf_a2l_obfuscate::pseudonym::{obfuscate_name, obfuscate_string, obfuscate_string_with_syms};
use dwarf_a2l_obfuscate::rename::{obfuscate_module, obfuscate_project};
use dwarf_a2l_obfuscate::repair::{repair_conversion, repair_list, repair_name};
use dwarf_a2l_obfuscate::table::NameTable;

fn s(x: &str) -> String {
    x.to_string()
}

fn same_shape(a: &str, b: &str) -> bool {
    let a: Vec<char> = a.chars().collect();
    let b: Vec<char> = b.chars().collect();
    a.len() == b.len()
        && a.iter().zip(b.iter()).all(|(x, y)| {
            x.is_ascii_uppercase() == y.is_ascii_uppercase()
                && x.is_ascii_lowercase() == y.is_ascii_lowercase()
                && (x.is_ascii_alphabetic() || x == y)
        })
}

fn characteristic(name: &str) -> Characteristic {
    Characteristic {
        name: s(name),
        long_identifier: s("a tunable map"),
        display_identifier: Some(s("Disp.Name")),
        symbol_link: None,
        link_map_symbols: vec![],
        address: 0x8000_1234,
        deposit: s("RL_MAP"),
        conversion: s("CM_RPM"),
        dependent_characteristic: None,
        map_list: None,
        virtual_characteristic: None,
        axis_descr: vec![],
        comparison_quantity: None,
        function_list: None,
    }
}

fn measurement(name: &str, link: Option<&str>) -> Measurement {
    Measurement {
        name: s(name),
        long_identifier: s("engine speed"),
        display_identifier: None,
        symbol_link: link.map(s),
        link_map_symbols: vec![],
        ecu_address: Some(0x1000_0040),
        conversion: s("NO_COMPU_METHOD"),
        function_list: None,
    }
}

fn empty_module() -> Module {
    Module {
        name: s("ECU"),
        long_identifier: s("engine control"),
        characteristic: vec![],
        measurement: vec![],
        axis_pts: vec![],
        record_layout: vec![],
        function: vec![],
        group: vec![],
        compu_method: vec![],
        compu_tab: vec![],
        compu_vtab: vec![],
        compu_vtab_range: vec![],
        transformer: vec![],
        typedef_axis: vec![],
        user_rights: vec![],
    }
}

#[test]
fn identifier_pseudonym_keeps_shape() {
    for _ in 0..50 {
        let p = obfuscate_string("Abc.foo[33]");
        assert!(same_shape("Abc.foo[33]", &p), "{}", p);
        assert_ne!(p, "Abc.foo[33]");
        assert!(p.chars().next().unwrap().is_ascii_uppercase());
        assert_eq!(&p[3..4], ".");
        assert_eq!(&p[7..], "[33]");
    }
    assert_eq!(obfuscate_string(""), "");
    assert_eq!(obfuscate_string("[12]_."), "[12]_.");
    let one = obfuscate_string("a");
    assert!(one != "a" && one.chars().all(|c| c.is_ascii_lowercase()));
}

#[test]
fn free_text_pseudonym_alphabet() {
    let p = obfuscate_string_with_syms("rpm / min");
    assert_eq!(p.chars().count(), 9);
    assert!(p.chars().all(|c| c.is_ascii_alphanumeric() || "_-/?!".contains(c)));
    assert_eq!(obfuscate_string_with_syms(""), "");
    for _ in 0..50 {
        let q = obfuscate_string_with_syms("A");
        assert_ne!(q, "A");
    }
}

#[test]
fn debug_name_pseudonym() {
    for _ in 0..50 {
        assert_ne!(obfuscate_name("a"), "a");
    }
    let e = obfuscate_name("\u{e9}t\u{e9}");
    assert_eq!(e.len(), 5);
    assert_eq!(e.chars().count(), 5);
    assert!(e.chars().all(|c| c.is_ascii_alphabetic()));
    let p = obfuscate_name("x_1");
    assert_eq!(p.len(), 3);
    assert!(p.chars().all(|c| c.is_ascii_alphabetic()));
    assert!(p.chars().next().unwrap().is_ascii_lowercase());
}

#[test]
fn table_last_write_wins() {
    let mut t = NameTable::new();
    t.insert(s("Kf"), s("Xa"));
    t.insert(s("Other"), s("Zzzzz"));
    t.insert(s("Kf"), s("Qb"));
    assert_eq!(t.get(&s("Kf")), Some(s("Qb")));
    assert_eq!(t.get(&s("Other")), Some(s("Zzzzz")));
    assert_eq!(t.get(&s("Missing")), None);
}

#[test]
fn repair_known_and_dangling() {
    let mut t = NameTable::new();
    t.insert(s("Known_1"), s("Pqrst_1"));
    assert_eq!(repair_name(&s("Known_1"), &t), "Pqrst_1");
    let d = repair_name(&s("Dangling_2"), &t);
    assert_ne!(d, "Dangling_2");
    assert!(same_shape("Dangling_2", &d));
    let mut list = vec![s("Known_1"), s("Gone")];
    repair_list(&mut list, &t);
    assert_eq!(list[0], "Pqrst_1");
    assert!(list[1] != "Gone" && same_shape("Gone", &list[1]));
}

#[test]
fn identity_conversion_is_kept() {
    let mut t = NameTable::new();
    t.insert(s("CM_RPM"), s("XY_ABC"));
    let mut c = s("NO_COMPU_METHOD");
    repair_conversion(&mut c, &t);
    assert_eq!(c, "NO_COMPU_METHOD");
    let mut c = s("CM_RPM");
    repair_conversion(&mut c, &t);
    assert_eq!(c, "XY_ABC");
}

#[test]
fn symbol_correlation() {
    let mut t = NameTable::new();
    t.insert(s("engineSpeed"), s("qwertyuiopa"));
    assert_eq!(find_symbol(&s("engineSpeed"), &t), Some(s("qwertyuiopa")));
    assert_eq!(find_symbol(&s("nothere"), &t), None);
    assert_eq!(correlate_symbol(&s("engineSpeed"), &t), "qwertyuiopa");
    let c = correlate_symbol(&s("struct.member"), &t);
    assert!(c != "struct.member" && same_shape("struct.member", &c));
    let mut link = Some(s("engineSpeed"));
    obfuscate_symbol_link(&mut link, &t);
    assert_eq!(link, Some(s("qwertyuiopa")));
    let mut none: Option<String> = None;
    obfuscate_symbol_link(&mut none, &t);
    assert_eq!(none, None);
    let mut maps = vec![Some(s("engineSpeed")), None, Some(s("gear"))];
    obfuscate_ifdata(&mut maps, &t);
    assert_eq!(maps[0], Some(s("qwertyuiopa")));
    assert_eq!(maps[1], None);
    let g = maps[2].clone().unwrap();
    assert!(g != "gear" && same_shape("gear", &g));
}

#[test]
fn end_to_end_symbol_link() {
    let input = vec![InputUnit {
        address_size: 4,
        entries: vec![
            InputEntry { depth_delta: 0, unit_offset: 0x0b, section_offset: 0x0b, tag: DW_TAG_COMPILE_UNIT, attributes: vec![] },
            InputEntry {
                depth_delta: 1,
                unit_offset: 0x20,
                section_offset: 0x20,
                tag: 0x34,
                attributes: vec![
                    InputAttribute { name: DW_AT_NAME, value: InputValue::Text(s("engineSpeed")) },
                    InputAttribute { name: 0x02, value: InputValue::Location(Some(0x1000_0040)) },
                ],
            },
        ],
    }];
    let (out, names) = obfuscate_dwarf(&input).expect("well formed");
    let p = out[0].entries[1]
        .attributes
        .iter()
        .find_map(|a| match &a.value {
            OutputValue::Text(t) if a.name == DW_AT_NAME => Some(t.clone()),
            _ => None,
        })
        .unwrap();
    assert_eq!(p.len(), 11);
    assert!(p.chars().all(|c| c.is_ascii_alphabetic()));
    assert_ne!(p, "engineSpeed");
    let loc = out[0].entries[1].attributes.iter().find_map(|a| match a.value {
        OutputValue::Location(x) => Some(x),
        _ => None,
    });
    assert_eq!(loc.unwrap() & 0xff, 0x40);

    let mut module = empty_module();
    module.measurement.push(measurement("EngSpeed_rpm", Some("engineSpeed")));
    obfuscate_module(&mut module, &names);
    let m = &module.measurement[0];
    assert_ne!(m.name, "EngSpeed_rpm");
    assert!(same_shape("EngSpeed_rpm", &m.name));
    assert_ne!(m.name, p);
    assert_eq!(m.symbol_link, Some(p));
    assert_eq!(m.ecu_address, Some(0));
    assert_eq!(m.conversion, "NO_COMPU_METHOD");
}

#[test]
fn cross_references_follow_renames() {
    let mut module = empty_module();
    let mut a = characteristic("MapA");
    a.dependent_characteristic = Some(vec![s("MapB"), s("Ghost_9")]);
    a.axis_descr = vec![AxisDescr { input_quantity: s("nEng"), conversion: s("NO_COMPU_METHOD"), axis_pts_ref: Some(s("AxisX")) }];
    a.function_list = Some(vec![s("FnMain")]);
    module.characteristic.push(a);
    module.characteristic.push(characteristic("MapB"));
    module.measurement.push(measurement("nEng", None));
    module.axis_pts.push(AxisPts {
        name: s("AxisX"),
        long_identifier: s("x axis"),
        display_identifier: None,
        symbol_link: None,
        link_map_symbols: vec![],
        address: 0x4000,
        input_quantity: s("nEng"),
        deposit_record: s("RL_MAP"),
        conversion: s("CM_RPM"),
        function_list: None,
    });
    module.record_layout.push(RecordLayout { name: s("RL_MAP") });
    module.function.push(Function {
        name: s("FnMain"),
        long_identifier: s("main function"),
        def_characteristic: Some(vec![s("MapA")]),
        ref_characteristic: None,
        in_measurement: Some(vec![s("nEng")]),
        out_measurement: None,
        loc_measurement: None,
        sub_function: Some(vec![s("FnMain")]),
    });
    module.group.push(Group {
        name: s("GrpAll"),
        long_identifier: s("everything"),
        ref_characteristic: Some(vec![s("MapB")]),
        ref_measurement: Some(vec![s("nEng")]),
        function_list: None,
        sub_group: Some(vec![s("GrpAll")]),
    });
    module.compu_method.push(CompuMethod {
        name: s("CM_RPM"),
        unit: s("rpm"),
        compu_tab_ref: Some(s("TAB_1")),
        status_string_ref: None,
    });
    module.compu_vtab.push(CompuTable { name: s("TAB_1"), long_identifier: s("states"), out_values: vec![s("On"), s("Off")] });
    module.transformer.push(Transformer { in_objects: Some(vec![s("MapB")]), out_objects: None });
    module.typedef_axis.push(TypedefAxis {
        input_quantity: s("nEng"),
        record_layout: s("RL_MAP"),
        conversion: s("NO_COMPU_METHOD"),
    });
    module.user_rights.push(UserRights { ref_group: vec![vec![s("GrpAll")]] });

    obfuscate_module(&mut module, &NameTable::new());

    let a = &module.characteristic[0];
    let b = &module.characteristic[1];
    assert!(same_shape("MapA", &a.name) && a.name != "MapA");
    assert_eq!(a.address, 0);
    let dep = a.dependent_characteristic.clone().unwrap();
    assert_eq!(dep[0], b.name);
    assert!(dep[1] != "Ghost_9" && same_shape("Ghost_9", &dep[1]));
    let meas = &module.measurement[0].name;
    assert_eq!(&a.axis_descr[0].input_quantity, meas);
    assert_eq!(a.axis_descr[0].axis_pts_ref, Some(module.axis_pts[0].name.clone()));
    assert_eq!(a.axis_descr[0].conversion, "NO_COMPU_METHOD");
    assert_eq!(a.deposit, module.record_layout[0].name);
    assert_eq!(a.conversion, module.compu_method[0].name);
    assert_eq!(a.function_list.clone().unwrap()[0], module.function[0].name);
    assert_eq!(&module.axis_pts[0].input_quantity, meas);
    assert_eq!(module.axis_pts[0].deposit_record, module.record_layout[0].name);
    assert_eq!(module.axis_pts[0].address, 0);
    let f = &module.function[0];
    assert_eq!(f.def_characteristic.clone().unwrap()[0], a.name);
    assert_eq!(&f.in_measurement.clone().unwrap()[0], meas);
    assert_eq!(f.sub_function.clone().unwrap()[0], f.name);
    let g = &module.group[0];
    assert_eq!(g.ref_characteristic.clone().unwrap()[0], b.name);
    assert_eq!(g.sub_group.clone().unwrap()[0], g.name);
    assert_eq!(module.user_rights[0].ref_group[0][0], g.name);
    assert_eq!(module.compu_method[0].compu_tab_ref, Some(module.compu_vtab[0].name.clone()));
    assert_eq!(module.compu_method[0].unit.chars().count(), 3);
    assert!(same_shape("On", &module.compu_vtab[0].out_values[0]));
    assert_eq!(module.transformer[0].in_objects.clone().unwrap()[0], b.name);
    assert_eq!(&module.typedef_axis[0].input_quantity, meas);
    assert_eq!(module.typedef_axis[0].record_layout, module.record_layout[0].name);
    assert_eq!(module.typedef_axis[0].conversion, "NO_COMPU_METHOD");
    assert_ne!(module.record_layout[0].name, "RL_MAP");
    assert_ne!(module.compu_method[0].name, "CM_RPM");
    assert_ne!(module.function[0].name, "FnMain");
    assert_ne!(module.group[0].name, "GrpAll");
    assert_ne!(module.compu_vtab[0].name, "TAB_1");
    assert_ne!(module.axis_pts[0].name, "AxisX");
    assert_ne!(module.measurement[0].name, "nEng");
    assert_eq!(module.name, "ECU");
}

#[test]
fn project_names_are_replaced() {
    let mut project = Project { name: s("Proj"), long_identifier: s("my project"), module: vec![empty_module()] };
    obfuscate_project(&mut project, &NameTable::new());
    assert!(project.name != "Proj" && same_shape("Proj", &project.name));
    assert_eq!(project.long_identifier.chars().count(), 10);
    assert!(project.module[0].name != "ECU" && same_shape("ECU", &project.module[0].name));
    assert_eq!(project.module[0].long_identifier.chars().count(), 14);
}

#[test]
fn repeated_name_uses_last_rename() {
    let mut module = empty_module();
    module.characteristic.push(characteristic("Dup"));
    module.characteristic.push(characteristic("Dup"));
    module.function.push(Function {
        name: s("Fn"),
        long_identifier: s(""),
        def_characteristic: Some(vec![s("Dup")]),
        ref_characteristic: None,
        in_measurement: None,
        out_measurement: None,
        loc_measurement: None,
        sub_function: None,
    });
    obfuscate_module(&mut module, &NameTable::new());
    assert_eq!(module.function[0].def_characteristic.clone().unwrap()[0], module.characteristic[1].name);
    assert_eq!(module.function[0].long_identifier, "");
}

#[test]
fn categories_rename_independently() {
    let mut module = empty_module();
    module.characteristic.push(characteristic("Same"));
    module.measurement.push(measurement("Same", None));
    module.group.push(Group {
        name: s("G"),
        long_identifier: s("g"),
        ref_characteristic: Some(vec![s("Same")]),
        ref_measurement: Some(vec![s("Same")]),
        function_list: None,
        sub_group: None,
    });
    obfuscate_module(&mut module, &NameTable::new());
    let g = &module.group[0];
    assert_eq!(g.ref_characteristic.clone().unwrap()[0], module.characteristic[0].name);
    assert_eq!(g.ref_measurement.clone().unwrap()[0], module.measurement[0].name);
}
