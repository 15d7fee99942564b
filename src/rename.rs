//! The identifier rename engine: every object of the document gets a pseudonym,
//! category by category, each category's rename table then repairs the
//! references to it.
use crate::bridge::{link_resolved, symbol_resolved, obfuscate_ifdata, obfuscate_symbol_link};
use crate::calibration::{
    AxisDescr, AxisPts, Characteristic, CompuMethod, CompuTable, Function, Group, Measurement, Module,
    Project, RecordLayout,
};
use crate::pseudonym::{has_letter, is_text_symbol, obfuscate_string, obfuscate_string_with_syms, renamed_identifier};
use crate::table::NameTable;
use crate::repair::{conversion_repaired, opt_list_repaired, opt_repaired, repaired};
use crate::xrefs::{
    user_rights_group_refs_repaired,
    axis_pts_xrefs_repaired, characteristic_xrefs_repaired, compu_method_xrefs_repaired,
    compu_tabs_xrefs_repaired, function_xrefs_repaired, group_xrefs_repaired,
    measurement_xrefs_repaired, record_layout_xrefs_repaired, update_axis_pts_xrefs,
    update_characteristic_xrefs, update_compu_method_xrefs, update_compu_tabs_xrefs,
    update_function_xrefs, update_group_xrefs, update_measurement_xrefs,
    update_record_layout_xrefs,
};
use vstd::prelude::*;

verus! {

/// The rename table that a sequence of (old name, new name) records leaves: a
/// later record of an old name replaces an earlier one.
pub open spec fn rename_map(pairs: Seq<(Seq<char>, Seq<char>)>) -> Map<Seq<char>, Seq<char>>
    decreases pairs.len(),
{
    if pairs.len() == 0 {
        Map::empty()
    } else {
        rename_map(pairs.drop_last()).insert(pairs.last().0, pairs.last().1)
    }
}

/// Where one name is renamed several times within a category, the rename table
/// holds the last of its new names.
pub proof fn rename_last_write_wins(pairs: Seq<(Seq<char>, Seq<char>)>, i: int)
    requires
        0 <= i < pairs.len(),
        forall|j: int| i < j < pairs.len() ==> (#[trigger] pairs[j]).0 != pairs[i].0,
    ensures
        rename_map(pairs).contains_key(pairs[i].0),
        rename_map(pairs)[pairs[i].0] == pairs[i].1,
    decreases pairs.len(),
{
    if i < pairs.len() - 1 {
        rename_last_write_wins(pairs.drop_last(), i);
    }
}

/// `n` is a free-text pseudonym of the label `o`: as long, of free-text symbols, and
/// different from `o` in the first character.
pub open spec fn text_pseudonym(o: Seq<char>, n: Seq<char>) -> bool {
    &&& n.len() == o.len()
    &&& forall|i: int| 0 <= i < n.len() ==> is_text_symbol(#[trigger] n[i])
    &&& o.len() > 0 ==> n[0] != o[0]
}

/// An optional identifier after renaming.
pub open spec fn opt_shape(o: Option<String>, n: Option<String>) -> bool {
    match o {
        None => n is None,
        Some(x) => (n matches Some(y) && renamed_identifier(x@, y@)),
    }
}

/// The link-map symbols of interface data after correlation.
pub open spec fn link_maps_resolved(
    o: Seq<Option<String>>,
    n: Seq<Option<String>>,
    d: Map<Seq<char>, Seq<char>>,
) -> bool {
    &&& n.len() == o.len()
    &&& forall|i: int| 0 <= i < o.len() ==> link_resolved(#[trigger] o[i], n[i], d)
}

/// Renames an optional identifier in place.
fn rename_opt_identifier(x: &mut Option<String>)
    ensures
        opt_shape(*old(x), *final(x)),
{
    match x {
        Some(s) => {
            *s = obfuscate_string(s.as_str());
        },
        None => {},
    }
}

/// Replaces a label by a free-text pseudonym.
fn rename_label(x: &mut String)
    ensures
        text_pseudonym(old(x)@, final(x)@),
{
    *x = obfuscate_string_with_syms(x.as_str());
}

/// Renames every identifier of a list in place.
fn rename_identifiers(xs: &mut Vec<String>)
    ensures
        final(xs)@.len() == old(xs)@.len(),
        forall|i: int| 0 <= i < old(xs)@.len() ==> renamed_identifier(#[trigger] old(xs)@[i]@, final(xs)@[i]@),
{
    let mut i: usize = 0;
    while i < xs.len()
        invariant
            i <= xs@.len(),
            xs@.len() == old(xs)@.len(),
            forall|j: int| 0 <= j < i ==> renamed_identifier(#[trigger] old(xs)@[j]@, xs@[j]@),
            forall|j: int| i <= j < xs@.len() ==> #[trigger] xs@[j] == old(xs)@[j],
        decreases xs@.len() - i,
    {
        let n = obfuscate_string(xs[i].as_str());
        xs[i] = n;
        i = i + 1;
    }
}

/// A renamed characteristic: new name of the same shape, labels scrambled, symbol
/// links correlated through the debug names `d`, address erased.
pub open spec fn characteristic_renamed(o: Characteristic, n: Characteristic, d: Map<Seq<char>, Seq<char>>) -> bool {
    &&& n == (Characteristic {
        name: n.name,
        long_identifier: n.long_identifier,
        display_identifier: n.display_identifier,
        symbol_link: n.symbol_link,
        link_map_symbols: n.link_map_symbols,
        address: 0,
        ..o
    })
    &&& renamed_identifier(o.name@, n.name@)
    &&& text_pseudonym(o.long_identifier@, n.long_identifier@)
    &&& opt_shape(o.display_identifier, n.display_identifier)
    &&& link_resolved(o.symbol_link, n.symbol_link, d)
    &&& link_maps_resolved(o.link_map_symbols@, n.link_map_symbols@, d)
}

/// Renames a characteristic; returns its old and its new name.
pub fn rename_characteristic(x: &mut Characteristic, debug_names: &NameTable) -> (r: (String, String))
    ensures
        characteristic_renamed(*old(x), *final(x), debug_names@),
        r.0@ == old(x).name@,
        r.1@ == final(x).name@,
{
    let old_name = x.name.clone();
    x.name = obfuscate_string(old_name.as_str());
    rename_label(&mut x.long_identifier);
    rename_opt_identifier(&mut x.display_identifier);
    obfuscate_symbol_link(&mut x.symbol_link, debug_names);
    obfuscate_ifdata(&mut x.link_map_symbols, debug_names);
    x.address = 0;
    (old_name, x.name.clone())
}

/// A renamed measurement: as a characteristic, with its address erased where it
/// has one.
pub open spec fn measurement_renamed(o: Measurement, n: Measurement, d: Map<Seq<char>, Seq<char>>) -> bool {
    &&& n == (Measurement {
        name: n.name,
        long_identifier: n.long_identifier,
        display_identifier: n.display_identifier,
        symbol_link: n.symbol_link,
        link_map_symbols: n.link_map_symbols,
        ecu_address: if o.ecu_address is Some { Some(0u32) } else { None },
        ..o
    })
    &&& renamed_identifier(o.name@, n.name@)
    &&& text_pseudonym(o.long_identifier@, n.long_identifier@)
    &&& opt_shape(o.display_identifier, n.display_identifier)
    &&& link_resolved(o.symbol_link, n.symbol_link, d)
    &&& link_maps_resolved(o.link_map_symbols@, n.link_map_symbols@, d)
}

/// Renames a measurement; returns its old and its new name.
pub fn rename_measurement(x: &mut Measurement, debug_names: &NameTable) -> (r: (String, String))
    ensures
        measurement_renamed(*old(x), *final(x), debug_names@),
        r.0@ == old(x).name@,
        r.1@ == final(x).name@,
{
    let old_name = x.name.clone();
    x.name = obfuscate_string(old_name.as_str());
    rename_label(&mut x.long_identifier);
    rename_opt_identifier(&mut x.display_identifier);
    obfuscate_symbol_link(&mut x.symbol_link, debug_names);
    obfuscate_ifdata(&mut x.link_map_symbols, debug_names);
    if x.ecu_address.is_some() {
        x.ecu_address = Some(0);
    }
    (old_name, x.name.clone())
}

/// Renamed axis points: as a characteristic.
pub open spec fn axis_pts_renamed(o: AxisPts, n: AxisPts, d: Map<Seq<char>, Seq<char>>) -> bool {
    &&& n == (AxisPts {
        name: n.name,
        long_identifier: n.long_identifier,
        display_identifier: n.display_identifier,
        symbol_link: n.symbol_link,
        link_map_symbols: n.link_map_symbols,
        address: 0,
        ..o
    })
    &&& renamed_identifier(o.name@, n.name@)
    &&& text_pseudonym(o.long_identifier@, n.long_identifier@)
    &&& opt_shape(o.display_identifier, n.display_identifier)
    &&& link_resolved(o.symbol_link, n.symbol_link, d)
    &&& link_maps_resolved(o.link_map_symbols@, n.link_map_symbols@, d)
}

/// Renames axis points; returns their old and their new name.
pub fn rename_axis_pts(x: &mut AxisPts, debug_names: &NameTable) -> (r: (String, String))
    ensures
        axis_pts_renamed(*old(x), *final(x), debug_names@),
        r.0@ == old(x).name@,
        r.1@ == final(x).name@,
{
    let old_name = x.name.clone();
    x.name = obfuscate_string(old_name.as_str());
    rename_label(&mut x.long_identifier);
    rename_opt_identifier(&mut x.display_identifier);
    obfuscate_symbol_link(&mut x.symbol_link, debug_names);
    obfuscate_ifdata(&mut x.link_map_symbols, debug_names);
    x.address = 0;
    (old_name, x.name.clone())
}

/// A renamed record layout.
pub open spec fn record_layout_renamed(o: RecordLayout, n: RecordLayout) -> bool {
    renamed_identifier(o.name@, n.name@)
}

/// Renames a record layout; returns its old and its new name.
pub fn rename_record_layout(x: &mut RecordLayout) -> (r: (String, String))
    ensures
        record_layout_renamed(*old(x), *final(x)),
        r.0@ == old(x).name@,
        r.1@ == final(x).name@,
{
    let old_name = x.name.clone();
    x.name = obfuscate_string(old_name.as_str());
    (old_name, x.name.clone())
}

/// A renamed function: new name, label scrambled.
pub open spec fn function_renamed(o: Function, n: Function) -> bool {
    &&& n == (Function { name: n.name, long_identifier: n.long_identifier, ..o })
    &&& renamed_identifier(o.name@, n.name@)
    &&& text_pseudonym(o.long_identifier@, n.long_identifier@)
}

/// Renames a function; returns its old and its new name.
pub fn rename_function(x: &mut Function) -> (r: (String, String))
    ensures
        function_renamed(*old(x), *final(x)),
        r.0@ == old(x).name@,
        r.1@ == final(x).name@,
{
    let old_name = x.name.clone();
    x.name = obfuscate_string(old_name.as_str());
    rename_label(&mut x.long_identifier);
    (old_name, x.name.clone())
}

/// A renamed group: new name, label scrambled.
pub open spec fn group_renamed(o: Group, n: Group) -> bool {
    &&& n == (Group { name: n.name, long_identifier: n.long_identifier, ..o })
    &&& renamed_identifier(o.name@, n.name@)
    &&& text_pseudonym(o.long_identifier@, n.long_identifier@)
}

/// Renames a group; returns its old and its new name.
pub fn rename_group(x: &mut Group) -> (r: (String, String))
    ensures
        group_renamed(*old(x), *final(x)),
        r.0@ == old(x).name@,
        r.1@ == final(x).name@,
{
    let old_name = x.name.clone();
    x.name = obfuscate_string(old_name.as_str());
    rename_label(&mut x.long_identifier);
    (old_name, x.name.clone())
}

/// A renamed computation method: new name, unit text scrambled.
pub open spec fn compu_method_renamed(o: CompuMethod, n: CompuMethod) -> bool {
    &&& n == (CompuMethod { name: n.name, unit: n.unit, ..o })
    &&& renamed_identifier(o.name@, n.name@)
    &&& text_pseudonym(o.unit@, n.unit@)
}

/// Renames a computation method; returns its old and its new name.
pub fn rename_compu_method(x: &mut CompuMethod) -> (r: (String, String))
    ensures
        compu_method_renamed(*old(x), *final(x)),
        r.0@ == old(x).name@,
        r.1@ == final(x).name@,
{
    let old_name = x.name.clone();
    x.name = obfuscate_string(old_name.as_str());
    rename_label(&mut x.unit);
    (old_name, x.name.clone())
}

/// A renamed computation table: new name, label scrambled, output texts renamed.
pub open spec fn compu_table_renamed(o: CompuTable, n: CompuTable) -> bool {
    &&& renamed_identifier(o.name@, n.name@)
    &&& text_pseudonym(o.long_identifier@, n.long_identifier@)
    &&& n.out_values@.len() == o.out_values@.len()
    &&& forall|i: int|
        0 <= i < o.out_values@.len() ==> renamed_identifier(#[trigger] o.out_values@[i]@, n.out_values@[i]@)
}

/// Renames a computation table; returns its old and its new name.
pub fn rename_compu_table(x: &mut CompuTable) -> (r: (String, String))
    ensures
        compu_table_renamed(*old(x), *final(x)),
        r.0@ == old(x).name@,
        r.1@ == final(x).name@,
{
    let old_name = x.name.clone();
    x.name = obfuscate_string(old_name.as_str());
    rename_label(&mut x.long_identifier);
    rename_identifiers(&mut x.out_values);
    (old_name, x.name.clone())
}

/// The (old name, new name) records of renaming the objects `o` into `n`.
pub open spec fn characteristic_renames(o: Seq<Characteristic>, n: Seq<Characteristic>) -> Seq<(Seq<char>, Seq<char>)> {
    Seq::new(o.len(), |j: int| (o[j].name@, n[j].name@))
}

/// The (old name, new name) records of renaming the objects `o` into `n`.
pub open spec fn measurement_renames(o: Seq<Measurement>, n: Seq<Measurement>) -> Seq<(Seq<char>, Seq<char>)> {
    Seq::new(o.len(), |j: int| (o[j].name@, n[j].name@))
}

/// The (old name, new name) records of renaming the objects `o` into `n`.
pub open spec fn axis_pts_renames(o: Seq<AxisPts>, n: Seq<AxisPts>) -> Seq<(Seq<char>, Seq<char>)> {
    Seq::new(o.len(), |j: int| (o[j].name@, n[j].name@))
}

/// The (old name, new name) records of renaming the objects `o` into `n`.
pub open spec fn record_layout_renames(o: Seq<RecordLayout>, n: Seq<RecordLayout>) -> Seq<(Seq<char>, Seq<char>)> {
    Seq::new(o.len(), |j: int| (o[j].name@, n[j].name@))
}

/// The (old name, new name) records of renaming the objects `o` into `n`.
pub open spec fn function_renames(o: Seq<Function>, n: Seq<Function>) -> Seq<(Seq<char>, Seq<char>)> {
    Seq::new(o.len(), |j: int| (o[j].name@, n[j].name@))
}

/// The (old name, new name) records of renaming the objects `o` into `n`.
pub open spec fn group_renames(o: Seq<Group>, n: Seq<Group>) -> Seq<(Seq<char>, Seq<char>)> {
    Seq::new(o.len(), |j: int| (o[j].name@, n[j].name@))
}

/// The (old name, new name) records of renaming the objects `o` into `n`.
pub open spec fn compu_method_renames(o: Seq<CompuMethod>, n: Seq<CompuMethod>) -> Seq<(Seq<char>, Seq<char>)> {
    Seq::new(o.len(), |j: int| (o[j].name@, n[j].name@))
}

/// The (old name, new name) records of renaming the objects `o` into `n`.
pub open spec fn compu_table_renames(o: Seq<CompuTable>, n: Seq<CompuTable>) -> Seq<(Seq<char>, Seq<char>)> {
    Seq::new(o.len(), |j: int| (o[j].name@, n[j].name@))
}

/// `n` is `o` with every object of the characteristic category renamed.
pub open spec fn characteristic_pass_renamed(o: Module, n: Module, d: Map<Seq<char>, Seq<char>>) -> bool {
    &&& n == (Module { characteristic: n.characteristic, ..o })
    &&& n.characteristic@.len() == o.characteristic@.len()
    &&& forall|j: int| 0 <= j < o.characteristic@.len() ==> characteristic_renamed(#[trigger] o.characteristic@[j], n.characteristic@[j], d)
}

/// Renames every object of the characteristic category, correlating symbol links through
/// `debug_names`; returns the category's rename table.
pub fn rename_characteristics(module: &mut Module, debug_names: &NameTable) -> (table: NameTable)
    ensures
        characteristic_pass_renamed(*old(module), *final(module), debug_names@),
        table@ == rename_map(characteristic_renames(old(module).characteristic@, final(module).characteristic@)),
{
    let mut table = NameTable::new();
    let ghost mut pairs: Seq<(Seq<char>, Seq<char>)> = Seq::empty();
    let mut i: usize = 0;
    while i < module.characteristic.len()
        invariant
            *module == (Module { characteristic: module.characteristic, ..*old(module) }),
            i <= module.characteristic@.len(),
            module.characteristic@.len() == old(module).characteristic@.len(),
            forall|j: int| 0 <= j < i ==> characteristic_renamed(#[trigger] old(module).characteristic@[j], module.characteristic@[j], debug_names@),
            forall|j: int| i <= j < module.characteristic@.len() ==> #[trigger] module.characteristic@[j] == old(module).characteristic@[j],
            pairs.len() == i,
            forall|j: int| 0 <= j < i ==> #[trigger] pairs[j] == (old(module).characteristic@[j].name@, module.characteristic@[j].name@),
            table@ == rename_map(pairs),
        decreases module.characteristic@.len() - i,
    {
        let (old_name, new_name) = rename_characteristic(&mut module.characteristic[i], debug_names);
        proof {
            let p = (old_name@, new_name@);
            assert((pairs.push(p)).drop_last() == pairs);
            pairs = pairs.push(p);
        }
        table.insert(old_name, new_name);
        i = i + 1;
    }
    proof {
        let r = characteristic_renames(old(module).characteristic@, module.characteristic@);
        assert(pairs =~= r);
    }
    table
}

/// `n` is `o` with every object of the measurement category renamed.
pub open spec fn measurement_pass_renamed(o: Module, n: Module, d: Map<Seq<char>, Seq<char>>) -> bool {
    &&& n == (Module { measurement: n.measurement, ..o })
    &&& n.measurement@.len() == o.measurement@.len()
    &&& forall|j: int| 0 <= j < o.measurement@.len() ==> measurement_renamed(#[trigger] o.measurement@[j], n.measurement@[j], d)
}

/// Renames every object of the measurement category, correlating symbol links through
/// `debug_names`; returns the category's rename table.
pub fn rename_measurements(module: &mut Module, debug_names: &NameTable) -> (table: NameTable)
    ensures
        measurement_pass_renamed(*old(module), *final(module), debug_names@),
        table@ == rename_map(measurement_renames(old(module).measurement@, final(module).measurement@)),
{
    let mut table = NameTable::new();
    let ghost mut pairs: Seq<(Seq<char>, Seq<char>)> = Seq::empty();
    let mut i: usize = 0;
    while i < module.measurement.len()
        invariant
            *module == (Module { measurement: module.measurement, ..*old(module) }),
            i <= module.measurement@.len(),
            module.measurement@.len() == old(module).measurement@.len(),
            forall|j: int| 0 <= j < i ==> measurement_renamed(#[trigger] old(module).measurement@[j], module.measurement@[j], debug_names@),
            forall|j: int| i <= j < module.measurement@.len() ==> #[trigger] module.measurement@[j] == old(module).measurement@[j],
            pairs.len() == i,
            forall|j: int| 0 <= j < i ==> #[trigger] pairs[j] == (old(module).measurement@[j].name@, module.measurement@[j].name@),
            table@ == rename_map(pairs),
        decreases module.measurement@.len() - i,
    {
        let (old_name, new_name) = rename_measurement(&mut module.measurement[i], debug_names);
        proof {
            let p = (old_name@, new_name@);
            assert((pairs.push(p)).drop_last() == pairs);
            pairs = pairs.push(p);
        }
        table.insert(old_name, new_name);
        i = i + 1;
    }
    proof {
        let r = measurement_renames(old(module).measurement@, module.measurement@);
        assert(pairs =~= r);
    }
    table
}

/// `n` is `o` with every object of the axis-points category renamed.
pub open spec fn axis_pts_pass_renamed(o: Module, n: Module, d: Map<Seq<char>, Seq<char>>) -> bool {
    &&& n == (Module { axis_pts: n.axis_pts, ..o })
    &&& n.axis_pts@.len() == o.axis_pts@.len()
    &&& forall|j: int| 0 <= j < o.axis_pts@.len() ==> axis_pts_renamed(#[trigger] o.axis_pts@[j], n.axis_pts@[j], d)
}

/// Renames every object of the axis-points category, correlating symbol links through
/// `debug_names`; returns the category's rename table.
pub fn rename_axis_points(module: &mut Module, debug_names: &NameTable) -> (table: NameTable)
    ensures
        axis_pts_pass_renamed(*old(module), *final(module), debug_names@),
        table@ == rename_map(axis_pts_renames(old(module).axis_pts@, final(module).axis_pts@)),
{
    let mut table = NameTable::new();
    let ghost mut pairs: Seq<(Seq<char>, Seq<char>)> = Seq::empty();
    let mut i: usize = 0;
    while i < module.axis_pts.len()
        invariant
            *module == (Module { axis_pts: module.axis_pts, ..*old(module) }),
            i <= module.axis_pts@.len(),
            module.axis_pts@.len() == old(module).axis_pts@.len(),
            forall|j: int| 0 <= j < i ==> axis_pts_renamed(#[trigger] old(module).axis_pts@[j], module.axis_pts@[j], debug_names@),
            forall|j: int| i <= j < module.axis_pts@.len() ==> #[trigger] module.axis_pts@[j] == old(module).axis_pts@[j],
            pairs.len() == i,
            forall|j: int| 0 <= j < i ==> #[trigger] pairs[j] == (old(module).axis_pts@[j].name@, module.axis_pts@[j].name@),
            table@ == rename_map(pairs),
        decreases module.axis_pts@.len() - i,
    {
        let (old_name, new_name) = rename_axis_pts(&mut module.axis_pts[i], debug_names);
        proof {
            let p = (old_name@, new_name@);
            assert((pairs.push(p)).drop_last() == pairs);
            pairs = pairs.push(p);
        }
        table.insert(old_name, new_name);
        i = i + 1;
    }
    proof {
        let r = axis_pts_renames(old(module).axis_pts@, module.axis_pts@);
        assert(pairs =~= r);
    }
    table
}

/// `n` is `o` with every object of the record-layout category renamed.
pub open spec fn record_layout_pass_renamed(o: Module, n: Module) -> bool {
    &&& n == (Module { record_layout: n.record_layout, ..o })
    &&& n.record_layout@.len() == o.record_layout@.len()
    &&& forall|j: int| 0 <= j < o.record_layout@.len() ==> record_layout_renamed(#[trigger] o.record_layout@[j], n.record_layout@[j])
}

/// Renames every object of the record-layout category; returns the
/// category's rename table.
pub fn rename_record_layouts(module: &mut Module) -> (table: NameTable)
    ensures
        record_layout_pass_renamed(*old(module), *final(module)),
        table@ == rename_map(record_layout_renames(old(module).record_layout@, final(module).record_layout@)),
{
    let mut table = NameTable::new();
    let ghost mut pairs: Seq<(Seq<char>, Seq<char>)> = Seq::empty();
    let mut i: usize = 0;
    while i < module.record_layout.len()
        invariant
            *module == (Module { record_layout: module.record_layout, ..*old(module) }),
            i <= module.record_layout@.len(),
            module.record_layout@.len() == old(module).record_layout@.len(),
            forall|j: int| 0 <= j < i ==> record_layout_renamed(#[trigger] old(module).record_layout@[j], module.record_layout@[j]),
            forall|j: int| i <= j < module.record_layout@.len() ==> #[trigger] module.record_layout@[j] == old(module).record_layout@[j],
            pairs.len() == i,
            forall|j: int| 0 <= j < i ==> #[trigger] pairs[j] == (old(module).record_layout@[j].name@, module.record_layout@[j].name@),
            table@ == rename_map(pairs),
        decreases module.record_layout@.len() - i,
    {
        let (old_name, new_name) = rename_record_layout(&mut module.record_layout[i]);
        proof {
            let p = (old_name@, new_name@);
            assert((pairs.push(p)).drop_last() == pairs);
            pairs = pairs.push(p);
        }
        table.insert(old_name, new_name);
        i = i + 1;
    }
    proof {
        let r = record_layout_renames(old(module).record_layout@, module.record_layout@);
        assert(pairs =~= r);
    }
    table
}

/// `n` is `o` with every object of the function category renamed.
pub open spec fn function_pass_renamed(o: Module, n: Module) -> bool {
    &&& n == (Module { function: n.function, ..o })
    &&& n.function@.len() == o.function@.len()
    &&& forall|j: int| 0 <= j < o.function@.len() ==> function_renamed(#[trigger] o.function@[j], n.function@[j])
}

/// Renames every object of the function category; returns the
/// category's rename table.
pub fn rename_functions(module: &mut Module) -> (table: NameTable)
    ensures
        function_pass_renamed(*old(module), *final(module)),
        table@ == rename_map(function_renames(old(module).function@, final(module).function@)),
{
    let mut table = NameTable::new();
    let ghost mut pairs: Seq<(Seq<char>, Seq<char>)> = Seq::empty();
    let mut i: usize = 0;
    while i < module.function.len()
        invariant
            *module == (Module { function: module.function, ..*old(module) }),
            i <= module.function@.len(),
            module.function@.len() == old(module).function@.len(),
            forall|j: int| 0 <= j < i ==> function_renamed(#[trigger] old(module).function@[j], module.function@[j]),
            forall|j: int| i <= j < module.function@.len() ==> #[trigger] module.function@[j] == old(module).function@[j],
            pairs.len() == i,
            forall|j: int| 0 <= j < i ==> #[trigger] pairs[j] == (old(module).function@[j].name@, module.function@[j].name@),
            table@ == rename_map(pairs),
        decreases module.function@.len() - i,
    {
        let (old_name, new_name) = rename_function(&mut module.function[i]);
        proof {
            let p = (old_name@, new_name@);
            assert((pairs.push(p)).drop_last() == pairs);
            pairs = pairs.push(p);
        }
        table.insert(old_name, new_name);
        i = i + 1;
    }
    proof {
        let r = function_renames(old(module).function@, module.function@);
        assert(pairs =~= r);
    }
    table
}

/// `n` is `o` with every object of the group category renamed.
pub open spec fn group_pass_renamed(o: Module, n: Module) -> bool {
    &&& n == (Module { group: n.group, ..o })
    &&& n.group@.len() == o.group@.len()
    &&& forall|j: int| 0 <= j < o.group@.len() ==> group_renamed(#[trigger] o.group@[j], n.group@[j])
}

/// Renames every object of the group category; returns the
/// category's rename table.
pub fn rename_groups(module: &mut Module) -> (table: NameTable)
    ensures
        group_pass_renamed(*old(module), *final(module)),
        table@ == rename_map(group_renames(old(module).group@, final(module).group@)),
{
    let mut table = NameTable::new();
    let ghost mut pairs: Seq<(Seq<char>, Seq<char>)> = Seq::empty();
    let mut i: usize = 0;
    while i < module.group.len()
        invariant
            *module == (Module { group: module.group, ..*old(module) }),
            i <= module.group@.len(),
            module.group@.len() == old(module).group@.len(),
            forall|j: int| 0 <= j < i ==> group_renamed(#[trigger] old(module).group@[j], module.group@[j]),
            forall|j: int| i <= j < module.group@.len() ==> #[trigger] module.group@[j] == old(module).group@[j],
            pairs.len() == i,
            forall|j: int| 0 <= j < i ==> #[trigger] pairs[j] == (old(module).group@[j].name@, module.group@[j].name@),
            table@ == rename_map(pairs),
        decreases module.group@.len() - i,
    {
        let (old_name, new_name) = rename_group(&mut module.group[i]);
        proof {
            let p = (old_name@, new_name@);
            assert((pairs.push(p)).drop_last() == pairs);
            pairs = pairs.push(p);
        }
        table.insert(old_name, new_name);
        i = i + 1;
    }
    proof {
        let r = group_renames(old(module).group@, module.group@);
        assert(pairs =~= r);
    }
    table
}

/// `n` is `o` with every object of the computation-method category renamed.
pub open spec fn compu_method_pass_renamed(o: Module, n: Module) -> bool {
    &&& n == (Module { compu_method: n.compu_method, ..o })
    &&& n.compu_method@.len() == o.compu_method@.len()
    &&& forall|j: int| 0 <= j < o.compu_method@.len() ==> compu_method_renamed(#[trigger] o.compu_method@[j], n.compu_method@[j])
}

/// Renames every object of the computation-method category; returns the
/// category's rename table.
pub fn rename_compu_methods(module: &mut Module) -> (table: NameTable)
    ensures
        compu_method_pass_renamed(*old(module), *final(module)),
        table@ == rename_map(compu_method_renames(old(module).compu_method@, final(module).compu_method@)),
{
    let mut table = NameTable::new();
    let ghost mut pairs: Seq<(Seq<char>, Seq<char>)> = Seq::empty();
    let mut i: usize = 0;
    while i < module.compu_method.len()
        invariant
            *module == (Module { compu_method: module.compu_method, ..*old(module) }),
            i <= module.compu_method@.len(),
            module.compu_method@.len() == old(module).compu_method@.len(),
            forall|j: int| 0 <= j < i ==> compu_method_renamed(#[trigger] old(module).compu_method@[j], module.compu_method@[j]),
            forall|j: int| i <= j < module.compu_method@.len() ==> #[trigger] module.compu_method@[j] == old(module).compu_method@[j],
            pairs.len() == i,
            forall|j: int| 0 <= j < i ==> #[trigger] pairs[j] == (old(module).compu_method@[j].name@, module.compu_method@[j].name@),
            table@ == rename_map(pairs),
        decreases module.compu_method@.len() - i,
    {
        let (old_name, new_name) = rename_compu_method(&mut module.compu_method[i]);
        proof {
            let p = (old_name@, new_name@);
            assert((pairs.push(p)).drop_last() == pairs);
            pairs = pairs.push(p);
        }
        table.insert(old_name, new_name);
        i = i + 1;
    }
    proof {
        let r = compu_method_renames(old(module).compu_method@, module.compu_method@);
        assert(pairs =~= r);
    }
    table
}

/// The (old name, new name) records of renaming the computation tables, value
/// tables and value-range tables of `o` into `n`, in that order.
pub open spec fn compu_tables_renames(o: Module, n: Module) -> Seq<(Seq<char>, Seq<char>)> {
    compu_table_renames(o.compu_tab@, n.compu_tab@) + compu_table_renames(o.compu_vtab@, n.compu_vtab@)
        + compu_table_renames(o.compu_vtab_range@, n.compu_vtab_range@)
}

/// `n` is `o` with every computation table, value table and value-range table
/// renamed.
pub open spec fn compu_tables_pass_renamed(o: Module, n: Module) -> bool {
    &&& n == (Module {
        compu_tab: n.compu_tab,
        compu_vtab: n.compu_vtab,
        compu_vtab_range: n.compu_vtab_range,
        ..o
    })
    &&& n.compu_tab@.len() == o.compu_tab@.len()
    &&& n.compu_vtab@.len() == o.compu_vtab@.len()
    &&& n.compu_vtab_range@.len() == o.compu_vtab_range@.len()
    &&& forall|j: int| 0 <= j < o.compu_tab@.len() ==> compu_table_renamed(#[trigger] o.compu_tab@[j], n.compu_tab@[j])
    &&& forall|j: int| 0 <= j < o.compu_vtab@.len() ==> compu_table_renamed(#[trigger] o.compu_vtab@[j], n.compu_vtab@[j])
    &&& forall|j: int| 0 <= j < o.compu_vtab_range@.len() ==> compu_table_renamed(#[trigger] o.compu_vtab_range@[j], n.compu_vtab_range@[j])
}

/// Renames every computation table, value table and value-range table; returns
/// their common rename table.
pub fn rename_compu_tables(module: &mut Module) -> (table: NameTable)
    ensures
        compu_tables_pass_renamed(*old(module), *final(module)),
        table@ == rename_map(compu_tables_renames(*old(module), *final(module))),
{
    let mut table = NameTable::new();
    let ghost mut pairs: Seq<(Seq<char>, Seq<char>)> = Seq::empty();
    let ghost pairs0 = pairs;
    let ghost m0 = *module;
    let mut i: usize = 0;
    while i < module.compu_tab.len()
        invariant
            *module == (Module { compu_tab: module.compu_tab, ..m0 }),
            m0 == (Module { compu_tab: m0.compu_tab, ..*old(module) }),
            module.compu_tab@.len() == m0.compu_tab@.len(),
            forall|j: int| i <= j < module.compu_tab@.len() ==> #[trigger] module.compu_tab@[j] == m0.compu_tab@[j],
            i <= module.compu_tab@.len(),
            module.compu_tab@.len() == old(module).compu_tab@.len(),
            forall|j: int| 0 <= j < i ==> compu_table_renamed(#[trigger] old(module).compu_tab@[j], module.compu_tab@[j]),
            forall|j: int| i <= j < module.compu_tab@.len() ==> #[trigger] module.compu_tab@[j] == old(module).compu_tab@[j],
            pairs.len() == pairs0.len() + i,
            pairs.subrange(0, pairs0.len() as int) == pairs0,
            forall|j: int| 0 <= j < i ==> #[trigger] pairs[pairs0.len() + j] == (old(module).compu_tab@[j].name@, module.compu_tab@[j].name@),
            table@ == rename_map(pairs),
        decreases module.compu_tab@.len() - i,
    {
        let (old_name, new_name) = rename_compu_table(&mut module.compu_tab[i]);
        proof {
            let p = (old_name@, new_name@);
            assert((pairs.push(p)).drop_last() == pairs);
            pairs = pairs.push(p);
        }
        table.insert(old_name, new_name);
        i = i + 1;
    }
    proof {
        let r = compu_table_renames(old(module).compu_tab@, module.compu_tab@);
        assert forall|j: int| 0 <= j < r.len() implies pairs[pairs0.len() + j] == r[j] by {}
        assert(pairs =~= pairs0 + r);
    }
    let ghost pairs0 = pairs;
    let ghost m0 = *module;
    let mut i: usize = 0;
    while i < module.compu_vtab.len()
        invariant
            *module == (Module { compu_vtab: module.compu_vtab, ..m0 }),
            m0 == (Module { compu_tab: m0.compu_tab, compu_vtab: m0.compu_vtab, ..*old(module) }),
            module.compu_vtab@.len() == m0.compu_vtab@.len(),
            forall|j: int| i <= j < module.compu_vtab@.len() ==> #[trigger] module.compu_vtab@[j] == m0.compu_vtab@[j],
            module.compu_tab@.len() == old(module).compu_tab@.len(),
            forall|j: int| 0 <= j < old(module).compu_tab@.len() ==> compu_table_renamed(#[trigger] old(module).compu_tab@[j], module.compu_tab@[j]),
            i <= module.compu_vtab@.len(),
            module.compu_vtab@.len() == old(module).compu_vtab@.len(),
            forall|j: int| 0 <= j < i ==> compu_table_renamed(#[trigger] old(module).compu_vtab@[j], module.compu_vtab@[j]),
            forall|j: int| i <= j < module.compu_vtab@.len() ==> #[trigger] module.compu_vtab@[j] == old(module).compu_vtab@[j],
            pairs.len() == pairs0.len() + i,
            pairs.subrange(0, pairs0.len() as int) == pairs0,
            forall|j: int| 0 <= j < i ==> #[trigger] pairs[pairs0.len() + j] == (old(module).compu_vtab@[j].name@, module.compu_vtab@[j].name@),
            table@ == rename_map(pairs),
        decreases module.compu_vtab@.len() - i,
    {
        let (old_name, new_name) = rename_compu_table(&mut module.compu_vtab[i]);
        proof {
            let p = (old_name@, new_name@);
            assert((pairs.push(p)).drop_last() == pairs);
            pairs = pairs.push(p);
        }
        table.insert(old_name, new_name);
        i = i + 1;
    }
    proof {
        let r = compu_table_renames(old(module).compu_vtab@, module.compu_vtab@);
        assert forall|j: int| 0 <= j < r.len() implies pairs[pairs0.len() + j] == r[j] by {}
        assert(pairs =~= pairs0 + r);
    }
    let ghost pairs0 = pairs;
    let ghost m0 = *module;
    let mut i: usize = 0;
    while i < module.compu_vtab_range.len()
        invariant
            *module == (Module { compu_vtab_range: module.compu_vtab_range, ..m0 }),
            m0 == (Module { compu_tab: m0.compu_tab, compu_vtab: m0.compu_vtab, compu_vtab_range: m0.compu_vtab_range, ..*old(module) }),
            module.compu_vtab_range@.len() == m0.compu_vtab_range@.len(),
            forall|j: int| i <= j < module.compu_vtab_range@.len() ==> #[trigger] module.compu_vtab_range@[j] == m0.compu_vtab_range@[j],
            module.compu_tab@.len() == old(module).compu_tab@.len(),
            forall|j: int| 0 <= j < old(module).compu_tab@.len() ==> compu_table_renamed(#[trigger] old(module).compu_tab@[j], module.compu_tab@[j]),
            module.compu_vtab@.len() == old(module).compu_vtab@.len(),
            forall|j: int| 0 <= j < old(module).compu_vtab@.len() ==> compu_table_renamed(#[trigger] old(module).compu_vtab@[j], module.compu_vtab@[j]),
            i <= module.compu_vtab_range@.len(),
            module.compu_vtab_range@.len() == old(module).compu_vtab_range@.len(),
            forall|j: int| 0 <= j < i ==> compu_table_renamed(#[trigger] old(module).compu_vtab_range@[j], module.compu_vtab_range@[j]),
            forall|j: int| i <= j < module.compu_vtab_range@.len() ==> #[trigger] module.compu_vtab_range@[j] == old(module).compu_vtab_range@[j],
            pairs.len() == pairs0.len() + i,
            pairs.subrange(0, pairs0.len() as int) == pairs0,
            forall|j: int| 0 <= j < i ==> #[trigger] pairs[pairs0.len() + j] == (old(module).compu_vtab_range@[j].name@, module.compu_vtab_range@[j].name@),
            table@ == rename_map(pairs),
        decreases module.compu_vtab_range@.len() - i,
    {
        let (old_name, new_name) = rename_compu_table(&mut module.compu_vtab_range[i]);
        proof {
            let p = (old_name@, new_name@);
            assert((pairs.push(p)).drop_last() == pairs);
            pairs = pairs.push(p);
        }
        table.insert(old_name, new_name);
        i = i + 1;
    }
    proof {
        let r = compu_table_renames(old(module).compu_vtab_range@, module.compu_vtab_range@);
        assert forall|j: int| 0 <= j < r.len() implies pairs[pairs0.len() + j] == r[j] by {}
        assert(pairs =~= pairs0 + r);
    }
    table
}


/// The rename tables of a module `o` obfuscated into `n`, one per category.
pub struct RenameTables {
    pub characteristic: Map<Seq<char>, Seq<char>>,
    pub measurement: Map<Seq<char>, Seq<char>>,
    pub axis_pts: Map<Seq<char>, Seq<char>>,
    pub record_layout: Map<Seq<char>, Seq<char>>,
    pub function: Map<Seq<char>, Seq<char>>,
    pub group: Map<Seq<char>, Seq<char>>,
    pub compu_method: Map<Seq<char>, Seq<char>>,
    pub compu_tables: Map<Seq<char>, Seq<char>>,
}

/// The rename tables that renaming the objects of `o` into those of `n` builds.
pub open spec fn rename_tables(o: Module, n: Module) -> RenameTables {
    RenameTables {
        characteristic: rename_map(characteristic_renames(o.characteristic@, n.characteristic@)),
        measurement: rename_map(measurement_renames(o.measurement@, n.measurement@)),
        axis_pts: rename_map(axis_pts_renames(o.axis_pts@, n.axis_pts@)),
        record_layout: rename_map(record_layout_renames(o.record_layout@, n.record_layout@)),
        function: rename_map(function_renames(o.function@, n.function@)),
        group: rename_map(group_renames(o.group@, n.group@)),
        compu_method: rename_map(compu_method_renames(o.compu_method@, n.compu_method@)),
        compu_tables: rename_map(compu_tables_renames(o, n)),
    }
}

/// An axis description with all its references repaired.
pub open spec fn axis_descr_obfuscated(o: AxisDescr, n: AxisDescr, t: RenameTables) -> bool {
    &&& repaired(o.input_quantity@, n.input_quantity@, t.measurement)
    &&& opt_repaired(o.axis_pts_ref, n.axis_pts_ref, t.axis_pts)
    &&& conversion_repaired(o.conversion@, n.conversion@, t.compu_method)
}

/// A characteristic of the obfuscated module.
pub open spec fn characteristic_obfuscated(
    o: Characteristic,
    n: Characteristic,
    d: Map<Seq<char>, Seq<char>>,
    t: RenameTables,
) -> bool {
    &&& renamed_identifier(o.name@, n.name@)
    &&& text_pseudonym(o.long_identifier@, n.long_identifier@)
    &&& opt_shape(o.display_identifier, n.display_identifier)
    &&& link_resolved(o.symbol_link, n.symbol_link, d)
    &&& link_maps_resolved(o.link_map_symbols@, n.link_map_symbols@, d)
    &&& n.address == 0
    &&& opt_list_repaired(o.dependent_characteristic, n.dependent_characteristic, t.characteristic)
    &&& opt_list_repaired(o.map_list, n.map_list, t.characteristic)
    &&& opt_list_repaired(o.virtual_characteristic, n.virtual_characteristic, t.characteristic)
    &&& n.axis_descr@.len() == o.axis_descr@.len()
    &&& forall|j: int|
        0 <= j < o.axis_descr@.len() ==> axis_descr_obfuscated(#[trigger] o.axis_descr@[j], n.axis_descr@[j], t)
    &&& opt_repaired(o.comparison_quantity, n.comparison_quantity, t.measurement)
    &&& repaired(o.deposit@, n.deposit@, t.record_layout)
    &&& opt_list_repaired(o.function_list, n.function_list, t.function)
    &&& conversion_repaired(o.conversion@, n.conversion@, t.compu_method)
}

/// A measurement of the obfuscated module.
pub open spec fn measurement_obfuscated(
    o: Measurement,
    n: Measurement,
    d: Map<Seq<char>, Seq<char>>,
    t: RenameTables,
) -> bool {
    &&& renamed_identifier(o.name@, n.name@)
    &&& text_pseudonym(o.long_identifier@, n.long_identifier@)
    &&& opt_shape(o.display_identifier, n.display_identifier)
    &&& link_resolved(o.symbol_link, n.symbol_link, d)
    &&& link_maps_resolved(o.link_map_symbols@, n.link_map_symbols@, d)
    &&& n.ecu_address == if o.ecu_address is Some { Some(0u32) } else { None }
    &&& opt_list_repaired(o.function_list, n.function_list, t.function)
    &&& conversion_repaired(o.conversion@, n.conversion@, t.compu_method)
}

/// Axis points of the obfuscated module.
pub open spec fn axis_pts_obfuscated(
    o: AxisPts,
    n: AxisPts,
    d: Map<Seq<char>, Seq<char>>,
    t: RenameTables,
) -> bool {
    &&& renamed_identifier(o.name@, n.name@)
    &&& text_pseudonym(o.long_identifier@, n.long_identifier@)
    &&& opt_shape(o.display_identifier, n.display_identifier)
    &&& link_resolved(o.symbol_link, n.symbol_link, d)
    &&& link_maps_resolved(o.link_map_symbols@, n.link_map_symbols@, d)
    &&& n.address == 0
    &&& repaired(o.input_quantity@, n.input_quantity@, t.measurement)
    &&& repaired(o.deposit_record@, n.deposit_record@, t.record_layout)
    &&& opt_list_repaired(o.function_list, n.function_list, t.function)
    &&& conversion_repaired(o.conversion@, n.conversion@, t.compu_method)
}

/// A function of the obfuscated module.
pub open spec fn function_obfuscated(o: Function, n: Function, t: RenameTables) -> bool {
    &&& renamed_identifier(o.name@, n.name@)
    &&& text_pseudonym(o.long_identifier@, n.long_identifier@)
    &&& opt_list_repaired(o.def_characteristic, n.def_characteristic, t.characteristic)
    &&& opt_list_repaired(o.ref_characteristic, n.ref_characteristic, t.characteristic)
    &&& opt_list_repaired(o.in_measurement, n.in_measurement, t.measurement)
    &&& opt_list_repaired(o.out_measurement, n.out_measurement, t.measurement)
    &&& opt_list_repaired(o.loc_measurement, n.loc_measurement, t.measurement)
    &&& opt_list_repaired(o.sub_function, n.sub_function, t.function)
}

/// A group of the obfuscated module.
pub open spec fn group_obfuscated(o: Group, n: Group, t: RenameTables) -> bool {
    &&& renamed_identifier(o.name@, n.name@)
    &&& text_pseudonym(o.long_identifier@, n.long_identifier@)
    &&& opt_list_repaired(o.ref_characteristic, n.ref_characteristic, t.characteristic)
    &&& opt_list_repaired(o.ref_measurement, n.ref_measurement, t.measurement)
    &&& opt_list_repaired(o.function_list, n.function_list, t.function)
    &&& opt_list_repaired(o.sub_group, n.sub_group, t.group)
}

/// A computation method of the obfuscated module.
pub open spec fn compu_method_obfuscated(o: CompuMethod, n: CompuMethod, t: RenameTables) -> bool {
    &&& renamed_identifier(o.name@, n.name@)
    &&& text_pseudonym(o.unit@, n.unit@)
    &&& opt_repaired(o.compu_tab_ref, n.compu_tab_ref, t.compu_tables)
    &&& opt_repaired(o.status_string_ref, n.status_string_ref, t.compu_tables)
}

/// The module `n` is `o` obfuscated, with symbol links correlated through the
/// debug names `d`: every object of every category renamed and every reference
/// repaired through the rename table of its category; the module's own name and
/// label are left to the caller.
pub open spec fn module_obfuscated(o: Module, n: Module, d: Map<Seq<char>, Seq<char>>) -> bool {
    let t = rename_tables(o, n);
    &&& n.name == o.name
    &&& n.long_identifier == o.long_identifier
    &&& n.characteristic@.len() == o.characteristic@.len()
    &&& forall|i: int|
        0 <= i < o.characteristic@.len() ==> characteristic_obfuscated(
            #[trigger] o.characteristic@[i],
            n.characteristic@[i],
            d,
            t,
        )
    &&& n.measurement@.len() == o.measurement@.len()
    &&& forall|i: int|
        0 <= i < o.measurement@.len() ==> measurement_obfuscated(#[trigger] o.measurement@[i], n.measurement@[i], d, t)
    &&& n.axis_pts@.len() == o.axis_pts@.len()
    &&& forall|i: int|
        0 <= i < o.axis_pts@.len() ==> axis_pts_obfuscated(#[trigger] o.axis_pts@[i], n.axis_pts@[i], d, t)
    &&& n.record_layout@.len() == o.record_layout@.len()
    &&& forall|i: int|
        0 <= i < o.record_layout@.len() ==> record_layout_renamed(#[trigger] o.record_layout@[i], n.record_layout@[i])
    &&& n.function@.len() == o.function@.len()
    &&& forall|i: int|
        0 <= i < o.function@.len() ==> function_obfuscated(#[trigger] o.function@[i], n.function@[i], t)
    &&& n.group@.len() == o.group@.len()
    &&& forall|i: int| 0 <= i < o.group@.len() ==> group_obfuscated(#[trigger] o.group@[i], n.group@[i], t)
    &&& n.compu_method@.len() == o.compu_method@.len()
    &&& forall|i: int|
        0 <= i < o.compu_method@.len() ==> compu_method_obfuscated(#[trigger] o.compu_method@[i], n.compu_method@[i], t)
    &&& n.compu_tab@.len() == o.compu_tab@.len()
    &&& forall|i: int|
        0 <= i < o.compu_tab@.len() ==> compu_table_renamed(#[trigger] o.compu_tab@[i], n.compu_tab@[i])
    &&& n.compu_vtab@.len() == o.compu_vtab@.len()
    &&& forall|i: int|
        0 <= i < o.compu_vtab@.len() ==> compu_table_renamed(#[trigger] o.compu_vtab@[i], n.compu_vtab@[i])
    &&& n.compu_vtab_range@.len() == o.compu_vtab_range@.len()
    &&& forall|i: int|
        0 <= i < o.compu_vtab_range@.len() ==> compu_table_renamed(
            #[trigger] o.compu_vtab_range@[i],
            n.compu_vtab_range@[i],
        )
    &&& n.transformer@.len() == o.transformer@.len()
    &&& forall|i: int|
        0 <= i < o.transformer@.len() ==> {
            &&& opt_list_repaired(
                (#[trigger] o.transformer@[i]).in_objects,
                n.transformer@[i].in_objects,
                t.characteristic,
            )
            &&& opt_list_repaired(o.transformer@[i].out_objects, n.transformer@[i].out_objects, t.characteristic)
        }
    &&& n.typedef_axis@.len() == o.typedef_axis@.len()
    &&& forall|i: int|
        0 <= i < o.typedef_axis@.len() ==> repaired(
            (#[trigger] o.typedef_axis@[i]).input_quantity@,
            n.typedef_axis@[i].input_quantity@,
            t.measurement,
        ) && repaired(o.typedef_axis@[i].record_layout@, n.typedef_axis@[i].record_layout@, t.record_layout)
            && conversion_repaired(
            o.typedef_axis@[i].conversion@,
            n.typedef_axis@[i].conversion@,
            t.compu_method,
        )
    &&& n.user_rights@.len() == o.user_rights@.len()
    &&& forall|i: int|
        0 <= i < o.user_rights@.len() ==> user_rights_group_refs_repaired(#[trigger] o.user_rights@[i], n.user_rights@[i], t.group)
}

/// Obfuscates a module: the categories are renamed in a fixed order, and right
/// after each one every reference to it is repaired through its rename table.
/// Symbol links are correlated through `debug_names`.
pub fn obfuscate_module(module: &mut Module, debug_names: &NameTable)
    ensures
        module_obfuscated(*old(module), *final(module), debug_names@),
{
    let ghost s0 = *module;
    let table = rename_characteristics(module, debug_names);
    let ghost s1 = *module;
    update_characteristic_xrefs(module, &table);
    let ghost s2 = *module;
    let table = rename_measurements(module, debug_names);
    let ghost s3 = *module;
    update_measurement_xrefs(module, &table);
    let ghost s4 = *module;
    let table = rename_axis_points(module, debug_names);
    let ghost s5 = *module;
    update_axis_pts_xrefs(module, &table);
    let ghost s6 = *module;
    let table = rename_record_layouts(module);
    let ghost s7 = *module;
    update_record_layout_xrefs(module, &table);
    let ghost s8 = *module;
    let table = rename_functions(module);
    let ghost s9 = *module;
    update_function_xrefs(module, &table);
    let ghost s10 = *module;
    let table = rename_groups(module);
    let ghost s11 = *module;
    update_group_xrefs(module, &table);
    let ghost s12 = *module;
    let table = rename_compu_methods(module);
    let ghost s13 = *module;
    update_compu_method_xrefs(module, &table);
    let ghost s14 = *module;
    let table = rename_compu_tables(module);
    let ghost s15 = *module;
    update_compu_tabs_xrefs(module, &table);
    let ghost s16 = *module;
    proof {
        lemma_module_obfuscated(s0, s1, s2, s3, s4, s5, s6, s7, s8, s9, s10, s11, s12, s13, s14, s15, s16, debug_names@);
    }
}

proof fn lemma_module_obfuscated(
    s0: Module,
    s1: Module,
    s2: Module,
    s3: Module,
    s4: Module,
    s5: Module,
    s6: Module,
    s7: Module,
    s8: Module,
    s9: Module,
    s10: Module,
    s11: Module,
    s12: Module,
    s13: Module,
    s14: Module,
    s15: Module,
    s16: Module,
    d: Map<Seq<char>, Seq<char>>,
)
    requires
        characteristic_pass_renamed(s0, s1, d),
        characteristic_xrefs_repaired(s1, s2, rename_map(characteristic_renames(s0.characteristic@, s1.characteristic@))),
        measurement_pass_renamed(s2, s3, d),
        measurement_xrefs_repaired(s3, s4, rename_map(measurement_renames(s2.measurement@, s3.measurement@))),
        axis_pts_pass_renamed(s4, s5, d),
        axis_pts_xrefs_repaired(s5, s6, rename_map(axis_pts_renames(s4.axis_pts@, s5.axis_pts@))),
        record_layout_pass_renamed(s6, s7),
        record_layout_xrefs_repaired(s7, s8, rename_map(record_layout_renames(s6.record_layout@, s7.record_layout@))),
        function_pass_renamed(s8, s9),
        function_xrefs_repaired(s9, s10, rename_map(function_renames(s8.function@, s9.function@))),
        group_pass_renamed(s10, s11),
        group_xrefs_repaired(s11, s12, rename_map(group_renames(s10.group@, s11.group@))),
        compu_method_pass_renamed(s12, s13),
        compu_method_xrefs_repaired(s13, s14, rename_map(compu_method_renames(s12.compu_method@, s13.compu_method@))),
        compu_tables_pass_renamed(s14, s15),
        compu_tabs_xrefs_repaired(s15, s16, rename_map(compu_tables_renames(s14, s15))),
    ensures
        module_obfuscated(s0, s16, d),
{
    let t = rename_tables(s0, s16);
    assert forall|i: int| 0 <= i < s0.characteristic@.len() implies #[trigger] s16.characteristic@[i].name == s1.characteristic@[i].name by {
        assert(s2.characteristic@[i].name == s1.characteristic@[i].name);
        assert(s4.characteristic@[i].name == s3.characteristic@[i].name);
        assert(s6.characteristic@[i].name == s5.characteristic@[i].name);
        assert(s8.characteristic@[i].name == s7.characteristic@[i].name);
        assert(s10.characteristic@[i].name == s9.characteristic@[i].name);
        assert(s14.characteristic@[i].name == s13.characteristic@[i].name);
    }
    assert(characteristic_renames(s0.characteristic@, s1.characteristic@) =~= characteristic_renames(s0.characteristic@, s16.characteristic@));
    assert forall|i: int| 0 <= i < s0.measurement@.len() implies #[trigger] s16.measurement@[i].name == s3.measurement@[i].name by {
        assert(s10.measurement@[i].name == s9.measurement@[i].name);
        assert(s14.measurement@[i].name == s13.measurement@[i].name);
    }
    assert(measurement_renames(s2.measurement@, s3.measurement@) =~= measurement_renames(s0.measurement@, s16.measurement@));
    assert forall|i: int| 0 <= i < s0.axis_pts@.len() implies #[trigger] s16.axis_pts@[i].name == s5.axis_pts@[i].name && s4.axis_pts@[i].name == s0.axis_pts@[i].name by {
        assert(s4.axis_pts@[i].name == s3.axis_pts@[i].name);
        assert(s8.axis_pts@[i].name == s7.axis_pts@[i].name);
        assert(s10.axis_pts@[i].name == s9.axis_pts@[i].name);
        assert(s14.axis_pts@[i].name == s13.axis_pts@[i].name);
    }
    assert(axis_pts_renames(s4.axis_pts@, s5.axis_pts@) =~= axis_pts_renames(s0.axis_pts@, s16.axis_pts@));
    assert(record_layout_renames(s6.record_layout@, s7.record_layout@) =~= record_layout_renames(s0.record_layout@, s16.record_layout@));
    assert forall|i: int| 0 <= i < s0.function@.len() implies #[trigger] s16.function@[i].name == s9.function@[i].name && s8.function@[i].name == s0.function@[i].name by {
        assert(s2.function@[i].name == s1.function@[i].name);
        assert(s4.function@[i].name == s3.function@[i].name);
        assert(s10.function@[i].name == s9.function@[i].name);
    }
    assert(function_renames(s8.function@, s9.function@) =~= function_renames(s0.function@, s16.function@));
    assert forall|i: int| 0 <= i < s0.group@.len() implies #[trigger] s16.group@[i].name == s11.group@[i].name && s10.group@[i].name == s0.group@[i].name by {
        assert(s2.group@[i].name == s1.group@[i].name);
        assert(s4.group@[i].name == s3.group@[i].name);
        assert(s10.group@[i].name == s9.group@[i].name);
        assert(s12.group@[i].name == s11.group@[i].name);
    }
    assert(group_renames(s10.group@, s11.group@) =~= group_renames(s0.group@, s16.group@));
    assert forall|i: int| 0 <= i < s0.compu_method@.len() implies #[trigger] s16.compu_method@[i].name == s13.compu_method@[i].name by {
        assert(s16.compu_method@[i].name == s15.compu_method@[i].name);
    }
    assert(compu_method_renames(s12.compu_method@, s13.compu_method@) =~= compu_method_renames(s0.compu_method@, s16.compu_method@));
    assert(compu_tables_renames(s14, s15) =~= compu_tables_renames(s0, s16));
}


/// The project `n` is `o` obfuscated: its name and label and those of each module
/// replaced, and each module obfuscated.
pub open spec fn project_obfuscated(o: Project, n: Project, d: Map<Seq<char>, Seq<char>>) -> bool {
    &&& renamed_identifier(o.name@, n.name@)
    &&& text_pseudonym(o.long_identifier@, n.long_identifier@)
    &&& n.module@.len() == o.module@.len()
    &&& forall|i: int|
        0 <= i < o.module@.len() ==> {
            &&& renamed_identifier((#[trigger] o.module@[i]).name@, n.module@[i].name@)
            &&& text_pseudonym(o.module@[i].long_identifier@, n.module@[i].long_identifier@)
            &&& module_obfuscated(
                Module {
                    name: n.module@[i].name,
                    long_identifier: n.module@[i].long_identifier,
                    ..o.module@[i]
                },
                n.module@[i],
                d,
            )
        }
}

/// Obfuscates the whole calibration document, correlating symbol links through
/// `debug_names`, the names table of the obfuscated debug information.
pub fn obfuscate_project(project: &mut Project, debug_names: &NameTable)
    ensures
        project_obfuscated(*old(project), *final(project), debug_names@),
{
    project.name = obfuscate_string(project.name.as_str());
    rename_label(&mut project.long_identifier);
    let ghost p0 = *project;
    let mut i: usize = 0;
    while i < project.module.len()
        invariant
            renamed_identifier(old(project).name@, project.name@),
            text_pseudonym(old(project).long_identifier@, project.long_identifier@),
            p0.module == old(project).module,
            i <= project.module@.len(),
            project.module@.len() == old(project).module@.len(),
            forall|j: int|
                0 <= j < i ==> {
                    &&& renamed_identifier((#[trigger] old(project).module@[j]).name@, project.module@[j].name@)
                    &&& text_pseudonym(
                        old(project).module@[j].long_identifier@,
                        project.module@[j].long_identifier@,
                    )
                    &&& module_obfuscated(
                        Module {
                            name: project.module@[j].name,
                            long_identifier: project.module@[j].long_identifier,
                            ..old(project).module@[j]
                        },
                        project.module@[j],
                        debug_names@,
                    )
                },
            forall|j: int|
                i <= j < project.module@.len() ==> #[trigger] project.module@[j] == old(project).module@[j],
        decreases project.module@.len() - i,
    {
        let new_name = obfuscate_string(project.module[i].name.as_str());
        project.module[i].name = new_name;
        rename_label(&mut project.module[i].long_identifier);
        let ghost m = project.module@[i as int];
        obfuscate_module(&mut project.module[i], debug_names);
        assert(m == (Module {
            name: project.module@[i as int].name,
            long_identifier: project.module@[i as int].long_identifier,
            ..old(project).module@[i as int]
        }));
        i = i + 1;
    }
}

proof fn lemma_rename_map_renames(pairs: Seq<(Seq<char>, Seq<char>)>)
    requires
        forall|j: int| 0 <= j < pairs.len() ==> renamed_identifier((#[trigger] pairs[j]).0, pairs[j].1),
    ensures
        forall|k: Seq<char>|
            #[trigger] rename_map(pairs).contains_key(k) ==> renamed_identifier(k, rename_map(pairs)[k]),
    decreases pairs.len(),
{
    if pairs.len() > 0 {
        let q = pairs.drop_last();
        assert forall|j: int| 0 <= j < q.len() implies renamed_identifier((#[trigger] q[j]).0, q[j].1) by {
            assert(q[j] == pairs[j]);
        }
        lemma_rename_map_renames(q);
        let l = pairs[pairs.len() - 1];
        assert(renamed_identifier(l.0, l.1));
        assert forall|k: Seq<char>| #[trigger] rename_map(pairs).contains_key(k) implies renamed_identifier(
            k,
            rename_map(pairs)[k],
        ) by {
            if k != l.0 {
                assert(rename_map(q).contains_key(k));
            }
        }
    }
}

/// Within a category, a reference to a name that several characteristics had
/// takes the new name of the last of them.
pub proof fn characteristic_reference_takes_last_rename(
    o: Module,
    n: Module,
    j: int,
    old_ref: Seq<char>,
    new_ref: Seq<char>,
)
    requires
        n.characteristic@.len() == o.characteristic@.len(),
        0 <= j < o.characteristic@.len(),
        o.characteristic@[j].name@ == old_ref,
        forall|m: int| j < m < o.characteristic@.len() ==> (#[trigger] o.characteristic@[m]).name@ != old_ref,
        repaired(old_ref, new_ref, rename_tables(o, n).characteristic),
    ensures
        new_ref == n.characteristic@[j].name@,
{
    let pairs = characteristic_renames(o.characteristic@, n.characteristic@);
    assert forall|m: int| j < m < pairs.len() implies (#[trigger] pairs[m]).0 != pairs[j].0 by {
        assert(o.characteristic@[m].name@ != old_ref);
    }
    rename_last_write_wins(pairs, j);
}

/// Rename tables are kept per category: a measurement reference whose name is
/// also that of a characteristic takes the new name of the measurement.
pub proof fn measurement_reference_uses_measurement_table(
    o: Module,
    n: Module,
    d: Map<Seq<char>, Seq<char>>,
    c: int,
    k: int,
    j: int,
)
    requires
        module_obfuscated(o, n, d),
        0 <= c < o.characteristic@.len(),
        0 <= k < o.characteristic@[c].axis_descr@.len(),
        0 <= j < o.measurement@.len(),
        o.characteristic@[c].axis_descr@[k].input_quantity@ == o.measurement@[j].name@,
        forall|m: int|
            0 <= m < o.measurement@.len() && m != j ==> (#[trigger] o.measurement@[m]).name@
                != o.measurement@[j].name@,
    ensures
        n.characteristic@[c].axis_descr@[k].input_quantity@ == n.measurement@[j].name@,
{
    let t = rename_tables(o, n);
    let pairs = measurement_renames(o.measurement@, n.measurement@);
    assert(characteristic_obfuscated(o.characteristic@[c], n.characteristic@[c], d, t));
    assert(axis_descr_obfuscated(o.characteristic@[c].axis_descr@[k], n.characteristic@[c].axis_descr@[k], t));
    assert forall|m: int| j < m < pairs.len() implies (#[trigger] pairs[m]).0 != pairs[j].0 by {
        assert(o.measurement@[m].name@ != o.measurement@[j].name@);
    }
    rename_last_write_wins(pairs, j);
}

/// No reference of an obfuscated module keeps a name with a letter in it: through
/// any category's rename table it is renamed or scrambled into something else, and
/// so is a symbol link through debug names that all differ from their originals.
pub proof fn references_never_keep_their_name(
    o: Module,
    n: Module,
    d: Map<Seq<char>, Seq<char>>,
    old_ref: Seq<char>,
    new_ref: Seq<char>,
)
    requires
        module_obfuscated(o, n, d),
        has_letter(old_ref),
    ensures
        repaired(old_ref, new_ref, rename_tables(o, n).characteristic) ==> new_ref != old_ref,
        repaired(old_ref, new_ref, rename_tables(o, n).measurement) ==> new_ref != old_ref,
        repaired(old_ref, new_ref, rename_tables(o, n).axis_pts) ==> new_ref != old_ref,
        repaired(old_ref, new_ref, rename_tables(o, n).record_layout) ==> new_ref != old_ref,
        repaired(old_ref, new_ref, rename_tables(o, n).function) ==> new_ref != old_ref,
        repaired(old_ref, new_ref, rename_tables(o, n).group) ==> new_ref != old_ref,
        repaired(old_ref, new_ref, rename_tables(o, n).compu_method) ==> new_ref != old_ref,
        repaired(old_ref, new_ref, rename_tables(o, n).compu_tables) ==> new_ref != old_ref,
        (forall|k: Seq<char>| #[trigger] d.contains_key(k) ==> d[k] != k) && symbol_resolved(
            old_ref,
            new_ref,
            d,
        ) ==> new_ref != old_ref,
{
    let p1 = characteristic_renames(o.characteristic@, n.characteristic@);
    assert forall|j: int| 0 <= j < p1.len() implies renamed_identifier((#[trigger] p1[j]).0, p1[j].1) by {
        assert(characteristic_obfuscated(o.characteristic@[j], n.characteristic@[j], d, rename_tables(o, n)));
    }
    lemma_rename_map_renames(p1);
    let p2 = measurement_renames(o.measurement@, n.measurement@);
    assert forall|j: int| 0 <= j < p2.len() implies renamed_identifier((#[trigger] p2[j]).0, p2[j].1) by {
        assert(measurement_obfuscated(o.measurement@[j], n.measurement@[j], d, rename_tables(o, n)));
    }
    lemma_rename_map_renames(p2);
    let p3 = axis_pts_renames(o.axis_pts@, n.axis_pts@);
    assert forall|j: int| 0 <= j < p3.len() implies renamed_identifier((#[trigger] p3[j]).0, p3[j].1) by {
        assert(axis_pts_obfuscated(o.axis_pts@[j], n.axis_pts@[j], d, rename_tables(o, n)));
    }
    lemma_rename_map_renames(p3);
    let p4 = record_layout_renames(o.record_layout@, n.record_layout@);
    assert forall|j: int| 0 <= j < p4.len() implies renamed_identifier((#[trigger] p4[j]).0, p4[j].1) by {
        assert(record_layout_renamed(o.record_layout@[j], n.record_layout@[j]));
    }
    lemma_rename_map_renames(p4);
    let p5 = function_renames(o.function@, n.function@);
    assert forall|j: int| 0 <= j < p5.len() implies renamed_identifier((#[trigger] p5[j]).0, p5[j].1) by {
        assert(function_obfuscated(o.function@[j], n.function@[j], rename_tables(o, n)));
    }
    lemma_rename_map_renames(p5);
    let p6 = group_renames(o.group@, n.group@);
    assert forall|j: int| 0 <= j < p6.len() implies renamed_identifier((#[trigger] p6[j]).0, p6[j].1) by {
        assert(group_obfuscated(o.group@[j], n.group@[j], rename_tables(o, n)));
    }
    lemma_rename_map_renames(p6);
    let p7 = compu_method_renames(o.compu_method@, n.compu_method@);
    assert forall|j: int| 0 <= j < p7.len() implies renamed_identifier((#[trigger] p7[j]).0, p7[j].1) by {
        assert(compu_method_obfuscated(o.compu_method@[j], n.compu_method@[j], rename_tables(o, n)));
    }
    lemma_rename_map_renames(p7);
    let a = compu_table_renames(o.compu_tab@, n.compu_tab@);
    let b = compu_table_renames(o.compu_vtab@, n.compu_vtab@);
    let c = compu_table_renames(o.compu_vtab_range@, n.compu_vtab_range@);
    let p8 = compu_tables_renames(o, n);
    assert forall|j: int| 0 <= j < p8.len() implies renamed_identifier((#[trigger] p8[j]).0, p8[j].1) by {
        if j < a.len() {
            assert(p8[j] == a[j]);
            assert(compu_table_renamed(o.compu_tab@[j], n.compu_tab@[j]));
        } else if j < a.len() + b.len() {
            assert(p8[j] == b[j - a.len()]);
            assert(compu_table_renamed(o.compu_vtab@[j - a.len()], n.compu_vtab@[j - a.len()]));
        } else {
            assert(p8[j] == c[j - a.len() - b.len()]);
            assert(compu_table_renamed(
                o.compu_vtab_range@[j - a.len() - b.len()],
                n.compu_vtab_range@[j - a.len() - b.len()],
            ));
        }
    }
    lemma_rename_map_renames(p8);
}

/// In any category, whose rename table is `rename_map(pairs)` for its (old name,
/// new name) records `pairs` in order: a repaired reference to a name that several
/// objects had takes the new name of the last of them.
pub proof fn reference_takes_last_rename(
    pairs: Seq<(Seq<char>, Seq<char>)>,
    j: int,
    old_ref: Seq<char>,
    new_ref: Seq<char>,
)
    requires
        0 <= j < pairs.len(),
        pairs[j].0 == old_ref,
        forall|m: int| j < m < pairs.len() ==> (#[trigger] pairs[m]).0 != old_ref,
        repaired(old_ref, new_ref, rename_map(pairs)),
    ensures
        new_ref == pairs[j].1,
{
    rename_last_write_wins(pairs, j);
}

/// Computation tables, value tables and value-range tables form one category: a
/// repaired reference to a name that several of them had takes the new name of
/// the last of them, in that order of kinds.
pub proof fn compu_table_reference_takes_last_rename(
    o: Module,
    n: Module,
    j: int,
    old_ref: Seq<char>,
    new_ref: Seq<char>,
)
    requires
        0 <= j < compu_tables_renames(o, n).len(),
        compu_tables_renames(o, n)[j].0 == old_ref,
        forall|m: int|
            j < m < compu_tables_renames(o, n).len() ==> (#[trigger] compu_tables_renames(o, n)[m]).0
                != old_ref,
        repaired(old_ref, new_ref, rename_tables(o, n).compu_tables),
    ensures
        new_ref == compu_tables_renames(o, n)[j].1,
{
    reference_takes_last_rename(compu_tables_renames(o, n), j, old_ref, new_ref);
}

} // verus!
