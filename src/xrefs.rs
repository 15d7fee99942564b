//! The repair passes of each category: every field of every object kind that
//! can name an object of the category is repaired through its rename table.
use crate::calibration::{
    AxisDescr, AxisPts, Characteristic, CompuMethod, Function, Group, Measurement, Module,
    Transformer, TypedefAxis, UserRights,
};
use crate::repair::{
    conversion_repaired, list_repaired, opt_list_repaired, opt_repaired, repair_conversion,
    repair_field, repair_list, repair_opt_field, repair_opt_list, repaired,
};
use crate::table::NameTable;
use vstd::prelude::*;

verus! {

/// `n` is `o` with the characteristic references of a characteristic: dependent, map and
/// virtual lists repaired through `t`.
pub open spec fn characteristic_characteristic_refs_repaired(o: Characteristic, n: Characteristic, t: Map<Seq<char>, Seq<char>>) -> bool {
    &&& n == (Characteristic { dependent_characteristic: n.dependent_characteristic, map_list: n.map_list, virtual_characteristic: n.virtual_characteristic, ..o })
    &&& opt_list_repaired(o.dependent_characteristic, n.dependent_characteristic, t)
    &&& opt_list_repaired(o.map_list, n.map_list, t)
    &&& opt_list_repaired(o.virtual_characteristic, n.virtual_characteristic, t)
}

/// Repairs the characteristic references of a characteristic: dependent, map and virtual
/// lists.
pub fn repair_characteristic_characteristic_refs(x: &mut Characteristic, table: &NameTable)
    ensures
        characteristic_characteristic_refs_repaired(*old(x), *final(x), table@),
{
    repair_opt_list(&mut x.dependent_characteristic, table);
    repair_opt_list(&mut x.map_list, table);
    repair_opt_list(&mut x.virtual_characteristic, table);
}

/// `n` is `o` with the characteristic references of a function: defined and referenced
/// lists repaired through `t`.
pub open spec fn function_characteristic_refs_repaired(o: Function, n: Function, t: Map<Seq<char>, Seq<char>>) -> bool {
    &&& n == (Function { def_characteristic: n.def_characteristic, ref_characteristic: n.ref_characteristic, ..o })
    &&& opt_list_repaired(o.def_characteristic, n.def_characteristic, t)
    &&& opt_list_repaired(o.ref_characteristic, n.ref_characteristic, t)
}

/// Repairs the characteristic references of a function: defined and referenced lists.
pub fn repair_function_characteristic_refs(x: &mut Function, table: &NameTable)
    ensures
        function_characteristic_refs_repaired(*old(x), *final(x), table@),
{
    repair_opt_list(&mut x.def_characteristic, table);
    repair_opt_list(&mut x.ref_characteristic, table);
}

/// `n` is `o` with the characteristic references of a group repaired through `t`.
pub open spec fn group_characteristic_refs_repaired(o: Group, n: Group, t: Map<Seq<char>, Seq<char>>) -> bool {
    &&& n == (Group { ref_characteristic: n.ref_characteristic, ..o })
    &&& opt_list_repaired(o.ref_characteristic, n.ref_characteristic, t)
}

/// Repairs the characteristic references of a group.
pub fn repair_group_characteristic_refs(x: &mut Group, table: &NameTable)
    ensures
        group_characteristic_refs_repaired(*old(x), *final(x), table@),
{
    repair_opt_list(&mut x.ref_characteristic, table);
}

/// `n` is `o` with the object lists of a transformer repaired through `t`.
pub open spec fn transformer_refs_repaired(o: Transformer, n: Transformer, t: Map<Seq<char>, Seq<char>>) -> bool {
    &&& n == (Transformer { in_objects: n.in_objects, out_objects: n.out_objects, ..o })
    &&& opt_list_repaired(o.in_objects, n.in_objects, t)
    &&& opt_list_repaired(o.out_objects, n.out_objects, t)
}

/// Repairs the object lists of a transformer.
pub fn repair_transformer_refs(x: &mut Transformer, table: &NameTable)
    ensures
        transformer_refs_repaired(*old(x), *final(x), table@),
{
    repair_opt_list(&mut x.in_objects, table);
    repair_opt_list(&mut x.out_objects, table);
}

/// `n` is `o` with the input quantity of a typedef axis repaired through `t`.
pub open spec fn typedef_axis_measurement_refs_repaired(o: TypedefAxis, n: TypedefAxis, t: Map<Seq<char>, Seq<char>>) -> bool {
    &&& n == (TypedefAxis { input_quantity: n.input_quantity, ..o })
    &&& repaired(o.input_quantity@, n.input_quantity@, t)
}

/// Repairs the input quantity of a typedef axis.
pub fn repair_typedef_axis_measurement_refs(x: &mut TypedefAxis, table: &NameTable)
    ensures
        typedef_axis_measurement_refs_repaired(*old(x), *final(x), table@),
{
    repair_field(&mut x.input_quantity, table);
}

/// `n` is `o` with the input quantity of axis points repaired through `t`.
pub open spec fn axis_pts_measurement_refs_repaired(o: AxisPts, n: AxisPts, t: Map<Seq<char>, Seq<char>>) -> bool {
    &&& n == (AxisPts { input_quantity: n.input_quantity, ..o })
    &&& repaired(o.input_quantity@, n.input_quantity@, t)
}

/// Repairs the input quantity of axis points.
pub fn repair_axis_pts_measurement_refs(x: &mut AxisPts, table: &NameTable)
    ensures
        axis_pts_measurement_refs_repaired(*old(x), *final(x), table@),
{
    repair_field(&mut x.input_quantity, table);
}

/// `n` is `o` with the measurement references of a function: input, output and local lists
/// repaired through `t`.
pub open spec fn function_measurement_refs_repaired(o: Function, n: Function, t: Map<Seq<char>, Seq<char>>) -> bool {
    &&& n == (Function { in_measurement: n.in_measurement, out_measurement: n.out_measurement, loc_measurement: n.loc_measurement, ..o })
    &&& opt_list_repaired(o.in_measurement, n.in_measurement, t)
    &&& opt_list_repaired(o.out_measurement, n.out_measurement, t)
    &&& opt_list_repaired(o.loc_measurement, n.loc_measurement, t)
}

/// Repairs the measurement references of a function: input, output and local lists.
pub fn repair_function_measurement_refs(x: &mut Function, table: &NameTable)
    ensures
        function_measurement_refs_repaired(*old(x), *final(x), table@),
{
    repair_opt_list(&mut x.in_measurement, table);
    repair_opt_list(&mut x.out_measurement, table);
    repair_opt_list(&mut x.loc_measurement, table);
}

/// `n` is `o` with the measurement references of a group repaired through `t`.
pub open spec fn group_measurement_refs_repaired(o: Group, n: Group, t: Map<Seq<char>, Seq<char>>) -> bool {
    &&& n == (Group { ref_measurement: n.ref_measurement, ..o })
    &&& opt_list_repaired(o.ref_measurement, n.ref_measurement, t)
}

/// Repairs the measurement references of a group.
pub fn repair_group_measurement_refs(x: &mut Group, table: &NameTable)
    ensures
        group_measurement_refs_repaired(*old(x), *final(x), table@),
{
    repair_opt_list(&mut x.ref_measurement, table);
}

/// `n` is `o` with the record layout of axis points repaired through `t`.
pub open spec fn axis_pts_record_layout_refs_repaired(o: AxisPts, n: AxisPts, t: Map<Seq<char>, Seq<char>>) -> bool {
    &&& n == (AxisPts { deposit_record: n.deposit_record, ..o })
    &&& repaired(o.deposit_record@, n.deposit_record@, t)
}

/// Repairs the record layout of axis points.
pub fn repair_axis_pts_record_layout_refs(x: &mut AxisPts, table: &NameTable)
    ensures
        axis_pts_record_layout_refs_repaired(*old(x), *final(x), table@),
{
    repair_field(&mut x.deposit_record, table);
}

/// `n` is `o` with the record layout of a characteristic repaired through `t`.
pub open spec fn characteristic_record_layout_refs_repaired(o: Characteristic, n: Characteristic, t: Map<Seq<char>, Seq<char>>) -> bool {
    &&& n == (Characteristic { deposit: n.deposit, ..o })
    &&& repaired(o.deposit@, n.deposit@, t)
}

/// Repairs the record layout of a characteristic.
pub fn repair_characteristic_record_layout_refs(x: &mut Characteristic, table: &NameTable)
    ensures
        characteristic_record_layout_refs_repaired(*old(x), *final(x), table@),
{
    repair_field(&mut x.deposit, table);
}

/// `n` is `o` with the record layout of a typedef axis repaired through `t`.
pub open spec fn typedef_axis_record_layout_refs_repaired(o: TypedefAxis, n: TypedefAxis, t: Map<Seq<char>, Seq<char>>) -> bool {
    &&& n == (TypedefAxis { record_layout: n.record_layout, ..o })
    &&& repaired(o.record_layout@, n.record_layout@, t)
}

/// Repairs the record layout of a typedef axis.
pub fn repair_typedef_axis_record_layout_refs(x: &mut TypedefAxis, table: &NameTable)
    ensures
        typedef_axis_record_layout_refs_repaired(*old(x), *final(x), table@),
{
    repair_field(&mut x.record_layout, table);
}

/// `n` is `o` with the conversion of a typedef axis repaired through `t`.
pub open spec fn typedef_axis_conversion_refs_repaired(o: TypedefAxis, n: TypedefAxis, t: Map<Seq<char>, Seq<char>>) -> bool {
    &&& n == (TypedefAxis { conversion: n.conversion, ..o })
    &&& conversion_repaired(o.conversion@, n.conversion@, t)
}

/// Repairs the conversion of a typedef axis.
pub fn repair_typedef_axis_conversion_refs(x: &mut TypedefAxis, table: &NameTable)
    ensures
        typedef_axis_conversion_refs_repaired(*old(x), *final(x), table@),
{
    repair_conversion(&mut x.conversion, table);
}

/// `n` is `o` with the sub-functions of a function repaired through `t`.
pub open spec fn function_function_refs_repaired(o: Function, n: Function, t: Map<Seq<char>, Seq<char>>) -> bool {
    &&& n == (Function { sub_function: n.sub_function, ..o })
    &&& opt_list_repaired(o.sub_function, n.sub_function, t)
}

/// Repairs the sub-functions of a function.
pub fn repair_function_function_refs(x: &mut Function, table: &NameTable)
    ensures
        function_function_refs_repaired(*old(x), *final(x), table@),
{
    repair_opt_list(&mut x.sub_function, table);
}

/// `n` is `o` with the function list of axis points repaired through `t`.
pub open spec fn axis_pts_function_refs_repaired(o: AxisPts, n: AxisPts, t: Map<Seq<char>, Seq<char>>) -> bool {
    &&& n == (AxisPts { function_list: n.function_list, ..o })
    &&& opt_list_repaired(o.function_list, n.function_list, t)
}

/// Repairs the function list of axis points.
pub fn repair_axis_pts_function_refs(x: &mut AxisPts, table: &NameTable)
    ensures
        axis_pts_function_refs_repaired(*old(x), *final(x), table@),
{
    repair_opt_list(&mut x.function_list, table);
}

/// `n` is `o` with the function list of a characteristic repaired through `t`.
pub open spec fn characteristic_function_refs_repaired(o: Characteristic, n: Characteristic, t: Map<Seq<char>, Seq<char>>) -> bool {
    &&& n == (Characteristic { function_list: n.function_list, ..o })
    &&& opt_list_repaired(o.function_list, n.function_list, t)
}

/// Repairs the function list of a characteristic.
pub fn repair_characteristic_function_refs(x: &mut Characteristic, table: &NameTable)
    ensures
        characteristic_function_refs_repaired(*old(x), *final(x), table@),
{
    repair_opt_list(&mut x.function_list, table);
}

/// `n` is `o` with the function list of a measurement repaired through `t`.
pub open spec fn measurement_function_refs_repaired(o: Measurement, n: Measurement, t: Map<Seq<char>, Seq<char>>) -> bool {
    &&& n == (Measurement { function_list: n.function_list, ..o })
    &&& opt_list_repaired(o.function_list, n.function_list, t)
}

/// Repairs the function list of a measurement.
pub fn repair_measurement_function_refs(x: &mut Measurement, table: &NameTable)
    ensures
        measurement_function_refs_repaired(*old(x), *final(x), table@),
{
    repair_opt_list(&mut x.function_list, table);
}

/// `n` is `o` with the function list of a group repaired through `t`.
pub open spec fn group_function_refs_repaired(o: Group, n: Group, t: Map<Seq<char>, Seq<char>>) -> bool {
    &&& n == (Group { function_list: n.function_list, ..o })
    &&& opt_list_repaired(o.function_list, n.function_list, t)
}

/// Repairs the function list of a group.
pub fn repair_group_function_refs(x: &mut Group, table: &NameTable)
    ensures
        group_function_refs_repaired(*old(x), *final(x), table@),
{
    repair_opt_list(&mut x.function_list, table);
}

/// `n` is `o` with the sub-groups of a group repaired through `t`.
pub open spec fn group_group_refs_repaired(o: Group, n: Group, t: Map<Seq<char>, Seq<char>>) -> bool {
    &&& n == (Group { sub_group: n.sub_group, ..o })
    &&& opt_list_repaired(o.sub_group, n.sub_group, t)
}

/// Repairs the sub-groups of a group.
pub fn repair_group_group_refs(x: &mut Group, table: &NameTable)
    ensures
        group_group_refs_repaired(*old(x), *final(x), table@),
{
    repair_opt_list(&mut x.sub_group, table);
}

/// `n` is `o` with the conversion of axis points repaired through `t`.
pub open spec fn axis_pts_conversion_refs_repaired(o: AxisPts, n: AxisPts, t: Map<Seq<char>, Seq<char>>) -> bool {
    &&& n == (AxisPts { conversion: n.conversion, ..o })
    &&& conversion_repaired(o.conversion@, n.conversion@, t)
}

/// Repairs the conversion of axis points.
pub fn repair_axis_pts_conversion_refs(x: &mut AxisPts, table: &NameTable)
    ensures
        axis_pts_conversion_refs_repaired(*old(x), *final(x), table@),
{
    repair_conversion(&mut x.conversion, table);
}

/// `n` is `o` with the conversion of a measurement repaired through `t`.
pub open spec fn measurement_conversion_refs_repaired(o: Measurement, n: Measurement, t: Map<Seq<char>, Seq<char>>) -> bool {
    &&& n == (Measurement { conversion: n.conversion, ..o })
    &&& conversion_repaired(o.conversion@, n.conversion@, t)
}

/// Repairs the conversion of a measurement.
pub fn repair_measurement_conversion_refs(x: &mut Measurement, table: &NameTable)
    ensures
        measurement_conversion_refs_repaired(*old(x), *final(x), table@),
{
    repair_conversion(&mut x.conversion, table);
}

/// `n` is `o` with the table references of a computation method repaired through `t`.
pub open spec fn compu_method_table_refs_repaired(o: CompuMethod, n: CompuMethod, t: Map<Seq<char>, Seq<char>>) -> bool {
    &&& n == (CompuMethod { compu_tab_ref: n.compu_tab_ref, status_string_ref: n.status_string_ref, ..o })
    &&& opt_repaired(o.compu_tab_ref, n.compu_tab_ref, t)
    &&& opt_repaired(o.status_string_ref, n.status_string_ref, t)
}

/// Repairs the table references of a computation method.
pub fn repair_compu_method_table_refs(x: &mut CompuMethod, table: &NameTable)
    ensures
        compu_method_table_refs_repaired(*old(x), *final(x), table@),
{
    repair_opt_field(&mut x.compu_tab_ref, table);
    repair_opt_field(&mut x.status_string_ref, table);
}

/// The axis descriptions `n` are `o` with the part that `f` names repaired through
/// `t`: the input quantity, the axis points or the conversion.
pub open spec fn axis_descrs_repaired(
    o: Seq<AxisDescr>,
    n: Seq<AxisDescr>,
    t: Map<Seq<char>, Seq<char>>,
    f: AxisDescrRef,
) -> bool {
    &&& n.len() == o.len()
    &&& forall|i: int| 0 <= i < o.len() ==> axis_descr_repaired(#[trigger] o[i], n[i], t, f)
}

/// Which reference of an axis description a pass repairs.
#[derive(Clone, Copy, Debug, PartialEq, Eq, Structural)]
pub enum AxisDescrRef {
    InputQuantity,
    AxisPoints,
    Conversion,
}

/// One axis description with the reference `f` repaired through `t`.
pub open spec fn axis_descr_repaired(
    o: AxisDescr,
    n: AxisDescr,
    t: Map<Seq<char>, Seq<char>>,
    f: AxisDescrRef,
) -> bool {
    match f {
        AxisDescrRef::InputQuantity => n == (AxisDescr { input_quantity: n.input_quantity, ..o })
            && repaired(o.input_quantity@, n.input_quantity@, t),
        AxisDescrRef::AxisPoints => n == (AxisDescr { axis_pts_ref: n.axis_pts_ref, ..o })
            && opt_repaired(o.axis_pts_ref, n.axis_pts_ref, t),
        AxisDescrRef::Conversion => n == (AxisDescr { conversion: n.conversion, ..o })
            && conversion_repaired(o.conversion@, n.conversion@, t),
    }
}

/// Repairs the reference `f` of every axis description.
pub fn repair_axis_descrs(descrs: &mut Vec<AxisDescr>, table: &NameTable, f: AxisDescrRef)
    ensures
        axis_descrs_repaired(old(descrs)@, final(descrs)@, table@, f),
{
    let mut i: usize = 0;
    while i < descrs.len()
        invariant
            i <= descrs@.len(),
            descrs@.len() == old(descrs)@.len(),
            forall|j: int|
                0 <= j < i ==> axis_descr_repaired(#[trigger] old(descrs)@[j], descrs@[j], table@, f),
            forall|j: int| i <= j < descrs@.len() ==> #[trigger] descrs@[j] == old(descrs)@[j],
        decreases descrs@.len() - i,
    {
        match f {
            AxisDescrRef::InputQuantity => repair_field(&mut descrs[i].input_quantity, table),
            AxisDescrRef::AxisPoints => repair_opt_field(&mut descrs[i].axis_pts_ref, table),
            AxisDescrRef::Conversion => repair_conversion(&mut descrs[i].conversion, table),
        }
        i = i + 1;
    }
}

/// `n` is `o` with the measurement references of a characteristic repaired through
/// `t`: its axes' input quantities and its comparison quantity.
pub open spec fn characteristic_measurement_refs_repaired(
    o: Characteristic,
    n: Characteristic,
    t: Map<Seq<char>, Seq<char>>,
) -> bool {
    &&& n == (Characteristic {
        axis_descr: n.axis_descr,
        comparison_quantity: n.comparison_quantity,
        ..o
    })
    &&& axis_descrs_repaired(o.axis_descr@, n.axis_descr@, t, AxisDescrRef::InputQuantity)
    &&& opt_repaired(o.comparison_quantity, n.comparison_quantity, t)
}

/// Repairs the measurement references of a characteristic.
pub fn repair_characteristic_measurement_refs(x: &mut Characteristic, table: &NameTable)
    ensures
        characteristic_measurement_refs_repaired(*old(x), *final(x), table@),
{
    repair_axis_descrs(&mut x.axis_descr, table, AxisDescrRef::InputQuantity);
    repair_opt_field(&mut x.comparison_quantity, table);
}

/// `n` is `o` with the axis-points references of a characteristic's axes repaired
/// through `t`.
pub open spec fn characteristic_axis_pts_refs_repaired(
    o: Characteristic,
    n: Characteristic,
    t: Map<Seq<char>, Seq<char>>,
) -> bool {
    &&& n == (Characteristic { axis_descr: n.axis_descr, ..o })
    &&& axis_descrs_repaired(o.axis_descr@, n.axis_descr@, t, AxisDescrRef::AxisPoints)
}

/// Repairs the axis-points references of a characteristic.
pub fn repair_characteristic_axis_pts_refs(x: &mut Characteristic, table: &NameTable)
    ensures
        characteristic_axis_pts_refs_repaired(*old(x), *final(x), table@),
{
    repair_axis_descrs(&mut x.axis_descr, table, AxisDescrRef::AxisPoints);
}

/// `n` is `o` with the conversions of a characteristic and of its axes repaired
/// through `t`.
pub open spec fn characteristic_conversion_refs_repaired(
    o: Characteristic,
    n: Characteristic,
    t: Map<Seq<char>, Seq<char>>,
) -> bool {
    &&& n == (Characteristic { axis_descr: n.axis_descr, conversion: n.conversion, ..o })
    &&& axis_descrs_repaired(o.axis_descr@, n.axis_descr@, t, AxisDescrRef::Conversion)
    &&& conversion_repaired(o.conversion@, n.conversion@, t)
}

/// Repairs the conversion references of a characteristic.
pub fn repair_characteristic_conversion_refs(x: &mut Characteristic, table: &NameTable)
    ensures
        characteristic_conversion_refs_repaired(*old(x), *final(x), table@),
{
    repair_axis_descrs(&mut x.axis_descr, table, AxisDescrRef::Conversion);
    repair_conversion(&mut x.conversion, table);
}

/// `n` is `o` with every list of referenced groups repaired through `t`.
pub open spec fn user_rights_group_refs_repaired(
    o: UserRights,
    n: UserRights,
    t: Map<Seq<char>, Seq<char>>,
) -> bool {
    &&& n.ref_group@.len() == o.ref_group@.len()
    &&& forall|i: int|
        0 <= i < o.ref_group@.len() ==> list_repaired(#[trigger] o.ref_group@[i]@, n.ref_group@[i]@, t)
}

/// Repairs the group references of user rights.
pub fn repair_user_rights_group_refs(x: &mut UserRights, table: &NameTable)
    ensures
        user_rights_group_refs_repaired(*old(x), *final(x), table@),
{
    let mut i: usize = 0;
    while i < x.ref_group.len()
        invariant
            i <= x.ref_group@.len(),
            x.ref_group@.len() == old(x).ref_group@.len(),
            forall|j: int|
                0 <= j < i ==> list_repaired(#[trigger] old(x).ref_group@[j]@, x.ref_group@[j]@, table@),
            forall|j: int| i <= j < x.ref_group@.len() ==> #[trigger] x.ref_group@[j] == old(x).ref_group@[j],
        decreases x.ref_group@.len() - i,
    {
        repair_list(&mut x.ref_group[i], table);
        i = i + 1;
    }
}

/// `n` is the module `o` after the characteristic repair pass through `t`.
pub open spec fn characteristic_xrefs_repaired(o: Module, n: Module, t: Map<Seq<char>, Seq<char>>) -> bool {
    &&& n == (Module { characteristic: n.characteristic, function: n.function, group: n.group, transformer: n.transformer, ..o })
    &&& n.characteristic@.len() == o.characteristic@.len()
    &&& forall|i: int| 0 <= i < o.characteristic@.len() ==> characteristic_characteristic_refs_repaired(#[trigger] o.characteristic@[i], n.characteristic@[i], t)
    &&& n.function@.len() == o.function@.len()
    &&& forall|i: int| 0 <= i < o.function@.len() ==> function_characteristic_refs_repaired(#[trigger] o.function@[i], n.function@[i], t)
    &&& n.group@.len() == o.group@.len()
    &&& forall|i: int| 0 <= i < o.group@.len() ==> group_characteristic_refs_repaired(#[trigger] o.group@[i], n.group@[i], t)
    &&& n.transformer@.len() == o.transformer@.len()
    &&& forall|i: int| 0 <= i < o.transformer@.len() ==> transformer_refs_repaired(#[trigger] o.transformer@[i], n.transformer@[i], t)
}

/// The characteristic repair pass: rewrites every reference to an object of the
/// characteristic category through `table`, the characteristic rename table.
pub fn update_characteristic_xrefs(module: &mut Module, table: &NameTable)
    ensures
        characteristic_xrefs_repaired(*old(module), *final(module), table@),
{
    let mut i: usize = 0;
    while i < module.characteristic.len()
        invariant
            *module == (Module { characteristic: module.characteristic, ..*old(module) }),
            i <= module.characteristic@.len(),
            module.characteristic@.len() == old(module).characteristic@.len(),
            forall|j: int| 0 <= j < i ==> characteristic_characteristic_refs_repaired(#[trigger] old(module).characteristic@[j], module.characteristic@[j], table@),
            forall|j: int| i <= j < module.characteristic@.len() ==> #[trigger] module.characteristic@[j] == old(module).characteristic@[j],
        decreases module.characteristic@.len() - i,
    {
        repair_characteristic_characteristic_refs(&mut module.characteristic[i], table);
        i = i + 1;
    }
    let mut i: usize = 0;
    while i < module.function.len()
        invariant
            *module == (Module { characteristic: module.characteristic, function: module.function, ..*old(module) }),
            module.characteristic@.len() == old(module).characteristic@.len(),
            forall|j: int| 0 <= j < old(module).characteristic@.len() ==> characteristic_characteristic_refs_repaired(#[trigger] old(module).characteristic@[j], module.characteristic@[j], table@),
            i <= module.function@.len(),
            module.function@.len() == old(module).function@.len(),
            forall|j: int| 0 <= j < i ==> function_characteristic_refs_repaired(#[trigger] old(module).function@[j], module.function@[j], table@),
            forall|j: int| i <= j < module.function@.len() ==> #[trigger] module.function@[j] == old(module).function@[j],
        decreases module.function@.len() - i,
    {
        repair_function_characteristic_refs(&mut module.function[i], table);
        i = i + 1;
    }
    let mut i: usize = 0;
    while i < module.group.len()
        invariant
            *module == (Module { characteristic: module.characteristic, function: module.function, group: module.group, ..*old(module) }),
            module.characteristic@.len() == old(module).characteristic@.len(),
            forall|j: int| 0 <= j < old(module).characteristic@.len() ==> characteristic_characteristic_refs_repaired(#[trigger] old(module).characteristic@[j], module.characteristic@[j], table@),
            module.function@.len() == old(module).function@.len(),
            forall|j: int| 0 <= j < old(module).function@.len() ==> function_characteristic_refs_repaired(#[trigger] old(module).function@[j], module.function@[j], table@),
            i <= module.group@.len(),
            module.group@.len() == old(module).group@.len(),
            forall|j: int| 0 <= j < i ==> group_characteristic_refs_repaired(#[trigger] old(module).group@[j], module.group@[j], table@),
            forall|j: int| i <= j < module.group@.len() ==> #[trigger] module.group@[j] == old(module).group@[j],
        decreases module.group@.len() - i,
    {
        repair_group_characteristic_refs(&mut module.group[i], table);
        i = i + 1;
    }
    let mut i: usize = 0;
    while i < module.transformer.len()
        invariant
            *module == (Module { characteristic: module.characteristic, function: module.function, group: module.group, transformer: module.transformer, ..*old(module) }),
            module.characteristic@.len() == old(module).characteristic@.len(),
            forall|j: int| 0 <= j < old(module).characteristic@.len() ==> characteristic_characteristic_refs_repaired(#[trigger] old(module).characteristic@[j], module.characteristic@[j], table@),
            module.function@.len() == old(module).function@.len(),
            forall|j: int| 0 <= j < old(module).function@.len() ==> function_characteristic_refs_repaired(#[trigger] old(module).function@[j], module.function@[j], table@),
            module.group@.len() == old(module).group@.len(),
            forall|j: int| 0 <= j < old(module).group@.len() ==> group_characteristic_refs_repaired(#[trigger] old(module).group@[j], module.group@[j], table@),
            i <= module.transformer@.len(),
            module.transformer@.len() == old(module).transformer@.len(),
            forall|j: int| 0 <= j < i ==> transformer_refs_repaired(#[trigger] old(module).transformer@[j], module.transformer@[j], table@),
            forall|j: int| i <= j < module.transformer@.len() ==> #[trigger] module.transformer@[j] == old(module).transformer@[j],
        decreases module.transformer@.len() - i,
    {
        repair_transformer_refs(&mut module.transformer[i], table);
        i = i + 1;
    }
}

/// `n` is the module `o` after the measurement repair pass through `t`.
pub open spec fn measurement_xrefs_repaired(o: Module, n: Module, t: Map<Seq<char>, Seq<char>>) -> bool {
    &&& n == (Module { characteristic: n.characteristic, typedef_axis: n.typedef_axis, axis_pts: n.axis_pts, function: n.function, group: n.group, ..o })
    &&& n.characteristic@.len() == o.characteristic@.len()
    &&& forall|i: int| 0 <= i < o.characteristic@.len() ==> characteristic_measurement_refs_repaired(#[trigger] o.characteristic@[i], n.characteristic@[i], t)
    &&& n.typedef_axis@.len() == o.typedef_axis@.len()
    &&& forall|i: int| 0 <= i < o.typedef_axis@.len() ==> typedef_axis_measurement_refs_repaired(#[trigger] o.typedef_axis@[i], n.typedef_axis@[i], t)
    &&& n.axis_pts@.len() == o.axis_pts@.len()
    &&& forall|i: int| 0 <= i < o.axis_pts@.len() ==> axis_pts_measurement_refs_repaired(#[trigger] o.axis_pts@[i], n.axis_pts@[i], t)
    &&& n.function@.len() == o.function@.len()
    &&& forall|i: int| 0 <= i < o.function@.len() ==> function_measurement_refs_repaired(#[trigger] o.function@[i], n.function@[i], t)
    &&& n.group@.len() == o.group@.len()
    &&& forall|i: int| 0 <= i < o.group@.len() ==> group_measurement_refs_repaired(#[trigger] o.group@[i], n.group@[i], t)
}

/// The measurement repair pass: rewrites every reference to an object of the measurement
/// category through `table`, the measurement rename table.
pub fn update_measurement_xrefs(module: &mut Module, table: &NameTable)
    ensures
        measurement_xrefs_repaired(*old(module), *final(module), table@),
{
    let mut i: usize = 0;
    while i < module.characteristic.len()
        invariant
            *module == (Module { characteristic: module.characteristic, ..*old(module) }),
            i <= module.characteristic@.len(),
            module.characteristic@.len() == old(module).characteristic@.len(),
            forall|j: int| 0 <= j < i ==> characteristic_measurement_refs_repaired(#[trigger] old(module).characteristic@[j], module.characteristic@[j], table@),
            forall|j: int| i <= j < module.characteristic@.len() ==> #[trigger] module.characteristic@[j] == old(module).characteristic@[j],
        decreases module.characteristic@.len() - i,
    {
        repair_characteristic_measurement_refs(&mut module.characteristic[i], table);
        i = i + 1;
    }
    let mut i: usize = 0;
    while i < module.typedef_axis.len()
        invariant
            *module == (Module { characteristic: module.characteristic, typedef_axis: module.typedef_axis, ..*old(module) }),
            module.characteristic@.len() == old(module).characteristic@.len(),
            forall|j: int| 0 <= j < old(module).characteristic@.len() ==> characteristic_measurement_refs_repaired(#[trigger] old(module).characteristic@[j], module.characteristic@[j], table@),
            i <= module.typedef_axis@.len(),
            module.typedef_axis@.len() == old(module).typedef_axis@.len(),
            forall|j: int| 0 <= j < i ==> typedef_axis_measurement_refs_repaired(#[trigger] old(module).typedef_axis@[j], module.typedef_axis@[j], table@),
            forall|j: int| i <= j < module.typedef_axis@.len() ==> #[trigger] module.typedef_axis@[j] == old(module).typedef_axis@[j],
        decreases module.typedef_axis@.len() - i,
    {
        repair_typedef_axis_measurement_refs(&mut module.typedef_axis[i], table);
        i = i + 1;
    }
    let mut i: usize = 0;
    while i < module.axis_pts.len()
        invariant
            *module == (Module { characteristic: module.characteristic, typedef_axis: module.typedef_axis, axis_pts: module.axis_pts, ..*old(module) }),
            module.characteristic@.len() == old(module).characteristic@.len(),
            forall|j: int| 0 <= j < old(module).characteristic@.len() ==> characteristic_measurement_refs_repaired(#[trigger] old(module).characteristic@[j], module.characteristic@[j], table@),
            module.typedef_axis@.len() == old(module).typedef_axis@.len(),
            forall|j: int| 0 <= j < old(module).typedef_axis@.len() ==> typedef_axis_measurement_refs_repaired(#[trigger] old(module).typedef_axis@[j], module.typedef_axis@[j], table@),
            i <= module.axis_pts@.len(),
            module.axis_pts@.len() == old(module).axis_pts@.len(),
            forall|j: int| 0 <= j < i ==> axis_pts_measurement_refs_repaired(#[trigger] old(module).axis_pts@[j], module.axis_pts@[j], table@),
            forall|j: int| i <= j < module.axis_pts@.len() ==> #[trigger] module.axis_pts@[j] == old(module).axis_pts@[j],
        decreases module.axis_pts@.len() - i,
    {
        repair_axis_pts_measurement_refs(&mut module.axis_pts[i], table);
        i = i + 1;
    }
    let mut i: usize = 0;
    while i < module.function.len()
        invariant
            *module == (Module { characteristic: module.characteristic, typedef_axis: module.typedef_axis, axis_pts: module.axis_pts, function: module.function, ..*old(module) }),
            module.characteristic@.len() == old(module).characteristic@.len(),
            forall|j: int| 0 <= j < old(module).characteristic@.len() ==> characteristic_measurement_refs_repaired(#[trigger] old(module).characteristic@[j], module.characteristic@[j], table@),
            module.typedef_axis@.len() == old(module).typedef_axis@.len(),
            forall|j: int| 0 <= j < old(module).typedef_axis@.len() ==> typedef_axis_measurement_refs_repaired(#[trigger] old(module).typedef_axis@[j], module.typedef_axis@[j], table@),
            module.axis_pts@.len() == old(module).axis_pts@.len(),
            forall|j: int| 0 <= j < old(module).axis_pts@.len() ==> axis_pts_measurement_refs_repaired(#[trigger] old(module).axis_pts@[j], module.axis_pts@[j], table@),
            i <= module.function@.len(),
            module.function@.len() == old(module).function@.len(),
            forall|j: int| 0 <= j < i ==> function_measurement_refs_repaired(#[trigger] old(module).function@[j], module.function@[j], table@),
            forall|j: int| i <= j < module.function@.len() ==> #[trigger] module.function@[j] == old(module).function@[j],
        decreases module.function@.len() - i,
    {
        repair_function_measurement_refs(&mut module.function[i], table);
        i = i + 1;
    }
    let mut i: usize = 0;
    while i < module.group.len()
        invariant
            *module == (Module { characteristic: module.characteristic, typedef_axis: module.typedef_axis, axis_pts: module.axis_pts, function: module.function, group: module.group, ..*old(module) }),
            module.characteristic@.len() == old(module).characteristic@.len(),
            forall|j: int| 0 <= j < old(module).characteristic@.len() ==> characteristic_measurement_refs_repaired(#[trigger] old(module).characteristic@[j], module.characteristic@[j], table@),
            module.typedef_axis@.len() == old(module).typedef_axis@.len(),
            forall|j: int| 0 <= j < old(module).typedef_axis@.len() ==> typedef_axis_measurement_refs_repaired(#[trigger] old(module).typedef_axis@[j], module.typedef_axis@[j], table@),
            module.axis_pts@.len() == old(module).axis_pts@.len(),
            forall|j: int| 0 <= j < old(module).axis_pts@.len() ==> axis_pts_measurement_refs_repaired(#[trigger] old(module).axis_pts@[j], module.axis_pts@[j], table@),
            module.function@.len() == old(module).function@.len(),
            forall|j: int| 0 <= j < old(module).function@.len() ==> function_measurement_refs_repaired(#[trigger] old(module).function@[j], module.function@[j], table@),
            i <= module.group@.len(),
            module.group@.len() == old(module).group@.len(),
            forall|j: int| 0 <= j < i ==> group_measurement_refs_repaired(#[trigger] old(module).group@[j], module.group@[j], table@),
            forall|j: int| i <= j < module.group@.len() ==> #[trigger] module.group@[j] == old(module).group@[j],
        decreases module.group@.len() - i,
    {
        repair_group_measurement_refs(&mut module.group[i], table);
        i = i + 1;
    }
}

/// `n` is the module `o` after the axis-points repair pass through `t`.
pub open spec fn axis_pts_xrefs_repaired(o: Module, n: Module, t: Map<Seq<char>, Seq<char>>) -> bool {
    &&& n == (Module { characteristic: n.characteristic, ..o })
    &&& n.characteristic@.len() == o.characteristic@.len()
    &&& forall|i: int| 0 <= i < o.characteristic@.len() ==> characteristic_axis_pts_refs_repaired(#[trigger] o.characteristic@[i], n.characteristic@[i], t)
}

/// The axis-points repair pass: rewrites every reference to an object of the axis-points
/// category through `table`, the axis-points rename table.
pub fn update_axis_pts_xrefs(module: &mut Module, table: &NameTable)
    ensures
        axis_pts_xrefs_repaired(*old(module), *final(module), table@),
{
    let mut i: usize = 0;
    while i < module.characteristic.len()
        invariant
            *module == (Module { characteristic: module.characteristic, ..*old(module) }),
            i <= module.characteristic@.len(),
            module.characteristic@.len() == old(module).characteristic@.len(),
            forall|j: int| 0 <= j < i ==> characteristic_axis_pts_refs_repaired(#[trigger] old(module).characteristic@[j], module.characteristic@[j], table@),
            forall|j: int| i <= j < module.characteristic@.len() ==> #[trigger] module.characteristic@[j] == old(module).characteristic@[j],
        decreases module.characteristic@.len() - i,
    {
        repair_characteristic_axis_pts_refs(&mut module.characteristic[i], table);
        i = i + 1;
    }
}

/// `n` is the module `o` after the record-layout repair pass through `t`.
pub open spec fn record_layout_xrefs_repaired(o: Module, n: Module, t: Map<Seq<char>, Seq<char>>) -> bool {
    &&& n == (Module { axis_pts: n.axis_pts, characteristic: n.characteristic, typedef_axis: n.typedef_axis, ..o })
    &&& n.axis_pts@.len() == o.axis_pts@.len()
    &&& forall|i: int| 0 <= i < o.axis_pts@.len() ==> axis_pts_record_layout_refs_repaired(#[trigger] o.axis_pts@[i], n.axis_pts@[i], t)
    &&& n.characteristic@.len() == o.characteristic@.len()
    &&& forall|i: int| 0 <= i < o.characteristic@.len() ==> characteristic_record_layout_refs_repaired(#[trigger] o.characteristic@[i], n.characteristic@[i], t)
    &&& n.typedef_axis@.len() == o.typedef_axis@.len()
    &&& forall|i: int| 0 <= i < o.typedef_axis@.len() ==> typedef_axis_record_layout_refs_repaired(#[trigger] o.typedef_axis@[i], n.typedef_axis@[i], t)
}

/// The record-layout repair pass: rewrites every reference to an object of the record-
/// layout category through `table`, the record-layout rename table.
pub fn update_record_layout_xrefs(module: &mut Module, table: &NameTable)
    ensures
        record_layout_xrefs_repaired(*old(module), *final(module), table@),
{
    let mut i: usize = 0;
    while i < module.axis_pts.len()
        invariant
            *module == (Module { axis_pts: module.axis_pts, ..*old(module) }),
            i <= module.axis_pts@.len(),
            module.axis_pts@.len() == old(module).axis_pts@.len(),
            forall|j: int| 0 <= j < i ==> axis_pts_record_layout_refs_repaired(#[trigger] old(module).axis_pts@[j], module.axis_pts@[j], table@),
            forall|j: int| i <= j < module.axis_pts@.len() ==> #[trigger] module.axis_pts@[j] == old(module).axis_pts@[j],
        decreases module.axis_pts@.len() - i,
    {
        repair_axis_pts_record_layout_refs(&mut module.axis_pts[i], table);
        i = i + 1;
    }
    let mut i: usize = 0;
    while i < module.characteristic.len()
        invariant
            *module == (Module { axis_pts: module.axis_pts, characteristic: module.characteristic, ..*old(module) }),
            module.axis_pts@.len() == old(module).axis_pts@.len(),
            forall|j: int| 0 <= j < old(module).axis_pts@.len() ==> axis_pts_record_layout_refs_repaired(#[trigger] old(module).axis_pts@[j], module.axis_pts@[j], table@),
            i <= module.characteristic@.len(),
            module.characteristic@.len() == old(module).characteristic@.len(),
            forall|j: int| 0 <= j < i ==> characteristic_record_layout_refs_repaired(#[trigger] old(module).characteristic@[j], module.characteristic@[j], table@),
            forall|j: int| i <= j < module.characteristic@.len() ==> #[trigger] module.characteristic@[j] == old(module).characteristic@[j],
        decreases module.characteristic@.len() - i,
    {
        repair_characteristic_record_layout_refs(&mut module.characteristic[i], table);
        i = i + 1;
    }
    let mut i: usize = 0;
    while i < module.typedef_axis.len()
        invariant
            *module == (Module { axis_pts: module.axis_pts, characteristic: module.characteristic, typedef_axis: module.typedef_axis, ..*old(module) }),
            module.axis_pts@.len() == old(module).axis_pts@.len(),
            forall|j: int| 0 <= j < old(module).axis_pts@.len() ==> axis_pts_record_layout_refs_repaired(#[trigger] old(module).axis_pts@[j], module.axis_pts@[j], table@),
            module.characteristic@.len() == old(module).characteristic@.len(),
            forall|j: int| 0 <= j < old(module).characteristic@.len() ==> characteristic_record_layout_refs_repaired(#[trigger] old(module).characteristic@[j], module.characteristic@[j], table@),
            i <= module.typedef_axis@.len(),
            module.typedef_axis@.len() == old(module).typedef_axis@.len(),
            forall|j: int| 0 <= j < i ==> typedef_axis_record_layout_refs_repaired(#[trigger] old(module).typedef_axis@[j], module.typedef_axis@[j], table@),
            forall|j: int| i <= j < module.typedef_axis@.len() ==> #[trigger] module.typedef_axis@[j] == old(module).typedef_axis@[j],
        decreases module.typedef_axis@.len() - i,
    {
        repair_typedef_axis_record_layout_refs(&mut module.typedef_axis[i], table);
        i = i + 1;
    }
}

/// `n` is the module `o` after the function repair pass through `t`.
pub open spec fn function_xrefs_repaired(o: Module, n: Module, t: Map<Seq<char>, Seq<char>>) -> bool {
    &&& n == (Module { function: n.function, axis_pts: n.axis_pts, characteristic: n.characteristic, measurement: n.measurement, group: n.group, ..o })
    &&& n.function@.len() == o.function@.len()
    &&& forall|i: int| 0 <= i < o.function@.len() ==> function_function_refs_repaired(#[trigger] o.function@[i], n.function@[i], t)
    &&& n.axis_pts@.len() == o.axis_pts@.len()
    &&& forall|i: int| 0 <= i < o.axis_pts@.len() ==> axis_pts_function_refs_repaired(#[trigger] o.axis_pts@[i], n.axis_pts@[i], t)
    &&& n.characteristic@.len() == o.characteristic@.len()
    &&& forall|i: int| 0 <= i < o.characteristic@.len() ==> characteristic_function_refs_repaired(#[trigger] o.characteristic@[i], n.characteristic@[i], t)
    &&& n.measurement@.len() == o.measurement@.len()
    &&& forall|i: int| 0 <= i < o.measurement@.len() ==> measurement_function_refs_repaired(#[trigger] o.measurement@[i], n.measurement@[i], t)
    &&& n.group@.len() == o.group@.len()
    &&& forall|i: int| 0 <= i < o.group@.len() ==> group_function_refs_repaired(#[trigger] o.group@[i], n.group@[i], t)
}

/// The function repair pass: rewrites every reference to an object of the function category
/// through `table`, the function rename table.
pub fn update_function_xrefs(module: &mut Module, table: &NameTable)
    ensures
        function_xrefs_repaired(*old(module), *final(module), table@),
{
    let mut i: usize = 0;
    while i < module.function.len()
        invariant
            *module == (Module { function: module.function, ..*old(module) }),
            i <= module.function@.len(),
            module.function@.len() == old(module).function@.len(),
            forall|j: int| 0 <= j < i ==> function_function_refs_repaired(#[trigger] old(module).function@[j], module.function@[j], table@),
            forall|j: int| i <= j < module.function@.len() ==> #[trigger] module.function@[j] == old(module).function@[j],
        decreases module.function@.len() - i,
    {
        repair_function_function_refs(&mut module.function[i], table);
        i = i + 1;
    }
    let mut i: usize = 0;
    while i < module.axis_pts.len()
        invariant
            *module == (Module { function: module.function, axis_pts: module.axis_pts, ..*old(module) }),
            module.function@.len() == old(module).function@.len(),
            forall|j: int| 0 <= j < old(module).function@.len() ==> function_function_refs_repaired(#[trigger] old(module).function@[j], module.function@[j], table@),
            i <= module.axis_pts@.len(),
            module.axis_pts@.len() == old(module).axis_pts@.len(),
            forall|j: int| 0 <= j < i ==> axis_pts_function_refs_repaired(#[trigger] old(module).axis_pts@[j], module.axis_pts@[j], table@),
            forall|j: int| i <= j < module.axis_pts@.len() ==> #[trigger] module.axis_pts@[j] == old(module).axis_pts@[j],
        decreases module.axis_pts@.len() - i,
    {
        repair_axis_pts_function_refs(&mut module.axis_pts[i], table);
        i = i + 1;
    }
    let mut i: usize = 0;
    while i < module.characteristic.len()
        invariant
            *module == (Module { function: module.function, axis_pts: module.axis_pts, characteristic: module.characteristic, ..*old(module) }),
            module.function@.len() == old(module).function@.len(),
            forall|j: int| 0 <= j < old(module).function@.len() ==> function_function_refs_repaired(#[trigger] old(module).function@[j], module.function@[j], table@),
            module.axis_pts@.len() == old(module).axis_pts@.len(),
            forall|j: int| 0 <= j < old(module).axis_pts@.len() ==> axis_pts_function_refs_repaired(#[trigger] old(module).axis_pts@[j], module.axis_pts@[j], table@),
            i <= module.characteristic@.len(),
            module.characteristic@.len() == old(module).characteristic@.len(),
            forall|j: int| 0 <= j < i ==> characteristic_function_refs_repaired(#[trigger] old(module).characteristic@[j], module.characteristic@[j], table@),
            forall|j: int| i <= j < module.characteristic@.len() ==> #[trigger] module.characteristic@[j] == old(module).characteristic@[j],
        decreases module.characteristic@.len() - i,
    {
        repair_characteristic_function_refs(&mut module.characteristic[i], table);
        i = i + 1;
    }
    let mut i: usize = 0;
    while i < module.measurement.len()
        invariant
            *module == (Module { function: module.function, axis_pts: module.axis_pts, characteristic: module.characteristic, measurement: module.measurement, ..*old(module) }),
            module.function@.len() == old(module).function@.len(),
            forall|j: int| 0 <= j < old(module).function@.len() ==> function_function_refs_repaired(#[trigger] old(module).function@[j], module.function@[j], table@),
            module.axis_pts@.len() == old(module).axis_pts@.len(),
            forall|j: int| 0 <= j < old(module).axis_pts@.len() ==> axis_pts_function_refs_repaired(#[trigger] old(module).axis_pts@[j], module.axis_pts@[j], table@),
            module.characteristic@.len() == old(module).characteristic@.len(),
            forall|j: int| 0 <= j < old(module).characteristic@.len() ==> characteristic_function_refs_repaired(#[trigger] old(module).characteristic@[j], module.characteristic@[j], table@),
            i <= module.measurement@.len(),
            module.measurement@.len() == old(module).measurement@.len(),
            forall|j: int| 0 <= j < i ==> measurement_function_refs_repaired(#[trigger] old(module).measurement@[j], module.measurement@[j], table@),
            forall|j: int| i <= j < module.measurement@.len() ==> #[trigger] module.measurement@[j] == old(module).measurement@[j],
        decreases module.measurement@.len() - i,
    {
        repair_measurement_function_refs(&mut module.measurement[i], table);
        i = i + 1;
    }
    let mut i: usize = 0;
    while i < module.group.len()
        invariant
            *module == (Module { function: module.function, axis_pts: module.axis_pts, characteristic: module.characteristic, measurement: module.measurement, group: module.group, ..*old(module) }),
            module.function@.len() == old(module).function@.len(),
            forall|j: int| 0 <= j < old(module).function@.len() ==> function_function_refs_repaired(#[trigger] old(module).function@[j], module.function@[j], table@),
            module.axis_pts@.len() == old(module).axis_pts@.len(),
            forall|j: int| 0 <= j < old(module).axis_pts@.len() ==> axis_pts_function_refs_repaired(#[trigger] old(module).axis_pts@[j], module.axis_pts@[j], table@),
            module.characteristic@.len() == old(module).characteristic@.len(),
            forall|j: int| 0 <= j < old(module).characteristic@.len() ==> characteristic_function_refs_repaired(#[trigger] old(module).characteristic@[j], module.characteristic@[j], table@),
            module.measurement@.len() == old(module).measurement@.len(),
            forall|j: int| 0 <= j < old(module).measurement@.len() ==> measurement_function_refs_repaired(#[trigger] old(module).measurement@[j], module.measurement@[j], table@),
            i <= module.group@.len(),
            module.group@.len() == old(module).group@.len(),
            forall|j: int| 0 <= j < i ==> group_function_refs_repaired(#[trigger] old(module).group@[j], module.group@[j], table@),
            forall|j: int| i <= j < module.group@.len() ==> #[trigger] module.group@[j] == old(module).group@[j],
        decreases module.group@.len() - i,
    {
        repair_group_function_refs(&mut module.group[i], table);
        i = i + 1;
    }
}

/// `n` is the module `o` after the group repair pass through `t`.
pub open spec fn group_xrefs_repaired(o: Module, n: Module, t: Map<Seq<char>, Seq<char>>) -> bool {
    &&& n == (Module { group: n.group, user_rights: n.user_rights, ..o })
    &&& n.group@.len() == o.group@.len()
    &&& forall|i: int| 0 <= i < o.group@.len() ==> group_group_refs_repaired(#[trigger] o.group@[i], n.group@[i], t)
    &&& n.user_rights@.len() == o.user_rights@.len()
    &&& forall|i: int| 0 <= i < o.user_rights@.len() ==> user_rights_group_refs_repaired(#[trigger] o.user_rights@[i], n.user_rights@[i], t)
}

/// The group repair pass: rewrites every reference to an object of the group category
/// through `table`, the group rename table.
pub fn update_group_xrefs(module: &mut Module, table: &NameTable)
    ensures
        group_xrefs_repaired(*old(module), *final(module), table@),
{
    let mut i: usize = 0;
    while i < module.group.len()
        invariant
            *module == (Module { group: module.group, ..*old(module) }),
            i <= module.group@.len(),
            module.group@.len() == old(module).group@.len(),
            forall|j: int| 0 <= j < i ==> group_group_refs_repaired(#[trigger] old(module).group@[j], module.group@[j], table@),
            forall|j: int| i <= j < module.group@.len() ==> #[trigger] module.group@[j] == old(module).group@[j],
        decreases module.group@.len() - i,
    {
        repair_group_group_refs(&mut module.group[i], table);
        i = i + 1;
    }
    let mut i: usize = 0;
    while i < module.user_rights.len()
        invariant
            *module == (Module { group: module.group, user_rights: module.user_rights, ..*old(module) }),
            module.group@.len() == old(module).group@.len(),
            forall|j: int| 0 <= j < old(module).group@.len() ==> group_group_refs_repaired(#[trigger] old(module).group@[j], module.group@[j], table@),
            i <= module.user_rights@.len(),
            module.user_rights@.len() == old(module).user_rights@.len(),
            forall|j: int| 0 <= j < i ==> user_rights_group_refs_repaired(#[trigger] old(module).user_rights@[j], module.user_rights@[j], table@),
            forall|j: int| i <= j < module.user_rights@.len() ==> #[trigger] module.user_rights@[j] == old(module).user_rights@[j],
        decreases module.user_rights@.len() - i,
    {
        repair_user_rights_group_refs(&mut module.user_rights[i], table);
        i = i + 1;
    }
}

/// `n` is the module `o` after the computation-method repair pass through `t`.
pub open spec fn compu_method_xrefs_repaired(o: Module, n: Module, t: Map<Seq<char>, Seq<char>>) -> bool {
    &&& n == (Module { axis_pts: n.axis_pts, characteristic: n.characteristic, measurement: n.measurement, typedef_axis: n.typedef_axis, ..o })
    &&& n.axis_pts@.len() == o.axis_pts@.len()
    &&& forall|i: int| 0 <= i < o.axis_pts@.len() ==> axis_pts_conversion_refs_repaired(#[trigger] o.axis_pts@[i], n.axis_pts@[i], t)
    &&& n.characteristic@.len() == o.characteristic@.len()
    &&& forall|i: int| 0 <= i < o.characteristic@.len() ==> characteristic_conversion_refs_repaired(#[trigger] o.characteristic@[i], n.characteristic@[i], t)
    &&& n.measurement@.len() == o.measurement@.len()
    &&& forall|i: int| 0 <= i < o.measurement@.len() ==> measurement_conversion_refs_repaired(#[trigger] o.measurement@[i], n.measurement@[i], t)
    &&& n.typedef_axis@.len() == o.typedef_axis@.len()
    &&& forall|i: int| 0 <= i < o.typedef_axis@.len() ==> typedef_axis_conversion_refs_repaired(#[trigger] o.typedef_axis@[i], n.typedef_axis@[i], t)
}

/// The computation-method repair pass: rewrites every reference to an object of the
/// computation-method category through `table`, the computation-method rename table.
pub fn update_compu_method_xrefs(module: &mut Module, table: &NameTable)
    ensures
        compu_method_xrefs_repaired(*old(module), *final(module), table@),
{
    let mut i: usize = 0;
    while i < module.axis_pts.len()
        invariant
            *module == (Module { axis_pts: module.axis_pts, ..*old(module) }),
            i <= module.axis_pts@.len(),
            module.axis_pts@.len() == old(module).axis_pts@.len(),
            forall|j: int| 0 <= j < i ==> axis_pts_conversion_refs_repaired(#[trigger] old(module).axis_pts@[j], module.axis_pts@[j], table@),
            forall|j: int| i <= j < module.axis_pts@.len() ==> #[trigger] module.axis_pts@[j] == old(module).axis_pts@[j],
        decreases module.axis_pts@.len() - i,
    {
        repair_axis_pts_conversion_refs(&mut module.axis_pts[i], table);
        i = i + 1;
    }
    let mut i: usize = 0;
    while i < module.characteristic.len()
        invariant
            *module == (Module { axis_pts: module.axis_pts, characteristic: module.characteristic, ..*old(module) }),
            module.axis_pts@.len() == old(module).axis_pts@.len(),
            forall|j: int| 0 <= j < old(module).axis_pts@.len() ==> axis_pts_conversion_refs_repaired(#[trigger] old(module).axis_pts@[j], module.axis_pts@[j], table@),
            i <= module.characteristic@.len(),
            module.characteristic@.len() == old(module).characteristic@.len(),
            forall|j: int| 0 <= j < i ==> characteristic_conversion_refs_repaired(#[trigger] old(module).characteristic@[j], module.characteristic@[j], table@),
            forall|j: int| i <= j < module.characteristic@.len() ==> #[trigger] module.characteristic@[j] == old(module).characteristic@[j],
        decreases module.characteristic@.len() - i,
    {
        repair_characteristic_conversion_refs(&mut module.characteristic[i], table);
        i = i + 1;
    }
    let mut i: usize = 0;
    while i < module.measurement.len()
        invariant
            *module == (Module { axis_pts: module.axis_pts, characteristic: module.characteristic, measurement: module.measurement, ..*old(module) }),
            module.axis_pts@.len() == old(module).axis_pts@.len(),
            forall|j: int| 0 <= j < old(module).axis_pts@.len() ==> axis_pts_conversion_refs_repaired(#[trigger] old(module).axis_pts@[j], module.axis_pts@[j], table@),
            module.characteristic@.len() == old(module).characteristic@.len(),
            forall|j: int| 0 <= j < old(module).characteristic@.len() ==> characteristic_conversion_refs_repaired(#[trigger] old(module).characteristic@[j], module.characteristic@[j], table@),
            i <= module.measurement@.len(),
            module.measurement@.len() == old(module).measurement@.len(),
            forall|j: int| 0 <= j < i ==> measurement_conversion_refs_repaired(#[trigger] old(module).measurement@[j], module.measurement@[j], table@),
            forall|j: int| i <= j < module.measurement@.len() ==> #[trigger] module.measurement@[j] == old(module).measurement@[j],
        decreases module.measurement@.len() - i,
    {
        repair_measurement_conversion_refs(&mut module.measurement[i], table);
        i = i + 1;
    }
    let mut i: usize = 0;
    while i < module.typedef_axis.len()
        invariant
            *module == (Module { axis_pts: module.axis_pts, characteristic: module.characteristic, measurement: module.measurement, typedef_axis: module.typedef_axis, ..*old(module) }),
            module.axis_pts@.len() == old(module).axis_pts@.len(),
            forall|j: int| 0 <= j < old(module).axis_pts@.len() ==> axis_pts_conversion_refs_repaired(#[trigger] old(module).axis_pts@[j], module.axis_pts@[j], table@),
            module.characteristic@.len() == old(module).characteristic@.len(),
            forall|j: int| 0 <= j < old(module).characteristic@.len() ==> characteristic_conversion_refs_repaired(#[trigger] old(module).characteristic@[j], module.characteristic@[j], table@),
            module.measurement@.len() == old(module).measurement@.len(),
            forall|j: int| 0 <= j < old(module).measurement@.len() ==> measurement_conversion_refs_repaired(#[trigger] old(module).measurement@[j], module.measurement@[j], table@),
            i <= module.typedef_axis@.len(),
            module.typedef_axis@.len() == old(module).typedef_axis@.len(),
            forall|j: int| 0 <= j < i ==> typedef_axis_conversion_refs_repaired(#[trigger] old(module).typedef_axis@[j], module.typedef_axis@[j], table@),
            forall|j: int| i <= j < module.typedef_axis@.len() ==> #[trigger] module.typedef_axis@[j] == old(module).typedef_axis@[j],
        decreases module.typedef_axis@.len() - i,
    {
        repair_typedef_axis_conversion_refs(&mut module.typedef_axis[i], table);
        i = i + 1;
    }
}

/// `n` is the module `o` after the computation-table repair pass through `t`.
pub open spec fn compu_tabs_xrefs_repaired(o: Module, n: Module, t: Map<Seq<char>, Seq<char>>) -> bool {
    &&& n == (Module { compu_method: n.compu_method, ..o })
    &&& n.compu_method@.len() == o.compu_method@.len()
    &&& forall|i: int| 0 <= i < o.compu_method@.len() ==> compu_method_table_refs_repaired(#[trigger] o.compu_method@[i], n.compu_method@[i], t)
}

/// The computation-table repair pass: rewrites every reference to an object of the
/// computation-table category through `table`, the computation-table rename table.
pub fn update_compu_tabs_xrefs(module: &mut Module, table: &NameTable)
    ensures
        compu_tabs_xrefs_repaired(*old(module), *final(module), table@),
{
    let mut i: usize = 0;
    while i < module.compu_method.len()
        invariant
            *module == (Module { compu_method: module.compu_method, ..*old(module) }),
            i <= module.compu_method@.len(),
            module.compu_method@.len() == old(module).compu_method@.len(),
            forall|j: int| 0 <= j < i ==> compu_method_table_refs_repaired(#[trigger] old(module).compu_method@[j], module.compu_method@[j], table@),
            forall|j: int| i <= j < module.compu_method@.len() ==> #[trigger] module.compu_method@[j] == old(module).compu_method@[j],
        decreases module.compu_method@.len() - i,
    {
        repair_compu_method_table_refs(&mut module.compu_method[i], table);
        i = i + 1;
    }
}

} // verus!
