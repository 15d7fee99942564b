//! The calibration document, as the values that the renaming reads and writes.
use vstd::prelude::*;

verus! {

/// An axis description of a characteristic.
#[derive(Clone, Debug, PartialEq, Eq)]
pub struct AxisDescr {
    /// The measurement that drives the axis.
    pub input_quantity: String,
    /// The computation method of the axis.
    pub conversion: String,
    /// The axis-points object the axis uses, if any.
    pub axis_pts_ref: Option<String>,
}

/// A tunable parameter.
#[derive(Clone, Debug, PartialEq, Eq)]
pub struct Characteristic {
    pub name: String,
    pub long_identifier: String,
    pub display_identifier: Option<String>,
    /// Name of the binary symbol the object is bound to.
    pub symbol_link: Option<String>,
    /// For each interface-data block: its link-map symbol, where it has one.
    pub link_map_symbols: Vec<Option<String>>,
    pub address: u32,
    /// Record layout.
    pub deposit: String,
    pub conversion: String,
    pub dependent_characteristic: Option<Vec<String>>,
    pub map_list: Option<Vec<String>>,
    pub virtual_characteristic: Option<Vec<String>>,
    pub axis_descr: Vec<AxisDescr>,
    pub comparison_quantity: Option<String>,
    pub function_list: Option<Vec<String>>,
}

/// A live signal.
#[derive(Clone, Debug, PartialEq, Eq)]
pub struct Measurement {
    pub name: String,
    pub long_identifier: String,
    pub display_identifier: Option<String>,
    pub symbol_link: Option<String>,
    pub link_map_symbols: Vec<Option<String>>,
    pub ecu_address: Option<u32>,
    pub conversion: String,
    pub function_list: Option<Vec<String>>,
}

/// Axis points.
#[derive(Clone, Debug, PartialEq, Eq)]
pub struct AxisPts {
    pub name: String,
    pub long_identifier: String,
    pub display_identifier: Option<String>,
    pub symbol_link: Option<String>,
    pub link_map_symbols: Vec<Option<String>>,
    pub address: u32,
    pub input_quantity: String,
    /// Record layout.
    pub deposit_record: String,
    pub conversion: String,
    pub function_list: Option<Vec<String>>,
}

/// A record layout.
#[derive(Clone, Debug, PartialEq, Eq)]
pub struct RecordLayout {
    pub name: String,
}

/// A function of the software.
#[derive(Clone, Debug, PartialEq, Eq)]
pub struct Function {
    pub name: String,
    pub long_identifier: String,
    pub def_characteristic: Option<Vec<String>>,
    pub ref_characteristic: Option<Vec<String>>,
    pub in_measurement: Option<Vec<String>>,
    pub out_measurement: Option<Vec<String>>,
    pub loc_measurement: Option<Vec<String>>,
    pub sub_function: Option<Vec<String>>,
}

/// A group of objects.
#[derive(Clone, Debug, PartialEq, Eq)]
pub struct Group {
    pub name: String,
    pub long_identifier: String,
    pub ref_characteristic: Option<Vec<String>>,
    pub ref_measurement: Option<Vec<String>>,
    pub function_list: Option<Vec<String>>,
    pub sub_group: Option<Vec<String>>,
}

/// A transformer's object lists.
#[derive(Clone, Debug, PartialEq, Eq)]
pub struct Transformer {
    pub in_objects: Option<Vec<String>>,
    pub out_objects: Option<Vec<String>>,
}

/// A typedef axis.
#[derive(Clone, Debug, PartialEq, Eq)]
pub struct TypedefAxis {
    pub input_quantity: String,
    pub record_layout: String,
    pub conversion: String,
}

/// User rights: their lists of referenced groups.
#[derive(Clone, Debug, PartialEq, Eq)]
pub struct UserRights {
    pub ref_group: Vec<Vec<String>>,
}

/// A computation method.
#[derive(Clone, Debug, PartialEq, Eq)]
pub struct CompuMethod {
    pub name: String,
    /// Physical unit text.
    pub unit: String,
    pub compu_tab_ref: Option<String>,
    pub status_string_ref: Option<String>,
}

/// A computation table, value table or value-range table.
#[derive(Clone, Debug, PartialEq, Eq)]
pub struct CompuTable {
    pub name: String,
    pub long_identifier: String,
    /// Output texts of the table's entries.
    pub out_values: Vec<String>,
}

/// One module of the document.
#[derive(Clone, Debug, PartialEq, Eq)]
pub struct Module {
    pub name: String,
    pub long_identifier: String,
    pub characteristic: Vec<Characteristic>,
    pub measurement: Vec<Measurement>,
    pub axis_pts: Vec<AxisPts>,
    pub record_layout: Vec<RecordLayout>,
    pub function: Vec<Function>,
    pub group: Vec<Group>,
    pub compu_method: Vec<CompuMethod>,
    pub compu_tab: Vec<CompuTable>,
    pub compu_vtab: Vec<CompuTable>,
    pub compu_vtab_range: Vec<CompuTable>,
    pub transformer: Vec<Transformer>,
    pub typedef_axis: Vec<TypedefAxis>,
    pub user_rights: Vec<UserRights>,
}

/// The document's project.
#[derive(Clone, Debug, PartialEq, Eq)]
pub struct Project {
    pub name: String,
    pub long_identifier: String,
    pub module: Vec<Module>,
}

} // verus!
