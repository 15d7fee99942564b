//! The debug-info reconstruction: the input entry tree, read as a depth-first
//! sequence of records per unit, is rebuilt as a new graph of entries addressed
//! by index, with names replaced by pseudonyms and fixed addresses masked.
use crate::pseudonym::{is_name_pseudonym, obfuscate_name, random_u64};
use crate::table::NameTable;
use std::collections::HashMap;
use vstd::prelude::*;
use vstd::utf8::encode_utf8;

verus! {

broadcast use vstd::std_specs::hash::group_hash_axioms;

/// Tag of a compile unit entry.
pub const DW_TAG_COMPILE_UNIT: u16 = 0x11;

/// Tag of a partial unit entry.
pub const DW_TAG_PARTIAL_UNIT: u16 = 0x3c;

/// Attribute that holds an entry's name.
pub const DW_AT_NAME: u16 = 0x03;

/// Attribute that holds the compilation directory.
pub const DW_AT_COMP_DIR: u16 = 0x1b;

/// Attribute that holds the producer (compiler) string.
pub const DW_AT_PRODUCER: u16 = 0x25;

/// The kinds of enumerated code that an attribute can hold.
#[derive(Clone, Copy, Debug, PartialEq, Eq, Structural)]
pub enum CodeKind {
    Encoding,
    DecimalSign,
    Endianity,
    Accessibility,
    Visibility,
    Virtuality,
    Language,
    AddressClass,
    IdentifierCase,
    CallingConvention,
    Inline,
    Ordering,
}

/// An attribute value of the input.
#[derive(Clone, Debug)]
pub enum InputValue {
    Address(u64),
    Block(Vec<u8>),
    Data1(u8),
    Data2(u16),
    Data4(u32),
    Data8(u64),
    Sdata(i64),
    Udata(u64),
    Flag(bool),
    Code(CodeKind, u64),
    /// A location expression, as evaluation resolved it: the address when it is a
    /// single fixed address, else nothing.
    Location(Option<u64>),
    /// A reference by offset within the same unit.
    UnitRef(usize),
    /// A reference by offset within the whole debug-info section.
    DebugInfoRef(usize),
    /// A string, resolved to UTF-8 text.
    Text(String),
    /// Any value that is not carried over.
    Unsupported,
}

/// An attribute of the output graph.
#[derive(Clone, Debug)]
pub enum OutputValue {
    Address(u64),
    Block(Vec<u8>),
    Data1(u8),
    Data2(u16),
    Data4(u32),
    Data8(u64),
    Sdata(i64),
    Udata(u64),
    Flag(bool),
    Code(CodeKind, u64),
    /// A location expression that pushes this fixed address.
    Location(u64),
    /// An entry of the same unit, by index.
    UnitRef(usize),
    /// An entry of any unit: unit index, entry index.
    DebugInfoRef(usize, usize),
    Text(String),
}

#[derive(Clone, Debug)]
pub struct InputAttribute {
    pub name: u16,
    pub value: InputValue,
}

/// One record of the depth-first walk of a unit.
#[derive(Clone, Debug)]
pub struct InputEntry {
    /// Change of depth from the previous record (0 for the first).
    pub depth_delta: isize,
    /// Offset of the entry within its unit.
    pub unit_offset: usize,
    /// Offset of the entry within the debug-info section.
    pub section_offset: usize,
    pub tag: u16,
    pub attributes: Vec<InputAttribute>,
}

#[derive(Clone, Debug)]
pub struct InputUnit {
    /// Size in bytes of a target address.
    pub address_size: u8,
    pub entries: Vec<InputEntry>,
}

#[derive(Clone, Debug)]
pub struct OutputAttribute {
    pub name: u16,
    pub value: OutputValue,
}

/// An entry of the rebuilt graph; its handle is its index in the unit.
#[derive(Clone, Debug)]
pub struct OutputEntry {
    pub tag: u16,
    /// The parent's index; none for the unit's root.
    pub parent: Option<usize>,
    pub attributes: Vec<OutputAttribute>,
}

#[derive(Clone, Debug)]
pub struct OutputUnit {
    pub entries: Vec<OutputEntry>,
}

/// The structural faults that stop the reconstruction.
#[derive(Clone, Copy, Debug, PartialEq, Eq, Structural)]
pub enum DwarfError {
    /// There is no unit at all.
    NoUnits,
    /// The unit at this index has no entry.
    EmptyUnit(usize),
    /// The first entry of the unit at this index is no compile or partial unit.
    NotAUnitRoot(usize),
    /// The depth of the walk goes wrong at this (unit, entry).
    MalformedDepth(usize, usize),
}

/// The value copied one for one, for the kinds that are copied.
pub open spec fn verbatim(v: InputValue, r: OutputValue) -> bool {
    match v {
        InputValue::Block(a) => r matches OutputValue::Block(b) && b@ == a@,
        InputValue::Data1(a) => r == OutputValue::Data1(a),
        InputValue::Data2(a) => r == OutputValue::Data2(a),
        InputValue::Data4(a) => r == OutputValue::Data4(a),
        InputValue::Data8(a) => r == OutputValue::Data8(a),
        InputValue::Sdata(a) => r == OutputValue::Sdata(a),
        InputValue::Udata(a) => r == OutputValue::Udata(a),
        InputValue::Flag(a) => r == OutputValue::Flag(a),
        InputValue::Code(k, a) => r == OutputValue::Code(k, a),
        _ => false,
    }
}

/// The bits of an address of `size` bytes above its low 8 bits.
pub open spec fn high_bits(size: u8) -> u64 {
    if size >= 8 {
        0xffff_ffff_ffff_ff00
    } else if size >= 4 {
        0xffff_ff00
    } else if size >= 2 {
        0xff00
    } else {
        0
    }
}

/// The largest address of `size` bytes.
pub open spec fn max_address(size: u8) -> u64 {
    high_bits(size) | 0xff
}

/// `b` is a masking of the address `a` for addresses of `size` bytes: the low 8
/// bits kept, within the address size, and, where the size leaves bits to replace,
/// different from `a`.
pub open spec fn masks(a: u64, b: u64, size: u8) -> bool {
    &&& b & 0xff == a & 0xff
    &&& b <= max_address(size)
    &&& size >= 2 ==> b != a
}

/// Outcome for a name: the pseudonym on record for `s` after the call, taken from
/// the table when `s` was there, else freshly generated and recorded.
pub open spec fn name_outcome(
    s: Seq<char>,
    r: Option<OutputValue>,
    t0: Map<Seq<char>, Seq<char>>,
    t1: Map<Seq<char>, Seq<char>>,
) -> bool {
    &&& r matches Some(OutputValue::Text(p)) && t1.contains_key(s) && p@ == t1[s]
    &&& if t0.contains_key(s) {
        t1 == t0
    } else {
        t1 == t0.insert(s, t1[s]) && is_name_pseudonym(encode_utf8(s).len(), t1[s]) && t1[s] != s
    }
}

/// What the transformation makes of one attribute `name = v`: `r` is the output
/// value (none: the attribute is dropped), `size` the unit's address size, `uo` and
/// `so` the unit-local and the section-wide offset maps, `t0` and `t1` the name
/// table before and after.
pub open spec fn attribute_outcome(
    name: u16,
    v: InputValue,
    r: Option<OutputValue>,
    size: u8,
    uo: Map<usize, usize>,
    so: Map<usize, (usize, usize)>,
    t0: Map<Seq<char>, Seq<char>>,
    t1: Map<Seq<char>, Seq<char>>,
) -> bool {
    match v {
        InputValue::Address(a) => t1 == t0 && (r matches Some(OutputValue::Address(b)) && masks(
            a,
            b,
            size,
        )),
        InputValue::Text(s) => if name == DW_AT_NAME {
            name_outcome(s@, r, t0, t1)
        } else if name == DW_AT_COMP_DIR || name == DW_AT_PRODUCER {
            t1 == t0 && r is None
        } else {
            t1 == t0 && (r matches Some(OutputValue::Text(o)) && o@ == s@)
        },
        InputValue::Location(loc) => t1 == t0 && match loc {
            Some(a) => (r matches Some(OutputValue::Location(b)) && masks(a, b, size)),
            None => r is None,
        },
        InputValue::UnitRef(o) => t1 == t0 && if uo.contains_key(o) {
            r == Some(OutputValue::UnitRef(uo[o]))
        } else {
            r is None
        },
        InputValue::DebugInfoRef(o) => t1 == t0 && if so.contains_key(o) {
            r == Some(OutputValue::DebugInfoRef(so[o].0, so[o].1))
        } else {
            r is None
        },
        InputValue::Unsupported => t1 == t0 && r is None,
        _ => t1 == t0 && (r matches Some(w) && verbatim(v, w)),
    }
}

fn high_bits_of(size: u8) -> (r: u64)
    ensures
        r == high_bits(size),
{
    if size >= 8 {
        0xffff_ffff_ffff_ff00
    } else if size >= 4 {
        0xffff_ff00
    } else if size >= 2 {
        0xff00
    } else {
        0
    }
}

/// The masking of `address` with `random`: the bits above the low 8, within the
/// address size, from `random`, the low 8 bits from `address`; where that gives
/// `address` back, bit 8 is flipped.
pub open spec fn masked_address(address: u64, random: u64, size: u8) -> u64 {
    let r = (random & high_bits(size)) | (address & 0xff);
    if r == address && size >= 2 {
        r ^ 0x100
    } else {
        r
    }
}

/// Masks a fixed address of `address_size` bytes with the random bits `random`.
pub fn mask_address(address: u64, random: u64, address_size: u8) -> (r: u64)
    ensures
        r == masked_address(address, random, address_size),
        masks(address, r, address_size),
{
    let h = high_bits_of(address_size);
    let r = (random & h) | (address & 0xff);
    if address_size >= 8 {
        assert(r & 0xff == address & 0xff && (r ^ 0x100u64) & 0xff == address & 0xff && (r == address
            ==> (r ^ 0x100u64) != address) && r <= (h | 0xff) && (r ^ 0x100u64) <= (h | 0xff))
            by (bit_vector)
            requires
                r == (random & h) | (address & 0xff),
                h == 0xffff_ffff_ffff_ff00u64,
        ;
    } else if address_size >= 4 {
        assert(r & 0xff == address & 0xff && (r ^ 0x100u64) & 0xff == address & 0xff && (r == address
            ==> (r ^ 0x100u64) != address) && r <= (h | 0xff) && (r ^ 0x100u64) <= (h | 0xff))
            by (bit_vector)
            requires
                r == (random & h) | (address & 0xff),
                h == 0xffff_ff00u64,
        ;
    } else if address_size >= 2 {
        assert(r & 0xff == address & 0xff && (r ^ 0x100u64) & 0xff == address & 0xff && (r == address
            ==> (r ^ 0x100u64) != address) && r <= (h | 0xff) && (r ^ 0x100u64) <= (h | 0xff))
            by (bit_vector)
            requires
                r == (random & h) | (address & 0xff),
                h == 0xff00u64,
        ;
    } else {
        assert(r & 0xff == address & 0xff && r <= (h | 0xff)) by (bit_vector)
            requires
                r == (random & h) | (address & 0xff),
                h == 0u64,
        ;
    }
    if r == address && address_size >= 2 {
        r ^ 0x100
    } else {
        r
    }
}

/// The output value for the string `s` of attribute `name`.
fn obfuscate_text(name: u16, s: &String, table: &mut NameTable) -> (r: Option<OutputValue>)
    ensures
        attribute_outcome(
            name,
            InputValue::Text(*s),
            r,
            0,
            Map::empty(),
            Map::empty(),
            old(table)@,
            final(table)@,
        ),
{
    if name == DW_AT_NAME {
        match table.get(s) {
            Some(p) => Some(OutputValue::Text(p)),
            None => {
                let p = obfuscate_name(s.as_str());
                table.insert(s.clone(), p.clone());
                Some(OutputValue::Text(p))
            },
        }
    } else if name == DW_AT_COMP_DIR || name == DW_AT_PRODUCER {
        None
    } else {
        Some(OutputValue::Text(s.clone()))
    }
}

/// The output value of attribute `name = value`, or none where it is dropped:
/// references go through the offset maps, names through the table, fixed
/// addresses are masked, build provenance and unsupported values are dropped.
pub fn obfuscate_attribute_value(
    name: u16,
    value: &InputValue,
    address_size: u8,
    unit_offsets: &HashMap<usize, usize>,
    debuginfo_offsets: &HashMap<usize, (usize, usize)>,
    table: &mut NameTable,
) -> (r: Option<OutputValue>)
    ensures
        attribute_outcome(
            name,
            *value,
            r,
            address_size,
            unit_offsets@,
            debuginfo_offsets@,
            old(table)@,
            final(table)@,
        ),
{
    match value {
        InputValue::Address(a) => Some(
            OutputValue::Address(mask_address(*a, random_u64(), address_size)),
        ),
        InputValue::Block(b) => {
            let c = b.clone();
            assert(c@ =~= b@);
            Some(OutputValue::Block(c))
        },
        InputValue::Data1(a) => Some(OutputValue::Data1(*a)),
        InputValue::Data2(a) => Some(OutputValue::Data2(*a)),
        InputValue::Data4(a) => Some(OutputValue::Data4(*a)),
        InputValue::Data8(a) => Some(OutputValue::Data8(*a)),
        InputValue::Sdata(a) => Some(OutputValue::Sdata(*a)),
        InputValue::Udata(a) => Some(OutputValue::Udata(*a)),
        InputValue::Flag(a) => Some(OutputValue::Flag(*a)),
        InputValue::Code(k, a) => Some(OutputValue::Code(*k, *a)),
        InputValue::Location(loc) => match loc {
            Some(a) => Some(OutputValue::Location(mask_address(*a, random_u64(), address_size))),
            None => None,
        },
        InputValue::UnitRef(o) => match unit_offsets.get(o) {
            Some(e) => Some(OutputValue::UnitRef(*e)),
            None => None,
        },
        InputValue::DebugInfoRef(o) => match debuginfo_offsets.get(o) {
            Some(p) => Some(OutputValue::DebugInfoRef(p.0, p.1)),
            None => None,
        },
        InputValue::Text(s) => obfuscate_text(name, s, table),
        InputValue::Unsupported => None,
    }
}

/// Depth of record `i` of a unit's walk: the first record is at depth 0.
#[verifier::opaque]
pub open spec fn depth_at(s: Seq<InputEntry>, i: int) -> int
    decreases i,
{
    if i <= 0 {
        0
    } else {
        depth_at(s, i - 1) + s[i].depth_delta
    }
}

/// Record `j` is the last record at depth `k` among records `0..=i`.
pub open spec fn is_last_at_depth(s: Seq<InputEntry>, i: int, k: int, j: int) -> bool {
    &&& 0 <= j <= i
    &&& depth_at(s, j) == k
    &&& forall|m: int| j < m <= i ==> depth_at(s, m) != k
}

/// Record `i` (not the first) is a child of record `p`: `p` is the last record one
/// level up before it.
pub open spec fn is_parent(s: Seq<InputEntry>, i: int, p: int) -> bool {
    is_last_at_depth(s, i - 1, depth_at(s, i) - 1, p)
}

/// A unit tag: compile unit or partial unit.
pub open spec fn is_unit_tag(tag: u16) -> bool {
    tag == DW_TAG_COMPILE_UNIT || tag == DW_TAG_PARTIAL_UNIT
}

/// Record `i` lies one level below the root or deeper, and at most one level
/// below the record before it.
pub open spec fn depth_ok(s: Seq<InputEntry>, i: int) -> bool {
    1 <= depth_at(s, i) <= depth_at(s, i - 1) + 1
}

/// Every record after the first has its depth in place.
pub open spec fn depths_well_formed(s: Seq<InputEntry>) -> bool {
    forall|i: int| 0 < i < s.len() ==> #[trigger] depth_ok(s, i)
}

/// A unit that can be rebuilt: not empty, rooted in a unit entry, with a sound walk.
pub open spec fn unit_well_formed(s: Seq<InputEntry>) -> bool {
    &&& s.len() > 0
    &&& is_unit_tag(s[0].tag)
    &&& depths_well_formed(s)
}

/// The error that the unit at index `u` gives, when it is not well formed.
pub open spec fn unit_error(u: usize, s: Seq<InputEntry>) -> DwarfError {
    if s.len() == 0 {
        DwarfError::EmptyUnit(u)
    } else if !is_unit_tag(s[0].tag) {
        DwarfError::NotAUnitRoot(u)
    } else {
        DwarfError::MalformedDepth(u, first_bad_depth(s) as usize)
    }
}

/// The first record whose depth is out of place.
pub open spec fn first_bad_depth(s: Seq<InputEntry>) -> int {
    choose|i: int|
        0 < i < s.len() && !(#[trigger] depth_ok(s, i)) && forall|j: int|
            0 < j < i ==> #[trigger] depth_ok(s, j)
}

/// The rebuilt entries `out` have the shape of the records `s`: one entry per
/// record, with its tag, the root without parent and every other entry under its
/// parent in the walk.
pub open spec fn shape_conserved(s: Seq<InputEntry>, out: Seq<EntryShape>) -> bool {
    out.len() == s.len() && shape_prefix(s, out)
}

/// `out` has the shape of the first `out.len()` records of `s`.
pub open spec fn shape_prefix(s: Seq<InputEntry>, out: Seq<EntryShape>) -> bool {
    &&& out.len() <= s.len()
    &&& forall|i: int| 0 <= i < out.len() ==> (#[trigger] out[i]).tag == s[i].tag
    &&& out.len() > 0 ==> out[0].parent is None
    &&& forall|i: int|
        0 < i < out.len() ==> ((#[trigger] out[i]).parent matches Some(p) && is_parent(
            s,
            i,
            p as int,
        ))
}

/// The tag and the parent of an entry of the rebuilt graph.
#[derive(Clone, Copy, Debug, PartialEq, Eq, Structural)]
pub struct EntryShape {
    pub tag: u16,
    pub parent: Option<usize>,
}

/// The unit-local offset map `m` of the records `s`: every record's offset is a
/// key, and each key leads to a record with that offset.
pub open spec fn unit_map_ok(s: Seq<InputEntry>, m: Map<usize, usize>) -> bool {
    &&& forall|i: int| 0 <= i < s.len() ==> m.contains_key(#[trigger] s[i].unit_offset)
    &&& forall|o: usize|
        #[trigger] m.contains_key(o) ==> m[o] < s.len() && s[m[o] as int].unit_offset == o
}

proof fn lemma_depth_step(s: Seq<InputEntry>, i: int)
    requires
        0 < i,
    ensures
        depth_at(s, i) == depth_at(s, i - 1) + s[i].depth_delta,
{
    reveal(depth_at);
}

/// After record `i` at depth `d`, the stack cut to `d` levels and then `i` pushed
/// holds the last record of each level.
proof fn lemma_parents_step(s: Seq<InputEntry>, i: usize, parents: Seq<usize>, d: int)
    requires
        0 < i < s.len(),
        1 <= d <= parents.len(),
        depth_at(s, i as int) == d,
        forall|k: int|
            0 <= k < parents.len() ==> is_last_at_depth(s, i - 1, k, #[trigger] parents[k] as int),
    ensures
        is_parent(s, i as int, parents[d - 1] as int),
        forall|k: int|
            0 <= k < d + 1 ==> is_last_at_depth(
                s,
                i as int,
                k,
                #[trigger] parents.subrange(0, d).push(i)[k] as int,
            ),
{
    let q = parents.subrange(0, d).push(i);
    assert forall|k: int| 0 <= k < d + 1 implies is_last_at_depth(s, i as int, k, #[trigger] q[k] as int) by {
        if k < d {
            assert(q[k] == parents[k]);
            assert(is_last_at_depth(s, i - 1, k, parents[k] as int));
        } else {
            assert(q[k] == i);
        }
    }
}

/// Records the offsets of the unit at index `unit_index`: returns its unit-local
/// offset map and adds its section-wide offsets to `debuginfo_offsets`.
fn record_offsets(
    unit_index: usize,
    s: &Vec<InputEntry>,
    debuginfo_offsets: &mut HashMap<usize, (usize, usize)>,
) -> (offsets: HashMap<usize, usize>)
    ensures
        unit_map_ok(s@, offsets@),
        section_map_step(unit_index, s@, old(debuginfo_offsets)@, final(debuginfo_offsets)@),
{
    let ghost so0 = debuginfo_offsets@;
    let mut unit_offsets: HashMap<usize, usize> = HashMap::new();
    let mut i: usize = 0;
    while i < s.len()
        invariant
            i <= s@.len(),
            forall|j: int| 0 <= j < i ==> unit_offsets@.contains_key(#[trigger] s@[j].unit_offset),
            forall|o: usize| #[trigger]
                unit_offsets@.contains_key(o) ==> unit_offsets@[o] < i && s@[unit_offsets@[o] as int].unit_offset == o,
            forall|j: int|
                0 <= j < i ==> {
                    &&& debuginfo_offsets@.contains_key(#[trigger] s@[j].section_offset)
                    &&& debuginfo_offsets@[s@[j].section_offset].0 == unit_index
                    &&& last_at_section_offset(
                        s@,
                        i as int,
                        debuginfo_offsets@[s@[j].section_offset].1 as int,
                        s@[j].section_offset,
                    )
                },
            forall|o: usize| #[trigger]
                debuginfo_offsets@.contains_key(o) ==> {
                    ||| (so0.contains_key(o) && debuginfo_offsets@[o] == so0[o])
                    ||| {
                        let (u, e) = debuginfo_offsets@[o];
                        &&& u == unit_index
                        &&& e < i
                        &&& s@[e as int].section_offset == o
                    }
                },
            forall|o: usize| #[trigger] so0.contains_key(o) ==> debuginfo_offsets@.contains_key(o),
        decreases s@.len() - i,
    {
        unit_offsets.insert(s[i].unit_offset, i);
        debuginfo_offsets.insert(s[i].section_offset, (unit_index, i));
        i = i + 1;
    }
    unit_offsets
}

/// Record `j` is the last of the records `s[0..upto]` at section offset `o`.
pub open spec fn last_at_section_offset(s: Seq<InputEntry>, upto: int, j: int, o: usize) -> bool {
    &&& 0 <= j < upto
    &&& s[j].section_offset == o
    &&& forall|m: int| j < m < upto ==> (#[trigger] s[m]).section_offset != o
}

/// `so1` is `so0` with the section-wide offsets of the records `s` of the unit at
/// index `u` added: every record's offset leads to this unit and to the last record
/// at that offset, and every other key keeps its earlier value.
pub open spec fn section_map_step(
    u: usize,
    s: Seq<InputEntry>,
    so0: Map<usize, (usize, usize)>,
    so1: Map<usize, (usize, usize)>,
) -> bool {
    &&& forall|i: int|
        0 <= i < s.len() ==> {
            &&& so1.contains_key(#[trigger] s[i].section_offset)
            &&& so1[s[i].section_offset].0 == u
            &&& last_at_section_offset(s, s.len() as int, so1[s[i].section_offset].1 as int, s[i].section_offset)
        }
    &&& forall|o: usize| #[trigger]
        so1.contains_key(o) ==> {
            ||| (so0.contains_key(o) && so1[o] == so0[o])
            ||| {
                &&& so1[o].0 == u
                &&& so1[o].1 < s.len()
                &&& s[so1[o].1 as int].section_offset == o
            }
        }
    &&& forall|o: usize| #[trigger] so0.contains_key(o) ==> so1.contains_key(o)
}

/// The shape of the unit at index `unit_index`: one entry per record, each placed
/// under its parent in the walk; an error where the unit is not well formed.
fn build_shape(unit_index: usize, s: &Vec<InputEntry>) -> (r: Result<Vec<EntryShape>, DwarfError>)
    ensures
        match r {
            Ok(shape) => unit_well_formed(s@) && shape_conserved(s@, shape@),
            Err(e) => !unit_well_formed(s@) && e == unit_error(unit_index, s@),
        },
{
    let n = s.len();
    if n == 0 {
        return Err(DwarfError::EmptyUnit(unit_index));
    }
    if !(s[0].tag == DW_TAG_COMPILE_UNIT || s[0].tag == DW_TAG_PARTIAL_UNIT) {
        return Err(DwarfError::NotAUnitRoot(unit_index));
    }
    let mut shape: Vec<EntryShape> = Vec::new();
    shape.push(EntryShape { tag: s[0].tag, parent: None });
    let mut parents: Vec<usize> = Vec::new();
    parents.push(0);
    let mut depth: usize = 0;
    let mut i: usize = 1;
    proof {
        reveal(depth_at);
    }
    while i < n
        invariant
            n == s@.len(),
            1 <= i <= n,
            is_unit_tag(s@[0].tag),
            forall|j: int| 0 < j < i ==> #[trigger] depth_ok(s@, j),
            depth == depth_at(s@, i - 1),
            depth < i,
            parents@.len() == depth + 1,
            forall|k: int|
                0 <= k < parents@.len() ==> is_last_at_depth(s@, i - 1, k, #[trigger] parents@[k] as int),
            shape@.len() == i,
            shape_prefix(s@, shape@),
        decreases n - i,
    {
        let delta = s[i].depth_delta;
        proof {
            lemma_depth_step(s@, i as int);
        }
        let new_depth: usize;
        if delta == 1 {
            new_depth = depth + 1;
        } else if delta > 1 {
            proof {
                lemma_first_bad(s@, i as int);
            }
            return Err(DwarfError::MalformedDepth(unit_index, i));
        } else if delta == 0 {
            if depth == 0 {
                proof {
                    lemma_first_bad(s@, i as int);
                }
                return Err(DwarfError::MalformedDepth(unit_index, i));
            }
            new_depth = depth;
        } else {
            let up: usize = (-(delta + 1)) as usize + 1;
            if up >= depth {
                proof {
                    lemma_first_bad(s@, i as int);
                }
                return Err(DwarfError::MalformedDepth(unit_index, i));
            }
            new_depth = depth - up;
        }
        proof {
            lemma_parents_step(s@, i, parents@, new_depth as int);
        }
        parents.truncate(new_depth);
        let parent = parents[new_depth - 1];
        proof {
            lemma_shape_push(s@, shape@, parent);
        }
        shape.push(EntryShape { tag: s[i].tag, parent: Some(parent) });
        parents.push(i);
        depth = new_depth;
        i = i + 1;
    }
    Ok(shape)
}

proof fn lemma_shape_push(s: Seq<InputEntry>, shape: Seq<EntryShape>, p: usize)
    requires
        0 < shape.len() < s.len(),
        shape_prefix(s, shape),
        is_parent(s, shape.len() as int, p as int),
    ensures
        shape_prefix(s, shape.push(EntryShape { tag: s[shape.len() as int].tag, parent: Some(p) })),
{
    let q = shape.push(EntryShape { tag: s[shape.len() as int].tag, parent: Some(p) });
    assert forall|i: int| 0 < i < q.len() implies ((#[trigger] q[i]).parent matches Some(x) && is_parent(s, i, x as int)) by {
        if i < shape.len() {
            assert(q[i] == shape[i]);
        }
    }
}

/// Where record `i` is the first whose depth is out of place, it is the one that
/// the error names.
proof fn lemma_first_bad(s: Seq<InputEntry>, i: int)
    requires
        0 < i < s.len(),
        !depth_ok(s, i),
        forall|j: int| 0 < j < i ==> #[trigger] depth_ok(s, j),
    ensures
        !depths_well_formed(s),
        first_bad_depth(s) == i,
{
    let f = first_bad_depth(s);
    assert(0 < f < s.len() && !depth_ok(s, f));
    if f < i {
        assert(depth_ok(s, f));
    }
    if f > i {
        assert(depth_ok(s, i));
    }
}

/// Pass one for the unit at index `unit_index`: one entry per record, each placed
/// under its parent, with the unit-local offset map returned and the section-wide
/// offsets added to `debuginfo_offsets`. A unit that is not well formed is refused
/// and leaves `debuginfo_offsets` as it was.
pub fn create_unit_structure(
    unit_index: usize,
    unit: &InputUnit,
    debuginfo_offsets: &mut HashMap<usize, (usize, usize)>,
) -> (r: Result<(Vec<EntryShape>, HashMap<usize, usize>), DwarfError>)
    ensures
        match r {
            Ok((shape, offsets)) => {
                &&& unit_well_formed(unit.entries@)
                &&& shape_conserved(unit.entries@, shape@)
                &&& unit_map_ok(unit.entries@, offsets@)
                &&& section_map_step(
                    unit_index,
                    unit.entries@,
                    old(debuginfo_offsets)@,
                    final(debuginfo_offsets)@,
                )
            },
            Err(e) => {
                &&& !unit_well_formed(unit.entries@)
                &&& e == unit_error(unit_index, unit.entries@)
                &&& final(debuginfo_offsets)@ == old(debuginfo_offsets)@
            },
        },
{
    let shape = match build_shape(unit_index, &unit.entries) {
        Ok(shape) => shape,
        Err(e) => return Err(e),
    };
    let offsets = record_offsets(unit_index, &unit.entries, debuginfo_offsets);
    Ok((shape, offsets))
}

/// Unit `u` of `units` has an entry at the unit-local offset `o`.
pub open spec fn has_unit_offset(units: Seq<InputUnit>, u: int, o: usize) -> bool {
    exists|e: int| 0 <= e < units[u].entries@.len() && #[trigger] units[u].entries@[e].unit_offset == o
}

/// Some unit of `units` has an entry at the section-wide offset `o`.
pub open spec fn has_section_offset(units: Seq<InputUnit>, o: usize) -> bool {
    exists|v: int, e: int|
        0 <= v < units.len() && 0 <= e < units[v].entries@.len()
            && #[trigger] units[v].entries@[e].section_offset == o
}

/// The output value `w` of attribute `name` of an entry of unit `u` is carried
/// over from the input value `v`: copied, masked, a pseudonym for a name, or for a
/// reference the handle of the input entry at the referenced offset.
pub open spec fn carried(name: u16, v: InputValue, w: OutputValue, units: Seq<InputUnit>, u: int) -> bool {
    match v {
        InputValue::Text(s) => if name == DW_AT_NAME {
            w is Text
        } else {
            name != DW_AT_COMP_DIR && name != DW_AT_PRODUCER && (w matches OutputValue::Text(o)
                && o@ == s@)
        },
        InputValue::Address(a) => (w matches OutputValue::Address(b) && masks(
            a,
            b,
            units[u].address_size,
        )),
        InputValue::Location(loc) => (loc matches Some(a) && (w matches OutputValue::Location(b)
            && masks(a, b, units[u].address_size))),
        InputValue::UnitRef(o) => (w matches OutputValue::UnitRef(e) && e < units[u].entries@.len()
            && units[u].entries@[e as int].unit_offset == o),
        InputValue::DebugInfoRef(o) => (w matches OutputValue::DebugInfoRef(x, e) && x < units.len()
            && e < units[x as int].entries@.len() && units[x as int].entries@[e as int].section_offset
            == o),
        InputValue::Unsupported => false,
        _ => verbatim(v, w),
    }
}

/// Attribute `name = v` of an entry of unit `u` survives: it is no build
/// provenance, no unresolved location, no reference to an offset where no entry
/// is, and no unsupported value.
pub open spec fn kept(name: u16, v: InputValue, units: Seq<InputUnit>, u: int) -> bool {
    match v {
        InputValue::Text(_) => name != DW_AT_COMP_DIR && name != DW_AT_PRODUCER,
        InputValue::Location(loc) => loc is Some,
        InputValue::UnitRef(o) => has_unit_offset(units, u, o),
        InputValue::DebugInfoRef(o) => has_section_offset(units, o),
        InputValue::Unsupported => false,
        _ => true,
    }
}

/// The offset maps are those of `units` as seen from unit `u`: `uo` has exactly
/// the unit-local offsets of unit `u`, `so` exactly the section-wide offsets of
/// all units, each leading to an entry at that offset.
pub open spec fn maps_exact(
    units: Seq<InputUnit>,
    u: int,
    uo: Map<usize, usize>,
    so: Map<usize, (usize, usize)>,
) -> bool {
    &&& unit_map_ok(units[u].entries@, uo)
    &&& forall|o: usize|
        #[trigger] so.contains_key(o) ==> so[o].0 < units.len() && so[o].1 < units[so[o].0 as int].entries@.len()
            && units[so[o].0 as int].entries@[so[o].1 as int].section_offset == o
    &&& forall|v: int, e: int|
        0 <= v < units.len() && 0 <= e < units[v].entries@.len() ==> so.contains_key(
            #[trigger] units[v].entries@[e].section_offset,
        )
}

/// With exact offset maps, the outcome of an attribute is kept exactly when the
/// attribute is, and is then carried over.
proof fn lemma_outcome_carried(
    name: u16,
    v: InputValue,
    r: Option<OutputValue>,
    units: Seq<InputUnit>,
    u: int,
    uo: Map<usize, usize>,
    so: Map<usize, (usize, usize)>,
    t0: Map<Seq<char>, Seq<char>>,
    t1: Map<Seq<char>, Seq<char>>,
)
    requires
        0 <= u < units.len(),
        attribute_outcome(name, v, r, units[u].address_size, uo, so, t0, t1),
        maps_exact(units, u, uo, so),
    ensures
        r is Some <==> kept(name, v, units, u),
        r matches Some(w) ==> carried(name, v, w, units, u),
{
    match v {
        InputValue::UnitRef(o) => {
            if has_unit_offset(units, u, o) {
                let e = choose|e: int| 0 <= e < units[u].entries@.len() && #[trigger] units[u].entries@[e].unit_offset == o;
                assert(uo.contains_key(units[u].entries@[e].unit_offset));
            }
        },
        InputValue::DebugInfoRef(o) => {
            if has_section_offset(units, o) {
                let (x, e) = choose|x: int, e: int|
                    0 <= x < units.len() && 0 <= e < units[x].entries@.len()
                        && #[trigger] units[x].entries@[e].section_offset == o;
                assert(so.contains_key(units[x].entries@[e].section_offset));
            }
            if so.contains_key(o) {
                let x = so[o].0 as int;
                let e = so[o].1 as int;
                assert(units[x].entries@[e].section_offset == o);
            }
        },
        _ => {},
    }
}

/// The table `t1` keeps every record of `t0`, and what it adds are pseudonyms, each
/// different from the name it stands for.
pub open spec fn table_extends(t0: Map<Seq<char>, Seq<char>>, t1: Map<Seq<char>, Seq<char>>) -> bool {
    &&& forall|k: Seq<char>| #[trigger] t0.contains_key(k) ==> t1.contains_key(k) && t1[k] == t0[k]
    &&& forall|k: Seq<char>|
        #[trigger] t1.contains_key(k) && !t0.contains_key(k) ==> is_name_pseudonym(encode_utf8(k).len(), t1[k])
            && t1[k] != k
}

/// The name `p` as an output attribute.
pub open spec fn is_name_attribute(o: OutputAttribute, p: Seq<char>) -> bool {
    o.name == DW_AT_NAME && (o.value matches OutputValue::Text(q) && q@ == p)
}

/// The original name that input attribute `a` gives, if it gives one.
pub open spec fn input_name(a: InputAttribute) -> Option<Seq<char>> {
    if a.name == DW_AT_NAME && a.value is Text {
        Some(a.value->Text_0@)
    } else {
        None
    }
}

/// Each name among `attrs[0..upto]` is in the table `t`, and `out` holds its
/// pseudonym as a name.
pub open spec fn names_recorded(
    attrs: Seq<InputAttribute>,
    upto: int,
    out: Seq<OutputAttribute>,
    t: Map<Seq<char>, Seq<char>>,
) -> bool {
    forall|a: int|
        0 <= a < upto && (#[trigger] input_name(attrs[a])) is Some ==> {
            let s = input_name(attrs[a])->Some_0;
            &&& t.contains_key(s)
            &&& exists|b: int| 0 <= b < out.len() && #[trigger] is_name_attribute(out[b], t[s])
        }
}

/// Output attribute `o` is carried over from input attribute `a` of an entry of
/// unit `u`.
pub open spec fn attribute_carried(a: InputAttribute, o: OutputAttribute, units: Seq<InputUnit>, u: int) -> bool {
    a.name == o.name && carried(a.name, a.value, o.value, units, u)
}

/// Output attribute `o` is the outcome of input attribute `a` under the name table
/// `t`: carried over, and for a name exactly the pseudonym that `t` records for it.
pub open spec fn attribute_exact(
    a: InputAttribute,
    o: OutputAttribute,
    units: Seq<InputUnit>,
    u: int,
    t: Map<Seq<char>, Seq<char>>,
) -> bool {
    &&& attribute_carried(a, o, units, u)
    &&& input_name(a) is Some ==> {
        let s = input_name(a)->Some_0;
        t.contains_key(s) && is_name_attribute(o, t[s])
    }
}

/// The output attributes `out` are exactly the outcomes of the attributes of
/// `attrs` that survive, one each and in the same order.
pub open spec fn outcomes_exact(
    attrs: Seq<InputAttribute>,
    out: Seq<OutputAttribute>,
    units: Seq<InputUnit>,
    u: int,
    t: Map<Seq<char>, Seq<char>>,
) -> bool
    decreases attrs.len(),
{
    if attrs.len() == 0 {
        out.len() == 0
    } else if kept(attrs.last().name, attrs.last().value, units, u) {
        &&& out.len() > 0
        &&& attribute_exact(attrs.last(), out.last(), units, u, t)
        &&& outcomes_exact(attrs.drop_last(), out.drop_last(), units, u, t)
    } else {
        outcomes_exact(attrs.drop_last(), out, units, u, t)
    }
}

proof fn lemma_outcomes_extend(
    attrs: Seq<InputAttribute>,
    out: Seq<OutputAttribute>,
    units: Seq<InputUnit>,
    u: int,
    t: Map<Seq<char>, Seq<char>>,
    t2: Map<Seq<char>, Seq<char>>,
)
    requires
        outcomes_exact(attrs, out, units, u, t),
        table_extends(t, t2),
    ensures
        outcomes_exact(attrs, out, units, u, t2),
    decreases attrs.len(),
{
    if attrs.len() > 0 {
        if kept(attrs.last().name, attrs.last().value, units, u) {
            lemma_outcomes_extend(attrs.drop_last(), out.drop_last(), units, u, t, t2);
        } else {
            lemma_outcomes_extend(attrs.drop_last(), out, units, u, t, t2);
        }
    }
}

/// Output attribute `o` is carried over from one of the input attributes `attrs`.
pub open spec fn carried_from(attrs: Seq<InputAttribute>, o: OutputAttribute, units: Seq<InputUnit>, u: int) -> bool {
    exists|a: int| 0 <= a < attrs.len() && #[trigger] attribute_carried(attrs[a], o, units, u)
}

/// Each attribute of `out` is carried over from an attribute of `attrs`, and each
/// attribute among `attrs[0..upto]` that survives is carried over into `out`.
pub open spec fn attributes_carried(
    attrs: Seq<InputAttribute>,
    upto: int,
    out: Seq<OutputAttribute>,
    units: Seq<InputUnit>,
    u: int,
) -> bool {
    &&& forall|b: int| 0 <= b < out.len() ==> carried_from(attrs, #[trigger] out[b], units, u)
    &&& forall|a: int|
        0 <= a < upto && kept((#[trigger] attrs[a]).name, attrs[a].value, units, u) ==> exists|b: int|
            0 <= b < out.len() && #[trigger] attribute_carried(attrs[a], out[b], units, u)
}

proof fn lemma_pushed_kept(
    attrs: Seq<InputAttribute>,
    upto: int,
    out: Seq<OutputAttribute>,
    out2: Seq<OutputAttribute>,
    t: Map<Seq<char>, Seq<char>>,
    t2: Map<Seq<char>, Seq<char>>,
    units: Seq<InputUnit>,
    u: int,
)
    requires
        0 <= upto <= attrs.len(),
        names_recorded(attrs, upto, out, t),
        attributes_carried(attrs, upto, out, units, u),
        out.len() <= out2.len(),
        forall|b: int| 0 <= b < out.len() ==> out2[b] == out[b],
        forall|b: int| out.len() <= b < out2.len() ==> carried_from(attrs, #[trigger] out2[b], units, u),
        table_extends(t, t2),
    ensures
        names_recorded(attrs, upto, out2, t2),
        attributes_carried(attrs, upto, out2, units, u),
{
    assert forall|a: int| 0 <= a < upto && (#[trigger] input_name(attrs[a])) is Some implies {
        let s = input_name(attrs[a])->Some_0;
        &&& t2.contains_key(s)
        &&& exists|b: int| 0 <= b < out2.len() && #[trigger] is_name_attribute(out2[b], t2[s])
    } by {
        let s = input_name(attrs[a])->Some_0;
        let b = choose|b: int| 0 <= b < out.len() && #[trigger] is_name_attribute(out[b], t[s]);
        assert(out2[b] == out[b]);
        assert(is_name_attribute(out2[b], t2[s]));
    }
    assert forall|b: int| 0 <= b < out2.len() implies carried_from(attrs, #[trigger] out2[b], units, u) by {
        if b < out.len() {
            assert(out2[b] == out[b]);
        }
    }
    assert forall|a: int|
        0 <= a < upto && kept((#[trigger] attrs[a]).name, attrs[a].value, units, u) implies exists|b: int|
        0 <= b < out2.len() && #[trigger] attribute_carried(attrs[a], out2[b], units, u) by {
        let b = choose|b: int| 0 <= b < out.len() && #[trigger] attribute_carried(attrs[a], out[b], units, u);
        assert(out2[b] == out[b]);
        assert(attribute_carried(attrs[a], out2[b], units, u));
    }
}

/// Pass two for the attributes of one entry of unit `u`: the output attributes, in
/// order, of those that are not dropped.
fn obfuscate_entry_attributes(
    attrs: &Vec<InputAttribute>,
    unit_offsets: &HashMap<usize, usize>,
    debuginfo_offsets: &HashMap<usize, (usize, usize)>,
    address_size: u8,
    table: &mut NameTable,
    Ghost(units): Ghost<Seq<InputUnit>>,
    Ghost(u): Ghost<int>,
) -> (out: Vec<OutputAttribute>)
    requires
        0 <= u < units.len(),
        address_size == units[u].address_size,
        maps_exact(units, u, unit_offsets@, debuginfo_offsets@),
    ensures
        attributes_carried(attrs@, attrs@.len() as int, out@, units, u),
        names_recorded(attrs@, attrs@.len() as int, out@, final(table)@),
        outcomes_exact(attrs@, out@, units, u, final(table)@),
        table_extends(old(table)@, final(table)@),
{
    let mut out: Vec<OutputAttribute> = Vec::new();
    let mut a: usize = 0;
    while a < attrs.len()
        invariant
            0 <= u < units.len(),
            address_size == units[u].address_size,
            maps_exact(units, u, unit_offsets@, debuginfo_offsets@),
            a <= attrs@.len(),
            attributes_carried(attrs@, a as int, out@, units, u),
            names_recorded(attrs@, a as int, out@, table@),
            outcomes_exact(attrs@.subrange(0, a as int), out@, units, u, table@),
            table_extends(old(table)@, table@),
        decreases attrs@.len() - a,
    {
        let ghost t0 = table@;
        let ghost out0 = out@;
        let r = obfuscate_attribute_value(
            attrs[a].name,
            &attrs[a].value,
            address_size,
            unit_offsets,
            debuginfo_offsets,
            table,
        );
        proof {
            lemma_outcome_carried(
                attrs@[a as int].name,
                attrs@[a as int].value,
                r,
                units,
                u,
                unit_offsets@,
                debuginfo_offsets@,
                t0,
                table@,
            );
        }
        match r {
            Some(w) => {
                out.push(OutputAttribute { name: attrs[a].name, value: w });
                proof {
                    assert(attribute_carried(attrs@[a as int], out@[out0.len() as int], units, u));
                    assert(carried_from(attrs@, out@[out0.len() as int], units, u));
                }
            },
            None => {},
        }
        proof {
            let pre = attrs@.subrange(0, a as int);
            let pre1 = attrs@.subrange(0, a + 1);
            assert(pre1.drop_last() == pre);
            assert(pre1.last() == attrs@[a as int]);
            lemma_outcomes_extend(pre, out0, units, u, t0, table@);
            if r is Some {
                assert(out@.drop_last() == out0);
                assert(attribute_exact(attrs@[a as int], out@.last(), units, u, table@));
            } else {
                assert(out@ == out0);
            }
            lemma_pushed_kept(attrs@, a as int, out0, out@, t0, table@, units, u);
            if input_name(attrs@[a as int]) is Some {
                let b = out@.len() - 1;
                assert(is_name_attribute(out@[b], table@[input_name(attrs@[a as int])->Some_0]));
            }
            if kept(attrs@[a as int].name, attrs@[a as int].value, units, u) {
                assert(attribute_carried(attrs@[a as int], out@[out@.len() - 1], units, u));
            }
            assert(table_extends(old(table)@, table@));
        }
        a = a + 1;
    }
    assert(attrs@.subrange(0, a as int) == attrs@);
    out
}

/// The entries `out` of unit `u` are the pass-two outcome for `units[u]` laid on
/// the shape `shape`: tags and parents from the shape, attributes carried over,
/// and every name of the unit recorded in the table `t` and given as its pseudonym.
pub open spec fn unit_rebuilt(
    units: Seq<InputUnit>,
    u: int,
    shape: Seq<EntryShape>,
    out: Seq<OutputEntry>,
    t: Map<Seq<char>, Seq<char>>,
) -> bool {
    &&& out.len() == shape.len()
    &&& forall|i: int|
        0 <= i < out.len() ==> {
            &&& (#[trigger] out[i]).tag == shape[i].tag
            &&& out[i].parent == shape[i].parent
            &&& attributes_carried(
                units[u].entries@[i].attributes@,
                units[u].entries@[i].attributes@.len() as int,
                out[i].attributes@,
                units,
                u,
            )
            &&& names_recorded(
                units[u].entries@[i].attributes@,
                units[u].entries@[i].attributes@.len() as int,
                out[i].attributes@,
                t,
            )
            &&& outcomes_exact(units[u].entries@[i].attributes@, out[i].attributes@, units, u, t)
        }
}

proof fn lemma_names_kept(
    attrs: Seq<InputAttribute>,
    out: Seq<OutputAttribute>,
    t: Map<Seq<char>, Seq<char>>,
    t2: Map<Seq<char>, Seq<char>>,
)
    requires
        names_recorded(attrs, attrs.len() as int, out, t),
        table_extends(t, t2),
    ensures
        names_recorded(attrs, attrs.len() as int, out, t2),
{
    assert forall|a: int| 0 <= a < attrs.len() && (#[trigger] input_name(attrs[a])) is Some implies {
        let s = input_name(attrs[a])->Some_0;
        &&& t2.contains_key(s)
        &&& exists|b: int| 0 <= b < out.len() && #[trigger] is_name_attribute(out[b], t2[s])
    } by {
        let s = input_name(attrs[a])->Some_0;
        let b = choose|b: int| 0 <= b < out.len() && #[trigger] is_name_attribute(out[b], t[s]);
        assert(is_name_attribute(out[b], t2[s]));
    }
}

proof fn lemma_unit_kept(
    units: Seq<InputUnit>,
    u: int,
    shape: Seq<EntryShape>,
    out: Seq<OutputEntry>,
    t: Map<Seq<char>, Seq<char>>,
    t2: Map<Seq<char>, Seq<char>>,
)
    requires
        unit_rebuilt(units, u, shape, out, t),
        table_extends(t, t2),
    ensures
        unit_rebuilt(units, u, shape, out, t2),
{
    assert forall|i: int| 0 <= i < out.len() implies names_recorded(
        units[u].entries@[i].attributes@,
        units[u].entries@[i].attributes@.len() as int,
        (#[trigger] out[i]).attributes@,
        t2,
    ) by {
        lemma_names_kept(units[u].entries@[i].attributes@, out[i].attributes@, t, t2);
    }
    assert forall|i: int| 0 <= i < out.len() implies outcomes_exact(
        units[u].entries@[i].attributes@,
        (#[trigger] out[i]).attributes@,
        units,
        u,
        t2,
    ) by {
        lemma_outcomes_extend(units[u].entries@[i].attributes@, out[i].attributes@, units, u, t, t2);
    }
}

proof fn lemma_extends_trans(
    t0: Map<Seq<char>, Seq<char>>,
    t1: Map<Seq<char>, Seq<char>>,
    t2: Map<Seq<char>, Seq<char>>,
)
    requires
        table_extends(t0, t1),
        table_extends(t1, t2),
    ensures
        table_extends(t0, t2),
{
    assert forall|k: Seq<char>| #[trigger] t2.contains_key(k) && !t0.contains_key(k) implies is_name_pseudonym(encode_utf8(k).len(), t2[k]) && t2[k] != k by {
        if t1.contains_key(k) {
            assert(t2[k] == t1[k]);
        }
    }
}

/// Pass two for the unit at index `u`: the entries laid out by pass one, given
/// their attributes.
pub fn obfuscate_unit(
    units: &Vec<InputUnit>,
    u: usize,
    shape: &Vec<EntryShape>,
    unit_offsets: &HashMap<usize, usize>,
    debuginfo_offsets: &HashMap<usize, (usize, usize)>,
    table: &mut NameTable,
) -> (out: OutputUnit)
    requires
        u < units@.len(),
        shape@.len() == units@[u as int].entries@.len(),
        maps_exact(units@, u as int, unit_offsets@, debuginfo_offsets@),
    ensures
        unit_rebuilt(units@, u as int, shape@, out.entries@, final(table)@),
        table_extends(old(table)@, final(table)@),
{
    let unit = &units[u];
    let mut entries: Vec<OutputEntry> = Vec::new();
    let mut i: usize = 0;
    while i < shape.len()
        invariant
            u < units@.len(),
            unit == units@[u as int],
            shape@.len() == unit.entries@.len(),
            maps_exact(units@, u as int, unit_offsets@, debuginfo_offsets@),
            i <= shape@.len(),
            entries@.len() == i,
            unit_rebuilt(units@, u as int, shape@.subrange(0, i as int), entries@, table@),
            table_extends(old(table)@, table@),
        decreases shape@.len() - i,
    {
        let ghost t0 = table@;
        let ghost e0 = entries@;
        let attributes = obfuscate_entry_attributes(
            &unit.entries[i].attributes,
            unit_offsets,
            debuginfo_offsets,
            unit.address_size,
            table,
            Ghost(units@),
            Ghost(u as int),
        );
        proof {
            lemma_unit_kept(units@, u as int, shape@.subrange(0, i as int), e0, t0, table@);
            lemma_extends_trans(old(table)@, t0, table@);
        }
        entries.push(OutputEntry { tag: shape[i].tag, parent: shape[i].parent, attributes });
        proof {
            let sh = shape@.subrange(0, i + 1);
            assert forall|j: int| 0 <= j < entries@.len() implies {
                &&& (#[trigger] entries@[j]).tag == sh[j].tag
                &&& entries@[j].parent == sh[j].parent
                &&& attributes_carried(
                    units@[u as int].entries@[j].attributes@,
                    units@[u as int].entries@[j].attributes@.len() as int,
                    entries@[j].attributes@,
                    units@,
                    u as int,
                )
                &&& names_recorded(
                    units@[u as int].entries@[j].attributes@,
                    units@[u as int].entries@[j].attributes@.len() as int,
                    entries@[j].attributes@,
                    table@,
                )
                &&& outcomes_exact(units@[u as int].entries@[j].attributes@, entries@[j].attributes@, units@, u as int, table@)
            } by {
                if j < i {
                    assert(entries@[j] == e0[j]);
                    assert(sh[j] == shape@.subrange(0, i as int)[j]);
                }
            }
        }
        i = i + 1;
    }
    assert(shape@.subrange(0, i as int) == shape@);
    OutputUnit { entries }
}

/// The tags and parents of rebuilt entries.
pub open spec fn shapes_of(out: Seq<OutputEntry>) -> Seq<EntryShape> {
    Seq::new(out.len(), |i: int| EntryShape { tag: out[i].tag, parent: out[i].parent })
}

/// The rebuilt graph `out` and the name table `t` that the reconstruction gives for the
/// units `input`: one output unit per input unit, each with the shape of its input (same
/// entries, tags and parents); in each entry, every attribute that survives carried over,
/// exactly once and in input order, and nothing else, references leading to the entries at
/// the referenced offsets; every name recorded in `t` and given as its pseudonym; and only
/// pseudonyms in `t`.
pub open spec fn dwarf_rebuilt(input: Seq<InputUnit>, out: Seq<OutputUnit>, t: Map<Seq<char>, Seq<char>>) -> bool {
    &&& out.len() == input.len()
    &&& forall|u: int|
        0 <= u < input.len() ==> {
            &&& unit_well_formed(input[u].entries@)
            &&& shape_conserved(input[u].entries@, shapes_of((#[trigger] out[u]).entries@))
            &&& forall|i: int|
                0 <= i < out[u].entries@.len() ==> {
                    &&& attributes_carried(
                        input[u].entries@[i].attributes@,
                        input[u].entries@[i].attributes@.len() as int,
                        (#[trigger] out[u].entries@[i]).attributes@,
                        input,
                        u,
                    )
                    &&& names_recorded(
                        input[u].entries@[i].attributes@,
                        input[u].entries@[i].attributes@.len() as int,
                        out[u].entries@[i].attributes@,
                        t,
                    )
                    &&& outcomes_exact(
                        input[u].entries@[i].attributes@,
                        out[u].entries@[i].attributes@,
                        input,
                        u,
                        t,
                    )
                }
        }
    &&& table_extends(Map::empty(), t)
}

/// The error that the reconstruction gives for the units `input`: none where there
/// is no unit, else that of the first unit that is not well formed.
pub open spec fn dwarf_refused(input: Seq<InputUnit>, e: DwarfError) -> bool {
    ||| (input.len() == 0 && e == DwarfError::NoUnits)
    ||| exists|u: int|
        0 <= u < input.len() && !unit_well_formed(#[trigger] input[u].entries@) && e == unit_error(
            u as usize,
            input[u].entries@,
        ) && forall|v: int| 0 <= v < u ==> unit_well_formed(#[trigger] input[v].entries@)
}

/// Rebuilds the debug-info graph of `input` in two passes: first every unit's
/// entries are laid out and both offset maps filled, then every entry is given its
/// attributes, which may refer forward and across units. Returns the graph and the
/// table from original names to pseudonyms.
pub fn obfuscate_dwarf(input: &Vec<InputUnit>) -> (r: Result<(Vec<OutputUnit>, NameTable), DwarfError>)
    ensures
        match r {
            Ok((out, t)) => input@.len() > 0 && dwarf_rebuilt(input@, out@, t@),
            Err(e) => dwarf_refused(input@, e),
        },
{
    if input.len() == 0 {
        return Err(DwarfError::NoUnits);
    }
    let mut debuginfo_offsets: HashMap<usize, (usize, usize)> = HashMap::new();
    let mut shapes: Vec<Vec<EntryShape>> = Vec::new();
    let mut unit_offsets: Vec<HashMap<usize, usize>> = Vec::new();
    // pass one: all units are laid out before any reference is resolved
    let mut u: usize = 0;
    while u < input.len()
        invariant
            u <= input@.len(),
            shapes@.len() == u,
            unit_offsets@.len() == u,
            forall|v: int|
                0 <= v < u ==> {
                    &&& unit_well_formed(#[trigger] input@[v].entries@)
                    &&& shape_conserved(input@[v].entries@, shapes@[v]@)
                    &&& unit_map_ok(input@[v].entries@, unit_offsets@[v]@)
                },
            forall|o: usize|
                #[trigger] debuginfo_offsets@.contains_key(o) ==> debuginfo_offsets@[o].0 < u
                    && debuginfo_offsets@[o].1 < input@[debuginfo_offsets@[o].0 as int].entries@.len()
                    && input@[debuginfo_offsets@[o].0 as int].entries@[debuginfo_offsets@[o].1 as int].section_offset == o,
            forall|v: int, e: int|
                0 <= v < u && 0 <= e < input@[v].entries@.len() ==> debuginfo_offsets@.contains_key(
                    #[trigger] input@[v].entries@[e].section_offset,
                ),
        decreases input@.len() - u,
    {
        let ghost so0 = debuginfo_offsets@;
        match create_unit_structure(u, &input[u], &mut debuginfo_offsets) {
            Ok((shape, offsets)) => {
                shapes.push(shape);
                unit_offsets.push(offsets);
            },
            Err(e) => {
                assert(!unit_well_formed(input@[u as int].entries@));
                return Err(e);
            },
        }
        proof {
            assert forall|v: int, e: int|
                0 <= v <= u && 0 <= e < input@[v].entries@.len() implies debuginfo_offsets@.contains_key(
                    #[trigger] input@[v].entries@[e].section_offset,
                ) by {
                if v < u {
                    assert(so0.contains_key(input@[v].entries@[e].section_offset));
                }
            }
        }
        u = u + 1;
    }
    // pass two: attributes, through the completed offset maps
    let mut table = NameTable::new();
    let mut out: Vec<OutputUnit> = Vec::new();
    let mut u: usize = 0;
    while u < input.len()
        invariant
            u <= input@.len(),
            shapes@.len() == input@.len(),
            unit_offsets@.len() == input@.len(),
            forall|v: int|
                0 <= v < input@.len() ==> {
                    &&& unit_well_formed(#[trigger] input@[v].entries@)
                    &&& shape_conserved(input@[v].entries@, shapes@[v]@)
                    &&& maps_exact(input@, v, unit_offsets@[v]@, debuginfo_offsets@)
                },
            out@.len() == u,
            forall|v: int| 0 <= v < u ==> unit_rebuilt(input@, v, shapes@[v]@, (#[trigger] out@[v]).entries@, table@),
            table_extends(Map::empty(), table@),
        decreases input@.len() - u,
    {
        let ghost t0 = table@;
        let ghost out0 = out@;
        let unit = obfuscate_unit(
            input,
            u,
            &shapes[u],
            &unit_offsets[u],
            &debuginfo_offsets,
            &mut table,
        );
        out.push(unit);
        proof {
            lemma_extends_trans(Map::empty(), t0, table@);
            assert forall|v: int| 0 <= v <= u implies unit_rebuilt(input@, v, shapes@[v]@, (#[trigger] out@[v]).entries@, table@) by {
                if v < u {
                    assert(out@[v] == out0[v]);
                    lemma_unit_kept(input@, v, shapes@[v]@, out0[v].entries@, t0, table@);
                }
            }
        }
        u = u + 1;
    }
    proof {
        assert forall|v: int| 0 <= v < input@.len() implies shapes_of((#[trigger] out@[v]).entries@) == shapes@[v]@ by {
            assert(unit_rebuilt(input@, v, shapes@[v]@, out@[v].entries@, table@));
            assert(shapes_of(out@[v].entries@) =~= shapes@[v]@);
        }
    }
    Ok((out, table))
}

/// The rebuilt graph has the structure of the input: as many units, as many
/// entries in each, each entry with its input tag and exactly the input's
/// children (so the same number of them), and every reference attribute that
/// survives leads to an entry that exists in the rebuilt graph.
pub proof fn structural_conservation(
    input: Seq<InputUnit>,
    out: Seq<OutputUnit>,
    t: Map<Seq<char>, Seq<char>>,
    u: int,
    i: int,
    j: usize,
)
    requires
        dwarf_rebuilt(input, out, t),
        0 <= u < input.len(),
        0 <= i < input[u].entries@.len(),
        j < input[u].entries@.len(),
    ensures
        out.len() == input.len(),
        out[u].entries@.len() == input[u].entries@.len(),
        out[u].entries@[i].tag == input[u].entries@[i].tag,
        out[u].entries@[i].parent == Some(j) <==> (0 < i && is_parent(input[u].entries@, i, j as int)),
        forall|b: int|
            0 <= b < out[u].entries@[i].attributes@.len() ==> match (
            #[trigger] out[u].entries@[i].attributes@[b]).value {
                OutputValue::UnitRef(e) => e < out[u].entries@.len(),
                OutputValue::DebugInfoRef(v, e) => v < out.len() && e < out[v as int].entries@.len(),
                _ => true,
            },
{
    let s = input[u].entries@;
    let sh = shapes_of(out[u].entries@);
    assert(sh[i] == EntryShape { tag: out[u].entries@[i].tag, parent: out[u].entries@[i].parent });
    assert(shape_conserved(s, sh));
    if i == 0 {
        assert(sh[0].parent is None);
    } else {
        let p = sh[i].parent->Some_0 as int;
        assert(is_parent(s, i, p));
        if is_parent(s, i, j as int) {
            if p < j {
                assert(depth_at(s, j as int) != depth_at(s, i) - 1);
            } else if j < p {
                assert(depth_at(s, p) != depth_at(s, i) - 1);
            }
        }
    }
    assert forall|v: int| 0 <= v < out.len() implies #[trigger] out[v].entries@.len() == input[v].entries@.len() by {
        assert(shapes_of(out[v].entries@).len() == out[v].entries@.len());
    }
    let attrs = out[u].entries@[i].attributes@;
    assert forall|b: int| 0 <= b < attrs.len() implies match (#[trigger] attrs[b]).value {
        OutputValue::UnitRef(e) => e < out[u].entries@.len(),
        OutputValue::DebugInfoRef(v, e) => v < out.len() && e < out[v as int].entries@.len(),
        _ => true,
    } by {
        let ins = input[u].entries@[i].attributes@;
        assert(carried_from(ins, attrs[b], input, u));
        let a = choose|a: int| 0 <= a < ins.len() && #[trigger] attribute_carried(ins[a], attrs[b], input, u);
    }
}

/// A location that resolves to the fixed address `address` survives in the
/// rebuilt entry as a masked address: its low 8 bits are those of `address`, it
/// fits the unit's address size and, where that size leaves bits to replace, it
/// differs from `address`.
pub proof fn address_masking(
    input: Seq<InputUnit>,
    out: Seq<OutputUnit>,
    t: Map<Seq<char>, Seq<char>>,
    u: int,
    i: int,
    a: int,
    address: u64,
)
    requires
        dwarf_rebuilt(input, out, t),
        0 <= u < input.len(),
        0 <= i < input[u].entries@.len(),
        0 <= a < input[u].entries@[i].attributes@.len(),
        input[u].entries@[i].attributes@[a].value == InputValue::Location(Some(address)),
    ensures
        exists|b: int|
            0 <= b < out[u].entries@[i].attributes@.len() && (#[trigger] out[u].entries@[i].attributes@[b]).name
                == input[u].entries@[i].attributes@[a].name && (out[u].entries@[i].attributes@[b].value matches OutputValue::Location(
                masked,
            ) && masks(address, masked, input[u].address_size)),
{
    let ins = input[u].entries@[i].attributes@;
    assert(out[u].entries@.len() == input[u].entries@.len()) by {
        assert(shapes_of(out[u].entries@).len() == out[u].entries@.len());
    }
    let outs = out[u].entries@[i].attributes@;
    assert(kept(ins[a].name, ins[a].value, input, u));
    let b = choose|b: int| 0 <= b < outs.len() && #[trigger] attribute_carried(ins[a], outs[b], input, u);
    assert(outs[b] == out[u].entries@[i].attributes@[b]);
}

} // verus!
