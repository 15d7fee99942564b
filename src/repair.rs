//! The cross-reference repair: references by name are rewritten through a
//! category's rename table, and those the table does not know are scrambled.
use crate::pseudonym::{has_letter, obfuscate_string, same_shape};
use crate::table::NameTable;
use vstd::prelude::*;

verus! {

/// The reference `old` after repair: its new name where `t` knows it, else a
/// fresh pseudonym of the same shape.
pub open spec fn repaired(old: Seq<char>, new: Seq<char>, t: Map<Seq<char>, Seq<char>>) -> bool {
    if t.contains_key(old) {
        new == t[old]
    } else {
        same_shape(old, new) && (has_letter(old) ==> new != old)
    }
}

/// A reference that its rename table does not know never stays as it was: it is
/// replaced by a pseudonym of its shape, which differs from it wherever it holds a
/// letter.
pub proof fn dangling_reference_changed(old: Seq<char>, new: Seq<char>, t: Map<Seq<char>, Seq<char>>)
    requires
        repaired(old, new, t),
        !t.contains_key(old),
    ensures
        same_shape(old, new),
        has_letter(old) ==> new != old,
{
}

/// A list of references after repair, element by element.
pub open spec fn list_repaired(
    old: Seq<String>,
    new: Seq<String>,
    t: Map<Seq<char>, Seq<char>>,
) -> bool {
    &&& new.len() == old.len()
    &&& forall|i: int| 0 <= i < old.len() ==> repaired(#[trigger] old[i]@, new[i]@, t)
}

/// An optional list of references after repair.
pub open spec fn opt_list_repaired(
    old: Option<Vec<String>>,
    new: Option<Vec<String>>,
    t: Map<Seq<char>, Seq<char>>,
) -> bool {
    match old {
        None => new is None,
        Some(o) => (new matches Some(n) && list_repaired(o@, n@, t)),
    }
}

/// An optional reference after repair.
pub open spec fn opt_repaired(
    old: Option<String>,
    new: Option<String>,
    t: Map<Seq<char>, Seq<char>>,
) -> bool {
    match old {
        None => new is None,
        Some(o) => (new matches Some(n) && repaired(o@, n@, t)),
    }
}

/// The reserved name of the identity conversion.
pub open spec fn no_compu_method() -> Seq<char> {
    "NO_COMPU_METHOD"@
}

/// A conversion reference after repair: the reserved identity conversion is kept.
pub open spec fn conversion_repaired(
    old: Seq<char>,
    new: Seq<char>,
    t: Map<Seq<char>, Seq<char>>,
) -> bool {
    if old == no_compu_method() {
        new == old
    } else {
        repaired(old, new, t)
    }
}

/// The repaired form of the reference `name`.
pub fn repair_name(name: &String, table: &NameTable) -> (r: String)
    ensures
        repaired(name@, r@, table@),
{
    match table.get(name) {
        Some(n) => n,
        None => obfuscate_string(name.as_str()),
    }
}

/// Repairs a reference in place.
pub fn repair_field(name: &mut String, table: &NameTable)
    ensures
        repaired(old(name)@, final(name)@, table@),
{
    *name = repair_name(name, table);
}

/// Repairs an optional reference in place.
pub fn repair_opt_field(name: &mut Option<String>, table: &NameTable)
    ensures
        opt_repaired(*old(name), *final(name), table@),
{
    match name {
        Some(n) => repair_field(n, table),
        None => {},
    }
}

/// Repairs a conversion reference in place, keeping the identity conversion.
pub fn repair_conversion(name: &mut String, table: &NameTable)
    ensures
        conversion_repaired(old(name)@, final(name)@, table@),
{
    let reserved = String::from_str("NO_COMPU_METHOD");
    proof {
        reveal_strlit("NO_COMPU_METHOD");
    }
    if !(*name).eq(&reserved) {
        repair_field(name, table);
    }
}

/// Repairs a list of references in place.
pub fn repair_list(names: &mut Vec<String>, table: &NameTable)
    ensures
        list_repaired(old(names)@, final(names)@, table@),
{
    let mut i: usize = 0;
    while i < names.len()
        invariant
            i <= names@.len(),
            names@.len() == old(names)@.len(),
            forall|j: int| 0 <= j < i ==> repaired(#[trigger] old(names)@[j]@, names@[j]@, table@),
            forall|j: int| i <= j < names@.len() ==> #[trigger] names@[j] == old(names)@[j],
        decreases names@.len() - i,
    {
        repair_field(&mut names[i], table);
        i = i + 1;
    }
}

/// Repairs an optional list of references in place.
pub fn repair_opt_list(names: &mut Option<Vec<String>>, table: &NameTable)
    ensures
        opt_list_repaired(*old(names), *final(names), table@),
{
    match names {
        Some(l) => repair_list(l, table),
        None => {},
    }
}

} // verus!
