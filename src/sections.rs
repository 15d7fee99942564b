//! The rules on the binary's sections: which ones the stripped binary keeps, and
//! where a rebuilt debug section goes.
use vstd::prelude::*;

verus! {

/// `s` begins with `p`.
pub open spec fn has_prefix(s: Seq<u8>, p: Seq<u8>) -> bool {
    p.len() <= s.len() && s.subrange(0, p.len() as int) == p
}

/// The bytes of `.debug`.
pub open spec fn debug_prefix() -> Seq<u8> {
    seq![46u8, 100u8, 101u8, 98u8, 117u8, 103u8]
}

/// The bytes of `.shstrtab`.
pub open spec fn shstrtab_prefix() -> Seq<u8> {
    seq![46u8, 115u8, 104u8, 115u8, 116u8, 114u8, 116u8, 97u8, 98u8]
}

fn starts_with(s: &[u8], p: &[u8]) -> (r: bool)
    ensures
        r == has_prefix(s@, p@),
{
    if p.len() > s.len() {
        return false;
    }
    let mut i: usize = 0;
    while i < p.len()
        invariant
            p@.len() <= s@.len(),
            i <= p@.len(),
            s@.subrange(0, i as int) == p@.subrange(0, i as int),
        decreases p@.len() - i,
    {
        if s[i] != p[i] {
            assert(s@.subrange(0, p@.len() as int)[i as int] != p@[i as int]);
            return false;
        }
        assert(s@.subrange(0, i + 1) == s@.subrange(0, i as int).push(s@[i as int]));
        assert(p@.subrange(0, i + 1) == p@.subrange(0, i as int).push(p@[i as int]));
        i = i + 1;
    }
    assert(p@.subrange(0, i as int) == p@);
    true
}

/// Whether the stripped binary keeps the section named `name`: debug sections and
/// the section-name string table stay, every other section goes.
pub fn keeps_section(name: &[u8]) -> (r: bool)
    ensures
        r == (has_prefix(name@, debug_prefix()) || has_prefix(name@, shstrtab_prefix())),
{
    let debug: [u8; 6] = [46, 100, 101, 98, 117, 103];
    let shstrtab: [u8; 9] = [46, 115, 104, 115, 116, 114, 116, 97, 98];
    assert(debug@ == debug_prefix());
    assert(shstrtab@ == shstrtab_prefix());
    starts_with(name, &debug) || starts_with(name, &shstrtab)
}

/// What becomes of a rebuilt debug section.
#[derive(Clone, Copy, Debug, PartialEq, Eq, Structural)]
pub enum SectionPlacement {
    /// The section of that name takes the rebuilt data.
    Replace,
    /// The rebuilt section is empty: the section of that name is deleted.
    Delete,
    /// The rebuilt section is empty and the binary has none of that name.
    Unchanged,
    /// The rebuilt section has data but the binary has no section of that name
    /// to hold it: a fatal error.
    Missing,
}

/// The placement of a rebuilt debug section that has data or not, in a binary
/// that has a section of its name or not.
pub open spec fn placement(has_data: bool, exists: bool) -> SectionPlacement {
    if has_data {
        if exists {
            SectionPlacement::Replace
        } else {
            SectionPlacement::Missing
        }
    } else if exists {
        SectionPlacement::Delete
    } else {
        SectionPlacement::Unchanged
    }
}

/// Places a rebuilt debug section.
pub fn place_section(has_data: bool, exists: bool) -> (r: SectionPlacement)
    ensures
        r == placement(has_data, exists),
{
    if has_data {
        if exists {
            SectionPlacement::Replace
        } else {
            SectionPlacement::Missing
        }
    } else if exists {
        SectionPlacement::Delete
    } else {
        SectionPlacement::Unchanged
    }
}

} // verus!
