//! Correlation of binary-symbol names with the pseudonyms chosen for the debug
//! information.
use crate::debuginfo::{dwarf_rebuilt, input_name, is_name_attribute, InputUnit, OutputUnit};
use crate::pseudonym::{has_letter, obfuscate_string, same_shape};
use crate::table::NameTable;
use vstd::prelude::*;

verus! {

/// A symbol name after correlation: the pseudonym that `t` records for it, or,
/// where `t` has none, a fresh pseudonym of the same shape.
pub open spec fn symbol_resolved(old: Seq<char>, new: Seq<char>, t: Map<Seq<char>, Seq<char>>) -> bool {
    if t.contains_key(old) {
        new == t[old]
    } else {
        same_shape(old, new) && (has_letter(old) ==> new != old)
    }
}

/// An optional symbol link after correlation.
pub open spec fn link_resolved(
    old: Option<String>,
    new: Option<String>,
    t: Map<Seq<char>, Seq<char>>,
) -> bool {
    match old {
        None => new is None,
        Some(o) => (new matches Some(n) && symbol_resolved(o@, n@, t)),
    }
}

/// The pseudonym chosen for `symbol` in the debug information, if the debug
/// information names it.
pub fn find_symbol(symbol: &String, debug_names: &NameTable) -> (r: Option<String>)
    ensures
        match r {
            Some(p) => debug_names@.contains_key(symbol@) && p@ == debug_names@[symbol@],
            None => !debug_names@.contains_key(symbol@),
        },
{
    debug_names.get(symbol)
}

/// The name a symbol reference takes: the debug information's pseudonym for it,
/// else a pseudonym of its own.
pub fn correlate_symbol(symbol: &String, debug_names: &NameTable) -> (r: String)
    ensures
        symbol_resolved(symbol@, r@, debug_names@),
{
    match find_symbol(symbol, debug_names) {
        Some(p) => p,
        None => obfuscate_string(symbol.as_str()),
    }
}

/// Rewrites a symbol link to the name its symbol has in the obfuscated binary.
pub fn obfuscate_symbol_link(symbol_link: &mut Option<String>, debug_names: &NameTable)
    ensures
        link_resolved(*old(symbol_link), *final(symbol_link), debug_names@),
{
    match symbol_link {
        Some(s) => {
            let n = correlate_symbol(s, debug_names);
            *s = n;
        },
        None => {},
    }
}

/// Rewrites the link-map symbols of interface-data blocks in the same way.
pub fn obfuscate_ifdata(link_map_symbols: &mut Vec<Option<String>>, debug_names: &NameTable)
    ensures
        final(link_map_symbols)@.len() == old(link_map_symbols)@.len(),
        forall|i: int|
            0 <= i < old(link_map_symbols)@.len() ==> link_resolved(
                #[trigger] old(link_map_symbols)@[i],
                final(link_map_symbols)@[i],
                debug_names@,
            ),
{
    let mut i: usize = 0;
    while i < link_map_symbols.len()
        invariant
            i <= link_map_symbols@.len(),
            link_map_symbols@.len() == old(link_map_symbols)@.len(),
            forall|j: int|
                0 <= j < i ==> link_resolved(
                    #[trigger] old(link_map_symbols)@[j],
                    link_map_symbols@[j],
                    debug_names@,
                ),
            forall|j: int|
                i <= j < link_map_symbols@.len() ==> #[trigger] link_map_symbols@[j]
                    == old(link_map_symbols)@[j],
        decreases link_map_symbols@.len() - i,
    {
        obfuscate_symbol_link(&mut link_map_symbols[i], debug_names);
        i = i + 1;
    }
}

/// A symbol link that names an entry of the debug information is rewritten to
/// the very pseudonym that this entry carries as its name in the rebuilt graph.
pub proof fn cross_artifact_consistency(
    input: Seq<InputUnit>,
    out: Seq<OutputUnit>,
    debug_names: Map<Seq<char>, Seq<char>>,
    u: int,
    i: int,
    a: int,
    link: Option<String>,
    new_link: Option<String>,
)
    requires
        dwarf_rebuilt(input, out, debug_names),
        0 <= u < input.len(),
        0 <= i < input[u].entries@.len(),
        0 <= a < input[u].entries@[i].attributes@.len(),
        link matches Some(l) && input_name(input[u].entries@[i].attributes@[a]) == Some(l@),
        link_resolved(link, new_link, debug_names),
    ensures
        new_link matches Some(p) && exists|b: int|
            0 <= b < out[u].entries@[i].attributes@.len() && #[trigger] is_name_attribute(
                out[u].entries@[i].attributes@[b],
                p@,
            ),
{
    let attrs = input[u].entries@[i].attributes@;
    assert(input_name(attrs[a]) is Some);
    assert(out[u].entries@.len() == input[u].entries@.len()) by {
        assert(crate::debuginfo::shapes_of(out[u].entries@).len() == out[u].entries@.len());
    }
}

} // verus!
