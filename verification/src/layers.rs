//! The static table from source layer ids to output layer names,
//! authoritative and immutable.  An id outside the table makes the
//! record that carries it undecodable.

use vstd::prelude::*;

verus! {

/// The name that a source layer id resolves to, or `None` for an id
/// outside the table.
pub open spec fn layer_name_spec(id: int) -> Option<Seq<char>> {
    if id == 1 {
        Some("F.Cu"@)
    } else if id == 2 {
        Some("B.Cu"@)
    } else if id == 3 {
        Some("F.SilkS"@)
    } else if id == 4 {
        Some("B.SilkS"@)
    } else if id == 5 {
        Some("F.Mask"@)
    } else if id == 6 {
        Some("B.Mask"@)
    } else if id == 7 {
        Some("F.Paste"@)
    } else if id == 8 {
        Some("B.Paste"@)
    } else if id == 9 {
        Some("F.Fab"@)
    } else if id == 10 {
        Some("B.Fab"@)
    } else if id == 11 {
        Some("Edge.Cuts"@)
    } else if id == 12 {
        Some("F&B.Cu *.Mask"@)
    } else if id == 13 {
        Some("Dwgs.User"@)
    } else if id == 48 {
        Some("F.Fab"@)
    } else if id == 49 {
        Some("User.7"@)
    } else if id == 50 {
        Some("User.8"@)
    } else if id == 51 {
        Some("User.9"@)
    } else {
        None
    }
}

/// The reserved front-and-back copper-and-mask combination: a circle
/// on this layer is a plated or unplated hole, not an outline.
pub open spec fn cutout_layer() -> Seq<char> {
    "F&B.Cu *.Mask"@
}

/// Resolves a source layer id through the static table.
pub fn layer_name(id: u64) -> (r: Option<String>)
    ensures
        match r {
            Some(s) => layer_name_spec(id as int) == Some(s@),
            None => layer_name_spec(id as int) is None,
        },
{
    match id {
        1 => Some("F.Cu".to_owned()),
        2 => Some("B.Cu".to_owned()),
        3 => Some("F.SilkS".to_owned()),
        4 => Some("B.SilkS".to_owned()),
        5 => Some("F.Mask".to_owned()),
        6 => Some("B.Mask".to_owned()),
        7 => Some("F.Paste".to_owned()),
        8 => Some("B.Paste".to_owned()),
        9 => Some("F.Fab".to_owned()),
        10 => Some("B.Fab".to_owned()),
        11 => Some("Edge.Cuts".to_owned()),
        12 => Some("F&B.Cu *.Mask".to_owned()),
        13 => Some("Dwgs.User".to_owned()),
        48 => Some("F.Fab".to_owned()),
        49 => Some("User.7".to_owned()),
        50 => Some("User.8".to_owned()),
        51 => Some("User.9".to_owned()),
        _ => None,
    }
}

} // verus!
