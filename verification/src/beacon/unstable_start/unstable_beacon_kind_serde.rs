//! The names of the kinds of beacon under the unstable prefix.

use vstd::prelude::*;

use crate::beacon::start::BeaconKind;
use crate::text::str_eq;

verus! {

/// The name of a kind of beacon under the unstable prefix.
pub open spec fn unstable_kind_name(kind: BeaconKind) -> Seq<char> {
    match kind {
        BeaconKind::Undisclosed => "org.matrix.msc3489.beacon.undisclosed"@,
        BeaconKind::Disclosed => "org.matrix.msc3489.beacon.disclosed"@,
        BeaconKind::Custom(name) => name@,
    }
}

/// Serializes a BeaconKind using the unstable prefixes.
pub fn serialize(kind: &BeaconKind) -> (name: &str)
    ensures
        name@ == unstable_kind_name(*kind),
{
    match kind {
        BeaconKind::Undisclosed => "org.matrix.msc3489.beacon.undisclosed",
        BeaconKind::Disclosed => "org.matrix.msc3489.beacon.disclosed",
        BeaconKind::Custom(name) => name.as_str(),
    }
}

/// Deserializes a BeaconKind using the unstable prefixes.
pub fn deserialize(name: &str) -> (kind: BeaconKind)
    ensures
        unstable_kind_name(kind) == name@,
        name@ == "org.matrix.msc3489.beacon.undisclosed"@ <==> kind == BeaconKind::Undisclosed,
        name@ == "org.matrix.msc3489.beacon.disclosed"@ <==> kind == BeaconKind::Disclosed,
{
    proof {
        reveal_strlit("org.matrix.msc3489.beacon.undisclosed");
        reveal_strlit("org.matrix.msc3489.beacon.disclosed");
        assert("org.matrix.msc3489.beacon.undisclosed"@.len() == 37);
        assert("org.matrix.msc3489.beacon.disclosed"@.len() == 35);
    }
    if str_eq(name, "org.matrix.msc3489.beacon.undisclosed") {
        BeaconKind::Undisclosed
    } else if str_eq(name, "org.matrix.msc3489.beacon.disclosed") {
        BeaconKind::Disclosed
    } else {
        BeaconKind::Custom(name.to_owned())
    }
}

} // verus!
