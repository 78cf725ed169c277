use vstd::prelude::*;

verus! {

/// The five Sigils a Ship can carry at most one of.
/// Granted when picking up a Relic; discharged with the Intent's `sigil` flag.
#[derive(Debug, Clone, Copy, PartialEq, Eq, Structural)]
pub enum Sigil {
    Afterburner,
    Bulwark,
    Singularity,
    AetherMine,
    ArcLance,
}

/// Ship archetypes. `Skiff` is the only class in v1.
#[derive(Debug, Clone, Copy, PartialEq, Eq, Structural)]
pub enum ShipClass {
    Skiff,
}

/// Scripted stub-bot policy used by the balance harness.
#[derive(Debug, Clone, Copy, PartialEq, Eq, Structural)]
pub enum Policy {
    /// Collects Relics and banks them at the Anchor; fires opportunistically.
    Salvager,
    /// Hunts the nearest enemy; collects Relics only when no enemy is reachable.
    Aggressor,
}

/// The wire name of a Sigil.
pub open spec fn sigil_name(s: Sigil) -> Seq<char> {
    match s {
        Sigil::Afterburner => "Afterburner"@,
        Sigil::Bulwark => "Bulwark"@,
        Sigil::Singularity => "Singularity"@,
        Sigil::AetherMine => "AetherMine"@,
        Sigil::ArcLance => "ArcLance"@,
    }
}

/// The wire name of a ship class.
pub open spec fn ship_class_name(c: ShipClass) -> Seq<char> {
    match c {
        ShipClass::Skiff => "skiff"@,
    }
}

/// Render a Sigil as its wire name (`"Afterburner"`, `"Bulwark"`, ...).
pub fn sigil_to_str(s: &Sigil) -> (r: String)
    ensures
        r@ == sigil_name(*s),
{
    let lit = match s {
        Sigil::Afterburner => "Afterburner",
        Sigil::Bulwark => "Bulwark",
        Sigil::Singularity => "Singularity",
        Sigil::AetherMine => "AetherMine",
        Sigil::ArcLance => "ArcLance",
    };
    lit.to_owned()
}

/// Render a ship class as its wire name (`"skiff"`).
pub fn ship_class_to_str(c: &ShipClass) -> (r: String)
    ensures
        r@ == ship_class_name(*c),
{
    match c {
        ShipClass::Skiff => "skiff".to_owned(),
    }
}

} // verus!
