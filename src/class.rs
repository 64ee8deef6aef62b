use vstd::prelude::*;

verus! {

/// The kind of an object seen by the sensor, a closed tag.
#[derive(Debug, Clone, Copy, PartialEq, Eq, Structural)]
pub enum ObjectClass {
    Fighter,
    Frigate,
    Cruiser,
    Asteroid,
    Target,
    Missile,
    Torpedo,
    Unknown,
}

/// Numeric code of each class, in the order the simulator lists them.
pub open spec fn class_code_spec(c: ObjectClass) -> u8 {
    match c {
        ObjectClass::Fighter => 0,
        ObjectClass::Frigate => 1,
        ObjectClass::Cruiser => 2,
        ObjectClass::Asteroid => 3,
        ObjectClass::Target => 4,
        ObjectClass::Missile => 5,
        ObjectClass::Torpedo => 6,
        ObjectClass::Unknown => 7,
    }
}

/// Class named by a broadcast code: only ships announce themselves, so any
/// code other than those of the three ship classes reads as unknown.
pub open spec fn class_from_code_spec(code: u8) -> ObjectClass {
    if code == 0 {
        ObjectClass::Fighter
    } else if code == 1 {
        ObjectClass::Frigate
    } else if code == 2 {
        ObjectClass::Cruiser
    } else {
        ObjectClass::Unknown
    }
}

/// Self-propelled ordnance, which is never taken as a tracked ship.
pub open spec fn is_ordnance_spec(c: ObjectClass) -> bool {
    c == ObjectClass::Missile || c == ObjectClass::Torpedo
}

impl ObjectClass {
    pub fn code(self) -> (r: u8)
        ensures
            r == class_code_spec(self),
    {
        match self {
            ObjectClass::Fighter => 0,
            ObjectClass::Frigate => 1,
            ObjectClass::Cruiser => 2,
            ObjectClass::Asteroid => 3,
            ObjectClass::Target => 4,
            ObjectClass::Missile => 5,
            ObjectClass::Torpedo => 6,
            ObjectClass::Unknown => 7,
        }
    }

    pub fn from_code(code: u8) -> (r: ObjectClass)
        ensures
            r == class_from_code_spec(code),
    {
        if code == 0 {
            ObjectClass::Fighter
        } else if code == 1 {
            ObjectClass::Frigate
        } else if code == 2 {
            ObjectClass::Cruiser
        } else {
            ObjectClass::Unknown
        }
    }

    pub fn is_ordnance(self) -> (r: bool)
        ensures
            r == is_ordnance_spec(self),
    {
        self == ObjectClass::Missile || self == ObjectClass::Torpedo
    }
}

/// A ship class survives the trip through its broadcast code.
pub proof fn lemma_ship_code_round_trip(c: ObjectClass)
    requires
        c == ObjectClass::Fighter || c == ObjectClass::Frigate || c == ObjectClass::Cruiser,
    ensures
        class_from_code_spec(class_code_spec(c)) == c,
{
}

} // verus!
