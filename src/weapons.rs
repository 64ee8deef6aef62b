use vstd::prelude::*;
use crate::class::ObjectClass;

verus! {

/// Mount offset of a weapon in the ship's body frame, in metres; the firing
/// point is the ship's position minus this offset rotated by the heading.
pub open spec fn gun_offset_spec(class: ObjectClass, gun: usize) -> (i64, i64) {
    match class {
        ObjectClass::Frigate => if gun == 0 {
            (-40i64, 0i64)
        } else if gun == 1 {
            (0i64, -30i64)
        } else if gun == 2 {
            (0, 30)
        } else {
            (0, 0)
        },
        _ => (0, 0),
    }
}

/// Projectile speed of a weapon in metres per second; 0 where the ship
/// class has no such gun.
pub open spec fn bullet_speed_spec(class: ObjectClass, gun: usize) -> u32 {
    match class {
        ObjectClass::Fighter => 1000,
        ObjectClass::Frigate => if gun == 0 {
            4000
        } else if gun == 1 || gun == 2 {
            1000
        } else {
            0
        },
        ObjectClass::Cruiser => 2000,
        ObjectClass::Missile => 3000,
        _ => 0,
    }
}

/// Colour used to mark a weapon's aim point (0xRRGGBB).
pub open spec fn gun_color_spec(gun: usize) -> u32 {
    if gun == 0 {
        0x00ffff
    } else if gun == 1 {
        0x00ff00
    } else if gun == 2 {
        0xff0000
    } else {
        0xffffff
    }
}

pub fn gun_offsets(class: ObjectClass, gun: usize) -> (r: (i64, i64))
    ensures
        r == gun_offset_spec(class, gun),
{
    match class {
        ObjectClass::Frigate => {
            if gun == 0 {
                (-40i64, 0i64)
            } else if gun == 1 {
                (0i64, -30i64)
            } else if gun == 2 {
                (0, 30)
            } else {
                (0, 0)
            }
        },
        _ => (0, 0),
    }
}

pub fn bullet_speeds(class: ObjectClass, gun: usize) -> (r: u32)
    ensures
        r == bullet_speed_spec(class, gun),
{
    match class {
        ObjectClass::Fighter => 1000,
        ObjectClass::Frigate => {
            if gun == 0 {
                4000
            } else if gun == 1 || gun == 2 {
                1000
            } else {
                0
            }
        },
        ObjectClass::Cruiser => 2000,
        ObjectClass::Missile => 3000,
        _ => 0,
    }
}

pub fn gun_color(gun: usize) -> (r: u32)
    ensures
        r == gun_color_spec(gun),
{
    if gun == 0 {
        0x00ffff
    } else if gun == 1 {
        0x00ff00
    } else if gun == 2 {
        0xff0000
    } else {
        0xffffff
    }
}

} // verus!
