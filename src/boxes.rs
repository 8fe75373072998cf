//! The kinds of collision box that a hitbox record holds, by their numeric
//! code, and the colour a viewer outlines each kind in.
use vstd::prelude::*;

verus! {

/// A kind of collision box.
#[derive(Clone, Copy, Debug, PartialEq, Eq, Structural)]
pub enum BoxType {
    Hurtbox,
    Hitbox,
    ExPoint,
    ExRect,
    ExVector,
    Push,
    TempCenter,
    Neck,
    Abdominal,
    AttackVsPush,
    SpGuard,
    RLeg,
    LLeg,
    Private0,
    Private1,
    Private2,
    Private3,
    ExtendJon,
}

/// The colours of the box outlines.
#[derive(Clone, Copy, Debug, PartialEq, Eq, Structural)]
pub enum BoxColor {
    Green,
    Red,
    Blue,
    Gold,
    Yellow,
    DarkBlue,
    LightGreen,
    LightRed,
    LightBlue,
    LightYellow,
    DebugColor,
    Khaki,
    Brown,
    Gray,
    Black,
    LightGray,
    DarkGray,
    DarkRed,
}

impl BoxType {
    /// The numeric code of a kind, as hitbox records store it.
    pub open spec fn code(self) -> u32 {
        match self {
            BoxType::Hurtbox => 0,
            BoxType::Hitbox => 1,
            BoxType::ExPoint => 2,
            BoxType::ExRect => 3,
            BoxType::ExVector => 4,
            BoxType::Push => 5,
            BoxType::TempCenter => 6,
            BoxType::Neck => 7,
            BoxType::Abdominal => 8,
            BoxType::AttackVsPush => 9,
            BoxType::SpGuard => 10,
            BoxType::RLeg => 11,
            BoxType::LLeg => 12,
            BoxType::Private0 => 13,
            BoxType::Private1 => 14,
            BoxType::Private2 => 15,
            BoxType::Private3 => 16,
            BoxType::ExtendJon => 17,
        }
    }

    /// The colour of the kind's outline.
    pub open spec fn outline(self) -> BoxColor {
        match self {
            BoxType::Hurtbox => BoxColor::Green,
            BoxType::Hitbox => BoxColor::Red,
            BoxType::ExPoint => BoxColor::Blue,
            BoxType::ExRect => BoxColor::Gold,
            BoxType::ExVector => BoxColor::Yellow,
            BoxType::Push => BoxColor::DarkBlue,
            BoxType::TempCenter => BoxColor::LightGreen,
            BoxType::Neck => BoxColor::LightRed,
            BoxType::Abdominal => BoxColor::LightBlue,
            BoxType::AttackVsPush => BoxColor::LightYellow,
            BoxType::SpGuard => BoxColor::DebugColor,
            BoxType::RLeg => BoxColor::Khaki,
            BoxType::LLeg => BoxColor::Brown,
            BoxType::Private0 => BoxColor::Gray,
            BoxType::Private1 => BoxColor::Black,
            BoxType::Private2 => BoxColor::LightGray,
            BoxType::Private3 => BoxColor::DarkGray,
            BoxType::ExtendJon => BoxColor::DarkRed,
        }
    }

    /// The kind whose code is `v`; codes from 18 on name no kind.
    pub fn try_from(v: u32) -> (r: Result<BoxType, ()>)
        ensures
            v < 18 <==> r is Ok,
            r matches Ok(t) ==> t.code() == v,
    {
        match v {
            0 => Ok(BoxType::Hurtbox),
            1 => Ok(BoxType::Hitbox),
            2 => Ok(BoxType::ExPoint),
            3 => Ok(BoxType::ExRect),
            4 => Ok(BoxType::ExVector),
            5 => Ok(BoxType::Push),
            6 => Ok(BoxType::TempCenter),
            7 => Ok(BoxType::Neck),
            8 => Ok(BoxType::Abdominal),
            9 => Ok(BoxType::AttackVsPush),
            10 => Ok(BoxType::SpGuard),
            11 => Ok(BoxType::RLeg),
            12 => Ok(BoxType::LLeg),
            13 => Ok(BoxType::Private0),
            14 => Ok(BoxType::Private1),
            15 => Ok(BoxType::Private2),
            16 => Ok(BoxType::Private3),
            17 => Ok(BoxType::ExtendJon),
            _ => Err(()),
        }
    }

    /// The numeric code of the kind.
    pub fn to_code(self) -> (r: u32)
        ensures
            r == self.code(),
    {
        match self {
            BoxType::Hurtbox => 0,
            BoxType::Hitbox => 1,
            BoxType::ExPoint => 2,
            BoxType::ExRect => 3,
            BoxType::ExVector => 4,
            BoxType::Push => 5,
            BoxType::TempCenter => 6,
            BoxType::Neck => 7,
            BoxType::Abdominal => 8,
            BoxType::AttackVsPush => 9,
            BoxType::SpGuard => 10,
            BoxType::RLeg => 11,
            BoxType::LLeg => 12,
            BoxType::Private0 => 13,
            BoxType::Private1 => 14,
            BoxType::Private2 => 15,
            BoxType::Private3 => 16,
            BoxType::ExtendJon => 17,
        }
    }

    /// The colour of the kind's outline.
    pub fn color(self) -> (r: BoxColor)
        ensures
            r == self.outline(),
    {
        match self {
            BoxType::Hurtbox => BoxColor::Green,
            BoxType::Hitbox => BoxColor::Red,
            BoxType::ExPoint => BoxColor::Blue,
            BoxType::ExRect => BoxColor::Gold,
            BoxType::ExVector => BoxColor::Yellow,
            BoxType::Push => BoxColor::DarkBlue,
            BoxType::TempCenter => BoxColor::LightGreen,
            BoxType::Neck => BoxColor::LightRed,
            BoxType::Abdominal => BoxColor::LightBlue,
            BoxType::AttackVsPush => BoxColor::LightYellow,
            BoxType::SpGuard => BoxColor::DebugColor,
            BoxType::RLeg => BoxColor::Khaki,
            BoxType::LLeg => BoxColor::Brown,
            BoxType::Private0 => BoxColor::Gray,
            BoxType::Private1 => BoxColor::Black,
            BoxType::Private2 => BoxColor::LightGray,
            BoxType::Private3 => BoxColor::DarkGray,
            BoxType::ExtendJon => BoxColor::DarkRed,
        }
    }
}

/// The outline colour of a box whose kind has code `kind`: that of its kind,
/// or green for a code that names no kind.
pub fn box_color(kind: u32) -> (r: BoxColor)
    ensures
        kind < 18 ==> exists|t: BoxType| t.code() == kind && r == t.outline(),
        kind >= 18 ==> r == BoxColor::Green,
{
    match BoxType::try_from(kind) {
        Ok(t) => t.color(),
        Err(_) => BoxColor::Green,
    }
}

} // verus!
