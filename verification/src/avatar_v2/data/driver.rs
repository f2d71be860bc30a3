//! Parameter drivers and tracking controls.
//!
//! Floating-point values are carried as IEEE-754 bit patterns (`u64`).
use vstd::prelude::*;

verus! {

#[derive(Debug)]
pub enum ParameterDrive {
    SetInt(String, u8),
    SetFloat(String, u64),
    SetBool(String, bool),
    AddInt(String, u8),
    AddFloat(String, u64),
    RandomInt(String, (u8, u8)),
    RandomFloat(String, (u64, u64)),
    RandomBool(String, u64),
    Copy(String, String),
    RangedCopy(String, String, (u64, u64), (u64, u64)),
}

/// The parameter that a drive writes: the first one, or for a copy the destination.
pub open spec fn drive_target(d: ParameterDrive) -> Seq<char> {
    match d {
        ParameterDrive::SetInt(p, _) => p@,
        ParameterDrive::SetFloat(p, _) => p@,
        ParameterDrive::SetBool(p, _) => p@,
        ParameterDrive::AddInt(p, _) => p@,
        ParameterDrive::AddFloat(p, _) => p@,
        ParameterDrive::RandomInt(p, _) => p@,
        ParameterDrive::RandomFloat(p, _) => p@,
        ParameterDrive::RandomBool(p, _) => p@,
        ParameterDrive::Copy(_, p) => p@,
        ParameterDrive::RangedCopy(_, p, _, _) => p@,
    }
}

impl Clone for ParameterDrive {
    fn clone(&self) -> (r: Self)
        ensures
            r == *self,
    {
        match self {
            ParameterDrive::SetInt(p, v) => ParameterDrive::SetInt(p.clone(), *v),
            ParameterDrive::SetFloat(p, v) => ParameterDrive::SetFloat(p.clone(), *v),
            ParameterDrive::SetBool(p, v) => ParameterDrive::SetBool(p.clone(), *v),
            ParameterDrive::AddInt(p, v) => ParameterDrive::AddInt(p.clone(), *v),
            ParameterDrive::AddFloat(p, v) => ParameterDrive::AddFloat(p.clone(), *v),
            ParameterDrive::RandomInt(p, r) => ParameterDrive::RandomInt(p.clone(), (r.0, r.1)),
            ParameterDrive::RandomFloat(p, r) => ParameterDrive::RandomFloat(p.clone(), (r.0, r.1)),
            ParameterDrive::RandomBool(p, v) => ParameterDrive::RandomBool(p.clone(), *v),
            ParameterDrive::Copy(f, t) => ParameterDrive::Copy(f.clone(), t.clone()),
            ParameterDrive::RangedCopy(f, t, a, b) => ParameterDrive::RangedCopy(
                f.clone(),
                t.clone(),
                (a.0, a.1),
                (b.0, b.1),
            ),
        }
    }
}

impl ParameterDrive {
    pub fn target_parameter(&self) -> (r: &str)
        ensures
            r@ == drive_target(*self),
    {
        match self {
            ParameterDrive::SetInt(p, _) => p.as_str(),
            ParameterDrive::SetFloat(p, _) => p.as_str(),
            ParameterDrive::SetBool(p, _) => p.as_str(),
            ParameterDrive::AddInt(p, _) => p.as_str(),
            ParameterDrive::AddFloat(p, _) => p.as_str(),
            ParameterDrive::RandomInt(p, _) => p.as_str(),
            ParameterDrive::RandomFloat(p, _) => p.as_str(),
            ParameterDrive::RandomBool(p, _) => p.as_str(),
            ParameterDrive::Copy(_, p) => p.as_str(),
            ParameterDrive::RangedCopy(_, p, _, _) => p.as_str(),
        }
    }
}

#[derive(Debug, Clone)]
pub struct TrackingControl {
    pub animation_desired: bool,
    pub targets: Vec<TrackingTarget>,
}

#[derive(Debug, Clone, Copy, PartialEq, Eq, Structural)]
pub enum TrackingTarget {
    Head,
    Hip,
    Eyes,
    Mouth,
    HandLeft,
    HandRight,
    FootLeft,
    FoorRight,
    FingersLeft,
    FingersRight,
}

} // verus!
