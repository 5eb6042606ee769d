use vstd::prelude::*;

verus! {

/// The three unit kinds a player can place; enemies reuse the same kinds.
#[derive(Clone, Copy, Debug, PartialEq, Eq, Structural)]
pub enum Shape {
    Circle,
    Square,
    Triangle,
}

/// The damage flavour carried by an attack; the client renders it, the
/// simulation only copies it around.
#[derive(Clone, Copy, Debug, PartialEq, Eq, Structural)]
pub enum DamageType {
    PhysicalBasic,
    PhysicalPierce,
    FireMagical,
}

impl Shape {
    /// The display name used in error messages and on the wire.
    pub fn name(&self) -> (r: String)
        ensures
            self is Square ==> r@ == "Square"@,
            self is Triangle ==> r@ == "Triangle"@,
            self is Circle ==> r@ == "Circle"@,
    {
        match self {
            Shape::Square => "Square".to_owned(),
            Shape::Triangle => "Triangle".to_owned(),
            Shape::Circle => "Circle".to_owned(),
        }
    }
}

} // verus!
