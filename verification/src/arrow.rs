//! Arrow styles for rendering the movement graph as a UML diagram.

use vstd::prelude::*;

verus! {

/// The direction an arrow points in a rendered diagram.
#[derive(Clone, Copy, Debug, PartialEq, Eq, Structural, Hash)]
pub enum ArrowStyle {
    Down,
    Left,
    Right,
    Up,
}

/// Whether two strings hold the same characters.
fn str_eq(a: &str, b: &str) -> (r: bool)
    ensures
        r <==> a@ == b@,
{
    let owned_a = a.to_owned();
    let owned_b = b.to_owned();
    owned_a.eq(&owned_b)
}

impl ArrowStyle {
    /// The style named by `direction`: one of `up`, `down`, `left`,
    /// `right`.  Any other name is rejected.
    pub fn from_str(direction: &str) -> (r: Result<Self, &'static str>)
        ensures
            r == (if direction@ == "up"@ {
                Ok::<Self, &'static str>(ArrowStyle::Up)
            } else if direction@ == "down"@ {
                Ok::<Self, &'static str>(ArrowStyle::Down)
            } else if direction@ == "left"@ {
                Ok::<Self, &'static str>(ArrowStyle::Left)
            } else if direction@ == "right"@ {
                Ok::<Self, &'static str>(ArrowStyle::Right)
            } else {
                Err::<Self, &'static str>("Must be one of [up, down, left, right]")
            }),
            r is Err <==> !(direction@ == "up"@ || direction@ == "down"@ || direction@ == "left"@
                || direction@ == "right"@),
    {
        if str_eq(direction, "up") {
            Ok(ArrowStyle::Up)
        } else if str_eq(direction, "down") {
            Ok(ArrowStyle::Down)
        } else if str_eq(direction, "left") {
            Ok(ArrowStyle::Left)
        } else if str_eq(direction, "right") {
            Ok(ArrowStyle::Right)
        } else {
            Err("Must be one of [up, down, left, right]")
        }
    }

    /// The arrow as UML diagram text.
    pub fn as_str(self) -> (r: &'static str)
        ensures
            self == ArrowStyle::Down ==> r@ == "-->"@,
            self == ArrowStyle::Left ==> r@ == "-left->"@,
            self == ArrowStyle::Right ==> r@ == "-right->"@,
            self == ArrowStyle::Up ==> r@ == "-up->"@,
    {
        match self {
            ArrowStyle::Down => "-->",
            ArrowStyle::Left => "-left->",
            ArrowStyle::Right => "-right->",
            ArrowStyle::Up => "-up->",
        }
    }
}

impl Default for ArrowStyle {
    /// Arrows point down unless asked otherwise.
    fn default() -> (r: Self)
        ensures
            r == ArrowStyle::Down,
    {
        ArrowStyle::Down
    }
}

} // verus!
