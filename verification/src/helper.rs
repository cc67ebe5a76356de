//! Coordinates and sizes.

use vstd::prelude::*;
use vstd::std_specs::convert::IntoSpecImpl;

verus! {

/// A position on the board.
#[derive(Clone, Copy, Debug, PartialEq, Eq, Structural)]
pub struct PlaceI32 {
    pub x: i32,
    pub y: i32,
}

impl View for PlaceI32 {
    type V = (int, int);

    open spec fn view(&self) -> (int, int) {
        (self.x as int, self.y as int)
    }
}

/// Distance of one coordinate from the centre, counted so that `[-r, r)`
/// is the smallest such interval that holds it.
pub open spec fn axis_radius(v: int) -> int {
    if v >= 0 {
        v + 1
    } else {
        -v
    }
}

/// Division by two that rounds towards zero, as machine integers divide.
pub open spec fn half(v: int) -> int {
    if v >= 0 {
        v / 2
    } else {
        -((-v) / 2)
    }
}

impl PlaceI32 {
    /// The centre of the board.
    pub open spec fn spec_origin() -> PlaceI32 {
        PlaceI32 { x: 0, y: 0 }
    }

    #[verifier::when_used_as_spec(spec_origin)]
    pub fn origin() -> (p: PlaceI32)
        ensures
            p == Self::spec_origin(),
    {
        PlaceI32 { x: 0, y: 0 }
    }

    /// The larger of the two axis radii.
    pub open spec fn spec_radius(self) -> int {
        let rx = axis_radius(self.x as int);
        let ry = axis_radius(self.y as int);
        if rx >= ry {
            rx
        } else {
            ry
        }
    }

    /// Whether the square `[-r, r) x [-r, r)` holds this place.
    pub open spec fn inside_square(self, r: int) -> bool {
        -r <= self.x < r && -r <= self.y < r
    }

    /// Whether this place lies in the window of size `area` centred on
    /// `place`: each axis is a half-open interval of `half(extent)` cells to
    /// either side.
    pub open spec fn spec_within(self, place: PlaceI32, area: SizeI32) -> bool {
        &&& place.x - half(area.width as int) <= self.x < place.x + half(area.width as int)
        &&& place.y - half(area.height as int) <= self.y < place.y + half(area.height as int)
    }

    /// Radius of the smallest tile containing the place.
    pub fn radius(&self) -> (r: i32)
        requires
            i32::MIN < self.x < i32::MAX,
            i32::MIN < self.y < i32::MAX,
        ensures
            r == self.spec_radius(),
            self.inside_square(r as int),
            r >= 1,
    {
        let rx: i32 = if self.x >= 0 { self.x + 1 } else { -self.x };
        let ry: i32 = if self.y >= 0 { self.y + 1 } else { -self.y };
        if rx >= ry {
            rx
        } else {
            ry
        }
    }

    pub fn within(&self, place: PlaceI32, area: SizeI32) -> (r: bool)
        requires
            i32::MIN <= place.x - half(area.width as int) <= i32::MAX,
            i32::MIN <= place.x + half(area.width as int) <= i32::MAX,
            i32::MIN <= place.y - half(area.height as int) <= i32::MAX,
            i32::MIN <= place.y + half(area.height as int) <= i32::MAX,
        ensures
            r == self.spec_within(place, area),
    {
        let half_width: i32 = area.width / 2;
        let half_height: i32 = area.height / 2;
        place.x - half_width <= self.x && self.x < place.x + half_width && place.y - half_height
            <= self.y && self.y < place.y + half_height
    }
}

/// The radius is the half-extent of the smallest centred square that holds
/// the place: the square of that radius holds it, and no smaller one does.
pub proof fn lemma_radius_is_least(place: PlaceI32, r: int)
    ensures
        place.inside_square(place.spec_radius()),
        place.inside_square(r) ==> place.spec_radius() <= r,
        place.inside_square(r) <==> place.spec_radius() <= r,
{
}

/// An extent in cells; either part may be negative where a window is too
/// small to leave any room.
#[derive(Clone, Copy, Debug, PartialEq, Eq, Structural)]
pub struct SizeI32 {
    pub width: i32,
    pub height: i32,
}

/// A position in a matrix of cells.
#[derive(Clone, Copy, Debug, PartialEq, Eq, Structural)]
pub struct PlaceUsize {
    pub x: usize,
    pub y: usize,
}

/// The extent of a window or of a matrix of cells.
#[derive(Clone, Copy, Debug, PartialEq, Eq, Structural)]
pub struct SizeUsize {
    pub width: usize,
    pub height: usize,
}

impl Into<SizeI32> for SizeUsize {
    fn into(self) -> (r: SizeI32) {
        SizeI32 {
            width: #[verifier::truncate]
            (self.width as i32),
            height: #[verifier::truncate]
            (self.height as i32),
        }
    }
}

impl IntoSpecImpl<SizeI32> for SizeUsize {
    open spec fn obeys_into_spec() -> bool {
        true
    }

    open spec fn into_spec(self) -> SizeI32 {
        SizeI32 { width: self.width as i32, height: self.height as i32 }
    }
}

/// A value that can be read but not changed.
pub struct Immut<T>(T);

impl<T> Immut<T> {
    pub closed spec fn inner(self) -> T {
        self.0
    }

    pub fn new(value: T) -> (r: Immut<T>)
        ensures
            r.inner() == value,
    {
        Immut(value)
    }
}

impl<T> std::ops::Deref for Immut<T> {
    type Target = T;

    fn deref(&self) -> (r: &T)
        ensures
            *r == self.inner(),
    {
        &self.0
    }
}

} // verus!
