//! A rectangle of values, stored column by column.

use crate::helper::{PlaceUsize, SizeUsize};
use vstd::prelude::*;

verus! {

#[derive(Debug)]
pub struct Matrix<T> {
    size: SizeUsize,
    data: Vec<T>,
}

/// A place of a rectangle has its own index in the storage, below the
/// number of places.
pub proof fn lemma_index_in_bounds(x: int, y: int, width: int, height: int)
    requires
        0 <= x < width,
        0 <= y < height,
    ensures
        0 <= x * height + y < width * height,
        x * height + y < (x + 1) * height,
{
    assert(x * height + y < (x + 1) * height) by (nonlinear_arith)
        requires
            0 <= y < height,
    ;
    assert((x + 1) * height <= width * height) by (nonlinear_arith)
        requires
            0 <= x < width,
            0 < height,
    ;
    assert(0 <= x * height) by (nonlinear_arith)
        requires
            0 <= x,
            0 <= height,
    ;
}

impl<T> Matrix<T> {
    /// The number of columns and of rows.
    pub closed spec fn spec_size(&self) -> SizeUsize {
        self.size
    }

    #[verifier::when_used_as_spec(spec_size)]
    pub fn size(&self) -> (size: SizeUsize)
        ensures
            size == self.spec_size(),
    {
        self.size
    }

    /// Whether the storage has one value for each place.
    pub closed spec fn wf(self) -> bool {
        self.data@.len() == self.size.width * self.size.height
    }

    /// The value at column `x` and row `y`.
    pub closed spec fn at(self, x: int, y: int) -> T {
        self.data@[x * self.size.height + y]
    }

    /// Whether `place` lies in a rectangle of the given size.
    pub open spec fn inside(size: SizeUsize, place: PlaceUsize) -> bool {
        place.x < size.width && place.y < size.height
    }

    /// A matrix whose value at each place is what `builder` gives for it.
    /// The places are visited column by column, each from row 0 up.
    pub fn new<F: Fn(PlaceUsize) -> T>(size: SizeUsize, builder: F) -> (matrix: Matrix<T>)
        requires
            size.width * size.height <= usize::MAX,
            forall|place: PlaceUsize| Self::inside(size, place) ==> #[trigger] builder.requires((place,)),
        ensures
            matrix.wf(),
            matrix.size() == size,
            forall|x: int, y: int|
                0 <= x < size.width && 0 <= y < size.height ==> builder.ensures(
                    (PlaceUsize { x: x as usize, y: y as usize },),
                    #[trigger] matrix.at(x, y),
                ),
    {
        let mut data: Vec<T> = Vec::new();
        let mut x: usize = 0;
        while x < size.width
            invariant
                0 <= x <= size.width,
                size.width * size.height <= usize::MAX,
                data@.len() == x * size.height,
                forall|place: PlaceUsize|
                    Self::inside(size, place) ==> #[trigger] builder.requires((place,)),
                forall|i: int, j: int|
                    0 <= i < x && 0 <= j < size.height ==> builder.ensures(
                        (PlaceUsize { x: i as usize, y: j as usize },),
                        #[trigger] data@[i * size.height + j],
                    ),
            decreases size.width - x,
        {
            let mut y: usize = 0;
            while y < size.height
                invariant
                    0 <= x < size.width,
                    0 <= y <= size.height,
                    size.width * size.height <= usize::MAX,
                    data@.len() == x * size.height + y,
                    forall|place: PlaceUsize|
                        Self::inside(size, place) ==> #[trigger] builder.requires((place,)),
                    forall|i: int, j: int|
                        0 <= i < size.width && 0 <= j < size.height && (i < x || (i == x && j < y))
                            ==> builder.ensures(
                            (PlaceUsize { x: i as usize, y: j as usize },),
                            #[trigger] data@[i * size.height + j],
                        ),
                decreases size.height - y,
            {
                let place = PlaceUsize { x, y };
                assert(Self::inside(size, place));
                let value = builder(place);
                let ghost before = data@;
                data.push(value);
                proof {
                    assert forall|i: int, j: int|
                        0 <= i < size.width && 0 <= j < size.height && (i < x || (i == x && j < y
                            + 1)) implies builder.ensures(
                        (PlaceUsize { x: i as usize, y: j as usize },),
                        #[trigger] data@[i * size.height + j],
                    ) by {
                        if i < x {
                            lemma_index_in_bounds(i, j, x as int, size.height as int);
                            assert(data@[i * size.height + j] == before[i * size.height + j]);
                        } else if j < y {
                            assert(data@[i * size.height + j] == before[i * size.height + j]);
                        } else {
                            assert(i * size.height + j == before.len());
                        }
                    }
                }
                y = y + 1;
            }
            proof {
                assert((x + 1) * size.height == x * size.height + size.height) by (nonlinear_arith);
            }
            x = x + 1;
        }
        Matrix { size, data }
    }

    /// A matrix over values that are stored column by column already.
    pub fn from_columns(size: SizeUsize, data: Vec<T>) -> (matrix: Matrix<T>)
        requires
            data@.len() == size.width * size.height,
        ensures
            matrix.wf(),
            matrix.size() == size,
            forall|x: int, y: int|
                0 <= x < size.width && 0 <= y < size.height ==> #[trigger] matrix.at(x, y) == data@[x
                    * size.height + y],
    {
        Matrix { size, data }
    }

    pub fn get(&self, place: PlaceUsize) -> (value: &T)
        requires
            self.wf(),
            Self::inside(self.size(), place),
        ensures
            *value == self.at(place.x as int, place.y as int),
    {
        let stored = self.data.len();
        proof {
            lemma_index_in_bounds(
                place.x as int,
                place.y as int,
                self.size.width as int,
                self.size.height as int,
            );
            assert(stored == self.size.width * self.size.height);
            assert(0 <= place.x * self.size.height) by (nonlinear_arith);
            assert(place.x * self.size.height + place.y < self.size.width * self.size.height);
        }
        &self.data[place.x * self.size.height + place.y]
    }
}

} // verus!
