//! The generator: what a cell holds is a function of the seed and the place
//! alone, so cells can be made in any order and come out the same.

use super::cell::{Cell, CellValue};
use crate::fatal::Fatal;
use crate::helper::PlaceI32;
use rand::rngs::StdRng;
use rand::{RngCore, SeedableRng};
use vstd::arithmetic::power2::{lemma2_to64_rest, lemma_pow2_pos, lemma_pow2_strictly_increases, pow2};
use vstd::bits::lemma_u64_shl_is_mul;
use vstd::prelude::*;

verus! {

/// The search for a start covers the places whose coordinates are at least
/// `-SEARCH_RADIUS` and below `SEARCH_RADIUS`.
pub const SEARCH_RADIUS: i32 = 500;

/// The number of bits a draw keeps: a draw is the top `DRAW_BITS` bits of a
/// random word.
pub const DRAW_BITS: u32 = 53;

/// The concentration at which every cell is a mine: one more than the
/// largest draw, two to the power of `DRAW_BITS`.
pub const CERTAIN: u64 = 0x20_0000_0000_0000;

/// Coordinates for which the generator is defined: far enough from the
/// limits of `i32` that the start offset and a neighbour's offset fit.
pub const REACH: i32 = 0x4000_0000;

/// The first word that the standard generator gives when seeded with the 32
/// bytes `seed`.
pub uninterp spec fn first_word(seed: Seq<u8>) -> u64;

/// Seeds `rand`'s `StdRng` with `seed` (`SeedableRng::from_seed`) and takes
/// its first word (`RngCore::next_u64`). The generator is a ChaCha stream
/// cipher keyed by the seed, so the word depends on the seed alone; that is
/// all the contract claims.
#[verifier::external_body]
fn draw_first_word(seed: [u8; 32]) -> (word: u64)
    ensures
        word == first_word(seed@),
{
    StdRng::from_seed(seed).next_u64()
}

/// Byte `i` of the block that seeds the generator for one place: the seed's
/// eight bytes, the four of `x` and the four of `y`, each most significant
/// byte first and negative coordinates in two's complement, then sixteen
/// bytes of 42.
pub open spec fn seed_byte(seed: u64, x: int, y: int, i: int) -> u8 {
    if i < 8 {
        ((seed >> ((56 - 8 * i) as u64)) & 0xff) as u8
    } else if i < 12 {
        (((x as u32) >> ((88 - 8 * i) as u32)) & 0xff) as u8
    } else if i < 16 {
        (((y as u32) >> ((120 - 8 * i) as u32)) & 0xff) as u8
    } else {
        42u8
    }
}

/// The 32 bytes that seed the generator for the place `(x, y)`.
pub open spec fn seed_block(seed: u64, x: int, y: int) -> Seq<u8> {
    Seq::new(32, |i: int| seed_byte(seed, x, y, i))
}

/// A draw is a mine where it falls below the concentration. The draw is the
/// word without its low 11 bits, a number below `CERTAIN`; the
/// concentration is the number of draws, out of `CERTAIN`, that make a mine.
pub open spec fn value_of_word(word: u64, mine_concentration: u64) -> CellValue {
    if word / 2048 < mine_concentration {
        CellValue::Mine
    } else {
        CellValue::Empty
    }
}

/// What the place `(x, y)` holds, before any start offset.
pub open spec fn value_at(seed: u64, mine_concentration: u64, x: int, y: int) -> CellValue {
    value_of_word(first_word(seed_block(seed, x, y)), mine_concentration)
}

/// Whether the place `(x, y)` and its eight neighbours are all empty.
pub open spec fn clear_at(seed: u64, mine_concentration: u64, x: int, y: int) -> bool {
    forall|dx: int, dy: int|
        -1 <= dx <= 1 && -1 <= dy <= 1 ==> #[trigger] value_at(
            seed,
            mine_concentration,
            x + dx,
            y + dy,
        ) is Empty
}

/// The places of a search of the given radius: those whose coordinates
/// are at least `-radius` and below `radius`.
pub open spec fn in_search_of(radius: int, x: int, y: int) -> bool {
    -radius <= x < radius && -radius <= y < radius
}

/// The places of the search for a start.
pub open spec fn in_search_area(x: int, y: int) -> bool {
    in_search_of(SEARCH_RADIUS as int, x, y)
}

/// The order of the search: column by column, each from the bottom up.
pub open spec fn searched_before(x0: int, y0: int, x: int, y: int) -> bool {
    x0 < x || (x0 == x && y0 < y)
}

/// Whether a search of the given radius has no clear place.
pub open spec fn no_clear_within(seed: u64, mine_concentration: u64, radius: int) -> bool {
    forall|x: int, y: int|
        in_search_of(radius, x, y) ==> !#[trigger] clear_at(seed, mine_concentration, x, y)
}

/// Whether `(x, y)` is the first clear place of a search of the given
/// radius.
pub open spec fn first_clear_within(seed: u64, mine_concentration: u64, radius: int, x: int, y: int) -> bool {
    &&& in_search_of(radius, x, y)
    &&& clear_at(seed, mine_concentration, x, y)
    &&& forall|x0: int, y0: int|
        in_search_of(radius, x0, y0) && searched_before(x0, y0, x, y) ==> !#[trigger] clear_at(
            seed,
            mine_concentration,
            x0,
            y0,
        )
}

/// Whether the search area has no clear place.
pub open spec fn no_clear_start(seed: u64, mine_concentration: u64) -> bool {
    no_clear_within(seed, mine_concentration, SEARCH_RADIUS as int)
}

/// Whether `(x, y)` is the first clear place of the search area.
pub open spec fn first_clear_start(seed: u64, mine_concentration: u64, x: int, y: int) -> bool {
    first_clear_within(seed, mine_concentration, SEARCH_RADIUS as int, x, y)
}

/// Whether the number whose double-precision bits are `bits` is greater
/// than `draw / CERTAIN`.
///
/// The bits hold a sign, eleven bits of exponent and 52 bits of mantissa.
/// A negative number or one that is no number is greater than no draw, and
/// infinity is greater than every draw. Any other is `significand *
/// 2^(scale - 1075)`, where a zero exponent stands for a scale of 1 and a
/// significand without the leading one.
pub open spec fn fraction_exceeds(bits: u64, draw: int) -> bool {
    let negative = bits / 0x8000_0000_0000_0000 == 1;
    let exponent = (bits / 0x10_0000_0000_0000) % 0x800;
    let mantissa = bits % 0x10_0000_0000_0000;
    if negative || (exponent == 0x7ff && mantissa != 0) {
        false
    } else if exponent == 0x7ff {
        true
    } else {
        let significand = if exponent == 0 {
            mantissa as int
        } else {
            mantissa + 0x10_0000_0000_0000
        };
        let scale = if exponent == 0 {
            1
        } else {
            exponent as int
        };
        if scale >= 1022 {
            significand * pow2((scale - 1022) as nat) > draw
        } else {
            significand > draw * pow2((1022 - scale) as nat)
        }
    }
}

/// Rounding a quotient up: the draws below it are those whose multiple of
/// the divisor is below the dividend.
pub proof fn lemma_rounded_up_quotient(dividend: int, divisor: int, draw: int)
    requires
        0 <= dividend,
        0 < divisor,
        0 <= draw,
    ensures
        draw < (dividend + divisor - 1) / divisor <==> draw * divisor < dividend,
        (dividend + divisor - 1) / divisor <= dividend,
{
    let q = (dividend + divisor - 1) / divisor;
    assert(q * divisor <= dividend + divisor - 1 < (q + 1) * divisor) by (nonlinear_arith)
        requires
            q == (dividend + divisor - 1) / divisor,
            0 < divisor,
    ;
    assert(draw < q <==> draw * divisor < dividend) by (nonlinear_arith)
        requires
            q * divisor <= dividend + divisor - 1 < (q + 1) * divisor,
            0 < divisor,
            0 <= draw,
    ;
    assert(q <= dividend) by (nonlinear_arith)
        requires
            q * divisor <= dividend + divisor - 1,
            0 < divisor,
            0 <= dividend,
            0 <= q,
    ;
}

/// A higher concentration makes no mine empty: a cell that is a mine at one
/// concentration is a mine at every higher one.
pub proof fn lemma_more_mines(seed: u64, lower: u64, higher: u64, x: int, y: int)
    requires
        lower <= higher,
        value_at(seed, lower, x, y) is Mine,
    ensures
        value_at(seed, higher, x, y) is Mine,
{
}

/// At a concentration of `CERTAIN` or more every cell is a mine, so the
/// search area has no clear place.
pub proof fn lemma_all_mines_no_start(seed: u64, mine_concentration: u64)
    requires
        mine_concentration >= CERTAIN,
    ensures
        forall|x: int, y: int| #[trigger] value_at(seed, mine_concentration, x, y) is Mine,
        no_clear_start(seed, mine_concentration),
{
    assert forall|x: int, y: int| #[trigger] value_at(seed, mine_concentration, x, y) is Mine by {
        let word = first_word(seed_block(seed, x, y));
        assert(word as int / 2048 < CERTAIN);
    }
    assert forall|x: int, y: int| in_search_area(x, y) implies !#[trigger] clear_at(
        seed,
        mine_concentration,
        x,
        y,
    ) by {
        assert(value_at(seed, mine_concentration, x + 0, y + 0) is Mine);
    }
}

/// At the concentration that stands for a fraction, a word makes a mine
/// exactly when the fraction is greater than the word's draw.
pub proof fn lemma_concentration_decides(bits: u64, mine_concentration: u64, word: u64)
    requires
        mine_concentration <= CERTAIN,
        forall|draw: int|
            0 <= draw < CERTAIN ==> (draw < mine_concentration <==> #[trigger] fraction_exceeds(bits, draw)),
    ensures
        value_of_word(word, mine_concentration) is Mine <==> fraction_exceeds(bits, word as int / 2048),
{
    assert(0 <= word as int / 2048 < CERTAIN);
}

#[derive(Clone, Copy, Debug, PartialEq, Eq, Structural)]
pub struct CellBuilder {
    /// How many draws out of `CERTAIN` make a mine.
    pub mine_concentration: u64,
    pub seed: u64,
    /// The place of the generator at which the board's centre lies.
    pub origin: PlaceI32,
}

impl CellBuilder {
    /// The start offset lies in the search area.
    pub open spec fn wf(self) -> bool {
        in_search_area(self.origin.x as int, self.origin.y as int)
    }

    /// What the board holds at `(x, y)`.
    pub open spec fn value_of(self, x: int, y: int) -> CellValue {
        value_at(self.seed, self.mine_concentration, x + self.origin.x, y + self.origin.y)
    }

    /// The cell that the board gets at `(x, y)` when it is first visited.
    pub open spec fn cell_of(self, x: int, y: int) -> Cell {
        Cell::fresh(self.value_of(x, y))
    }

    /// Whether the board's centre and its eight neighbours are empty.
    pub open spec fn starts_clear(self) -> bool {
        forall|x: int, y: int| -1 <= x <= 1 && -1 <= y <= 1 ==> #[trigger] self.value_of(x, y) is Empty
    }

    /// Whether `r` is what building from `seed` gives: the builder whose
    /// start is the first clear place, or the failure where there is none.
    pub open spec fn built_from(mine_concentration: u64, seed: u64, r: Result<CellBuilder, Fatal>) -> bool {
        match r {
            Ok(builder) => {
                &&& builder.mine_concentration == mine_concentration
                &&& builder.seed == seed
                &&& first_clear_start(
                    seed,
                    mine_concentration,
                    builder.origin.x as int,
                    builder.origin.y as int,
                )
            },
            Err(e) => e is CannotFindStart && no_clear_start(seed, mine_concentration),
        }
    }

    /// The concentration that stands for a fraction of mines given by its
    /// double-precision bits: the number of draws that the fraction is
    /// greater than. A cell made at that concentration is a mine exactly
    /// when the fraction is greater than its draw.
    pub fn concentration_of(bits: u64) -> (mine_concentration: u64)
        ensures
            mine_concentration <= CERTAIN,
            forall|draw: int|
                0 <= draw < CERTAIN ==> (draw < mine_concentration <==> #[trigger] fraction_exceeds(
                    bits,
                    draw,
                )),
    {
        let negative = (bits >> 63) == 1;
        let exponent = (bits >> 52) & 0x7ff;
        let mantissa = bits & 0xf_ffff_ffff_ffff;
        proof {
            assert(bits >> 63 == bits / 0x8000_0000_0000_0000) by (bit_vector);
            assert((bits >> 52) & 0x7ff == (bits / 0x10_0000_0000_0000) % 0x800) by (bit_vector);
            assert(bits & 0xf_ffff_ffff_ffff == bits % 0x10_0000_0000_0000) by (bit_vector);
            lemma2_to64_rest();
        }
        if negative {
            return 0;
        }
        if exponent == 0x7ff {
            return if mantissa == 0 {
                CERTAIN
            } else {
                0
            };
        }
        if exponent == 0 {
            proof {
                lemma_pow2_strictly_increases(52, 1021);
                assert forall|draw: int| 0 <= draw < CERTAIN implies ((draw == 0 && mantissa > 0)
                    <==> #[trigger] fraction_exceeds(bits, draw)) by {
                    if draw >= 1 {
                        assert(draw * pow2(1021) >= pow2(1021)) by (nonlinear_arith)
                            requires
                                draw >= 1,
                                pow2(1021) > 0,
                        ;
                    }
                }
            }
            return if mantissa == 0 {
                0
            } else {
                1
            };
        }
        let significand: u64 = mantissa + 0x10_0000_0000_0000;
        if exponent >= 1023 {
            proof {
                let e = (exponent - 1022) as nat;
                lemma_pow2_pos(e);
                if e > 1 {
                    lemma_pow2_strictly_increases(1, e);
                }
                vstd::arithmetic::power2::lemma2_to64();
                assert(significand * pow2(e) >= CERTAIN) by (nonlinear_arith)
                    requires
                        significand >= 0x10_0000_0000_0000,
                        pow2(e) >= 2,
                        CERTAIN == 0x20_0000_0000_0000,
                ;
            }
            return CERTAIN;
        }
        let shift: u64 = 1022 - exponent;
        if shift >= 53 {
            proof {
                if shift > 53 {
                    lemma_pow2_strictly_increases(53, shift as nat);
                }
                assert forall|draw: int| 0 <= draw < CERTAIN implies (draw < 1 <==> #[trigger] fraction_exceeds(
                    bits,
                    draw,
                )) by {
                    if draw >= 1 {
                        assert(draw * pow2(shift as nat) >= pow2(shift as nat)) by (nonlinear_arith)
                            requires
                                draw >= 1,
                                pow2(shift as nat) > 0,
                        ;
                    }
                }
            }
            return 1;
        }
        let unit: u64 = 1u64 << shift;
        proof {
            if shift < 52 {
                lemma_pow2_strictly_increases(shift as nat, 52);
            }
            lemma_pow2_pos(shift as nat);
            lemma_u64_shl_is_mul(1, shift);
            assert(unit == pow2(shift as nat));
            assert forall|draw: int| 0 <= draw < CERTAIN implies (draw < (significand + (unit - 1)) / (
            unit as int) <==> #[trigger] fraction_exceeds(bits, draw)) by {
                lemma_rounded_up_quotient(significand as int, unit as int, draw);
                assert((significand + (unit - 1)) / (unit as int) == (significand + unit - 1) / (
                unit as int));
                if shift == 0 {
                    vstd::arithmetic::power2::lemma2_to64();
                    assert(significand * pow2(0) == significand) by (nonlinear_arith)
                        requires
                            pow2(0) == 1,
                    ;
                    assert(draw * (unit as int) == draw) by (nonlinear_arith)
                        requires
                            unit == 1,
                    ;
                } else {
                    assert((1022 - exponent) as nat == shift as nat);
                    assert(draw * pow2(shift as nat) == draw * (unit as int));
                }
            }
            lemma_rounded_up_quotient(significand as int, unit as int, 0);
        }
        (significand + (unit - 1)) / unit
    }

    /// A builder without mines.
    pub fn dummy() -> (builder: CellBuilder)
        ensures
            builder == (CellBuilder { mine_concentration: 0, seed: 0, origin: PlaceI32::origin() }),
            builder.wf(),
    {
        CellBuilder { mine_concentration: 0, seed: 0, origin: PlaceI32 { x: 0, y: 0 } }
    }

    /// Builds the generator for a board. Without a seed one is drawn from
    /// the operating system.
    pub fn new(mine_concentration: u64, seed: Option<u64>) -> (r: Result<CellBuilder, Fatal>)
        ensures
            match seed {
                Some(s) => Self::built_from(mine_concentration, s, r),
                None => r == Err::<CellBuilder, Fatal>(Fatal::NoEntropy) || exists|s: u64|
                    Self::built_from(mine_concentration, s, r),
            },
            r matches Ok(builder) ==> builder.wf() && builder.starts_clear(),
    {
        let seed = match seed {
            Some(seed) => seed,
            None => match Self::get_random_seed() {
                Some(seed) => seed,
                None => {
                    return Err(Fatal::NoEntropy);
                },
            },
        };
        let r = Self::with_seed(mine_concentration, seed);
        r
    }

    /// Builds the generator for a board from a given seed.
    pub fn with_seed(mine_concentration: u64, seed: u64) -> (r: Result<CellBuilder, Fatal>)
        ensures
            Self::built_from(mine_concentration, seed, r),
            r matches Ok(builder) ==> builder.wf() && builder.starts_clear(),
            r is Ok <==> !no_clear_start(seed, mine_concentration),
    {
        let start = Self::first_valid_start(seed, mine_concentration);
        let r = Self::from_start(mine_concentration, seed, start);
        proof {
            if let Some(origin) = start {
                let builder = CellBuilder { mine_concentration, seed, origin };
                assert forall|x: int, y: int| -1 <= x <= 1 && -1 <= y <= 1 implies #[trigger] builder.value_of(
                    x,
                    y,
                ) is Empty by {
                    assert(value_at(seed, mine_concentration, origin.x + x, origin.y + y) is Empty);
                }
            }
        }
        r
    }

    /// The generator whose board lies at the start that a search found, or
    /// the failure where it found none.
    pub fn from_start(mine_concentration: u64, seed: u64, start: Option<PlaceI32>) -> (r: Result<
        CellBuilder,
        Fatal,
    >)
        ensures
            r == (match start {
                Some(origin) => Ok(CellBuilder { mine_concentration, seed, origin }),
                None => Err(Fatal::CannotFindStart),
            }),
    {
        match start {
            Some(origin) => Ok(CellBuilder { mine_concentration, seed, origin }),
            None => Err(Fatal::CannotFindStart),
        }
    }

    /// The cell at `place`, as it is before the player touches it.
    pub fn cell(&self, place: PlaceI32) -> (cell: Cell)
        requires
            self.wf(),
            -REACH <= place.x < REACH,
            -REACH <= place.y < REACH,
        ensures
            cell == self.cell_of(place.x as int, place.y as int),
    {
        let value = Self::cell_value_before_origin(
            self.seed,
            self.mine_concentration,
            PlaceI32 { x: place.x + self.origin.x, y: place.y + self.origin.y },
        );
        Cell::new(value)
    }

    /// What a random word makes of a cell at the given concentration.
    pub fn value_of_draw(word: u64, mine_concentration: u64) -> (value: CellValue)
        ensures
            value == value_of_word(word, mine_concentration),
    {
        assert(word >> 11 == word / 2048) by (bit_vector);
        if (word >> 11) < mine_concentration {
            CellValue::Mine
        } else {
            CellValue::Empty
        }
    }

    /// The 32 bytes that seed the generator for `place`.
    pub fn seed_for(seed: u64, place: PlaceI32) -> (block: [u8; 32])
        ensures
            block@ == seed_block(seed, place.x as int, place.y as int),
    {
        let x: u32 = #[verifier::truncate]
        (place.x as u32);
        let y: u32 = #[verifier::truncate]
        (place.y as u32);
        let mut block: [u8; 32] = [42u8; 32];
        block[0] = #[verifier::truncate]
        (((seed >> 56) & 0xff) as u8);
        block[1] = #[verifier::truncate]
        (((seed >> 48) & 0xff) as u8);
        block[2] = #[verifier::truncate]
        (((seed >> 40) & 0xff) as u8);
        block[3] = #[verifier::truncate]
        (((seed >> 32) & 0xff) as u8);
        block[4] = #[verifier::truncate]
        (((seed >> 24) & 0xff) as u8);
        block[5] = #[verifier::truncate]
        (((seed >> 16) & 0xff) as u8);
        block[6] = #[verifier::truncate]
        (((seed >> 8) & 0xff) as u8);
        block[7] = #[verifier::truncate]
        (((seed >> 0) & 0xff) as u8);
        block[8] = #[verifier::truncate]
        (((x >> 24) & 0xff) as u8);
        block[9] = #[verifier::truncate]
        (((x >> 16) & 0xff) as u8);
        block[10] = #[verifier::truncate]
        (((x >> 8) & 0xff) as u8);
        block[11] = #[verifier::truncate]
        (((x >> 0) & 0xff) as u8);
        block[12] = #[verifier::truncate]
        (((y >> 24) & 0xff) as u8);
        block[13] = #[verifier::truncate]
        (((y >> 16) & 0xff) as u8);
        block[14] = #[verifier::truncate]
        (((y >> 8) & 0xff) as u8);
        block[15] = #[verifier::truncate]
        (((y >> 0) & 0xff) as u8);
        assert(block@ =~= seed_block(seed, place.x as int, place.y as int));
        block
    }

    /// What `place` holds, before any start offset.
    pub fn cell_value_before_origin(seed_u64: u64, mine_concentration: u64, place: PlaceI32) -> (value:
        CellValue)
        ensures
            value == value_at(seed_u64, mine_concentration, place.x as int, place.y as int),
    {
        let block = Self::seed_for(seed_u64, place);
        let word = draw_first_word(block);
        Self::value_of_draw(word, mine_concentration)
    }

    /// The first place of the search area, column by column and each from
    /// the bottom up, whose neighbourhood is clear.
    pub fn first_valid_start(seed: u64, mine_concentration: u64) -> (start: Option<PlaceI32>)
        ensures
            match start {
                Some(place) => first_clear_start(seed, mine_concentration, place.x as int, place.y as int),
                None => no_clear_start(seed, mine_concentration),
            },
    {
        Self::first_start_within(seed, mine_concentration, SEARCH_RADIUS)
    }

    /// The first place of a search of the given radius, column by column
    /// and each from the bottom up, whose neighbourhood is clear.
    pub fn first_start_within(seed: u64, mine_concentration: u64, radius: i32) -> (start: Option<PlaceI32>)
        requires
            0 <= radius < i32::MAX,
        ensures
            match start {
                Some(place) => first_clear_within(
                    seed,
                    mine_concentration,
                    radius as int,
                    place.x as int,
                    place.y as int,
                ),
                None => no_clear_within(seed, mine_concentration, radius as int),
            },
    {
        let mut x: i32 = -radius;
        while x < radius
            invariant
                0 <= radius < i32::MAX,
                -radius <= x <= radius,
                forall|x0: int, y0: int|
                    in_search_of(radius as int, x0, y0) && x0 < x ==> !#[trigger] clear_at(
                        seed,
                        mine_concentration,
                        x0,
                        y0,
                    ),
            decreases radius - x,
        {
            let mut y: i32 = -radius;
            while y < radius
                invariant
                    0 <= radius < i32::MAX,
                    -radius <= x < radius,
                    -radius <= y <= radius,
                    forall|x0: int, y0: int|
                        in_search_of(radius as int, x0, y0) && searched_before(x0, y0, x as int, y as int)
                            ==> !#[trigger] clear_at(seed, mine_concentration, x0, y0),
                decreases radius - y,
            {
                let place = PlaceI32 { x, y };
                if Self::is_clear(seed, mine_concentration, place) {
                    return Some(place);
                }
                y = y + 1;
            }
            x = x + 1;
        }
        None
    }

    /// Whether `place` and its eight neighbours are all empty.
    pub fn is_clear(seed: u64, mine_concentration: u64, place: PlaceI32) -> (clear: bool)
        requires
            i32::MIN < place.x < i32::MAX,
            i32::MIN < place.y < i32::MAX,
        ensures
            clear == clear_at(seed, mine_concentration, place.x as int, place.y as int),
    {
        let mut x: i32 = -1;
        while x <= 1
            invariant
                -1 <= x <= 2,
                i32::MIN < place.x < i32::MAX,
                i32::MIN < place.y < i32::MAX,
                forall|dx: int, dy: int|
                    -1 <= dx < x && -1 <= dy <= 1 ==> #[trigger] value_at(
                        seed,
                        mine_concentration,
                        place.x + dx,
                        place.y + dy,
                    ) is Empty,
            decreases 2 - x,
        {
            let mut y: i32 = -1;
            while y <= 1
                invariant
                    -1 <= x <= 1,
                    -1 <= y <= 2,
                    i32::MIN < place.x < i32::MAX,
                    i32::MIN < place.y < i32::MAX,
                    forall|dx: int, dy: int|
                        -1 <= dx <= 1 && -1 <= dy <= 1 && (dx < x || (dx == x && dy < y))
                            ==> #[trigger] value_at(
                            seed,
                            mine_concentration,
                            place.x + dx,
                            place.y + dy,
                        ) is Empty,
                decreases 2 - y,
            {
                let neighbour = PlaceI32 { x: place.x + x, y: place.y + y };
                if let CellValue::Mine = Self::cell_value_before_origin(
                    seed,
                    mine_concentration,
                    neighbour,
                ) {
                    assert(value_at(seed, mine_concentration, place.x + x, place.y + y) is Mine);
                    return false;
                }
                y = y + 1;
            }
            x = x + 1;
        }
        true
    }

    /// A seed from the operating system, if it gives one: seeds `rand`'s
    /// `StdRng` from the system (`SeedableRng::try_from_os_rng`) and takes
    /// its first word (`RngCore::next_u64`). Nothing is claimed of the word.
    #[verifier::external_body]
    fn get_random_seed() -> (seed: Option<u64>) {
        match StdRng::try_from_os_rng() {
            Ok(mut rng) => Some(rng.next_u64()),
            Err(_) => None,
        }
    }
}

} // verus!
