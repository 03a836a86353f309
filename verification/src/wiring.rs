use vstd::prelude::*;

verus! {

/// Position in the shift-register chain of each logical pixel, by row-major
/// pixel index.
pub const PIXEL_TO_BIT: [u8; 256] = [
    16, 17, 18, 19, 20, 21, 22, 23, 0, 1, 2, 3, 4, 5, 6, 7,
    31, 30, 29, 28, 27, 26, 25, 24, 15, 14, 13, 12, 11, 10, 9, 8,
    32, 33, 34, 35, 36, 37, 38, 39, 48, 49, 50, 51, 52, 53, 54, 55,
    47, 46, 45, 44, 43, 42, 41, 40, 63, 62, 61, 60, 59, 58, 57, 56,
    80, 81, 82, 83, 84, 85, 86, 87, 64, 65, 66, 67, 68, 69, 70, 71,
    95, 94, 93, 92, 91, 90, 89, 88, 79, 78, 77, 76, 75, 74, 73, 72,
    96, 97, 98, 99, 100, 101, 102, 103, 112, 113, 114, 115, 116, 117, 118, 119,
    111, 110, 109, 108, 107, 106, 105, 104, 127, 126, 125, 124, 123, 122, 121, 120,
    144, 145, 146, 147, 148, 149, 150, 151, 128, 129, 130, 131, 132, 133, 134, 135,
    159, 158, 157, 156, 155, 154, 153, 152, 143, 142, 141, 140, 139, 138, 137, 136,
    160, 161, 162, 163, 164, 165, 166, 167, 176, 177, 178, 179, 180, 181, 182, 183,
    175, 174, 173, 172, 171, 170, 169, 168, 191, 190, 189, 188, 187, 186, 185, 184,
    208, 209, 210, 211, 212, 213, 214, 215, 192, 193, 194, 195, 196, 197, 198, 199,
    223, 222, 221, 220, 219, 218, 217, 216, 207, 206, 205, 204, 203, 202, 201, 200,
    224, 225, 226, 227, 228, 229, 230, 231, 240, 241, 242, 243, 244, 245, 246, 247,
    239, 238, 237, 236, 235, 234, 233, 232, 255, 254, 253, 252, 251, 250, 249, 248,
];

/// Whether `(x, y)` lies on the canvas.
pub open spec fn on_canvas(x: int, y: int) -> bool {
    0 <= x < 16 && 0 <= y < 16
}

/// The position of pixel `(x, y)` in the serialized frame, counted in bits
/// from bit 0 of byte 0.
///
/// Two rows share four bytes of the chain. An even row runs upwards through
/// the low byte of a 16-bit half, the odd row below it runs downwards through
/// the high byte, and every other pair of rows has its two halves exchanged.
pub open spec fn physical_bit(x: int, y: int) -> int {
    let pair = y / 2;
    let half = if pair % 2 == 0 { 1 - x / 8 } else { x / 8 };
    let column = x % 8;
    32 * pair + 16 * half + if y % 2 == 0 { column } else { 15 - column }
}

/// The pixel that is wired to position `bit` of the serialized frame.
pub open spec fn logical_pixel(bit: int) -> (int, int) {
    let pair = bit / 32;
    let half = (bit % 32) / 16;
    let side = if pair % 2 == 0 { 1 - half } else { half };
    let within = bit % 16;
    if within < 8 {
        (8 * side + within, 2 * pair)
    } else {
        (8 * side + 15 - within, 2 * pair + 1)
    }
}

/// Whether the first `n` entries of row `y` of the wiring table are what the
/// closed form gives.
spec fn row_agrees(y: int, n: nat) -> bool
    decreases n,
{
    n == 0 || (PIXEL_TO_BIT[y * 16 + (n - 1)] == physical_bit(n - 1, y) && row_agrees(
        y,
        (n - 1) as nat,
    ))
}

proof fn lemma_row_agrees_below(y: int, n: nat, x: int)
    requires
        row_agrees(y, n),
        0 <= x < n,
    ensures
        PIXEL_TO_BIT[y * 16 + x] == physical_bit(x, y),
    decreases n,
{
    if x < n - 1 {
        lemma_row_agrees_below(y, (n - 1) as nat, x);
    }
}

proof fn lemma_row_0_agrees()
    ensures
        row_agrees(0, 16),
{
    reveal_with_fuel(row_agrees, 17);
}

proof fn lemma_row_1_agrees()
    ensures
        row_agrees(1, 16),
{
    reveal_with_fuel(row_agrees, 17);
}

proof fn lemma_row_2_agrees()
    ensures
        row_agrees(2, 16),
{
    reveal_with_fuel(row_agrees, 17);
}

proof fn lemma_row_3_agrees()
    ensures
        row_agrees(3, 16),
{
    reveal_with_fuel(row_agrees, 17);
}

proof fn lemma_row_4_agrees()
    ensures
        row_agrees(4, 16),
{
    reveal_with_fuel(row_agrees, 17);
}

proof fn lemma_row_5_agrees()
    ensures
        row_agrees(5, 16),
{
    reveal_with_fuel(row_agrees, 17);
}

proof fn lemma_row_6_agrees()
    ensures
        row_agrees(6, 16),
{
    reveal_with_fuel(row_agrees, 17);
}

proof fn lemma_row_7_agrees()
    ensures
        row_agrees(7, 16),
{
    reveal_with_fuel(row_agrees, 17);
}

proof fn lemma_row_8_agrees()
    ensures
        row_agrees(8, 16),
{
    reveal_with_fuel(row_agrees, 17);
}

proof fn lemma_row_9_agrees()
    ensures
        row_agrees(9, 16),
{
    reveal_with_fuel(row_agrees, 17);
}

proof fn lemma_row_10_agrees()
    ensures
        row_agrees(10, 16),
{
    reveal_with_fuel(row_agrees, 17);
}

proof fn lemma_row_11_agrees()
    ensures
        row_agrees(11, 16),
{
    reveal_with_fuel(row_agrees, 17);
}

proof fn lemma_row_12_agrees()
    ensures
        row_agrees(12, 16),
{
    reveal_with_fuel(row_agrees, 17);
}

proof fn lemma_row_13_agrees()
    ensures
        row_agrees(13, 16),
{
    reveal_with_fuel(row_agrees, 17);
}

proof fn lemma_row_14_agrees()
    ensures
        row_agrees(14, 16),
{
    reveal_with_fuel(row_agrees, 17);
}

proof fn lemma_row_15_agrees()
    ensures
        row_agrees(15, 16),
{
    reveal_with_fuel(row_agrees, 17);
}

/// The wiring table holds, for every pixel, the position that the closed
/// form gives.
pub proof fn lemma_table_is_physical_bit()
    ensures
        forall|x: int, y: int|
            on_canvas(x, y) ==> PIXEL_TO_BIT[y * 16 + x] == #[trigger] physical_bit(x, y),
{
    lemma_row_0_agrees();
    lemma_row_1_agrees();
    lemma_row_2_agrees();
    lemma_row_3_agrees();
    lemma_row_4_agrees();
    lemma_row_5_agrees();
    lemma_row_6_agrees();
    lemma_row_7_agrees();
    lemma_row_8_agrees();
    lemma_row_9_agrees();
    lemma_row_10_agrees();
    lemma_row_11_agrees();
    lemma_row_12_agrees();
    lemma_row_13_agrees();
    lemma_row_14_agrees();
    lemma_row_15_agrees();
    assert forall|x: int, y: int| on_canvas(x, y) implies PIXEL_TO_BIT[y * 16 + x]
        == #[trigger] physical_bit(x, y) by {
        assert(row_agrees(y, 16));
        lemma_row_agrees_below(y, 16, x);
    }
}

/// The byte of the serialized frame that holds pixel `(x, y)`, and the bit
/// of that byte, bit 0 being the least significant.
pub open spec fn physical_location(x: int, y: int) -> (int, int) {
    (physical_bit(x, y) / 8, physical_bit(x, y) % 8)
}

/// Whether some pixel of the canvas is held at bit `bit` of byte `byte` of the
/// serialized frame.
pub open spec fn is_wired(byte: int, bit: int) -> bool {
    exists|x: int, y: int| on_canvas(x, y) && #[trigger] physical_location(x, y) == (byte, bit)
}

/// Every pixel of the canvas has a bit of the frame, and `logical_pixel`
/// finds the pixel again from it.
pub proof fn lemma_logical_of_physical(x: int, y: int)
    requires
        on_canvas(x, y),
    ensures
        0 <= physical_bit(x, y) < 256,
        logical_pixel(physical_bit(x, y)) == (x, y),
{
    let pair = y / 2;
    let half = if pair % 2 == 0 { 1 - x / 8 } else { x / 8 };
    let within = if y % 2 == 0 { x % 8 } else { 15 - x % 8 };
    let bit = physical_bit(x, y);
    assert(bit == 32 * pair + 16 * half + within);
    assert(bit / 32 == pair && (bit % 32) / 16 == half && bit % 16 == within);
}

/// Every bit of the frame has a pixel of the canvas, and `physical_bit`
/// finds the bit again from it.
pub proof fn lemma_physical_of_logical(bit: int)
    requires
        0 <= bit < 256,
    ensures
        on_canvas(logical_pixel(bit).0, logical_pixel(bit).1),
        physical_bit(logical_pixel(bit).0, logical_pixel(bit).1) == bit,
{
    let pair = bit / 32;
    let half = (bit % 32) / 16;
    let side = if pair % 2 == 0 { 1 - half } else { half };
    let within = bit % 16;
    assert(bit == 32 * pair + 16 * half + within);
    let (x, y) = logical_pixel(bit);
    if within < 8 {
        assert(x / 8 == side && x % 8 == within && y / 2 == pair && y % 2 == 0);
    } else {
        assert(x / 8 == side && x % 8 == 15 - within && y / 2 == pair && y % 2 == 1);
    }
}

/// No two pixels of the canvas share a byte and bit of the serialized frame,
/// and every bit of its 32 bytes belongs to a pixel.
pub proof fn lemma_physical_location_bijective()
    ensures
        forall|x1: int, y1: int, x2: int, y2: int|
            on_canvas(x1, y1) && on_canvas(x2, y2) && #[trigger] physical_location(x1, y1)
                == #[trigger] physical_location(x2, y2) ==> x1 == x2 && y1 == y2,
        forall|byte: int, bit: int|
            0 <= byte < 32 && 0 <= bit < 8 ==> #[trigger] is_wired(byte, bit),
{
    assert forall|x1: int, y1: int, x2: int, y2: int|
        on_canvas(x1, y1) && on_canvas(x2, y2) && #[trigger] physical_location(x1, y1)
            == #[trigger] physical_location(x2, y2) implies x1 == x2 && y1 == y2 by {
        lemma_logical_of_physical(x1, y1);
        lemma_logical_of_physical(x2, y2);
    }
    assert forall|byte: int, bit: int| 0 <= byte < 32 && 0 <= bit < 8 implies #[trigger] is_wired(
        byte,
        bit,
    ) by {
        lemma_physical_of_logical(8 * byte + bit);
        let p = logical_pixel(8 * byte + bit);
        assert(physical_location(p.0, p.1) == (byte, bit));
    }
}

proof fn lemma_split_index(x: u8, y: u8, b: u8)
    by (bit_vector)
    requires
        x < 16,
        y < 16,
    ensures
        (y << 4u8) | x == y * 16 + x,
        y << 4u8 <= 240,
        b >> 3u8 == b / 8,
        b & 7u8 == b % 8,
{
}

/// Where pixel `(x, y)` is held in the serialized frame: the index of its
/// byte, and its bit in that byte, bit 0 being the least significant.
pub fn to_physical_location(x: u8, y: u8) -> (location: (usize, u8))
    requires
        x < 16,
        y < 16,
    ensures
        (location.0 as int, location.1 as int) == physical_location(x as int, y as int),
        location.0 < 32,
        location.1 < 8,
{
    proof {
        lemma_split_index(x, y, 0);
        lemma_table_is_physical_bit();
        lemma_logical_of_physical(x as int, y as int);
    }
    let pixel_index: u8 = (y << 4) | x;
    let bit_index: u8 = PIXEL_TO_BIT[pixel_index as usize];
    proof {
        lemma_split_index(x, y, bit_index);
    }
    let byte_index: u8 = bit_index >> 3;
    let bit_in_byte: u8 = bit_index & 0b0000_0111;
    (byte_index as usize, bit_in_byte)
}

} // verus!
