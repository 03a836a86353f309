use crate::wiring::{
    lemma_logical_of_physical, lemma_physical_of_logical, logical_pixel, on_canvas, physical_bit,
    to_physical_location,
};
use vstd::prelude::*;

verus! {

/// Width and height of the logical canvas, in pixels.
pub const DISPLAY_SIZE: usize = 16;

/// Number of pixels of the canvas, one bit each.
pub const BIT_COUNT: usize = DISPLAY_SIZE * DISPLAY_SIZE;

/// Number of bytes that are shifted out for one frame.
pub const BYTE_COUNT: usize = BIT_COUNT / 8;

/// Whether bit `bit` of the packed frame `bytes` is 1, counting from the least
/// significant bit of byte 0.
pub open spec fn bit_is_set(bytes: Seq<u8>, bit: int) -> bool {
    (bytes[bit / 8] >> ((bit % 8) as u8)) & 1u8 == 1u8
}

/// The pixels that are lit in a serialized frame.
pub open spec fn decode_frame(bytes: Seq<u8>) -> Set<(int, int)> {
    Set::new(|p: (int, int)| on_canvas(p.0, p.1) && bit_is_set(bytes, physical_bit(p.0, p.1)))
}

proof fn lemma_or_bit(v: u8, k: u8, j: u8)
    by (bit_vector)
    requires
        k < 8,
        j < 8,
    ensures
        ((v | (1u8 << k)) >> j) & 1u8 == 1u8 <==> ((v >> j) & 1u8 == 1u8 || j == k),
{
}

proof fn lemma_zero_bit(j: u8)
    by (bit_vector)
    requires
        j < 8,
    ensures
        (0u8 >> j) & 1u8 == 0u8,
{
}

proof fn lemma_bits_determine_byte(u: u8, v: u8)
    by (bit_vector)
    requires
        (u >> 0u8) & 1u8 == (v >> 0u8) & 1u8,
        (u >> 1u8) & 1u8 == (v >> 1u8) & 1u8,
        (u >> 2u8) & 1u8 == (v >> 2u8) & 1u8,
        (u >> 3u8) & 1u8 == (v >> 3u8) & 1u8,
        (u >> 4u8) & 1u8 == (v >> 4u8) & 1u8,
        (u >> 5u8) & 1u8 == (v >> 5u8) & 1u8,
        (u >> 6u8) & 1u8 == (v >> 6u8) & 1u8,
        (u >> 7u8) & 1u8 == (v >> 7u8) & 1u8,
    ensures
        u == v,
{
}

proof fn lemma_bit_is_zero_or_one(u: u8, j: u8)
    by (bit_vector)
    ensures
        (u >> j) & 1u8 == 0u8 || (u >> j) & 1u8 == 1u8,
{
}

/// A frame is serialized in one way only: two packed frames of 32 bytes
/// that light the same pixels are the same bytes.
pub proof fn lemma_decode_frame_injective(a: Seq<u8>, b: Seq<u8>)
    requires
        a.len() == 32,
        b.len() == 32,
        decode_frame(a) == decode_frame(b),
    ensures
        a == b,
{
    assert forall|i: int| 0 <= i < 32 implies a[i] == b[i] by {
        assert forall|j: u8| j < 8 implies (a[i] >> j) & 1u8 == (b[i] >> j) & 1u8 by {
            let p = logical_pixel(8 * i + j);
            lemma_physical_of_logical(8 * i + j);
            assert(decode_frame(a).contains(p) == bit_is_set(a, 8 * i + j));
            assert(decode_frame(b).contains(p) == bit_is_set(b, 8 * i + j));
            lemma_bit_is_zero_or_one(a[i], j);
            lemma_bit_is_zero_or_one(b[i], j);
        }
        lemma_bits_determine_byte(a[i], b[i]);
    }
    assert(a =~= b);
}

/// A frame whose bytes are all zero lights no pixel.
pub proof fn lemma_zero_frame_is_blank(bytes: Seq<u8>)
    requires
        bytes.len() == 32,
        forall|i: int| 0 <= i < 32 ==> bytes[i] == 0,
    ensures
        decode_frame(bytes) == Set::<(int, int)>::empty(),
{
    assert forall|p: (int, int)| !decode_frame(bytes).contains(p) by {
        if on_canvas(p.0, p.1) {
            let bit = physical_bit(p.0, p.1);
            lemma_logical_of_physical(p.0, p.1);
            assert(bytes[bit / 8] == 0);
            lemma_zero_bit((bit % 8) as u8);
        }
    }
    assert(decode_frame(bytes) =~= Set::<(int, int)>::empty());
}

/// The frame buffer of the 16 by 16 canvas: one bit for each pixel, packed as
/// the shift-register chain takes them.
pub struct ObegraensadDisplay {
    pixels: [u8; BYTE_COUNT],
}

impl View for ObegraensadDisplay {
    type V = Set<(int, int)>;

    /// The pixels `(x, y)` that are lit.
    closed spec fn view(&self) -> Set<(int, int)> {
        decode_frame(self.pixels@)
    }
}

impl ObegraensadDisplay {
    /// A display with no pixel lit.
    pub fn new() -> (display: Self)
        ensures
            display@ == Set::<(int, int)>::empty(),
    {
        let mut display = Self { pixels: [0;BYTE_COUNT] };
        display.clear();
        display
    }

    /// Turns every pixel off.
    pub fn clear(&mut self)
        ensures
            final(self)@ == Set::<(int, int)>::empty(),
    {
        let mut i: usize = 0;
        while i < BYTE_COUNT
            invariant
                i <= BYTE_COUNT,
                forall|j: int| 0 <= j < i ==> self.pixels@[j] == 0,
            decreases BYTE_COUNT - i,
        {
            self.pixels[i] = 0;
            i += 1;
        }
        proof {
            lemma_zero_frame_is_blank(self.pixels@);
        }
    }

    /// Lights pixel `(x, y)`. A coordinate off the canvas lights nothing and
    /// leaves the buffer as it is.
    pub fn set_pixel(&mut self, x: u8, y: u8)
        ensures
            x < 16 && y < 16 ==> final(self)@ == old(self)@.insert((x as int, y as int)),
            !(x < 16 && y < 16) ==> *final(self) == *old(self),
    {
        if x >= DISPLAY_SIZE as u8 || y >= DISPLAY_SIZE as u8 {
            return ;
        }
        let (byte_index, bit_in_byte): (usize, u8) = to_physical_location(x, y);
        let lit: u8 = self.pixels[byte_index] | (1u8 << bit_in_byte);
        self.pixels[byte_index] = lit;
        proof {
            let before = old(self).pixels@;
            let here = physical_bit(x as int, y as int);
            lemma_logical_of_physical(x as int, y as int);
            assert forall|p: (int, int)|
                self@.contains(p) <==> old(self)@.insert((x as int, y as int)).contains(p) by {
                if on_canvas(p.0, p.1) {
                    let bit = physical_bit(p.0, p.1);
                    lemma_logical_of_physical(p.0, p.1);
                    if bit / 8 == byte_index {
                        lemma_or_bit(before[bit / 8], bit_in_byte, (bit % 8) as u8);
                        assert(bit % 8 == bit_in_byte <==> bit == here);
                    }
                    assert(bit == here <==> p == (x as int, y as int));
                }
            }
            assert(self@ =~= old(self)@.insert((x as int, y as int)));
        }
    }

    /// Copies the packed frame into `buffer`, ready to be shifted out.
    pub fn to_output_buffer(&self, buffer: &mut [u8; BYTE_COUNT])
        ensures
            decode_frame(final(buffer)@) == self@,
    {
        *buffer = self.pixels;
    }
}

/// A display holds nothing but its pixels: two displays that light the same
/// pixels are the same.
pub proof fn lemma_display_is_its_pixels(a: ObegraensadDisplay, b: ObegraensadDisplay)
    requires
        a@ == b@,
    ensures
        a == b,
{
    lemma_decode_frame_injective(a.pixels@, b.pixels@);
    assert(a.pixels =~= b.pixels);
}

} // verus!
