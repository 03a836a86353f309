use crate::display::{decode_frame, ObegraensadDisplay, BYTE_COUNT};
use crate::duration::{duration_from_micros, duration_ticks};
use fugit::MicrosDurationU32;
use vstd::prelude::*;

verus! {

/// Number of layers that one refresh of the display shows in turn.
pub const LAYER_COUNT: usize = 3;

/// Number of bytes of a layer buffer: one serialized frame for each layer.
pub const LAYER_BYTE_COUNT: usize = LAYER_COUNT * BYTE_COUNT;

/// The time that one refresh of the display takes, in microseconds.
pub const REFRESH_PERIOD_MICROS: u32 = 500;

/// For how many microseconds each layer is shown. The values are calibrated
/// to the display, not powers of two.
pub const LAYER_MICROS: [u32; LAYER_COUNT] = [289, 48, 163];

/// The time that the first `n` layers are shown for, in microseconds.
pub open spec fn layers_micros(n: int) -> int
    decreases n,
{
    if n <= 0 {
        0
    } else {
        layers_micros(n - 1) + LAYER_MICROS[n - 1]
    }
}

/// The layer that is shown after layer `layer`.
pub open spec fn layer_after(layer: int) -> int {
    if layer + 1 >= LAYER_COUNT {
        0
    } else {
        layer + 1
    }
}

/// The layers of one refresh are shown for exactly the refresh period, taken
/// together, and so are any `LAYER_COUNT` layers that follow one another.
pub proof fn lemma_layers_fill_refresh_period()
    ensures
        layers_micros(LAYER_COUNT as int) == REFRESH_PERIOD_MICROS,
        forall|layer: int|
            0 <= layer < LAYER_COUNT ==> LAYER_MICROS[layer] + LAYER_MICROS[#[trigger] layer_after(
                layer,
            )] + LAYER_MICROS[layer_after(layer_after(layer))] == REFRESH_PERIOD_MICROS,
{
    reveal_with_fuel(layers_micros, 4);
}

/// The serialized frame of layer `layer` in the bytes of a layer buffer.
pub open spec fn layer_bytes(bytes: Seq<u8>, layer: int) -> Seq<u8> {
    bytes.subrange(32 * layer, 32 * layer + 32)
}

/// The frames of the layers of one refresh, each serialized as the
/// shift-register chain takes it, one after the other.
pub struct LayerBuffer {
    bytes: [u8; LAYER_BYTE_COUNT],
}

impl View for LayerBuffer {
    type V = Seq<Set<(int, int)>>;

    /// For each layer, the pixels that are lit in it.
    closed spec fn view(&self) -> Seq<Set<(int, int)>> {
        Seq::new(
            LAYER_COUNT as nat,
            |layer: int| decode_frame(layer_bytes(self.bytes@, layer)),
        )
    }
}

impl LayerBuffer {
    /// A layer buffer with no pixel lit in any layer.
    pub fn new() -> (layers: Self)
        ensures
            layers@ == Seq::new(LAYER_COUNT as nat, |layer: int| Set::<(int, int)>::empty()),
    {
        let mut layers = Self { bytes: [0;LAYER_BYTE_COUNT] };
        let blank = ObegraensadDisplay::new();
        blank.project_to_layers(&mut layers);
        layers
    }

    /// Writes the serialized frame `frame` to layer `layer`.
    pub fn set_slice(&mut self, layer: usize, frame: &[u8; BYTE_COUNT])
        requires
            layer < LAYER_COUNT,
        ensures
            final(self)@ == old(self)@.update(layer as int, decode_frame(frame@)),
    {
        let base: usize = layer * BYTE_COUNT;
        let mut i: usize = 0;
        while i < BYTE_COUNT
            invariant
                i <= BYTE_COUNT,
                base == 32 * layer,
                layer < LAYER_COUNT,
                forall|j: int| 0 <= j < i ==> self.bytes@[base + j] == frame@[j],
                forall|j: int|
                    0 <= j < LAYER_BYTE_COUNT && !(base <= j < base + 32) ==> self.bytes@[j] == old(
                        self,
                    ).bytes@[j],
            decreases BYTE_COUNT - i,
        {
            self.bytes[base + i] = frame[i];
            i += 1;
        }
        proof {
            assert(layer_bytes(self.bytes@, layer as int) =~= frame@);
            assert forall|other: int|
                0 <= other < LAYER_COUNT && other != layer implies #[trigger] layer_bytes(
                self.bytes@,
                other,
            ) == layer_bytes(old(self).bytes@, other) by {
                assert(layer_bytes(self.bytes@, other) =~= layer_bytes(old(self).bytes@, other));
            }
            assert(self@ =~= old(self)@.update(layer as int, decode_frame(frame@)));
        }
    }

    /// Copies the serialized frame of layer `layer` into `buffer`, ready to
    /// be shifted out.
    pub fn slice_to_output_buffer(&self, layer: usize, buffer: &mut [u8; BYTE_COUNT])
        requires
            layer < LAYER_COUNT,
        ensures
            decode_frame(final(buffer)@) == self@[layer as int],
    {
        let base: usize = layer * BYTE_COUNT;
        let mut i: usize = 0;
        while i < BYTE_COUNT
            invariant
                i <= BYTE_COUNT,
                base == 32 * layer,
                layer < LAYER_COUNT,
                forall|j: int| 0 <= j < i ==> buffer@[j] == self.bytes@[base + j],
            decreases BYTE_COUNT - i,
        {
            buffer[i] = self.bytes[base + i];
            i += 1;
        }
        proof {
            assert(buffer@ =~= layer_bytes(self.bytes@, layer as int));
        }
    }
}

impl ObegraensadDisplay {
    /// Spreads the canvas over the layers of `layers`. The canvas holds one
    /// bit for each pixel, so a lit pixel is shown at full brightness: it is
    /// lit in every layer, and a dark pixel in none.
    pub fn project_to_layers(&self, layers: &mut LayerBuffer)
        ensures
            final(layers)@ == Seq::new(LAYER_COUNT as nat, |layer: int| self@),
    {
        let mut frame = [0u8;BYTE_COUNT];
        self.to_output_buffer(&mut frame);
        let mut layer: usize = 0;
        while layer < LAYER_COUNT
            invariant
                layer <= LAYER_COUNT,
                decode_frame(frame@) == self@,
                layers@.len() == LAYER_COUNT,
                forall|done: int| 0 <= done < layer ==> layers@[done] == self@,
            decreases LAYER_COUNT - layer,
        {
            layers.set_slice(layer, &frame);
            layer += 1;
        }
        proof {
            assert(layers@ =~= Seq::new(LAYER_COUNT as nat, |layer: int| self@));
        }
    }
}

/// The layer that the display shows, of the layers of one refresh. The
/// layers follow one another in a ring.
pub struct LayerCycle {
    layer: usize,
}

impl View for LayerCycle {
    type V = int;

    /// The number of the layer that is shown.
    closed spec fn view(&self) -> int {
        self.layer as int
    }
}

impl LayerCycle {
    /// Whether the layer that is shown is one of the `LAYER_COUNT` layers.
    pub open spec fn wf(&self) -> bool {
        0 <= self@ < LAYER_COUNT
    }

    /// A cycle that shows the last layer, so that the first step goes to
    /// layer 0.
    pub fn new() -> (cycle: Self)
        ensures
            cycle.wf(),
            cycle@ == LAYER_COUNT - 1,
    {
        Self { layer: LAYER_COUNT - 1 }
    }

    /// To be called when the layer timer has fired. Goes on to the next
    /// layer and returns its number, for the slice that is to be
    /// transmitted, and the duration for which the timer is to run again:
    /// that of this layer.
    pub fn next_layer(&mut self) -> (slice: (usize, MicrosDurationU32))
        requires
            old(self).wf(),
        ensures
            final(self).wf(),
            final(self)@ == layer_after(old(self)@),
            slice.0 == final(self)@,
            duration_ticks(slice.1) == LAYER_MICROS[final(self)@],
    {
        self.layer = if self.layer + 1 >= LAYER_COUNT {
            0
        } else {
            self.layer + 1
        };
        (self.layer, duration_from_micros(LAYER_MICROS[self.layer]))
    }
}

} // verus!
