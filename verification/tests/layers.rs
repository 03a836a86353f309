use obegraensad::display::{ObegraensadDisplay, BYTE_COUNT};
use obegraensad::layers::{
    LayerBuffer, LayerCycle, LAYER_BYTE_COUNT, LAYER_COUNT, LAYER_MICROS, REFRESH_PERIOD_MICROS,
};

fn slice_of(layers: &LayerBuffer, layer: usize) -> [u8; BYTE_COUNT] {
    let mut buffer = [0x5Au8; BYTE_COUNT];
    layers.slice_to_output_buffer(layer, &mut buffer);
    buffer
}

#[test]
fn layer_durations_sum_to_the_refresh_period() {
    assert_eq!(LAYER_COUNT, 3);
    assert_eq!(LAYER_MICROS, [289, 48, 163]);
    assert_eq!(REFRESH_PERIOD_MICROS, 500);
    assert_eq!(LAYER_MICROS.iter().sum::<u32>(), REFRESH_PERIOD_MICROS);
}

#[test]
fn layer_buffer_holds_one_frame_for_each_layer() {
    assert_eq!(LAYER_BYTE_COUNT, LAYER_COUNT * BYTE_COUNT);
    assert_eq!(LAYER_BYTE_COUNT, 96);
}

#[test]
fn new_layer_buffer_is_blank() {
    let layers = LayerBuffer::new();
    for layer in 0..LAYER_COUNT {
        assert_eq!(slice_of(&layers, layer), [0u8; BYTE_COUNT]);
    }
}

#[test]
fn set_slice_writes_one_layer_only() {
    let mut layers = LayerBuffer::new();
    let mut frame = [0u8; BYTE_COUNT];
    for (i, byte) in frame.iter_mut().enumerate() {
        *byte = 3 * i as u8 + 1;
    }
    layers.set_slice(1, &frame);
    assert_eq!(slice_of(&layers, 0), [0u8; BYTE_COUNT]);
    assert_eq!(slice_of(&layers, 1), frame);
    assert_eq!(slice_of(&layers, 2), [0u8; BYTE_COUNT]);

    layers.set_slice(2, &[0xFF; BYTE_COUNT]);
    layers.set_slice(0, &[0x0F; BYTE_COUNT]);
    assert_eq!(slice_of(&layers, 0), [0x0F; BYTE_COUNT]);
    assert_eq!(slice_of(&layers, 1), frame);
    assert_eq!(slice_of(&layers, 2), [0xFF; BYTE_COUNT]);
}

#[test]
fn project_to_layers_lights_a_pixel_in_every_layer() {
    let mut display = ObegraensadDisplay::new();
    display.set_pixel(0, 0);
    display.set_pixel(9, 13);
    let mut frame = [0u8; BYTE_COUNT];
    display.to_output_buffer(&mut frame);
    assert_ne!(frame, [0u8; BYTE_COUNT]);

    let mut layers = LayerBuffer::new();
    layers.set_slice(1, &[0xFF; BYTE_COUNT]);
    display.project_to_layers(&mut layers);
    for layer in 0..LAYER_COUNT {
        assert_eq!(slice_of(&layers, layer), frame);
    }
}

#[test]
fn layer_cycle_goes_round_the_layers() {
    let mut cycle = LayerCycle::new();
    for round in 0..4 {
        for expected in 0..LAYER_COUNT {
            let (layer, duration) = cycle.next_layer();
            assert_eq!(layer, expected, "round {round}");
            assert_eq!(duration.ticks(), LAYER_MICROS[expected]);
        }
    }
}

#[test]
fn layer_cycle_schedules_one_refresh_period_in_any_three_steps() {
    let mut cycle = LayerCycle::new();
    let mut durations = Vec::new();
    for _ in 0..12 {
        durations.push(cycle.next_layer().1.ticks());
    }
    assert_eq!(&durations[..3], &[289, 48, 163]);
    for window in durations.windows(LAYER_COUNT) {
        assert_eq!(window.iter().sum::<u32>(), 500);
    }
}
