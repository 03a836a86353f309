use obegraensad::animation::Animation;
use obegraensad::animation_leaves::{
    spawn_number, FallingLeaves, Leaf, LEAVES_FRAME_MILLIS, LEAVES_SEED, MAX_LEAVES, X_INCR,
};
use obegraensad::display::{ObegraensadDisplay, BYTE_COUNT};
use obegraensad::wiring::PIXEL_TO_BIT;
use rand::{RngCore, SeedableRng};
use rand_xoshiro::Xoshiro128StarStar;

type Canvas = [[bool; 16]; 16];

fn canvas_of_leaves_display(display: &ObegraensadDisplay) -> Canvas {
    let mut buffer = [0u8; BYTE_COUNT];
    display.to_output_buffer(&mut buffer);
    let mut canvas = [[false; 16]; 16];
    for y in 0..16 {
        for x in 0..16 {
            let bit = PIXEL_TO_BIT[y * 16 + x] as usize;
            canvas[y][x] = buffer[bit / 8] >> (bit % 8) & 1 == 1;
        }
    }
    canvas
}

fn lit_in(canvas: &Canvas) -> usize {
    canvas.iter().flatten().filter(|lit| **lit).count()
}

/// The falling leaves, written out once more on their own, with the
/// generator of the library's dependency.
struct LeavesByHand {
    rng: Xoshiro128StarStar,
    leaves: [(u8, u8); 10],
    x_prev_frame: Option<u8>,
    /// How often a leaf was due and no slot was free.
    turned_away: u32,
}

impl LeavesByHand {
    fn new() -> Self {
        LeavesByHand {
            rng: Xoshiro128StarStar::seed_from_u64(0x4C13_D8C5_DF23_A2D7),
            leaves: [(0, 0xFF); 10],
            x_prev_frame: Some(7),
            turned_away: 0,
        }
    }

    fn tick(&mut self) -> Canvas {
        let mut canvas = [[false; 16]; 16];
        for leaf in self.leaves.iter_mut() {
            if leaf.1 < 16 {
                match self.rng.next_u32() & 7 {
                    0..=4 => leaf.0 = (leaf.0 + 1) % 16,
                    5 => leaf.0 = (leaf.0 + 15) % 16,
                    _ => {}
                }
                leaf.1 += 1;
                if leaf.1 < 16 {
                    canvas[leaf.1 as usize][leaf.0 as usize] = true;
                }
            }
        }
        if self.rng.next_u32() & 1 == 0 {
            if self.leaves.iter().all(|leaf| leaf.1 < 16) {
                self.turned_away += 1;
            }
            for leaf in self.leaves.iter_mut() {
                if leaf.1 >= 16 {
                    let r = match self.x_prev_frame {
                        None => self.rng.next_u32(),
                        Some(x) => x as u32 + 5 + (self.rng.next_u32() & 7),
                    };
                    *leaf = ((r & 15) as u8, 0);
                    self.x_prev_frame = Some(leaf.0);
                    canvas[0][leaf.0 as usize] = true;
                    break;
                }
            }
        } else {
            self.x_prev_frame = None;
        }
        canvas
    }
}

#[test]
fn leaves_constants() {
    assert_eq!(MAX_LEAVES, 10);
    assert_eq!(X_INCR, 5);
    assert_eq!(LEAVES_SEED, 0x4C13_D8C5_DF23_A2D7);
    assert_eq!(LEAVES_FRAME_MILLIS, 400);
}

#[test]
fn new_leaf_is_a_free_slot() {
    let leaf = Leaf::new();
    assert_eq!((leaf.x, leaf.y), (0, 0xFF));
    assert!(!leaf.is_active());
}

#[test]
fn leaf_is_active_while_on_the_canvas() {
    assert!(Leaf { x: 3, y: 0 }.is_active());
    assert!(Leaf { x: 3, y: 15 }.is_active());
    assert!(!Leaf { x: 3, y: 16 }.is_active());
    assert!(!Leaf { x: 3, y: 255 }.is_active());
}

#[test]
fn leaf_init_takes_the_column_from_the_low_four_bits() {
    let mut leaf = Leaf::new();
    leaf.init(0x1234_5678);
    assert_eq!((leaf.x, leaf.y), (8, 0));
    leaf.init(0xFFFF_FFFF);
    assert_eq!((leaf.x, leaf.y), (15, 0));
    leaf.init(0x10);
    assert_eq!((leaf.x, leaf.y), (0, 0));
    assert!(leaf.is_active());
}

#[test]
fn leaf_step_drifts_by_the_low_three_bits() {
    let expected: [u8; 8] = [8, 8, 8, 8, 8, 6, 7, 7];
    for r in 0..8u32 {
        let mut leaf = Leaf { x: 7, y: 2 };
        leaf.step(r);
        assert_eq!((leaf.x, leaf.y), (expected[r as usize], 3), "r = {r}");
        let mut high = Leaf { x: 7, y: 2 };
        high.step(r | 0xFFFF_FFF8);
        assert_eq!((high.x, high.y), (expected[r as usize], 3), "r = {r}");
    }
}

#[test]
fn leaf_step_wraps_round_the_canvas() {
    let mut right = Leaf { x: 15, y: 0 };
    right.step(0);
    assert_eq!((right.x, right.y), (0, 1));
    let mut left = Leaf { x: 0, y: 0 };
    left.step(5);
    assert_eq!((left.x, left.y), (15, 1));
    let mut still = Leaf { x: 0, y: 14 };
    still.step(6);
    assert_eq!((still.x, still.y), (0, 15));
}

#[test]
fn leaf_retires_after_exactly_sixteen_steps() {
    let mut rng = Xoshiro128StarStar::seed_from_u64(1);
    for start in 0..64u32 {
        let mut leaf = Leaf::new();
        leaf.init(start);
        for tick in 1..=16u8 {
            assert!(leaf.is_active());
            leaf.step(rng.next_u32());
            assert_eq!(leaf.y, tick);
            assert!(leaf.x < 16);
        }
        assert_eq!(leaf.y, 16);
        assert!(!leaf.is_active());
    }
}

#[test]
fn spawn_number_after_a_tick_without_a_spawn_is_the_draw() {
    assert_eq!(spawn_number(None, 0), 0);
    assert_eq!(spawn_number(None, 0xDEAD_BEEF), 0xDEAD_BEEF);
}

#[test]
fn spawn_number_after_a_spawn_keeps_its_distance() {
    assert_eq!(spawn_number(Some(7), 0), 12);
    assert_eq!(spawn_number(Some(7), 7), 19);
    assert_eq!(spawn_number(Some(7), 8), 12);
    assert_eq!(spawn_number(Some(15), 0xFFFF_FFFF), 27);
    assert_eq!(spawn_number(Some(0), 0xFFFF_FFF3), 8);
    assert_eq!(spawn_number(Some(255), 0xFFFF_FFFF), 267);
}

#[test]
fn falling_leaves_start_with_no_leaf() {
    let animation = FallingLeaves::new();
    assert_eq!(animation.active_count(), 0);
}

#[test]
fn falling_leaves_show_each_frame_for_400_ms() {
    let mut animation = FallingLeaves::new();
    let mut display = ObegraensadDisplay::new();
    for _ in 0..20 {
        let duration = animation.render_frame(&mut display);
        assert_eq!(duration.ticks(), 400_000);
        assert_eq!(duration.to_millis(), 400);
    }
}

#[test]
fn falling_leaves_first_tick_lights_at_most_one_pixel_of_row_0() {
    let mut animation = FallingLeaves::new();
    let mut display = ObegraensadDisplay::new();
    display.set_pixel(9, 9);
    animation.render_frame(&mut display);
    let canvas = canvas_of_leaves_display(&display);
    let in_row_0 = canvas[0].iter().filter(|lit| **lit).count();
    assert!(in_row_0 <= 1);
    assert_eq!(lit_in(&canvas), in_row_0);
    assert_eq!(animation.active_count(), in_row_0);

    let mut rng = Xoshiro128StarStar::seed_from_u64(LEAVES_SEED);
    if rng.next_u32() & 1 == 0 {
        let column = (7 + 5 + (rng.next_u32() & 7)) % 16;
        assert_eq!(in_row_0, 1);
        assert!(canvas[0][column as usize]);
    } else {
        assert_eq!(in_row_0, 0);
    }
}

#[test]
fn falling_leaves_follow_the_generator() {
    let mut animation = FallingLeaves::new();
    let mut display = ObegraensadDisplay::new();
    let mut by_hand = LeavesByHand::new();
    let mut spawned = 0;
    for tick in 0..500 {
        animation.render_frame(&mut display);
        let expected = by_hand.tick();
        assert_eq!(canvas_of_leaves_display(&display), expected, "tick {tick}");
        let on_canvas = by_hand.leaves.iter().filter(|leaf| leaf.1 < 16).count();
        assert_eq!(animation.active_count(), on_canvas, "tick {tick}");
        spawned += expected[0].iter().filter(|lit| **lit).count();
    }
    assert!(spawned > 100);
}

#[test]
fn falling_leaves_spawn_none_while_the_pool_is_full() {
    let mut animation = FallingLeaves::new();
    let mut display = ObegraensadDisplay::new();
    let mut by_hand = LeavesByHand::new();
    for tick in 0..20_000 {
        animation.render_frame(&mut display);
        let turned_away = by_hand.turned_away;
        let expected = by_hand.tick();
        if by_hand.turned_away > turned_away {
            assert_eq!(animation.active_count(), MAX_LEAVES, "tick {tick}");
            assert!(expected[0].iter().all(|lit| !*lit), "tick {tick}");
        }
        assert_eq!(canvas_of_leaves_display(&display), expected, "tick {tick}");
    }
    assert!(by_hand.turned_away > 0);
}

#[test]
fn falling_leaves_repaint_the_whole_display() {
    let mut fresh = FallingLeaves::new();
    let mut used = FallingLeaves::new();
    let mut blank = ObegraensadDisplay::new();
    let mut full = ObegraensadDisplay::new();
    for _ in 0..40 {
        for y in 0..16 {
            for x in 0..16 {
                full.set_pixel(x, y);
            }
        }
        fresh.render_frame(&mut blank);
        used.render_frame(&mut full);
        assert_eq!(canvas_of_leaves_display(&blank), canvas_of_leaves_display(&full));
    }
}

#[test]
fn falling_leaves_are_deterministic() {
    let mut first = FallingLeaves::new();
    let mut second = FallingLeaves::new();
    let mut first_display = ObegraensadDisplay::new();
    let mut second_display = ObegraensadDisplay::new();
    for tick in 0..300 {
        first.render_frame(&mut first_display);
        second.render_frame(&mut second_display);
        let mut first_buffer = [0u8; BYTE_COUNT];
        let mut second_buffer = [0u8; BYTE_COUNT];
        first_display.to_output_buffer(&mut first_buffer);
        second_display.to_output_buffer(&mut second_buffer);
        assert_eq!(first_buffer, second_buffer, "tick {tick}");
    }
}

#[test]
fn falling_leaves_never_hold_more_than_ten_leaves() {
    let mut animation = FallingLeaves::new();
    let mut display = ObegraensadDisplay::new();
    let mut most = 0;
    for _ in 0..2000 {
        animation.render_frame(&mut display);
        let active = animation.active_count();
        assert!(active <= MAX_LEAVES);
        assert!(lit_in(&canvas_of_leaves_display(&display)) <= active);
        most = most.max(active);
    }
    assert!(most >= 5);
}

#[test]
fn falling_leaves_fall_one_row_in_each_frame() {
    let mut animation = FallingLeaves::new();
    let mut display = ObegraensadDisplay::new();
    animation.render_frame(&mut display);
    let mut before = canvas_of_leaves_display(&display);
    for tick in 0..300 {
        animation.render_frame(&mut display);
        let after = canvas_of_leaves_display(&display);
        for y in 1..16 {
            let above = before[y - 1].iter().filter(|lit| **lit).count();
            let here = after[y].iter().filter(|lit| **lit).count();
            assert!(here <= above, "tick {tick}, row {y}");
            if above > 0 {
                assert!(here > 0, "tick {tick}, row {y}");
            }
        }
        assert!(after[0].iter().filter(|lit| **lit).count() <= 1);
        before = after;
    }
}

#[test]
fn falling_leaves_first_leaf_drifts_one_column_at_most_and_stays_on_the_canvas() {
    let mut animation = FallingLeaves::new();
    let mut display = ObegraensadDisplay::new();

    // The first leaf of all is the lowest one on the canvas until it leaves.
    let mut canvas = [[false; 16]; 16];
    while lit_in(&canvas) == 0 {
        animation.render_frame(&mut display);
        canvas = canvas_of_leaves_display(&display);
    }
    let mut column = canvas[0].iter().position(|lit| *lit).unwrap();
    assert_eq!(lit_in(&canvas), 1);

    for row in 1..16 {
        animation.render_frame(&mut display);
        canvas = canvas_of_leaves_display(&display);
        let in_row: Vec<usize> = (0..16).filter(|x| canvas[row][*x]).collect();
        assert_eq!(in_row.len(), 1, "row {row}");
        let drift = (in_row[0] + 16 - column) % 16;
        assert!(drift == 0 || drift == 1 || drift == 15, "row {row}");
        for below in row + 1..16 {
            assert!(canvas[below].iter().all(|lit| !*lit), "row {row}");
        }
        column = in_row[0];
    }

    // The sixteenth tick takes it off the canvas.
    let before = animation.active_count();
    animation.render_frame(&mut display);
    canvas = canvas_of_leaves_display(&display);
    assert!(animation.active_count() <= before);
    assert!(canvas[15].iter().filter(|lit| **lit).count() <= 1);
}
