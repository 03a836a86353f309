use obegraensad::animation::Animation;
use obegraensad::animation_drops::{
    Drop, DropAnimation, DROPS_FRAME_MILLIS, DROPS_SEED, MAX_DROPS, RETIRED_RADIUS,
};
use obegraensad::display::{ObegraensadDisplay, BYTE_COUNT};
use obegraensad::wiring::PIXEL_TO_BIT;
use rand::{RngCore, SeedableRng};
use rand_xoshiro::Xoroshiro128StarStar;

type Grid = [[bool; 16]; 16];

fn grid_of_display(display: &ObegraensadDisplay) -> Grid {
    let mut buffer = [0u8; BYTE_COUNT];
    display.to_output_buffer(&mut buffer);
    let mut grid = [[false; 16]; 16];
    for y in 0..16 {
        for x in 0..16 {
            let bit = PIXEL_TO_BIT[y * 16 + x] as usize;
            grid[y][x] = buffer[bit / 8] >> (bit % 8) & 1 == 1;
        }
    }
    grid
}

fn grid_of_pixels(pixels: &[(i32, i32)]) -> Grid {
    let mut grid = [[false; 16]; 16];
    for &(x, y) in pixels {
        if (0..16).contains(&x) && (0..16).contains(&y) {
            grid[y as usize][x as usize] = true;
        }
    }
    grid
}

fn lit_in_grid(grid: &Grid) -> usize {
    grid.iter().flatten().filter(|lit| **lit).count()
}

/// The offsets of the pixels of each ring from its centre.
fn ring_by_hand(radius: u8) -> Vec<(i32, i32)> {
    match radius {
        0 => vec![(0, 0)],
        1 => vec![(1, 0), (-1, 0), (0, 1), (0, -1)],
        2 => vec![
            (-1, 2), (0, 2), (1, 2), (-1, -2), (0, -2), (1, -2),
            (2, -1), (2, 0), (2, 1), (-2, -1), (-2, 0), (-2, 1),
        ],
        3 => vec![
            (-1, 3), (0, 3), (1, 3), (-1, -3), (0, -3), (1, -3),
            (3, -1), (3, 0), (3, 1), (-3, -1), (-3, 0), (-3, 1),
            (2, 2), (2, -2), (-2, 2), (-2, -2),
        ],
        4 => vec![
            (-2, 4), (-1, 4), (0, 4), (1, 4), (2, 4),
            (-2, -4), (-1, -4), (0, -4), (1, -4), (2, -4),
            (4, -2), (4, -1), (4, 0), (4, 1), (4, 2),
            (-4, -2), (-4, -1), (-4, 0), (-4, 1), (-4, 2),
            (3, 3), (3, -3), (-3, 3), (-3, -3),
        ],
        _ => vec![],
    }
}

fn ring_round(x: u8, y: u8, radius: u8) -> Grid {
    let pixels: Vec<(i32, i32)> = ring_by_hand(radius)
        .iter()
        .map(|&(dx, dy)| (x as i32 + dx, y as i32 + dy))
        .collect();
    grid_of_pixels(&pixels)
}

/// The drops, written out once more on their own, with the generator of the
/// library's dependency.
struct DropsByHand {
    rng: Xoroshiro128StarStar,
    drops: [(u8, u8, u8); 6],
}

impl DropsByHand {
    fn new() -> Self {
        DropsByHand {
            rng: Xoroshiro128StarStar::seed_from_u64(0xC063_7BB4_8326_CD62),
            drops: [(0, 0, 0xFF); 6],
        }
    }

    fn tick(&mut self) -> Grid {
        for drop in self.drops.iter_mut() {
            if drop.2 < 5 {
                drop.2 += 1;
            }
        }
        if self.rng.next_u32() & 1 == 0 {
            for drop in self.drops.iter_mut() {
                if drop.2 >= 5 {
                    let r = self.rng.next_u32();
                    *drop = ((r & 15) as u8, (r >> 4 & 15) as u8, 0);
                    break;
                }
            }
        }
        let mut grid = [[false; 16]; 16];
        for drop in self.drops.iter() {
            if drop.2 < 5 {
                let ring = ring_round(drop.0, drop.1, drop.2);
                for y in 0..16 {
                    for x in 0..16 {
                        grid[y][x] |= ring[y][x];
                    }
                }
            }
        }
        grid
    }
}

#[test]
fn drops_constants() {
    assert_eq!(MAX_DROPS, 6);
    assert_eq!(RETIRED_RADIUS, 5);
    assert_eq!(DROPS_SEED, 0xC063_7BB4_8326_CD62);
    assert_eq!(DROPS_FRAME_MILLIS, 100);
}

#[test]
fn new_drop_is_a_free_slot() {
    let drop = Drop::new();
    assert_eq!((drop.x, drop.y, drop.r), (0, 0, 0xFF));
    assert!(!drop.is_active());
}

#[test]
fn drop_is_active_below_the_retired_radius() {
    for r in 0..5u8 {
        assert!(Drop { x: 1, y: 2, r }.is_active());
    }
    for r in 5..=255u8 {
        assert!(!Drop { x: 1, y: 2, r }.is_active());
    }
}

#[test]
fn drop_init_takes_column_and_row_from_the_low_byte() {
    let mut drop = Drop::new();
    drop.init(0xA7);
    assert_eq!((drop.x, drop.y, drop.r), (7, 10, 0));
    drop.init(0xFFFF_FF00);
    assert_eq!((drop.x, drop.y, drop.r), (0, 0, 0));
    drop.init(0x1234_56F1);
    assert_eq!((drop.x, drop.y, drop.r), (1, 15, 0));
    assert!(drop.is_active());
}

#[test]
fn drop_retires_after_exactly_five_steps() {
    let mut drop = Drop::new();
    drop.init(0x3C);
    for tick in 1..=5u8 {
        assert!(drop.is_active());
        drop.step();
        assert_eq!((drop.x, drop.y, drop.r), (12, 3, tick));
    }
    assert!(!drop.is_active());
}

#[test]
fn drop_draws_each_ring_round_its_centre() {
    let counts = [1, 4, 12, 16, 24];
    for r in 0..5u8 {
        let mut display = ObegraensadDisplay::new();
        Drop { x: 8, y: 7, r }.draw(&mut display);
        let grid = grid_of_display(&display);
        assert_eq!(grid, ring_round(8, 7, r), "radius {r}");
        assert_eq!(lit_in_grid(&grid), counts[r as usize], "radius {r}");
    }
}

#[test]
fn drop_draws_the_cross_of_radius_1() {
    let mut display = ObegraensadDisplay::new();
    Drop { x: 4, y: 9, r: 1 }.draw(&mut display);
    assert_eq!(grid_of_display(&display), grid_of_pixels(&[(5, 9), (3, 9), (4, 10), (4, 8)]));
}

#[test]
fn drop_draws_every_ring_at_every_centre() {
    for r in 0..5u8 {
        for y in 0..16u8 {
            for x in 0..16u8 {
                let mut display = ObegraensadDisplay::new();
                Drop { x, y, r }.draw(&mut display);
                let expected = ring_round(x, y, r);
                assert_eq!(grid_of_display(&display), expected, "({x}, {y}), radius {r}");
            }
        }
    }
}

#[test]
fn drop_cuts_its_ring_off_at_the_corners() {
    let mut display = ObegraensadDisplay::new();
    Drop { x: 0, y: 0, r: 1 }.draw(&mut display);
    assert_eq!(grid_of_display(&display), grid_of_pixels(&[(1, 0), (0, 1)]));

    let mut display = ObegraensadDisplay::new();
    Drop { x: 15, y: 15, r: 2 }.draw(&mut display);
    assert_eq!(
        grid_of_display(&display),
        grid_of_pixels(&[(14, 13), (15, 13), (13, 14), (13, 15)])
    );

    let mut display = ObegraensadDisplay::new();
    Drop { x: 0, y: 15, r: 4 }.draw(&mut display);
    assert_eq!(
        grid_of_display(&display),
        grid_of_pixels(&[(0, 11), (1, 11), (2, 11), (3, 12), (4, 13), (4, 14), (4, 15)])
    );
}

#[test]
fn drop_past_its_last_ring_draws_nothing() {
    for r in 5..=255u8 {
        let mut display = ObegraensadDisplay::new();
        Drop { x: 8, y: 8, r }.draw(&mut display);
        assert_eq!(lit_in_grid(&grid_of_display(&display)), 0);
    }
}

#[test]
fn drop_draws_over_what_is_lit() {
    let mut display = ObegraensadDisplay::new();
    display.set_pixel(0, 0);
    display.set_pixel(8, 8);
    Drop { x: 8, y: 8, r: 1 }.draw(&mut display);
    assert_eq!(
        grid_of_display(&display),
        grid_of_pixels(&[(0, 0), (8, 8), (9, 8), (7, 8), (8, 9), (8, 7)])
    );
}

#[test]
fn drop_animation_starts_with_no_drop() {
    let animation = DropAnimation::new();
    assert_eq!(animation.active_count(), 0);
}

#[test]
fn drop_animation_shows_each_frame_for_100_ms() {
    let mut animation = DropAnimation::new();
    let mut display = ObegraensadDisplay::new();
    for _ in 0..20 {
        let duration = animation.render_frame(&mut display);
        assert_eq!(duration.ticks(), 100_000);
        assert_eq!(duration.to_millis(), 100);
    }
}

#[test]
fn drop_animation_first_tick_lights_at_most_one_pixel() {
    let mut animation = DropAnimation::new();
    let mut display = ObegraensadDisplay::new();
    display.set_pixel(1, 1);
    animation.render_frame(&mut display);
    let grid = grid_of_display(&display);

    let mut rng = Xoroshiro128StarStar::seed_from_u64(DROPS_SEED);
    if rng.next_u32() & 1 == 0 {
        let r = rng.next_u32();
        assert_eq!(grid, grid_of_pixels(&[((r & 15) as i32, (r >> 4 & 15) as i32)]));
        assert_eq!(animation.active_count(), 1);
    } else {
        assert_eq!(lit_in_grid(&grid), 0);
        assert_eq!(animation.active_count(), 0);
    }
}

#[test]
fn drop_animation_follows_the_generator() {
    let mut animation = DropAnimation::new();
    let mut display = ObegraensadDisplay::new();
    let mut by_hand = DropsByHand::new();
    let mut lit = 0;
    for tick in 0..500 {
        animation.render_frame(&mut display);
        let expected = by_hand.tick();
        assert_eq!(grid_of_display(&display), expected, "tick {tick}");
        let spreading = by_hand.drops.iter().filter(|drop| drop.2 < 5).count();
        assert_eq!(animation.active_count(), spreading, "tick {tick}");
        lit += lit_in_grid(&expected);
    }
    assert!(lit > 1000);
}

#[test]
fn drop_animation_is_deterministic() {
    let mut first = DropAnimation::new();
    let mut second = DropAnimation::new();
    let mut first_display = ObegraensadDisplay::new();
    let mut second_display = ObegraensadDisplay::new();
    for y in 0..16 {
        second_display.set_pixel(y, y);
    }
    for tick in 0..300 {
        first.render_frame(&mut first_display);
        second.render_frame(&mut second_display);
        let mut first_buffer = [0u8; BYTE_COUNT];
        let mut second_buffer = [0u8; BYTE_COUNT];
        first_display.to_output_buffer(&mut first_buffer);
        second_display.to_output_buffer(&mut second_buffer);
        assert_eq!(first_buffer, second_buffer, "tick {tick}");
    }
}

#[test]
fn drop_animation_never_holds_more_than_six_drops() {
    let mut animation = DropAnimation::new();
    let mut display = ObegraensadDisplay::new();
    let mut most = 0;
    for _ in 0..2000 {
        animation.render_frame(&mut display);
        let active = animation.active_count();
        assert!(active <= MAX_DROPS);
        assert!(lit_in_grid(&grid_of_display(&display)) <= 24 * active);
        most = most.max(active);
    }
    assert!(most >= 3);
}
