use crate::animation::Animation;
use crate::display::{lemma_display_is_its_pixels, ObegraensadDisplay};
use crate::duration::duration_from_millis;
use crate::pool::{active_before, first_free, lemma_active_bound, lemma_first_free, Slot};
use crate::rng::{
    xoroshiro128_after, xoroshiro128_draw, xoroshiro128_from_seed, xoroshiro128_next_u32,
    xoroshiro128_seeded, xoroshiro128_state,
};
use crate::wiring::on_canvas;
use fugit::MicrosDurationU32;
use rand_xoshiro::Xoroshiro128StarStar;
use vstd::prelude::*;

verus! {

/// Number of drops that can spread at the same time.
pub const MAX_DROPS: usize = 6;

/// For how many milliseconds each frame of the drops is shown.
pub const DROPS_FRAME_MILLIS: u32 = 100;

/// The seed of the generator behind the drops.
pub const DROPS_SEED: u64 = 0xC063_7BB4_8326_CD62;

/// The radius at which a drop has spread out and gives up its slot.
pub const RETIRED_RADIUS: u8 = 5;

/// One slot of the pool: a ring of radius `r` round pixel `(x, y)`. The slot
/// is free once the ring has reached `RETIRED_RADIUS`.
#[derive(Clone, Copy)]
pub struct Drop {
    pub x: u8,
    pub y: u8,
    pub r: u8,
}

/// The distance of `v` from zero.
pub open spec fn distance(v: int) -> int {
    if v < 0 {
        -v
    } else {
        v
    }
}

/// Whether the ring of radius `radius` holds the pixel that lies `dx`
/// columns and `dy` rows from its centre.
///
/// The ring is the same in all eight octants. It holds the pixels whose
/// greater distance from the centre is the radius and whose lesser distance
/// is at most half of it; from radius 3 on it also holds the four pixels on
/// the diagonals that lie one step inside. No ring is drawn past radius 4.
pub open spec fn on_ring(radius: int, dx: int, dy: int) -> bool {
    let a = distance(dx);
    let b = distance(dy);
    let far = if a >= b { a } else { b };
    let near = if a >= b { b } else { a };
    0 <= radius <= 4 && ((far == radius && near <= radius / 2) || (radius >= 3 && a == radius - 1
        && b == radius - 1))
}

/// The pixels of the canvas that a drop lights.
pub open spec fn ring_pixels(drop: Drop) -> Set<(int, int)> {
    Set::new(
        |p: (int, int)|
            on_canvas(p.0, p.1) && on_ring(drop.r as int, p.0 - drop.x, p.1 - drop.y),
    )
}

proof fn lemma_low_bits(r: u32)
    by (bit_vector)
    ensures
        r & 0xF == r % 16,
        (r >> 4) & 0xF == (r / 16) % 16,
        r & 0b1 == r % 2,
{
}

impl Slot for Drop {
    /// Whether the ring is still spreading.
    open spec fn active(&self) -> bool {
        self.r < RETIRED_RADIUS
    }
}

impl Drop {
    /// The drop that the number `r` spawns: a ring of radius 0, at the
    /// column that the low four bits of `r` give and the row that the next
    /// four bits give.
    pub open spec fn spawned(r: u32) -> Drop {
        Drop { x: (r % 16) as u8, y: ((r / 16) % 16) as u8, r: 0 }
    }

    /// The drop one tick later: its ring is wider by one.
    pub open spec fn stepped(self) -> Drop {
        Drop { x: self.x, y: self.y, r: (self.r + 1) as u8 }
    }

    /// A free slot.
    pub fn new() -> (drop: Self)
        ensures
            drop == (Drop { x: 0, y: 0, r: 0xFF }),
    {
        Self { x: 0, y: 0, r: 0xFF }
    }

    /// Whether the ring is still spreading.
    pub fn is_active(&self) -> (active: bool)
        ensures
            active == self.active(),
    {
        self.r < RETIRED_RADIUS
    }

    /// Starts a ring of radius 0 at the pixel that `r` gives.
    pub fn init(&mut self, r: u32)
        ensures
            *final(self) == Drop::spawned(r),
    {
        proof {
            lemma_low_bits(r);
        }
        self.x = (r & 0xF) as u8;
        self.y = ((r >> 4) & 0xF) as u8;
        self.r = 0;
    }

    /// Widens the ring by one.
    pub fn step(&mut self)
        requires
            old(self).active(),
        ensures
            *final(self) == old(self).stepped(),
    {
        self.r += 1;
    }

    /// Lights the pixels of the ring that lie on the canvas. The rest of
    /// the ring is cut off.
    pub fn draw(&self, display: &mut ObegraensadDisplay)
        requires
            self.x < 16,
            self.y < 16,
        ensures
            final(display)@ == old(display)@.union(ring_pixels(*self)),
    {
        if self.r == 0 {
            display.set_pixel(self.x, self.y);
        } else if self.r == 1 {
            display.set_pixel(self.x + 1, self.y);
            display.set_pixel(self.x.wrapping_sub(1), self.y);
            display.set_pixel(self.x, self.y + 1);
            display.set_pixel(self.x, self.y.wrapping_sub(1));
        } else if self.r == 2 {
            display.set_pixel(self.x.wrapping_sub(1), self.y + 2);
            display.set_pixel(self.x, self.y + 2);
            display.set_pixel(self.x + 1, self.y + 2);
            display.set_pixel(self.x.wrapping_sub(1), self.y.wrapping_sub(2));
            display.set_pixel(self.x, self.y.wrapping_sub(2));
            display.set_pixel(self.x + 1, self.y.wrapping_sub(2));
            display.set_pixel(self.x + 2, self.y.wrapping_sub(1));
            display.set_pixel(self.x + 2, self.y);
            display.set_pixel(self.x + 2, self.y + 1);
            display.set_pixel(self.x.wrapping_sub(2), self.y.wrapping_sub(1));
            display.set_pixel(self.x.wrapping_sub(2), self.y);
            display.set_pixel(self.x.wrapping_sub(2), self.y + 1);
        } else if self.r == 3 {
            display.set_pixel(self.x.wrapping_sub(1), self.y + 3);
            display.set_pixel(self.x, self.y + 3);
            display.set_pixel(self.x + 1, self.y + 3);
            display.set_pixel(self.x.wrapping_sub(1), self.y.wrapping_sub(3));
            display.set_pixel(self.x, self.y.wrapping_sub(3));
            display.set_pixel(self.x + 1, self.y.wrapping_sub(3));
            display.set_pixel(self.x + 3, self.y.wrapping_sub(1));
            display.set_pixel(self.x + 3, self.y);
            display.set_pixel(self.x + 3, self.y + 1);
            display.set_pixel(self.x.wrapping_sub(3), self.y.wrapping_sub(1));
            display.set_pixel(self.x.wrapping_sub(3), self.y);
            display.set_pixel(self.x.wrapping_sub(3), self.y + 1);

            display.set_pixel(self.x + 2, self.y + 2);
            display.set_pixel(self.x + 2, self.y.wrapping_sub(2));
            display.set_pixel(self.x.wrapping_sub(2), self.y + 2);
            display.set_pixel(self.x.wrapping_sub(2), self.y.wrapping_sub(2));
        } else if self.r == 4 {
            display.set_pixel(self.x.wrapping_sub(2), self.y + 4);
            display.set_pixel(self.x.wrapping_sub(1), self.y + 4);
            display.set_pixel(self.x, self.y + 4);
            display.set_pixel(self.x + 1, self.y + 4);
            display.set_pixel(self.x + 2, self.y + 4);

            display.set_pixel(self.x.wrapping_sub(2), self.y.wrapping_sub(4));
            display.set_pixel(self.x.wrapping_sub(1), self.y.wrapping_sub(4));
            display.set_pixel(self.x, self.y.wrapping_sub(4));
            display.set_pixel(self.x + 1, self.y.wrapping_sub(4));
            display.set_pixel(self.x + 2, self.y.wrapping_sub(4));

            display.set_pixel(self.x + 4, self.y.wrapping_sub(2));
            display.set_pixel(self.x + 4, self.y.wrapping_sub(1));
            display.set_pixel(self.x + 4, self.y);
            display.set_pixel(self.x + 4, self.y + 1);
            display.set_pixel(self.x + 4, self.y + 2);

            display.set_pixel(self.x.wrapping_sub(4), self.y.wrapping_sub(2));
            display.set_pixel(self.x.wrapping_sub(4), self.y.wrapping_sub(1));
            display.set_pixel(self.x.wrapping_sub(4), self.y);
            display.set_pixel(self.x.wrapping_sub(4), self.y + 1);
            display.set_pixel(self.x.wrapping_sub(4), self.y + 2);

            display.set_pixel(self.x + 3, self.y + 3);
            display.set_pixel(self.x + 3, self.y.wrapping_sub(3));
            display.set_pixel(self.x.wrapping_sub(3), self.y + 3);
            display.set_pixel(self.x.wrapping_sub(3), self.y.wrapping_sub(3));
        }
        assert(display@ =~= old(display)@.union(ring_pixels(*self)));
    }
}

/// The drop after `ticks` ticks.
pub open spec fn widened_by(drop: Drop, ticks: nat) -> Drop
    decreases ticks,
{
    if ticks == 0 {
        drop
    } else {
        widened_by(drop, (ticks - 1) as nat).stepped()
    }
}

/// A drop that was spawned has a ring one wider with every tick. It spreads
/// for five ticks, at the radii 0 to 4, and retires with the fifth: at the
/// radius at which no ring is drawn any more. At every radius before that,
/// the ring holds the pixel that lies that far to the right of the centre.
pub proof fn lemma_drop_lifetime(r: u32, ticks: nat)
    requires
        ticks <= RETIRED_RADIUS,
    ensures
        widened_by(Drop::spawned(r), ticks).r == ticks,
        widened_by(Drop::spawned(r), ticks).x == Drop::spawned(r).x,
        widened_by(Drop::spawned(r), ticks).y == Drop::spawned(r).y,
        widened_by(Drop::spawned(r), ticks).active() <==> ticks < RETIRED_RADIUS,
        ticks < RETIRED_RADIUS ==> on_ring(ticks as int, ticks as int, 0),
        forall|dx: int, dy: int| !on_ring(RETIRED_RADIUS as int, dx, dy),
    decreases ticks,
{
    if ticks > 0 {
        lemma_drop_lifetime(r, (ticks - 1) as nat);
    }
}

/// The pixels of the canvas that the rings of the first `n` slots of
/// `drops` light, free slots left out.
pub open spec fn drops_frame(drops: Seq<Drop>, n: int) -> Set<(int, int)> {
    Set::new(
        |p: (int, int)|
            exists|i: int|
                0 <= i < n && drops[i].active() && #[trigger] ring_pixels(drops[i]).contains(p),
    )
}

/// One more slot adds the pixels of its ring to the frame, if the ring is
/// spreading.
pub proof fn lemma_frame_of_one_more(drops: Seq<Drop>, n: int)
    requires
        0 <= n < drops.len(),
    ensures
        drops_frame(drops, n + 1) == if drops[n].active() {
            drops_frame(drops, n).union(ring_pixels(drops[n]))
        } else {
            drops_frame(drops, n)
        },
{
    let more = drops_frame(drops, n + 1);
    let less = drops_frame(drops, n);
    assert forall|q: (int, int)| more.contains(q) <==> less.contains(q) || (drops[n].active()
        && ring_pixels(drops[n]).contains(q)) by {
        if more.contains(q) {
            let k = choose|k: int|
                0 <= k < n + 1 && drops[k].active() && #[trigger] ring_pixels(drops[k]).contains(q);
            if k < n {
                assert(less.contains(q));
            }
        }
        if less.contains(q) {
            let k = choose|k: int|
                0 <= k < n && drops[k].active() && #[trigger] ring_pixels(drops[k]).contains(q);
            assert(0 <= k < n + 1 && drops[k].active() && ring_pixels(drops[k]).contains(q));
        }
        if drops[n].active() && ring_pixels(drops[n]).contains(q) {
            assert(more.contains(q));
        }
    }
    if drops[n].active() {
        assert(more =~= less.union(ring_pixels(drops[n])));
    } else {
        assert(more =~= less);
    }
}

/// What a `DropAnimation` holds: the state of its generator and its pool of
/// drops.
pub struct DropsModel {
    pub rng: Seq<u64>,
    pub drops: Seq<Drop>,
}

impl DropsModel {
    /// The animation before its first tick.
    pub open spec fn initial() -> DropsModel {
        DropsModel {
            rng: xoroshiro128_seeded(DROPS_SEED),
            drops: Seq::new(MAX_DROPS as nat, |i: int| Drop { x: 0, y: 0, r: 0xFF }),
        }
    }

    /// Every drop has its centre on the canvas, and its ring is spreading,
    /// has just retired, or was never started.
    pub open spec fn wf(self) -> bool {
        &&& self.drops.len() == MAX_DROPS
        &&& forall|i: int|
            0 <= i < self.drops.len() ==> (#[trigger] self.drops[i]).x < 16 && self.drops[i].y < 16
                && (self.drops[i].r <= RETIRED_RADIUS || self.drops[i].r == 0xFF)
    }

    /// How many rings are spreading.
    pub open spec fn active_count(self) -> nat {
        active_before(self.drops, self.drops.len() as int)
    }

    /// The pool after every spreading ring has widened by one.
    pub open spec fn widened(self) -> Seq<Drop> {
        Seq::new(
            self.drops.len(),
            |i: int|
                if self.drops[i].active() {
                    self.drops[i].stepped()
                } else {
                    self.drops[i]
                },
        )
    }

    /// Whether this tick tries to spawn a drop: the first number drawn is
    /// even.
    pub open spec fn spawns(self) -> bool {
        xoroshiro128_draw(self.rng, 0) % 2 == 0
    }

    /// The frame that shows the animation: the pixels of the canvas that
    /// the rings light which are spreading.
    pub open spec fn frame(self) -> Set<(int, int)> {
        drops_frame(self.drops, self.drops.len() as int)
    }

    /// The animation `ticks` ticks later.
    pub open spec fn after(self, ticks: nat) -> DropsModel
        decreases ticks,
    {
        if ticks == 0 {
            self
        } else {
            self.after((ticks - 1) as nat).tick()
        }
    }

    /// The animation one tick later.
    pub open spec fn tick(self) -> DropsModel {
        let widened = self.widened();
        let slot = first_free(widened, 0);
        if self.spawns() && slot < widened.len() {
            DropsModel {
                rng: xoroshiro128_after(self.rng, 2),
                drops: widened.update(slot, Drop::spawned(xoroshiro128_draw(self.rng, 1))),
            }
        } else {
            DropsModel { rng: xoroshiro128_after(self.rng, 1), drops: widened }
        }
    }
}

/// A tick keeps the centre of every drop on the canvas and lets no ring
/// grow past the radius at which it retires.
pub proof fn lemma_tick_keeps_wf(model: DropsModel)
    requires
        model.wf(),
    ensures
        model.tick().wf(),
{
    let widened = model.widened();
    let after = model.tick();
    lemma_first_free(widened, 0);
    assert forall|i: int| 0 <= i < after.drops.len() implies (#[trigger] after.drops[i]).x < 16
        && after.drops[i].y < 16 && (after.drops[i].r <= RETIRED_RADIUS || after.drops[i].r
        == 0xFF) by {
        assert(model.drops[i].x < 16);
        assert(widened[i].x < 16);
    }
}

/// A ring that is spreading is one wider after a tick, round the same
/// centre and in the same slot, unless it was at its last radius.
pub proof fn lemma_tick_widens_drop(model: DropsModel, i: int)
    requires
        0 <= i < model.drops.len(),
        model.drops[i].r < RETIRED_RADIUS - 1,
    ensures
        model.tick().drops[i] == model.drops[i].stepped(),
{
    let widened = model.widened();
    lemma_first_free(widened, 0);
    assert(widened[i].active());
}

/// The pool has room for `MAX_DROPS` drops, and no tick starts more rings.
pub proof fn lemma_pool_bound(model: DropsModel)
    requires
        model.drops.len() == MAX_DROPS,
    ensures
        model.active_count() <= MAX_DROPS,
        model.tick().active_count() <= MAX_DROPS,
{
    lemma_first_free(model.widened(), 0);
    lemma_active_bound(model.drops, model.drops.len() as int);
    lemma_active_bound(model.tick().drops, model.tick().drops.len() as int);
}

/// The animation is deterministic: two of them that hold the same generator
/// state and the same drops show the same frame at every later tick, and
/// hold the same state after it.
pub proof fn lemma_runs_agree(a: DropAnimation, b: DropAnimation, ticks: nat)
    requires
        a@ == b@,
    ensures
        a@.after(ticks) == b@.after(ticks),
        a@.after(ticks).frame() == b@.after(ticks).frame(),
{
}

/// Two animations in the same state render the same frame, bit for bit,
/// whatever the frame buffers held before.
pub proof fn lemma_render_is_deterministic(
    a: DropAnimation,
    b: DropAnimation,
    rendered_by_a: ObegraensadDisplay,
    rendered_by_b: ObegraensadDisplay,
)
    requires
        a@ == b@,
        rendered_by_a@ == a.frame(),
        rendered_by_b@ == b.frame(),
    ensures
        rendered_by_a == rendered_by_b,
{
    lemma_display_is_its_pixels(rendered_by_a, rendered_by_b);
}

/// Rings that spread from random pixels of the canvas.
pub struct DropAnimation {
    rng: Xoroshiro128StarStar,
    drops: [Drop; MAX_DROPS],
}

impl View for DropAnimation {
    type V = DropsModel;

    closed spec fn view(&self) -> DropsModel {
        DropsModel { rng: xoroshiro128_state(self.rng), drops: self.drops@ }
    }
}

impl DropAnimation {
    /// The animation before its first tick: no ring is spreading.
    pub fn new() -> (animation: Self)
        ensures
            animation@ == DropsModel::initial(),
            animation.wf(),
    {
        let animation = Self {
            rng: xoroshiro128_from_seed(DROPS_SEED),
            drops: [Drop::new();MAX_DROPS],
        };
        assert(animation@.drops =~= DropsModel::initial().drops);
        animation
    }

    /// How many rings are spreading.
    pub fn active_count(&self) -> (count: usize)
        ensures
            count == self@.active_count(),
            count <= MAX_DROPS,
    {
        let mut count: usize = 0;
        let mut i: usize = 0;
        while i < MAX_DROPS
            invariant
                i <= MAX_DROPS,
                count == active_before(self.drops@, i as int),
                count <= i,
            decreases MAX_DROPS - i,
        {
            if self.drops[i].is_active() {
                count += 1;
            }
            i += 1;
        }
        count
    }
}

impl Animation for DropAnimation {
    open spec fn wf(&self) -> bool {
        self@.wf()
    }

    open spec fn steps_to(&self, next: &Self) -> bool {
        next@ == self@.tick()
    }

    open spec fn frame(&self) -> Set<(int, int)> {
        self@.tick().frame()
    }

    open spec fn frame_micros(&self) -> int {
        DROPS_FRAME_MILLIS * 1000
    }

    /// One tick: every spreading ring widens by one, and in half of the
    /// cases a new drop takes the first free slot. The frame shows the
    /// rings that are spreading after that.
    fn render_frame(&mut self, display: &mut ObegraensadDisplay) -> (duration: MicrosDurationU32) {
        let ghost before = self@;
        let ghost widened = before.widened();

        // Step all existing drops
        let mut i: usize = 0;
        while i < MAX_DROPS
            invariant
                i <= MAX_DROPS,
                before.drops.len() == MAX_DROPS,
                widened == before.widened(),
                forall|j: int| 0 <= j < i ==> self.drops@[j] == widened[j],
                forall|j: int| i <= j < MAX_DROPS ==> self.drops@[j] == before.drops[j],
                xoroshiro128_state(self.rng) == before.rng,
            decreases MAX_DROPS - i,
        {
            if self.drops[i].is_active() {
                let mut drop = self.drops[i];
                drop.step();
                self.drops[i] = drop;
            }
            i += 1;
        }
        assert(self.drops@ =~= widened);

        // Spawn new drop in 1/2 of cases
        let decision: u32 = xoroshiro128_next_u32(&mut self.rng);
        proof {
            lemma_low_bits(decision);
            lemma_first_free(widened, 0);
            reveal_with_fuel(xoroshiro128_after, 3);
        }
        if (decision & 0b1) == 0 {
            let mut j: usize = 0;
            while j < MAX_DROPS
                invariant_except_break
                    j <= MAX_DROPS,
                    first_free(widened, 0) == first_free(widened, j as int),
                    self.drops@ == widened,
                    xoroshiro128_state(self.rng) == xoroshiro128_after(before.rng, 1),
                invariant
                    widened.len() == MAX_DROPS,
                    widened == before.widened(),
                    before.spawns(),
                ensures
                    self@ == before.tick(),
                decreases MAX_DROPS - j,
            {
                if !self.drops[j].is_active() {
                    let r: u32 = xoroshiro128_next_u32(&mut self.rng);
                    let mut drop = self.drops[j];
                    drop.init(r);
                    self.drops[j] = drop;
                    proof {
                        reveal_with_fuel(xoroshiro128_after, 3);
                        assert(first_free(widened, 0) == j);
                        assert(self.drops@ =~= widened.update(j as int, drop));
                    }
                    break ;
                }
                j += 1;
            }
        }
        proof {
            lemma_tick_keeps_wf(before);
        }
        let ghost after = self.drops@;

        // Draw active drops on display
        display.clear();
        let mut k: usize = 0;
        while k < MAX_DROPS
            invariant
                k <= MAX_DROPS,
                self.drops@ == after,
                self@ == before.tick(),
                self@.wf(),
                display@ == drops_frame(after, k as int),
            decreases MAX_DROPS - k,
        {
            if self.drops[k].is_active() {
                let drop = self.drops[k];
                drop.draw(display);
            }
            proof {
                lemma_frame_of_one_more(after, k as int);
            }
            k += 1;
        }

        duration_from_millis(DROPS_FRAME_MILLIS)
    }
}

} // verus!
