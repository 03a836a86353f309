use crate::animation::Animation;
use crate::display::{lemma_display_is_its_pixels, ObegraensadDisplay};
use crate::duration::duration_from_millis;
use crate::pool::{active_before, first_free, lemma_active_bound, lemma_first_free, Slot};
use crate::rng::{
    xoshiro128_after, xoshiro128_draw, xoshiro128_from_seed, xoshiro128_next_u32,
    xoshiro128_seeded, xoshiro128_state,
};
use crate::wiring::on_canvas;
use fugit::MicrosDurationU32;
use rand_xoshiro::Xoshiro128StarStar;
use vstd::prelude::*;

verus! {

/// Number of leaves that can fall at the same time.
pub const MAX_LEAVES: usize = 10;

/// The least distance, in columns, from one leaf to the leaf spawned in the
/// frame after it.
pub const X_INCR: u32 = 5;

/// For how many milliseconds each frame of the falling leaves is shown.
pub const LEAVES_FRAME_MILLIS: u32 = 400;

/// The seed of the generator behind the falling leaves.
pub const LEAVES_SEED: u64 = 0x4C13_D8C5_DF23_A2D7;

/// One slot of the pool: a leaf at column `x` of row `y`. The slot is free
/// while `y` is below the canvas.
#[derive(Clone, Copy)]
pub struct Leaf {
    pub x: u8,
    pub y: u8,
}

/// By how many columns a leaf drifts when the generator gave `r`: to the
/// right in five cases of eight, to the left in one, not at all in two.
pub open spec fn drift(r: u32) -> int {
    let t = r % 8;
    if t <= 4 {
        1
    } else if t == 5 {
        -1
    } else {
        0
    }
}

proof fn lemma_low_bits(r: u32)
    by (bit_vector)
    ensures
        r & 0xF == r % 16,
        r & 0b111 == r % 8,
        r & 0b1 == r % 2,
{
}

proof fn lemma_low_nibble(x: u8)
    by (bit_vector)
    ensures
        x & 0x0F == x % 16,
{
}

impl Slot for Leaf {
    /// Whether the leaf is on the canvas.
    open spec fn active(&self) -> bool {
        self.y < 16
    }
}

impl Leaf {
    /// The leaf that the number `r` spawns: in the top row, at the column
    /// that the low four bits of `r` give.
    pub open spec fn spawned(r: u32) -> Leaf {
        Leaf { x: (r % 16) as u8, y: 0 }
    }

    /// The leaf one tick later, when the generator gave `r`: one row down,
    /// drifted by `drift(r)` columns and wrapped round the canvas.
    pub open spec fn stepped(self, r: u32) -> Leaf {
        Leaf { x: ((self.x + drift(r)) % 16) as u8, y: (self.y + 1) as u8 }
    }

    /// A free slot.
    pub fn new() -> (leaf: Self)
        ensures
            leaf == (Leaf { x: 0, y: 0xFF }),
    {
        Self { x: 0, y: 0xFF }
    }

    /// Whether the leaf is on the canvas.
    pub fn is_active(&self) -> (active: bool)
        ensures
            active == self.active(),
    {
        self.y < 16
    }

    /// Puts the leaf in the top row, at the column that `r` gives.
    pub fn init(&mut self, r: u32)
        ensures
            *final(self) == Leaf::spawned(r),
    {
        proof {
            lemma_low_bits(r);
        }
        self.x = (r & 0xF) as u8;
        self.y = 0;
    }

    /// Lets the leaf fall by one row and drift as `r` says.
    pub fn step(&mut self, r: u32)
        requires
            old(self).active(),
        ensures
            *final(self) == old(self).stepped(r),
    {
        proof {
            lemma_low_bits(r);
        }
        let t: u8 = (r & 0b111) as u8;
        if t <= 4 {
            // 5/8 chance to go right
            self.x = self.x.wrapping_add(1);
        } else if t == 5 {
            // 1/8 chance to go left
            self.x = self.x.wrapping_sub(1);
        }
        // 2/8 chance to not move horizontally

        proof {
            lemma_low_nibble(self.x);
        }
        self.x = self.x & 0x0F;
        self.y += 1;
    }
}

/// The number that places a new leaf, when the generator gave `draw`. Right
/// after a spawn at column `x` it is `x` and `X_INCR` to `X_INCR + 7` more,
/// so that the two leaves do not fall side by side; else it is `draw` itself.
pub open spec fn spawn_number_of(x_prev_frame: Option<u8>, draw: u32) -> u32 {
    match x_prev_frame {
        None => draw,
        Some(x) => (x + X_INCR + draw % 8) as u32,
    }
}

/// Computes the number that places a new leaf: see `spawn_number_of`.
pub fn spawn_number(x_prev_frame: Option<u8>, draw: u32) -> (r: u32)
    ensures
        r == spawn_number_of(x_prev_frame, draw),
{
    proof {
        lemma_low_bits(draw);
    }
    match x_prev_frame {
        None => draw,
        Some(x) => {
            let offset: u32 = X_INCR + (draw & 0b111);
            x as u32 + offset
        },
    }
}

/// The leaf after one tick for each number of `draws`, in their order.
pub open spec fn fallen_through(leaf: Leaf, draws: Seq<u32>) -> Leaf
    decreases draws.len(),
{
    if draws.len() == 0 {
        leaf
    } else {
        fallen_through(leaf, draws.drop_last()).stepped(draws.last())
    }
}

/// A leaf that was spawned falls by one row with every tick, whatever the
/// generator gives, and never leaves the columns of the canvas. It is on the
/// canvas for the first 16 ticks and leaves it with the 16th.
pub proof fn lemma_leaf_lifetime(r: u32, draws: Seq<u32>)
    requires
        draws.len() <= 16,
    ensures
        fallen_through(Leaf::spawned(r), draws).y == draws.len(),
        fallen_through(Leaf::spawned(r), draws).x < 16,
        fallen_through(Leaf::spawned(r), draws).active() <==> draws.len() < 16,
    decreases draws.len(),
{
    if draws.len() > 0 {
        lemma_leaf_lifetime(r, draws.drop_last());
    }
}

/// The pixel at which a leaf stands.
pub open spec fn pixel_of(leaf: Leaf) -> (int, int) {
    (leaf.x as int, leaf.y as int)
}

/// Whether slot `i` of `leaves` holds a leaf at pixel `p`.
pub open spec fn leaf_at(leaves: Seq<Leaf>, i: int, p: (int, int)) -> bool {
    pixel_of(leaves[i]) == p
}

/// The pixels of the canvas at which one of the first `n` slots of `leaves`
/// holds a leaf.
pub open spec fn leaves_frame(leaves: Seq<Leaf>, n: int) -> Set<(int, int)> {
    Set::new(
        |p: (int, int)| on_canvas(p.0, p.1) && exists|i: int| 0 <= i < n && leaf_at(leaves, i, p),
    )
}

/// One more slot adds the pixel of its leaf to the frame, if the leaf is on
/// the canvas.
pub proof fn lemma_frame_of_one_more(leaves: Seq<Leaf>, n: int)
    requires
        0 <= n < leaves.len(),
    ensures
        leaves_frame(leaves, n + 1) == if on_canvas(leaves[n].x as int, leaves[n].y as int) {
            leaves_frame(leaves, n).insert(pixel_of(leaves[n]))
        } else {
            leaves_frame(leaves, n)
        },
{
    let more = leaves_frame(leaves, n + 1);
    let less = leaves_frame(leaves, n);
    assert(leaf_at(leaves, n, pixel_of(leaves[n])));
    assert forall|q: (int, int)| more.contains(q) <==> less.contains(q) || (on_canvas(q.0, q.1)
        && q == pixel_of(leaves[n])) by {
        if more.contains(q) {
            let k = choose|k: int| 0 <= k < n + 1 && leaf_at(leaves, k, q);
            if k < n {
                assert(less.contains(q));
            }
        }
        if less.contains(q) {
            let k = choose|k: int| 0 <= k < n && leaf_at(leaves, k, q);
            assert(0 <= k < n + 1 && leaf_at(leaves, k, q));
        }
    }
    if on_canvas(leaves[n].x as int, leaves[n].y as int) {
        assert(more =~= less.insert(pixel_of(leaves[n])));
    } else {
        assert(more =~= less);
    }
}

/// A leaf that is spawned in a free slot adds its pixel to the frame and
/// takes none away.
pub proof fn lemma_frame_of_spawn(leaves: Seq<Leaf>, slot: int, leaf: Leaf)
    requires
        0 <= slot < leaves.len(),
        !leaves[slot].active(),
        on_canvas(leaf.x as int, leaf.y as int),
    ensures
        leaves_frame(leaves.update(slot, leaf), leaves.len() as int) == leaves_frame(
            leaves,
            leaves.len() as int,
        ).insert(pixel_of(leaf)),
{
    let n = leaves.len() as int;
    let after = leaves.update(slot, leaf);
    assert(leaf_at(after, slot, pixel_of(leaf)));
    assert forall|q: (int, int)|
        leaves_frame(after, n).contains(q) <==> leaves_frame(leaves, n).insert(
            pixel_of(leaf),
        ).contains(q) by {
        if leaves_frame(after, n).contains(q) {
            let k = choose|k: int| 0 <= k < n && leaf_at(after, k, q);
            if k != slot {
                assert(leaf_at(leaves, k, q));
            }
        }
        if leaves_frame(leaves, n).contains(q) {
            let k = choose|k: int| 0 <= k < n && leaf_at(leaves, k, q);
            assert(k != slot);
            assert(leaf_at(after, k, q));
        }
    }
    assert(leaves_frame(after, n) =~= leaves_frame(leaves, n).insert(pixel_of(leaf)));
}

/// What a `FallingLeaves` holds: the state of its generator, its pool of
/// leaves, and the column of the leaf spawned by the last tick, if it
/// spawned one.
pub struct LeavesModel {
    pub rng: Seq<u32>,
    pub leaves: Seq<Leaf>,
    pub x_prev_frame: Option<u8>,
}

impl LeavesModel {
    /// The animation before its first tick.
    pub open spec fn initial() -> LeavesModel {
        LeavesModel {
            rng: xoshiro128_seeded(LEAVES_SEED),
            leaves: Seq::new(MAX_LEAVES as nat, |i: int| Leaf { x: 0, y: 0xFF }),
            x_prev_frame: Some(7u8),
        }
    }

    /// Every leaf is in a column of the canvas, and either on the canvas,
    /// just below it, or was never spawned.
    pub open spec fn wf(self) -> bool {
        &&& self.leaves.len() == MAX_LEAVES
        &&& forall|i: int|
            0 <= i < self.leaves.len() ==> (#[trigger] self.leaves[i]).x < 16 && (self.leaves[i].y
                <= 16 || self.leaves[i].y == 0xFF)
        &&& self.x_prev_frame matches Some(x) ==> x < 16
    }

    /// How many leaves are on the canvas.
    pub open spec fn active_count(self) -> nat {
        active_before(self.leaves, self.leaves.len() as int)
    }

    /// The pool after every leaf on the canvas has fallen by one row. The
    /// leaves take their numbers from the generator in the order of their
    /// slots.
    pub open spec fn fallen(self) -> Seq<Leaf> {
        Seq::new(
            self.leaves.len(),
            |i: int|
                if self.leaves[i].active() {
                    self.leaves[i].stepped(
                        xoshiro128_draw(self.rng, active_before(self.leaves, i)),
                    )
                } else {
                    self.leaves[i]
                },
        )
    }

    /// Whether this tick tries to spawn a leaf: the number drawn after the
    /// leaves have fallen is even.
    pub open spec fn spawns(self) -> bool {
        xoshiro128_draw(self.rng, self.active_count()) % 2 == 0
    }

    /// The leaf that this tick spawns, if it spawns one.
    pub open spec fn new_leaf(self) -> Leaf {
        Leaf::spawned(
            spawn_number_of(
                self.x_prev_frame,
                xoshiro128_draw(self.rng, self.active_count() + 1),
            ),
        )
    }

    /// The frame that shows the animation: the pixels of the canvas at which
    /// it holds a leaf.
    pub open spec fn frame(self) -> Set<(int, int)> {
        leaves_frame(self.leaves, self.leaves.len() as int)
    }

    /// The animation `ticks` ticks later.
    pub open spec fn after(self, ticks: nat) -> LeavesModel
        decreases ticks,
    {
        if ticks == 0 {
            self
        } else {
            self.after((ticks - 1) as nat).tick()
        }
    }

    /// The animation one tick later.
    pub open spec fn tick(self) -> LeavesModel {
        let fallen = self.fallen();
        let slot = first_free(fallen, 0);
        if !self.spawns() {
            LeavesModel {
                rng: xoshiro128_after(self.rng, self.active_count() + 1),
                leaves: fallen,
                x_prev_frame: None,
            }
        } else if slot < fallen.len() {
            LeavesModel {
                rng: xoshiro128_after(self.rng, self.active_count() + 2),
                leaves: fallen.update(slot, self.new_leaf()),
                x_prev_frame: Some(self.new_leaf().x),
            }
        } else {
            LeavesModel {
                rng: xoshiro128_after(self.rng, self.active_count() + 1),
                leaves: fallen,
                x_prev_frame: self.x_prev_frame,
            }
        }
    }
}

/// A tick keeps every leaf in a column of the canvas and at most one row
/// below it.
pub proof fn lemma_tick_keeps_wf(model: LeavesModel)
    requires
        model.wf(),
    ensures
        model.tick().wf(),
{
    let fallen = model.fallen();
    assert forall|i: int| 0 <= i < fallen.len() implies (#[trigger] fallen[i]).x < 16 && (
    fallen[i].y <= 16 || fallen[i].y == 0xFF) by {
        assert(model.leaves[i].x < 16);
    }
    let leaf = model.new_leaf();
    assert(leaf.x < 16 && leaf.y == 0);
    let after = model.tick();
    lemma_first_free(fallen, 0);
    assert forall|i: int| 0 <= i < after.leaves.len() implies (#[trigger] after.leaves[i]).x < 16
        && (after.leaves[i].y <= 16 || after.leaves[i].y == 0xFF) by {
        assert(fallen[i].x < 16);
    }
}

/// A leaf that is on the canvas above the bottom row is one row further down
/// after a tick, in the same slot.
pub proof fn lemma_tick_moves_leaf_down(model: LeavesModel, i: int)
    requires
        0 <= i < model.leaves.len(),
        model.leaves[i].y < 15,
    ensures
        model.tick().leaves[i].y == model.leaves[i].y + 1,
        model.tick().leaves[i].x < 16,
{
    let fallen = model.fallen();
    lemma_first_free(fallen, 0);
    assert(fallen[i].active());
}

/// The pool has room for `MAX_LEAVES` leaves, and no tick puts more on the
/// canvas.
pub proof fn lemma_pool_bound(model: LeavesModel)
    requires
        model.leaves.len() == MAX_LEAVES,
    ensures
        model.active_count() <= MAX_LEAVES,
        model.tick().active_count() <= MAX_LEAVES,
{
    lemma_first_free(model.fallen(), 0);
    lemma_active_bound(model.leaves, model.leaves.len() as int);
    lemma_active_bound(model.tick().leaves, model.tick().leaves.len() as int);
}

/// The animation is deterministic: two of them that hold the same generator
/// state and the same leaves show the same frame at every later tick, and
/// hold the same state after it.
pub proof fn lemma_runs_agree(a: FallingLeaves, b: FallingLeaves, ticks: nat)
    requires
        a@ == b@,
    ensures
        a@.after(ticks) == b@.after(ticks),
        a@.after(ticks).frame() == b@.after(ticks).frame(),
{
}

/// Two animations in the same state render the same frame, bit for bit,
/// whatever the frame buffers held before.
pub proof fn lemma_render_is_deterministic(
    a: FallingLeaves,
    b: FallingLeaves,
    rendered_by_a: ObegraensadDisplay,
    rendered_by_b: ObegraensadDisplay,
)
    requires
        a@ == b@,
        rendered_by_a@ == a.frame(),
        rendered_by_b@ == b.frame(),
    ensures
        rendered_by_a == rendered_by_b,
{
    lemma_display_is_its_pixels(rendered_by_a, rendered_by_b);
}

/// Leaves that fall down the canvas and drift sideways as they fall.
pub struct FallingLeaves {
    rng: Xoshiro128StarStar,
    leaves: [Leaf; MAX_LEAVES],
    x_prev_frame: Option<u8>,
}

impl View for FallingLeaves {
    type V = LeavesModel;

    closed spec fn view(&self) -> LeavesModel {
        LeavesModel {
            rng: xoshiro128_state(self.rng),
            leaves: self.leaves@,
            x_prev_frame: self.x_prev_frame,
        }
    }
}

impl FallingLeaves {
    /// The animation before its first tick: no leaf is on the canvas.
    pub fn new() -> (animation: Self)
        ensures
            animation@ == LeavesModel::initial(),
            animation.wf(),
    {
        let animation = Self {
            rng: xoshiro128_from_seed(LEAVES_SEED),
            leaves: [Leaf::new();MAX_LEAVES],
            x_prev_frame: Some(7),
        };
        assert(animation@.leaves =~= LeavesModel::initial().leaves);
        animation
    }

    /// How many leaves are on the canvas.
    pub fn active_count(&self) -> (count: usize)
        ensures
            count == self@.active_count(),
            count <= MAX_LEAVES,
    {
        let mut count: usize = 0;
        let mut i: usize = 0;
        while i < MAX_LEAVES
            invariant
                i <= MAX_LEAVES,
                count == active_before(self.leaves@, i as int),
                count <= i,
            decreases MAX_LEAVES - i,
        {
            if self.leaves[i].is_active() {
                count += 1;
            }
            i += 1;
        }
        count
    }
}

impl Animation for FallingLeaves {
    open spec fn wf(&self) -> bool {
        self@.wf()
    }

    open spec fn steps_to(&self, next: &Self) -> bool {
        next@ == self@.tick()
    }

    open spec fn frame(&self) -> Set<(int, int)> {
        self@.tick().frame()
    }

    open spec fn frame_micros(&self) -> int {
        LEAVES_FRAME_MILLIS * 1000
    }

    /// One tick: every leaf on the canvas falls by one row, and in half of
    /// the cases a new leaf takes the first free slot. The frame shows the
    /// leaves that are on the canvas after that.
    fn render_frame(&mut self, display: &mut ObegraensadDisplay) -> (duration: MicrosDurationU32) {
        let ghost before = self@;
        let ghost fallen = before.fallen();
        display.clear();

        // Move and draw all existing leaves
        let mut i: usize = 0;
        while i < MAX_LEAVES
            invariant
                i <= MAX_LEAVES,
                before.leaves.len() == MAX_LEAVES,
                fallen == before.fallen(),
                forall|j: int| 0 <= j < i ==> self.leaves@[j] == fallen[j],
                forall|j: int| i <= j < MAX_LEAVES ==> self.leaves@[j] == before.leaves[j],
                xoshiro128_state(self.rng) == xoshiro128_after(
                    before.rng,
                    active_before(before.leaves, i as int),
                ),
                self.x_prev_frame == before.x_prev_frame,
                display@ == leaves_frame(fallen, i as int),
            decreases MAX_LEAVES - i,
        {
            if self.leaves[i].is_active() {
                let r: u32 = xoshiro128_next_u32(&mut self.rng);
                let mut leaf = self.leaves[i];
                leaf.step(r);
                self.leaves[i] = leaf;
                display.set_pixel(leaf.x, leaf.y);
            }
            proof {
                lemma_frame_of_one_more(fallen, i as int);
            }
            i += 1;
        }
        assert(self.leaves@ =~= fallen);

        // Spawn and draw new leaf in 1/2 of cases
        let decision: u32 = xoshiro128_next_u32(&mut self.rng);
        proof {
            lemma_low_bits(decision);
        }
        if (decision & 0b1) == 0 {
            let mut j: usize = 0;
            while j < MAX_LEAVES
                invariant_except_break
                    j <= MAX_LEAVES,
                    first_free(fallen, 0) == first_free(fallen, j as int),
                    self.leaves@ == fallen,
                    xoshiro128_state(self.rng) == xoshiro128_after(
                        before.rng,
                        before.active_count() + 1,
                    ),
                    self.x_prev_frame == before.x_prev_frame,
                    display@ == leaves_frame(fallen, MAX_LEAVES as int),
                invariant
                    fallen.len() == MAX_LEAVES,
                    fallen == before.fallen(),
                    before.spawns(),
                    before == old(self)@,
                ensures
                    self@ == before.tick(),
                    display@ == leaves_frame(before.tick().leaves, MAX_LEAVES as int),
                decreases MAX_LEAVES - j,
            {
                if !self.leaves[j].is_active() {
                    let draw: u32 = xoshiro128_next_u32(&mut self.rng);
                    let r: u32 = spawn_number(self.x_prev_frame, draw);
                    let mut leaf = self.leaves[j];
                    leaf.init(r);
                    self.leaves[j] = leaf;
                    self.x_prev_frame = Some(leaf.x);
                    display.set_pixel(leaf.x, leaf.y);
                    proof {
                        assert(first_free(fallen, 0) == j);
                        assert(self.leaves@ =~= fallen.update(j as int, leaf));
                        lemma_frame_of_spawn(fallen, j as int, leaf);
                    }
                    break ;
                }
                j += 1;
            }
        } else {
            self.x_prev_frame = None;
        }

        proof {
            lemma_tick_keeps_wf(before);
            lemma_first_free(fallen, 0);
        }
        duration_from_millis(LEAVES_FRAME_MILLIS)
    }
}

} // verus!
