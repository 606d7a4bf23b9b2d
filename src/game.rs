use vstd::prelude::*;
use rand::rngs::ThreadRng;
use crate::bird::{Bird, MAX_DIMENSION, RADIUS, X};
use crate::collision::{distinct_indices, eliminate, has_index, lemma_survivors, survivors, Hazard};
use crate::player::PlayerHandler;
use crate::config::GameType;
use crate::pipe::{Pipe, SPACING, WIDTH};
use crate::random::draw_in;

verus! {

broadcast use vstd::seq_lib::group_seq_properties;

/// Number of pipes in the rolling window.
pub const PIPE_COUNT: usize = 5;

/// Scroll speed of the pipes without any ramp.
pub const BASE_SPEED: i64 = 8;

/// Largest speed increase that a ramp may add.
pub const MAX_RAMP: i64 = 5;

/// Scale of the velocity input of a decision function: it receives the
/// velocity divided by this.
pub const VELOCITY_SCALE: i64 = 200;

/// The pipe that follows the last of `pipes`, where the random draw `draw`
/// places its gap. The first pipe stands at the right edge, with its gap
/// pulled towards the middle of the playfield: its lower part starts a
/// quarter of the height plus half of `height - draw` down, rounded up,
/// and no further down than three quarters of the height.
pub open spec fn next_pipe(pipes: Seq<Pipe>, draw: int, width: i64, height: i64, hole_size: i64) -> Pipe {
    let y = height - draw;
    if pipes.len() == 0 {
        Pipe::spec_new(width, first_gap(height as int, y) as i64, hole_size)
    } else {
        Pipe::spec_new((pipes.last().x + SPACING) as i64, y as i64, hole_size)
    }
}

/// Where the lower part of the first pipe starts, for `y = height - draw`:
/// `height / 4 + y / 2` rounded up, at most `3 * height / 4`.
pub open spec fn first_gap(height: int, y: int) -> int {
    let raised = (height + 2 * y + 3) / 4;
    let lowest = 3 * height / 4;
    if raised <= lowest {
        raised
    } else {
        lowest
    }
}

/// Whether some whole position lies strictly below a quarter of the
/// height plus half the gap and at most three quarters of the height
/// down: always so when the gap is at least two units smaller than the
/// height.
pub open spec fn first_gap_fits(height: i64, hole_size: i64) -> bool {
    4 * (3 * height / 4) > height + 2 * hole_size
}

/// Whether the gap of a pipe lies where it may: for a later pipe, the
/// whole gap inside the playfield; for the first, the lower part starts at
/// most three quarters of the height down and, wherever a whole position
/// allows it, strictly below a quarter of the height plus half the gap.
pub open spec fn gap_placed(p: Pipe, first: bool, height: i64, hole_size: i64) -> bool {
    if first {
        &&& 4 * p.y <= 3 * height
        &&& first_gap_fits(height, hole_size) ==> 4 * p.y > height + 2 * hole_size
    } else {
        hole_size < p.y <= height
    }
}

/// Whether `draw` is a value that may place a gap.
pub open spec fn valid_draw(draw: int, height: i64, hole_size: i64) -> bool {
    0 <= draw < height - hole_size
}

/// Whether `p` can follow `pipes` for some draw.
pub open spec fn drawn_next(pipes: Seq<Pipe>, p: Pipe, width: i64, height: i64, hole_size: i64) -> bool {
    exists|draw: int|
        valid_draw(draw, height, hole_size) && p == #[trigger] next_pipe(
            pipes,
            draw,
            width,
            height,
            hole_size,
        )
}

/// The pipes placed one after the other by the draws `draws`.
pub open spec fn layout(draws: Seq<i64>, width: i64, height: i64, hole_size: i64) -> Seq<Pipe>
    decreases draws.len(),
{
    if draws.len() == 0 {
        Seq::empty()
    } else {
        let prev = layout(draws.drop_last(), width, height, hole_size);
        prev.push(next_pipe(prev, draws.last() as int, width, height, hole_size))
    }
}

/// Whether a window of pipes is well formed: evenly spaced, the first one
/// not yet gone off the left edge, each gap of the game's size and inside
/// the playfield.
pub open spec fn pipes_wf(pipes: Seq<Pipe>, height: i64, hole_size: i64) -> bool {
    &&& pipes.len() <= PIPE_COUNT
    &&& forall|i: int|
        0 <= i < pipes.len() ==> {
            &&& (#[trigger] pipes[i]).hole_size == hole_size
            &&& pipes[i].hole == pipes[i].y - hole_size / 2
            &&& 0 <= pipes[i].y <= height
        }
    &&& forall|i: int| 0 < i < pipes.len() ==> #[trigger] pipes[i].x == pipes[i - 1].x + SPACING
    &&& pipes.len() > 0 ==> -WIDTH < pipes[0].x <= MAX_DIMENSION
}

/// Every pipe of `pipes` scrolled `speed` units to the left.
pub open spec fn moved_pipes(pipes: Seq<Pipe>, speed: i64) -> Seq<Pipe> {
    pipes.map_values(|p: Pipe| p.moved(speed))
}

/// Whether scrolling by `speed` takes the first pipe off the left edge.
pub open spec fn recycles(pipes: Seq<Pipe>, speed: i64) -> bool {
    moved_pipes(pipes, speed)[0].x <= -WIDTH
}

/// Whether `after` is the window `pipes` scrolled by `speed`: the moved
/// pipes, where the first one, once off the left edge, gives way to a new
/// pipe drawn after the last.
pub open spec fn scrolled(
    pipes: Seq<Pipe>,
    after: Seq<Pipe>,
    speed: i64,
    width: i64,
    height: i64,
    hole_size: i64,
) -> bool {
    let moved = moved_pipes(pipes, speed);
    if recycles(pipes, speed) {
        &&& after.len() == pipes.len()
        &&& after.drop_last() == moved.drop_first()
        &&& drawn_next(moved.drop_first(), after.last(), width, height, hole_size)
    } else {
        after == moved
    }
}

/// Each bird of `birds` after the decision `jumps` took for it.
pub open spec fn decided_birds(birds: Seq<Bird>, jumps: Seq<bool>, game_type: GameType) -> Seq<Bird> {
    Seq::new(birds.len(), |k: int| birds[k].decided(game_type, jumps[k]))
}

/// Each bird of `birds` after one tick of gravity.
pub open spec fn fallen_birds(birds: Seq<Bird>) -> Seq<Bird> {
    birds.map_values(|b: Bird| b.fallen())
}

/// The human player's bird, if any, after its decision.
pub open spec fn decided_player(player: Option<Bird>, game_type: GameType, pressed: bool) -> Option<Bird> {
    match player {
        Some(p) => Some(p.decided(game_type, pressed)),
        None => None,
    }
}

/// The human player's bird, if any, after one tick of gravity.
pub open spec fn fallen_player(player: Option<Bird>) -> Option<Bird> {
    match player {
        Some(p) => Some(p.fallen()),
        None => None,
    }
}

/// The human player's bird, if any, after a check: it is removed unless
/// spared.
pub open spec fn spared_player(player: Option<Bird>, hazard: Hazard) -> Option<Bird> {
    match player {
        Some(p) => if hazard.spares(p) {
            Some(p)
        } else {
            None
        },
        None => None,
    }
}

/// The birds of `birds` that all three checks of a tick spare: the
/// playfield's bounds and the first two pipes.
pub open spec fn tick_survivors(birds: Seq<Bird>, height: i64, pipes: Seq<Pipe>) -> Seq<Bird> {
    survivors(
        survivors(
            survivors(birds, Hazard::Bounds { height }),
            Hazard::Obstacle { pipe: pipes[0] },
        ),
        Hazard::Obstacle { pipe: pipes[1] },
    )
}

/// The human player's bird, if any, after the three checks of a tick.
pub open spec fn tick_player(player: Option<Bird>, height: i64, pipes: Seq<Pipe>) -> Option<Bird> {
    spared_player(
        spared_player(
            spared_player(player, Hazard::Bounds { height }),
            Hazard::Obstacle { pipe: pipes[0] },
        ),
        Hazard::Obstacle { pipe: pipes[1] },
    )
}

/// Whether every bird of `birds`, and the player's, stays within `lim`.
pub open spec fn all_within(birds: Seq<Bird>, player: Option<Bird>, lim: int) -> bool {
    &&& forall|k: int| 0 <= k < birds.len() ==> (#[trigger] birds[k]).within(lim)
    &&& player matches Some(p) ==> p.within(lim)
}

/// In an evenly spaced window, pipe `m` stands `m` spacings right of the
/// first.
proof fn lemma_pipe_offset(pipes: Seq<Pipe>, m: int)
    requires
        0 <= m < pipes.len(),
        forall|i: int| 0 < i < pipes.len() ==> #[trigger] pipes[i].x == pipes[i - 1].x + SPACING,
    ensures
        pipes[m].x == pipes[0].x + SPACING * m,
    decreases m,
{
    if m > 0 {
        lemma_pipe_offset(pipes, m - 1);
    }
}

/// The inputs of a decision function, as integer fractions: the horizontal
/// distance to the current pipe, the vertical offset of the bird from the
/// centre of its gap, and the bird's velocity, each divided by its scale.
#[derive(Clone, Copy, Debug, PartialEq, Eq, Structural)]
pub struct DecisionInputs {
    pub distance: i64,
    pub distance_scale: i64,
    pub offset: i64,
    pub offset_scale: i64,
    pub velocity: i64,
    pub velocity_scale: i64,
}

/// One generation of the simulation.
pub struct Game {
    pub game_type: GameType,
    /// The rolling window of pipes, left to right.
    pub pipes: Vec<Pipe>,
    /// The live birds of the population, in the order they were created.
    pub birds: Vec<Bird>,
    /// The fitness of each member of the population: the tick on which it
    /// was eliminated, or 0 while it lives.
    pub scores: Vec<u64>,
    /// The source of the pipes' random placement.
    pub rng: ThreadRng,
    pub width: i64,
    pub height: i64,
    /// How many live birds a renderer draws.
    pub render_count: i32,
    pub species_count: usize,
    pub generation: usize,
    pub hole_size: i64,
    pub ticks: u64,
    /// Number of pipes that have scrolled off, shown to the human player.
    pub current_score: u64,
    /// Whether the simulation runs; it waits for the human player's first
    /// input otherwise.
    pub started: bool,
    /// The human player's bird, while it lives.
    pub player: Option<Bird>,
    /// Whether the scroll speed ramps up over time.
    pub speed: bool,
}

impl Game {
    /// Whether the bird with score slot `j` is alive.
    pub open spec fn live(self, j: int) -> bool {
        has_index(self.birds@, j)
    }

    /// Whether the configuration of the two games is the same.
    pub open spec fn keeps_settings(self, other: Game) -> bool {
        &&& self.game_type == other.game_type
        &&& self.width == other.width
        &&& self.height == other.height
        &&& self.hole_size == other.hole_size
        &&& self.speed == other.speed
        &&& self.render_count == other.render_count
        &&& self.species_count == other.species_count
        &&& self.generation == other.generation
    }

    /// The invariant of a game, apart from the motion of its birds.
    pub open spec fn structure_wf(self) -> bool {
        &&& 0 < self.width <= MAX_DIMENSION
        &&& 0 < self.height <= MAX_DIMENSION
        &&& 0 <= self.hole_size < self.height
        &&& pipes_wf(self.pipes@, self.height, self.hole_size)
        &&& distinct_indices(self.birds@)
        &&& forall|k: int|
            0 <= k < self.birds@.len() ==> {
                &&& (#[trigger] self.birds@[k]).index < self.scores@.len()
                &&& self.scores@[self.birds@[k].index as int] == 0
            }
        &&& forall|j: int| 0 <= j < self.scores@.len() ==> #[trigger] self.scores@[j] <= self.ticks
    }

    /// The invariant of a game between ticks.
    pub open spec fn wf(self) -> bool {
        &&& self.structure_wf()
        &&& forall|k: int| 0 <= k < self.birds@.len() ==> (#[trigger] self.birds@[k]).in_range()
        &&& self.player matches Some(p) ==> p.in_range()
    }

    /// Whether the game is well formed and holds its full window of pipes.
    pub open spec fn ready(self) -> bool {
        self.wf() && self.pipes@.len() == PIPE_COUNT
    }

    /// A game with no pipes and no population yet. With a human player it
    /// waits for the player's first input before it runs.
    pub fn new(
        game_type: GameType,
        width: i64,
        height: i64,
        render_count: i32,
        species_count: usize,
        generation: usize,
        hole_size: i64,
        player: bool,
        speed: bool,
    ) -> (r: Game)
        requires
            0 < width <= MAX_DIMENSION,
            0 < height <= MAX_DIMENSION,
            0 <= hole_size < height,
        ensures
            r.wf(),
            r.game_type == game_type,
            r.width == width,
            r.height == height,
            r.render_count == render_count,
            r.species_count == species_count,
            r.generation == generation,
            r.hole_size == hole_size,
            r.speed == speed,
            r.pipes@.len() == 0,
            r.birds@.len() == 0,
            r.scores@.len() == 0,
            r.ticks == 0,
            r.current_score == 0,
            r.started == !player,
            r.player == if player {
                Some(Bird::fresh(usize::MAX))
            } else {
                None::<Bird>
            },
    {
        let player_bird = if player {
            Some(Bird::new_without_handler())
        } else {
            None
        };
        Game {
            game_type,
            pipes: Vec::new(),
            birds: Vec::new(),
            scores: Vec::new(),
            rng: rand::thread_rng(),
            width,
            height,
            render_count,
            species_count,
            generation,
            hole_size,
            ticks: 0,
            current_score: 0,
            started: !player,
            player: player_bird,
            speed,
        }
    }

    /// Appends the pipe that the draw `draw` places after the current last
    /// one.
    pub fn add_pipe_with(&mut self, draw: i64)
        requires
            old(self).structure_wf(),
            old(self).pipes@.len() < PIPE_COUNT,
            valid_draw(draw as int, old(self).height, old(self).hole_size),
        ensures
            final(self).pipes@ == old(self).pipes@.push(
                next_pipe(old(self).pipes@, draw as int, old(self).width, old(self).height, old(self).hole_size),
            ),
            gap_placed(final(self).pipes@.last(), old(self).pipes@.len() == 0, old(self).height, old(self).hole_size),
            final(self).structure_wf(),
            final(self).birds == old(self).birds,
            final(self).scores == old(self).scores,
            final(self).player == old(self).player,
            final(self).keeps_settings(*old(self)),
            final(self).ticks == old(self).ticks,
            final(self).current_score == old(self).current_score,
            final(self).started == old(self).started,
    {
        let y = self.height - draw;
        let n = self.pipes.len();
        let pipe = if n == 0 {
            let raised = (self.height + 2 * y + 3) / 4;
            let lowest = 3 * self.height / 4;
            Pipe::new(self.width, if raised <= lowest { raised } else { lowest }, self.hole_size)
        } else {
            let last_x = self.pipes[n - 1].x;
            Pipe::new(last_x + SPACING, y, self.hole_size)
        };
        self.pipes.push(pipe);
        proof {
            if n == 0 {
                let m = self.height + 2 * y;
                let h = self.height as int;
                assert(4 * ((m + 3) / 4) >= m) by (nonlinear_arith)
                    requires m >= 0;
                assert(4 * (3 * h / 4) <= 3 * h) by (nonlinear_arith)
                    requires h >= 0;
            }
            let ps = self.pipes@;
            assert forall|i: int| 0 < i < ps.len() implies #[trigger] ps[i].x == ps[i - 1].x + SPACING by {
                if i < ps.len() - 1 {
                    assert(ps[i] == old(self).pipes@[i]);
                    assert(ps[i - 1] == old(self).pipes@[i - 1]);
                }
            }
        }
    }

    /// Appends a pipe after the current last one, its gap placed at random.
    pub fn add_pipe(&mut self)
        requires
            old(self).structure_wf(),
            old(self).pipes@.len() < PIPE_COUNT,
        ensures
            final(self).pipes@.len() == old(self).pipes@.len() + 1,
            final(self).pipes@.drop_last() == old(self).pipes@,
            drawn_next(old(self).pipes@, final(self).pipes@.last(), old(self).width, old(self).height, old(self).hole_size),
            gap_placed(final(self).pipes@.last(), old(self).pipes@.len() == 0, old(self).height, old(self).hole_size),
            final(self).structure_wf(),
            final(self).birds == old(self).birds,
            final(self).scores == old(self).scores,
            final(self).player == old(self).player,
            final(self).keeps_settings(*old(self)),
            final(self).ticks == old(self).ticks,
            final(self).current_score == old(self).current_score,
            final(self).started == old(self).started,
    {
        let draw = draw_in(&mut self.rng, 0, self.height - self.hole_size);
        self.add_pipe_with(draw);
        assert(self.pipes@.drop_last() =~= old(self).pipes@);
        assert(self.pipes@.last() == next_pipe(old(self).pipes@, draw as int, self.width, self.height, self.hole_size));
    }

    /// Fills a game that has neither pipes nor birds yet: the window of
    /// pipes placed by `draws`, and `population` birds with score slots
    /// `0..population`, all scores 0.
    pub fn init_with_draws(&mut self, population: usize, draws: &Vec<i64>)
        requires
            old(self).wf(),
            old(self).pipes@.len() == 0,
            old(self).birds@.len() == 0,
            old(self).scores@.len() == 0,
            draws@.len() == PIPE_COUNT,
            forall|i: int|
                0 <= i < draws@.len() ==> valid_draw(
                    #[trigger] draws@[i] as int,
                    old(self).height,
                    old(self).hole_size,
                ),
        ensures
            final(self).ready(),
            final(self).pipes@ == layout(draws@, old(self).width, old(self).height, old(self).hole_size),
            forall|i: int|
                0 <= i < final(self).pipes@.len() ==> gap_placed(
                    #[trigger] final(self).pipes@[i],
                    i == 0,
                    old(self).height,
                    old(self).hole_size,
                ),
            final(self).birds@ == Seq::new(population as nat, |i: int| Bird::fresh(i as usize)),
            final(self).scores@ == Seq::new(population as nat, |i: int| 0u64),
            final(self).player == old(self).player,
            final(self).keeps_settings(*old(self)),
            final(self).ticks == old(self).ticks,
            final(self).current_score == old(self).current_score,
            final(self).started == old(self).started,
    {
        let mut i: usize = 0;
        while i < PIPE_COUNT
            invariant
                0 <= i <= PIPE_COUNT,
                draws@.len() == PIPE_COUNT,
                forall|k: int|
                    0 <= k < draws@.len() ==> valid_draw(
                        #[trigger] draws@[k] as int,
                        old(self).height,
                        old(self).hole_size,
                    ),
                self.wf(),
                self.pipes@ == layout(draws@.take(i as int), old(self).width, old(self).height, old(self).hole_size),
                self.pipes@.len() == i,
                forall|k: int|
                    0 <= k < self.pipes@.len() ==> gap_placed(
                        #[trigger] self.pipes@[k],
                        k == 0,
                        old(self).height,
                        old(self).hole_size,
                    ),
                self.birds@.len() == 0,
                self.scores@.len() == 0,
                self.player == old(self).player,
                self.keeps_settings(*old(self)),
                self.ticks == old(self).ticks,
                self.current_score == old(self).current_score,
                self.started == old(self).started,
            decreases PIPE_COUNT - i,
        {
            self.add_pipe_with(draws[i]);
            proof {
                let taken = draws@.take(i as int + 1);
                assert(taken.drop_last() =~= draws@.take(i as int));
                assert(taken.last() == draws@[i as int]);
            }
            i = i + 1;
        }
        assert(draws@.take(PIPE_COUNT as int) =~= draws@);
        let mut index: usize = 0;
        while index < population
            invariant
                0 <= index <= population,
                self.structure_wf(),
                self.pipes@ == layout(draws@, old(self).width, old(self).height, old(self).hole_size),
                self.pipes@.len() == PIPE_COUNT,
                forall|k: int|
                    0 <= k < self.pipes@.len() ==> gap_placed(
                        #[trigger] self.pipes@[k],
                        k == 0,
                        old(self).height,
                        old(self).hole_size,
                    ),
                self.birds@ == Seq::new(index as nat, |i: int| Bird::fresh(i as usize)),
                self.scores@ == Seq::new(index as nat, |i: int| 0u64),
                self.player == old(self).player,
                self.player matches Some(p) ==> p.in_range(),
                self.keeps_settings(*old(self)),
                self.ticks == old(self).ticks,
                self.current_score == old(self).current_score,
                self.started == old(self).started,
            decreases population - index,
        {
            self.birds.push(Bird::new(index));
            self.scores.push(0);
            proof {
                assert(self.birds@ =~= Seq::new(index as nat + 1, |i: int| Bird::fresh(i as usize)));
                assert(self.scores@ =~= Seq::new(index as nat + 1, |i: int| 0u64));
            }
            index = index + 1;
        }
    }

    /// Fills a game that has neither pipes nor birds yet: a window of pipes
    /// placed at random, and `population` birds with score slots
    /// `0..population`, all scores 0.
    pub fn init(&mut self, population: usize)
        requires
            old(self).wf(),
            old(self).pipes@.len() == 0,
            old(self).birds@.len() == 0,
            old(self).scores@.len() == 0,
        ensures
            final(self).ready(),
            exists|draws: Seq<i64>|
                {
                    &&& draws.len() == PIPE_COUNT
                    &&& forall|i: int|
                        0 <= i < draws.len() ==> valid_draw(
                            #[trigger] draws[i] as int,
                            old(self).height,
                            old(self).hole_size,
                        )
                    &&& final(self).pipes@ == layout(draws, old(self).width, old(self).height, old(self).hole_size)
                },
            forall|i: int|
                0 <= i < final(self).pipes@.len() ==> gap_placed(
                    #[trigger] final(self).pipes@[i],
                    i == 0,
                    old(self).height,
                    old(self).hole_size,
                ),
            final(self).birds@ == Seq::new(population as nat, |i: int| Bird::fresh(i as usize)),
            final(self).scores@ == Seq::new(population as nat, |i: int| 0u64),
            final(self).player == old(self).player,
            final(self).keeps_settings(*old(self)),
            final(self).ticks == old(self).ticks,
            final(self).current_score == old(self).current_score,
            final(self).started == old(self).started,
    {
        let mut draws: Vec<i64> = Vec::new();
        while draws.len() < PIPE_COUNT
            invariant
                draws@.len() <= PIPE_COUNT,
                0 <= self.hole_size < self.height,
                forall|i: int|
                    0 <= i < draws@.len() ==> valid_draw(
                        #[trigger] draws@[i] as int,
                        self.height,
                        self.hole_size,
                    ),
                self.wf(),
                self.pipes@.len() == 0,
                self.birds@.len() == 0,
                self.scores@.len() == 0,
                self.player == old(self).player,
                self.keeps_settings(*old(self)),
                self.ticks == old(self).ticks,
                self.current_score == old(self).current_score,
                self.started == old(self).started,
            decreases PIPE_COUNT - draws@.len(),
        {
            let draw = draw_in(&mut self.rng, 0, self.height - self.hole_size);
            draws.push(draw);
        }
        self.init_with_draws(population, &draws);
    }

    /// The index of the pipe that the birds face next: the first one whose
    /// trailing edge has not gone past them.
    pub open spec fn spec_first_pipe(self) -> int {
        if !self.pipes@[0].passed() {
            0
        } else {
            1
        }
    }

    /// The index of the pipe that the birds face next.
    pub fn first_pipe(&self) -> (r: usize)
        requires
            self.ready(),
        ensures
            r == self.spec_first_pipe(),
            r < self.pipes@.len(),
    {
        if self.pipes[0].x + WIDTH >= X - RADIUS {
            0
        } else {
            1
        }
    }

    pub open spec fn spec_inputs(self, b: Bird) -> DecisionInputs {
        let pipe = self.pipes@[self.spec_first_pipe()];
        DecisionInputs {
            distance: (2 * pipe.x - self.width) as i64,
            distance_scale: self.width,
            offset: (b.y - pipe.hole) as i64,
            offset_scale: self.height,
            velocity: b.velocity,
            velocity_scale: VELOCITY_SCALE,
        }
    }

    /// The inputs of the decision function of each live bird, in the order
    /// of `birds`.
    pub fn decision_inputs(&self) -> (r: Vec<DecisionInputs>)
        requires
            self.ready(),
        ensures
            r@.len() == self.birds@.len(),
            forall|k: int| 0 <= k < r@.len() ==> #[trigger] r@[k] == self.spec_inputs(self.birds@[k]),
    {
        let pipe = self.pipes[self.first_pipe()];
        let mut r: Vec<DecisionInputs> = Vec::new();
        let mut k: usize = 0;
        while k < self.birds.len()
            invariant
                self.ready(),
                pipe == self.pipes@[self.spec_first_pipe()],
                0 <= k <= self.birds@.len(),
                r@.len() == k,
                forall|m: int| 0 <= m < k ==> #[trigger] r@[m] == self.spec_inputs(self.birds@[m]),
            decreases self.birds@.len() - k,
        {
            let b = self.birds[k];
            r.push(
                DecisionInputs {
                    distance: 2 * pipe.x - self.width,
                    distance_scale: self.width,
                    offset: b.y - pipe.hole,
                    offset_scale: self.height,
                    velocity: b.velocity,
                    velocity_scale: VELOCITY_SCALE,
                },
            );
            k = k + 1;
        }
        r
    }

    pub open spec fn spec_speed(self, ramp: i64) -> i64 {
        if self.speed {
            (BASE_SPEED + ramp) as i64
        } else {
            BASE_SPEED
        }
    }

    /// The scroll speed of this tick: the base speed, plus `ramp` when the
    /// speed ramps up.
    pub fn get_speed(&self, ramp: i64) -> (r: i64)
        requires
            0 <= ramp <= MAX_RAMP,
        ensures
            r == self.spec_speed(ramp),
            BASE_SPEED <= r <= BASE_SPEED + MAX_RAMP,
    {
        let mut result = BASE_SPEED;
        if self.speed {
            result = result + ramp;
        }
        result
    }

    /// Scrolls every pipe left by the speed of this tick. When the first
    /// pipe has gone off the left edge it is dropped, a new one is placed at
    /// random after the last, and the pass count goes up by one.
    pub fn move_pipes(&mut self, ramp: i64)
        requires
            old(self).structure_wf(),
            old(self).pipes@.len() == PIPE_COUNT,
            0 <= ramp <= MAX_RAMP,
            old(self).current_score < u64::MAX,
        ensures
            scrolled(
                old(self).pipes@,
                final(self).pipes@,
                old(self).spec_speed(ramp),
                old(self).width,
                old(self).height,
                old(self).hole_size,
            ),
            final(self).current_score == old(self).current_score + if recycles(
                old(self).pipes@,
                old(self).spec_speed(ramp),
            ) {
                1int
            } else {
                0int
            },
            final(self).structure_wf(),
            final(self).birds == old(self).birds,
            final(self).scores == old(self).scores,
            final(self).player == old(self).player,
            final(self).keeps_settings(*old(self)),
            final(self).ticks == old(self).ticks,
            final(self).started == old(self).started,
    {
        let speed = self.get_speed(ramp);
        let ghost moved = moved_pipes(old(self).pipes@, speed);
        let mut pipes: Vec<Pipe> = Vec::new();
        let mut i: usize = 0;
        while i < self.pipes.len()
            invariant
                self.structure_wf(),
                self.pipes@ == old(self).pipes@,
                self.pipes@.len() == PIPE_COUNT,
                BASE_SPEED <= speed <= BASE_SPEED + MAX_RAMP,
                moved == moved_pipes(old(self).pipes@, speed),
                0 <= i <= PIPE_COUNT,
                pipes@ == moved.take(i as int),
            decreases PIPE_COUNT - i,
        {
            let mut p = self.pipes[i];
            proof {
                lemma_pipe_offset(self.pipes@, i as int);
            }
            p.move_left(speed);
            pipes.push(p);
            assert(pipes@ =~= moved.take(i as int + 1));
            i = i + 1;
        }
        assert(pipes@ =~= moved);
        self.pipes = pipes;
        if self.pipes[0].x <= -WIDTH {
            self.pipes.remove(0);
            assert(self.pipes@ =~= moved.drop_first());
            assert forall|q: int| 0 < q < self.pipes@.len() implies #[trigger] self.pipes@[q].x == self.pipes@[q - 1].x + SPACING by {
                assert(self.pipes@[q] == moved[q + 1]);
                assert(self.pipes@[q - 1] == moved[q]);
            }
            self.add_pipe();
            self.current_score = self.current_score + 1;
        }
    }

    /// Applies one tick of gravity to every live bird and to the player's.
    pub fn apply_birds_velocity(&mut self)
        requires
            old(self).structure_wf(),
            all_within(old(self).birds@, old(self).player, 2 * MAX_DIMENSION),
        ensures
            final(self).birds@ == fallen_birds(old(self).birds@),
            final(self).player == fallen_player(old(self).player),
            final(self).structure_wf(),
            final(self).pipes == old(self).pipes,
            final(self).scores == old(self).scores,
            final(self).keeps_settings(*old(self)),
            final(self).ticks == old(self).ticks,
            final(self).current_score == old(self).current_score,
            final(self).started == old(self).started,
    {
        let ghost target = fallen_birds(old(self).birds@);
        let mut birds: Vec<Bird> = Vec::new();
        let mut k: usize = 0;
        while k < self.birds.len()
            invariant
                self.birds@ == old(self).birds@,
                target == fallen_birds(old(self).birds@),
                forall|m: int| 0 <= m < self.birds@.len() ==> (#[trigger] self.birds@[m]).within(2 * MAX_DIMENSION),
                0 <= k <= self.birds@.len(),
                birds@ == target.take(k as int),
            decreases self.birds@.len() - k,
        {
            let mut b = self.birds[k];
            b.y_velocity();
            birds.push(b);
            assert(birds@ =~= target.take(k as int + 1));
            k = k + 1;
        }
        assert(birds@ =~= target);
        self.birds = birds;
        if let Some(p) = &mut self.player {
            p.y_velocity();
        }
        proof {
            assert forall|a: int, b: int|
                0 <= a < target.len() && 0 <= b < target.len() && a != b implies #[trigger] target[a].index
                != #[trigger] target[b].index by {
                assert(old(self).birds@[a].index != old(self).birds@[b].index);
            }
            assert forall|k: int| 0 <= k < target.len() implies {
                &&& (#[trigger] target[k]).index < self.scores@.len()
                &&& self.scores@[target[k].index as int] == 0
            } by {
                assert(target[k].index == old(self).birds@[k].index);
            }
        }
    }

    /// Scrolls the pipes and then applies gravity to the birds.
    pub fn game_logic(&mut self, ramp: i64)
        requires
            old(self).structure_wf(),
            old(self).pipes@.len() == PIPE_COUNT,
            0 <= ramp <= MAX_RAMP,
            old(self).current_score < u64::MAX,
            all_within(old(self).birds@, old(self).player, 2 * MAX_DIMENSION),
        ensures
            scrolled(
                old(self).pipes@,
                final(self).pipes@,
                old(self).spec_speed(ramp),
                old(self).width,
                old(self).height,
                old(self).hole_size,
            ),
            final(self).current_score == old(self).current_score + if recycles(
                old(self).pipes@,
                old(self).spec_speed(ramp),
            ) {
                1int
            } else {
                0int
            },
            final(self).birds@ == fallen_birds(old(self).birds@),
            final(self).player == fallen_player(old(self).player),
            final(self).structure_wf(),
            final(self).scores == old(self).scores,
            final(self).keeps_settings(*old(self)),
            final(self).ticks == old(self).ticks,
            final(self).started == old(self).started,
    {
        self.move_pipes(ramp);
        self.apply_birds_velocity();
    }

    /// Carries out the decision of every live bird, `jumps[k]` for
    /// `birds[k]`, and, when the human player is in the game, reads its
    /// input and jumps on a press.
    pub fn make_decisions(&mut self, jumps: &Vec<bool>, input: &mut PlayerHandler)
        requires
            old(self).wf(),
            jumps@.len() == old(self).birds@.len(),
        ensures
            final(self).birds@ == decided_birds(old(self).birds@, jumps@, old(self).game_type),
            old(self).player is Some ==> {
                &&& final(self).player == decided_player(old(self).player, old(self).game_type, old(input).read().0)
                &&& *final(input) == old(input).read().1
            },
            old(self).player is None ==> final(self).player is None && *final(input) == *old(input),
            final(self).structure_wf(),
            final(self).pipes == old(self).pipes,
            final(self).scores == old(self).scores,
            final(self).keeps_settings(*old(self)),
            final(self).ticks == old(self).ticks,
            final(self).current_score == old(self).current_score,
            final(self).started == old(self).started,
    {
        let ghost target = decided_birds(old(self).birds@, jumps@, old(self).game_type);
        let mut birds: Vec<Bird> = Vec::new();
        let mut k: usize = 0;
        while k < self.birds.len()
            invariant
                self.birds@ == old(self).birds@,
                self.game_type == old(self).game_type,
                jumps@.len() == self.birds@.len(),
                target == decided_birds(old(self).birds@, jumps@, old(self).game_type),
                forall|m: int| 0 <= m < self.birds@.len() ==> (#[trigger] self.birds@[m]).in_range(),
                0 <= k <= self.birds@.len(),
                birds@ == target.take(k as int),
            decreases self.birds@.len() - k,
        {
            let mut b = self.birds[k];
            b.make_decision(self.game_type, jumps[k]);
            birds.push(b);
            assert(birds@ =~= target.take(k as int + 1));
            k = k + 1;
        }
        assert(birds@ =~= target);
        self.birds = birds;
        let game_type = self.game_type;
        if let Some(p) = &mut self.player {
            let pressed = input.is_pressed();
            p.make_decision(game_type, pressed);
        }
        proof {
            assert forall|a: int, b: int|
                0 <= a < target.len() && 0 <= b < target.len() && a != b implies #[trigger] target[a].index
                != #[trigger] target[b].index by {
                assert(old(self).birds@[a].index != old(self).birds@[b].index);
            }
            assert forall|k: int| 0 <= k < target.len() implies {
                &&& (#[trigger] target[k]).index < self.scores@.len()
                &&& self.scores@[target[k].index as int] == 0
            } by {
                assert(target[k].index == old(self).birds@[k].index);
            }
        }
    }

    /// Removes every bird, and the player's, that the pipe `index` does not
    /// spare, and records the current tick as the score of each bird
    /// removed.
    pub fn handle_pipe_collision(&mut self, index: usize)
        requires
            old(self).structure_wf(),
            index < old(self).pipes@.len(),
            all_within(old(self).birds@, old(self).player, 4 * MAX_DIMENSION),
        ensures
            final(self).birds@ == survivors(old(self).birds@, Hazard::Obstacle { pipe: old(self).pipes@[index as int] }),
            final(self).player == spared_player(old(self).player, Hazard::Obstacle { pipe: old(self).pipes@[index as int] }),
            final(self).scores@.len() == old(self).scores@.len(),
            forall|j: int|
                0 <= j < old(self).scores@.len() ==> #[trigger] final(self).scores@[j] == if old(self).live(j)
                    && !final(self).live(j) {
                    old(self).ticks
                } else {
                    old(self).scores@[j]
                },
            forall|j: int| final(self).live(j) ==> old(self).live(j),
            final(self).structure_wf(),
            final(self).pipes == old(self).pipes,
            final(self).keeps_settings(*old(self)),
            final(self).ticks == old(self).ticks,
            final(self).current_score == old(self).current_score,
            final(self).started == old(self).started,
    {
        let hazard = Hazard::Obstacle { pipe: self.pipes[index] };
        self.eliminate_by(&hazard);
    }

    /// Removes every bird, and the player's, that `hazard` does not spare,
    /// and records the current tick as the score of each bird removed.
    fn eliminate_by(&mut self, hazard: &Hazard)
        requires
            old(self).structure_wf(),
            hazard.bounded(),
            all_within(old(self).birds@, old(self).player, 4 * MAX_DIMENSION),
        ensures
            final(self).birds@ == survivors(old(self).birds@, *hazard),
            final(self).player == spared_player(old(self).player, *hazard),
            final(self).scores@.len() == old(self).scores@.len(),
            forall|j: int|
                0 <= j < old(self).scores@.len() ==> #[trigger] final(self).scores@[j] == if old(self).live(j)
                    && !final(self).live(j) {
                    old(self).ticks
                } else {
                    old(self).scores@[j]
                },
            forall|j: int| final(self).live(j) ==> old(self).live(j),
            final(self).structure_wf(),
            final(self).pipes == old(self).pipes,
            final(self).keeps_settings(*old(self)),
            final(self).ticks == old(self).ticks,
            final(self).current_score == old(self).current_score,
            final(self).started == old(self).started,
    {
        let tick = self.ticks;
        eliminate(&mut self.birds, &mut self.scores, hazard, tick);
        let spared = match &self.player {
            Some(p) => hazard.spares_bird(p),
            None => true,
        };
        if !spared {
            self.player = None;
        }
        proof {
            lemma_survivors(old(self).birds@, *hazard);
            let s = self.birds@;
            assert forall|k: int| 0 <= k < s.len() implies {
                &&& (#[trigger] s[k]).index < self.scores@.len()
                &&& self.scores@[s[k].index as int] == 0
            } by {
                let j = s[k].index as int;
                assert(self.live(j));
                assert(old(self).live(j));
                let m = choose|m: int| 0 <= m < old(self).birds@.len() && #[trigger] old(self).birds@[m].index == j;
                assert(old(self).birds@[m].index < old(self).scores@.len());
            }
            assert forall|j: int| 0 <= j < self.scores@.len() implies #[trigger] self.scores@[j] <= self.ticks by {
                assert(old(self).scores@[j] <= old(self).ticks);
            }
        }
    }

    /// Runs the collision checks of a tick: the playfield's bounds, then
    /// the first two pipes. Each bird removed scores the current tick; the
    /// tick count then goes up by one.
    pub fn handle_collisions(&mut self)
        requires
            old(self).structure_wf(),
            old(self).pipes@.len() == PIPE_COUNT,
            all_within(old(self).birds@, old(self).player, 4 * MAX_DIMENSION),
            old(self).ticks < u64::MAX,
        ensures
            final(self).birds@ == tick_survivors(old(self).birds@, old(self).height, old(self).pipes@),
            final(self).player == tick_player(old(self).player, old(self).height, old(self).pipes@),
            final(self).scores@.len() == old(self).scores@.len(),
            forall|j: int|
                0 <= j < old(self).scores@.len() ==> #[trigger] final(self).scores@[j] == if old(self).live(j)
                    && !final(self).live(j) {
                    old(self).ticks
                } else {
                    old(self).scores@[j]
                },
            forall|j: int| final(self).live(j) ==> old(self).live(j),
            final(self).ticks == old(self).ticks + 1,
            forall|j: int| 0 <= j < final(self).scores@.len() ==> #[trigger] final(self).scores@[j] < final(self).ticks,
            final(self).structure_wf(),
            final(self).pipes == old(self).pipes,
            final(self).keeps_settings(*old(self)),
            final(self).current_score == old(self).current_score,
            final(self).started == old(self).started,
    {
        let bounds = Hazard::Bounds { height: self.height };
        self.eliminate_by(&bounds);
        let ghost s1 = self.scores@;
        let ghost g1 = *self;
        proof {
            lemma_survivors(old(self).birds@, bounds);
        }
        self.handle_pipe_collision(0);
        let ghost s2 = self.scores@;
        let ghost g2 = *self;
        proof {
            lemma_survivors(g1.birds@, Hazard::Obstacle { pipe: g1.pipes@[0] });
        }
        self.handle_pipe_collision(1);
        proof {
            lemma_survivors(g2.birds@, Hazard::Obstacle { pipe: g2.pipes@[1] });
            assert forall|j: int|
                0 <= j < old(self).scores@.len() implies #[trigger] self.scores@[j] == if old(self).live(j)
                    && !self.live(j) {
                    old(self).ticks
                } else {
                    old(self).scores@[j]
                } by {
                assert(s1[j] == if old(self).live(j) && !g1.live(j) { old(self).ticks } else { old(self).scores@[j] });
                assert(s2[j] == if g1.live(j) && !g2.live(j) { old(self).ticks } else { s1[j] });
            }
        }
        self.ticks = self.ticks + 1;
        proof {
            assert forall|j: int| 0 <= j < self.scores@.len() implies #[trigger] self.scores@[j] <= self.ticks by {
                assert(g2.scores@[j] <= old(self).ticks);
            }
        }
    }

    /// Reads the player's input while the game waits for it, and starts the
    /// game on a press.
    pub fn check_started(&mut self, input: &mut PlayerHandler) -> (r: bool)
        ensures
            (r, *final(input)) == old(input).read(),
            final(self).started == (old(self).started || r),
            final(self).pipes == old(self).pipes,
            final(self).birds == old(self).birds,
            final(self).scores == old(self).scores,
            final(self).player == old(self).player,
            final(self).keeps_settings(*old(self)),
            final(self).ticks == old(self).ticks,
            final(self).current_score == old(self).current_score,
    {
        let started = input.is_pressed();
        if started {
            self.started = true;
        }
        started
    }

    /// Whether the generation is over: no bird of the population lives, and
    /// no human player is left.
    pub fn ended(&self) -> (r: bool)
        ensures
            r == (self.birds@.len() == 0 && self.player is None),
    {
        self.birds.len() == 0 && self.player.is_none()
    }

    /// Runs one tick of a started game: every live bird carries out its
    /// decision, `jumps[k]` for `birds[k]`, and the player's bird jumps on a
    /// press; the pipes scroll at the speed that `ramp` gives; gravity acts;
    /// the collision checks remove the birds they do not spare, each scoring
    /// the current tick; and the tick count goes up by one.
    pub fn tick(&mut self, jumps: &Vec<bool>, input: &mut PlayerHandler, ramp: i64)
        requires
            old(self).ready(),
            old(self).started,
            jumps@.len() == old(self).birds@.len(),
            0 <= ramp <= MAX_RAMP,
            old(self).ticks < u64::MAX,
            old(self).current_score < u64::MAX,
        ensures
            final(self).ready(),
            scrolled(
                old(self).pipes@,
                final(self).pipes@,
                old(self).spec_speed(ramp),
                old(self).width,
                old(self).height,
                old(self).hole_size,
            ),
            final(self).current_score == old(self).current_score + if recycles(
                old(self).pipes@,
                old(self).spec_speed(ramp),
            ) {
                1int
            } else {
                0int
            },
            final(self).birds@ == tick_survivors(
                fallen_birds(decided_birds(old(self).birds@, jumps@, old(self).game_type)),
                old(self).height,
                final(self).pipes@,
            ),
            old(self).player is Some ==> {
                &&& final(self).player == tick_player(
                    fallen_player(decided_player(old(self).player, old(self).game_type, old(input).read().0)),
                    old(self).height,
                    final(self).pipes@,
                )
                &&& *final(input) == old(input).read().1
            },
            old(self).player is None ==> final(self).player is None && *final(input) == *old(input),
            final(self).scores@.len() == old(self).scores@.len(),
            forall|j: int|
                0 <= j < old(self).scores@.len() ==> #[trigger] final(self).scores@[j] == if old(self).live(j)
                    && !final(self).live(j) {
                    old(self).ticks
                } else {
                    old(self).scores@[j]
                },
            forall|j: int|
                0 <= j < old(self).scores@.len() && !old(self).live(j) ==> !final(self).live(j)
                    && #[trigger] final(self).scores@[j] == old(self).scores@[j],
            final(self).ticks == old(self).ticks + 1,
            forall|j: int| 0 <= j < final(self).scores@.len() ==> #[trigger] final(self).scores@[j] < final(self).ticks,
            final(self).keeps_settings(*old(self)),
            final(self).started == old(self).started,
    {
        self.make_decisions(jumps, input);
        let ghost decided = self.birds@;
        proof {
            assert forall|k: int| 0 <= k < decided.len() implies (#[trigger] decided[k]).within(2 * MAX_DIMENSION) by {
                assert(old(self).birds@[k].in_range());
            }
        }
        self.game_logic(ramp);
        let ghost fallen = self.birds@;
        proof {
            assert forall|k: int| 0 <= k < fallen.len() implies (#[trigger] fallen[k]).within(4 * MAX_DIMENSION) by {
                assert(decided[k].within(2 * MAX_DIMENSION));
            }
        }
        proof {
            assert forall|j: int| has_index(fallen, j) == old(self).live(j) by {
                if has_index(fallen, j) {
                    let q = choose|q: int| 0 <= q < fallen.len() && #[trigger] fallen[q].index == j;
                    assert(old(self).birds@[q].index == j);
                }
                if old(self).live(j) {
                    let q = choose|q: int| 0 <= q < old(self).birds@.len() && #[trigger] old(self).birds@[q].index == j;
                    assert(fallen[q].index == j);
                }
            }
        }
        self.handle_collisions();
        proof {
            let h0 = Hazard::Bounds { height: self.height };
            let s1 = survivors(fallen, h0);
            let s2 = survivors(s1, Hazard::Obstacle { pipe: self.pipes@[0] });
            let s3 = self.birds@;
            lemma_survivors(fallen, h0);
            lemma_survivors(s1, Hazard::Obstacle { pipe: self.pipes@[0] });
            lemma_survivors(s2, Hazard::Obstacle { pipe: self.pipes@[1] });
            assert forall|k: int| 0 <= k < s3.len() implies (#[trigger] s3[k]).in_range() by {
                let b = s3[k];
                assert(s2.contains(b));
                let i2 = choose|i: int| 0 <= i < s2.len() && s2[i] == b;
                assert(s1.contains(s2[i2]));
                let i1 = choose|i: int| 0 <= i < s1.len() && s1[i] == b;
                fallen.lemma_filter_pred(h0.spares_fn(), i1);
                assert(h0.spares(b));
                assert(fallen.contains(s1[i1]));
                let q = choose|i: int| 0 <= i < fallen.len() && fallen[i] == b;
                assert(old(self).birds@[q].in_range());
                assert(fallen[q] == decided[q].fallen());
            }
            assert forall|j: int|
                0 <= j < old(self).scores@.len() && !old(self).live(j) implies !self.live(j)
                    && #[trigger] self.scores@[j] == old(self).scores@[j] by {
                if self.live(j) {
                    let m = choose|m: int| 0 <= m < s3.len() && #[trigger] s3[m].index == j;
                    assert(has_index(fallen, j));
                    let q = choose|q: int| 0 <= q < fallen.len() && #[trigger] fallen[q].index == j;
                    assert(old(self).birds@[q].index == j);
                }
            }
        }
    }
}

/// The pipe that the birds face next is well defined on every tick: it is
/// the first pipe of the window not yet passed, and every pipe before it
/// has been passed.
pub proof fn lemma_current_obstacle(g: Game)
    requires
        g.ready(),
    ensures
        0 <= g.spec_first_pipe() < g.pipes@.len(),
        !g.pipes@[g.spec_first_pipe()].passed(),
        forall|j: int| 0 <= j < g.spec_first_pipe() ==> g.pipes@[j].passed(),
{
    assert(g.pipes@[1].x == g.pipes@[0].x + SPACING);
}

/// The bounds check is inclusive: a bird whose edge just touches the top
/// or the bottom of the playfield survives it.
pub proof fn lemma_bounds_inclusive(height: i64, b: Bird)
    requires
        2 * RADIUS <= height,
        b.y == RADIUS || b.y == height - RADIUS,
    ensures
        (Hazard::Bounds { height }).spares(b),
        b.y == RADIUS ==> !(Hazard::Bounds { height }).spares(Bird { y: (b.y - 1) as i64, ..b }),
        b.y == height - RADIUS ==> !(Hazard::Bounds { height }).spares(Bird { y: (b.y + 1) as i64, ..b }),
{
}

/// A bird comes through the checks of a tick exactly when it was among
/// `birds` and the bounds and both of the first two pipes spare it: the
/// checks add no bird and bring none back.
pub proof fn lemma_tick_survivors(birds: Seq<Bird>, height: i64, pipes: Seq<Pipe>, b: Bird)
    requires
        pipes.len() >= 2,
    ensures
        tick_survivors(birds, height, pipes).contains(b) <==> {
            &&& birds.contains(b)
            &&& (Hazard::Bounds { height }).spares(b)
            &&& (Hazard::Obstacle { pipe: pipes[0] }).spares(b)
            &&& (Hazard::Obstacle { pipe: pipes[1] }).spares(b)
        },
{
    let h0 = Hazard::Bounds { height };
    let h1 = Hazard::Obstacle { pipe: pipes[0] };
    let h2 = Hazard::Obstacle { pipe: pipes[1] };
    let s1 = survivors(birds, h0);
    let s2 = survivors(s1, h1);
    lemma_survivor_contains(birds, h0, b);
    lemma_survivor_contains(s1, h1, b);
    lemma_survivor_contains(s2, h2, b);
}

/// A bird is among the survivors of a check exactly when it is among
/// `birds` and the check spares it.
pub proof fn lemma_survivor_contains(birds: Seq<Bird>, hazard: Hazard, b: Bird)
    ensures
        survivors(birds, hazard).contains(b) <==> birds.contains(b) && hazard.spares(b),
{
    let pred = hazard.spares_fn();
    let s = survivors(birds, hazard);
    if s.contains(b) {
        birds.lemma_filter_contains_rev(pred, b);
        let i = choose|i: int| 0 <= i < s.len() && s[i] == b;
        birds.lemma_filter_pred(pred, i);
    }
    if birds.contains(b) && hazard.spares(b) {
        let i = choose|i: int| 0 <= i < birds.len() && birds[i] == b;
        birds.lemma_filter_contains(pred, i);
    }
}

/// A check that spares every bird of `birds` keeps them all, in order.
pub proof fn lemma_survivors_all(birds: Seq<Bird>, hazard: Hazard)
    requires
        forall|i: int| 0 <= i < birds.len() ==> hazard.spares(#[trigger] birds[i]),
    ensures
        survivors(birds, hazard) == birds,
    decreases birds.len(),
{
    reveal(Seq::filter);
    if birds.len() > 0 {
        let rest = birds.drop_last();
        assert forall|i: int| 0 <= i < rest.len() implies hazard.spares(#[trigger] rest[i]) by {
            assert(rest[i] == birds[i]);
        }
        lemma_survivors_all(rest, hazard);
        assert(hazard.spares(birds[birds.len() - 1]));
        assert(rest.push(birds.last()) =~= birds);
    }
}

/// While neither of the first two pipes overlaps the birds, only the
/// bounds of the playfield remove birds, and a bird whose edge touches the
/// top or the bottom stays.
pub proof fn lemma_bounds_only(birds: Seq<Bird>, height: i64, pipes: Seq<Pipe>)
    requires
        pipes.len() >= 2,
        !pipes[0].overlaps_birds(),
        !pipes[1].overlaps_birds(),
    ensures
        tick_survivors(birds, height, pipes) == survivors(birds, Hazard::Bounds { height }),
{
    let s1 = survivors(birds, Hazard::Bounds { height });
    lemma_survivors_all(s1, Hazard::Obstacle { pipe: pipes[0] });
    lemma_survivors_all(s1, Hazard::Obstacle { pipe: pipes[1] });
}

} // verus!
