use vstd::prelude::*;
use crate::bird::{Bird, UNITS_PER_PIXEL};
use crate::config::{ConfigError, GameParams, GameType};
use crate::game::{first_gap_fits, gap_placed, layout, valid_draw, Game, PIPE_COUNT};

verus! {

/// Largest width or height of a playfield, in pixels: the largest
/// dimension of a game, [`crate::bird::MAX_DIMENSION`] units.
pub const MAX_PIXELS: i64 = 8388608;

/// The state that a trainer keeps from one generation to the next.
pub struct TrainingSimulation {
    /// Width of the playfield, in pixels.
    pub width: i64,
    /// Height of the playfield, in pixels.
    pub height: i64,
    pub params: GameParams,
    /// Number of the next generation.
    pub generation: usize,
    /// Number of species in the population, shown to the player.
    pub species_count: usize,
}

impl TrainingSimulation {
    pub open spec fn wf(self) -> bool {
        &&& 0 < self.width <= MAX_PIXELS
        &&& 0 < self.height <= MAX_PIXELS
    }

    /// A trainer at its first generation, with one species.
    pub fn new(width: i64, height: i64, params: GameParams) -> (r: TrainingSimulation)
        requires
            0 < width <= MAX_PIXELS,
            0 < height <= MAX_PIXELS,
        ensures
            r.wf(),
            r.width == width,
            r.height == height,
            r.params == params,
            r.generation == 0,
            r.species_count == 1,
    {
        TrainingSimulation { width, height, params, generation: 0, species_count: 1 }
    }

    /// Whether the gap of the pipes, in pixels, fits a playfield of the
    /// given height.
    pub open spec fn valid_hole(hole_size: i32, height: i64) -> bool {
        0 <= hole_size && hole_size < height
    }

    /// Starts the next generation with a population of `population` birds,
    /// and a human player if `player` holds; `speed` makes the scroll speed
    /// ramp up. The generation number goes up whether or not the settings
    /// are valid: an unknown game type, or a gap that does not fit the
    /// playfield, is an error.
    pub fn start_generation(&mut self, population: usize, player: bool, speed: bool) -> (r: Result<Game, ConfigError>)
        requires
            old(self).wf(),
            old(self).generation < usize::MAX,
        ensures
            final(self).generation == old(self).generation + 1,
            final(self).width == old(self).width,
            final(self).height == old(self).height,
            final(self).params == old(self).params,
            final(self).species_count == old(self).species_count,
            final(self).wf(),
            !GameType::is_known_id(old(self).params.game_type) ==> r == Err::<Game, ConfigError>(
                ConfigError::UnknownGameType(old(self).params.game_type),
            ),
            GameType::is_known_id(old(self).params.game_type) && !Self::valid_hole(
                old(self).params.hole_size,
                old(self).height,
            ) ==> r == Err::<Game, ConfigError>(ConfigError::InvalidHoleSize(old(self).params.hole_size)),
            r is Ok <==> (GameType::is_known_id(old(self).params.game_type) && Self::valid_hole(
                old(self).params.hole_size,
                old(self).height,
            )),
            r matches Ok(g) ==> {
                &&& g.ready()
                &&& exists|draws: Seq<i64>|
                    {
                        &&& draws.len() == PIPE_COUNT
                        &&& forall|i: int|
                            0 <= i < draws.len() ==> valid_draw(
                                #[trigger] draws[i] as int,
                                g.height,
                                g.hole_size,
                            )
                        &&& g.pipes@ == layout(draws, g.width, g.height, g.hole_size)
                    }
                &&& forall|i: int|
                    0 <= i < g.pipes@.len() ==> gap_placed(
                        #[trigger] g.pipes@[i],
                        i == 0,
                        g.height,
                        g.hole_size,
                    )
                &&& first_gap_fits(g.height, g.hole_size)
                &&& g.game_type.spec_id() == old(self).params.game_type
                &&& g.width == old(self).width * UNITS_PER_PIXEL
                &&& g.height == old(self).height * UNITS_PER_PIXEL
                &&& g.hole_size == old(self).params.hole_size * UNITS_PER_PIXEL
                &&& g.render_count == old(self).params.render_count
                &&& g.species_count == old(self).species_count
                &&& g.generation == old(self).generation
                &&& g.speed == speed
                &&& g.birds@ == Seq::new(population as nat, |i: int| Bird::fresh(i as usize))
                &&& g.scores@ == Seq::new(population as nat, |i: int| 0u64)
                &&& g.ticks == 0
                &&& g.current_score == 0
                &&& g.started == !player
                &&& g.player == if player {
                    Some(Bird::fresh(usize::MAX))
                } else {
                    None::<Bird>
                }
            },
    {
        let generation = self.generation;
        self.generation = self.generation + 1;
        let game_type = match GameType::from_id(self.params.game_type) {
            Ok(t) => t,
            Err(e) => {
                return Err(e);
            },
        };
        let hole_size = self.params.hole_size;
        if hole_size < 0 || hole_size as i64 >= self.height {
            return Err(ConfigError::InvalidHoleSize(hole_size));
        }
        let mut game = Game::new(
            game_type,
            self.width * UNITS_PER_PIXEL,
            self.height * UNITS_PER_PIXEL,
            self.params.render_count,
            self.species_count,
            generation,
            hole_size as i64 * UNITS_PER_PIXEL,
            player,
            speed,
        );
        game.init(population);
        proof {
            let h = self.height as int;
            let k = hole_size as int;
            assert(4 * (3 * (2 * h) / 4) > 2 * h + 2 * (2 * k)) by (nonlinear_arith)
                requires 0 <= k < h;
        }
        Ok(game)
    }
}

} // verus!
