//! The simulation state as one owned value, and the commands that change it
//! between ticks.
//!
//! A command is applied as a whole or not at all. What it does to the live
//! particles is the host's to carry out: the library tells it whether they
//! may stay. A palette regeneration renumbers the color classes, so the
//! particles that carry old class numbers have to go, and the host is told to
//! respawn all of them.

use crate::engine::{is_tick_outcome, tick, tick_succeeds, Particle, TickError};
use crate::matrix::{is_behavior_matrix, BehaviorMatrix};
use crate::palette::{is_palette, ColorPalette};
use crate::params::{
    doubled, generated_shape, halved, ParametersModel, RadiusProfile, SimulationParameters,
    BASE_SPEED,
};
use crate::random::{random_in_range, random_index};
use vstd::prelude::*;

verus! {

/// The state as mathematical values.
pub struct StateModel {
    pub palette: Seq<usize>,
    pub table_len: nat,
    pub matrix: Seq<Seq<i64>>,
    pub params: ParametersModel,
    pub profile: RadiusProfile,
}

impl StateModel {
    /// Palette, matrix and parameters are each well formed, and the matrix
    /// has a row and a column for every class of the palette and no other.
    pub open spec fn valid(self) -> bool {
        &&& is_palette(self.palette, self.table_len)
        &&& is_behavior_matrix(self.matrix)
        &&& self.matrix.len() == self.palette.len()
        &&& self.params.valid()
    }
}

/// What the host may ask for between two ticks.
#[derive(Clone, Copy, Debug, PartialEq, Eq, Structural)]
pub enum Command {
    /// Draw every affinity anew; the classes stay.
    RegenerateBehaviorMatrix,
    /// Draw `beta`, `gamma` and the attraction radius anew.
    RegenerateShapeConstants,
    /// Replace the palette by a fresh one of this many classes, and the
    /// matrix by a fresh one of that size.
    RegeneratePalette(usize),
    /// Double the speed.
    DoubleSpeed,
    /// Halve the speed.
    HalveSpeed,
}

/// What the host has to do with the live particles after a command.
#[derive(Clone, Copy, Debug, PartialEq, Eq, Structural)]
pub enum Effect {
    /// Nothing: their color classes mean what they meant before.
    KeepParticles,
    /// Remove all of them and spawn new ones: the color classes were
    /// renumbered.
    RespawnParticles,
}

/// Why a command was refused. A refused command has changed nothing.
#[derive(Clone, Copy, Debug, PartialEq, Eq, Structural)]
pub enum CommandError {
    /// The palette cannot have this many classes: none, or more than the
    /// host's table has colors.
    ColorCountOutOfRange,
}

/// The state can carry out the command.
pub open spec fn accepts(before: StateModel, command: Command) -> bool {
    command matches Command::RegeneratePalette(count) ==> 1 <= count <= before.table_len
}

/// `after` (with `effect`) is a state that the command may leave behind when
/// applied to `before`. The speed commands fix `after` completely; the
/// regenerations fix everything but the values drawn at random, of which this
/// says where they lie.
pub open spec fn is_step(
    before: StateModel,
    command: Command,
    after: StateModel,
    effect: Effect,
) -> bool {
    match command {
        Command::DoubleSpeed => {
            &&& after == (StateModel {
                params: ParametersModel { speed: doubled(before.params.speed), ..before.params },
                ..before
            })
            &&& effect == Effect::KeepParticles
        },
        Command::HalveSpeed => {
            &&& after == (StateModel {
                params: ParametersModel { speed: halved(before.params.speed), ..before.params },
                ..before
            })
            &&& effect == Effect::KeepParticles
        },
        Command::RegenerateShapeConstants => {
            &&& after == (StateModel { params: after.params, ..before })
            &&& after.params.speed == before.params.speed
            &&& generated_shape(after.params, before.profile)
            &&& effect == Effect::KeepParticles
        },
        Command::RegenerateBehaviorMatrix => {
            &&& after == (StateModel { matrix: after.matrix, ..before })
            &&& is_behavior_matrix(after.matrix)
            &&& after.matrix.len() == before.matrix.len()
            &&& effect == Effect::KeepParticles
        },
        Command::RegeneratePalette(count) => {
            &&& after == (StateModel { palette: after.palette, matrix: after.matrix, ..before })
            &&& is_palette(after.palette, before.table_len)
            &&& after.palette.len() == count
            &&& is_behavior_matrix(after.matrix)
            &&& after.matrix.len() == count
            &&& effect == Effect::RespawnParticles
        },
    }
}

/// A command that the state accepts leaves a valid state behind.
pub proof fn lemma_step_keeps_validity(
    before: StateModel,
    command: Command,
    after: StateModel,
    effect: Effect,
)
    requires
        before.valid(),
        accepts(before, command),
        is_step(before, command, after, effect),
    ensures
        after.valid(),
{
}

/// Only a palette regeneration makes the host respawn the particles; after
/// every other command each class that a particle may carry is still a class
/// of the matrix.
pub proof fn lemma_classes_survive(
    before: StateModel,
    command: Command,
    after: StateModel,
    effect: Effect,
)
    requires
        is_step(before, command, after, effect),
    ensures
        effect == Effect::RespawnParticles <==> command is RegeneratePalette,
        effect == Effect::KeepParticles ==> after.matrix.len() == before.matrix.len()
            && after.palette == before.palette,
{
}

/// Palette, behavior matrix and parameters of one simulation. Every value of
/// this type is valid in the sense of `StateModel::valid`.
#[derive(Debug)]
pub struct SimulationState {
    palette: ColorPalette,
    matrix: BehaviorMatrix,
    params: SimulationParameters,
    profile: RadiusProfile,
}

impl View for SimulationState {
    type V = StateModel;

    closed spec fn view(&self) -> StateModel {
        StateModel {
            palette: self.palette@,
            table_len: self.palette.table_size(),
            matrix: self.matrix@,
            params: self.params@,
            profile: self.profile,
        }
    }
}

impl SimulationState {
    #[verifier::type_invariant]
    pub open spec fn well_formed(self) -> bool {
        self@.valid()
    }

    /// A fresh state: a palette of `min_colors ..= max_colors` classes picked
    /// at random from a table of `table_len` colors, a random matrix for
    /// them, the base speed and random shape constants.
    pub fn generate(
        table_len: usize,
        min_colors: usize,
        max_colors: usize,
        profile: RadiusProfile,
    ) -> (state: Self)
        requires
            1 <= min_colors <= max_colors <= table_len,
        ensures
            state@.valid(),
            state@.table_len == table_len,
            min_colors <= state@.palette.len() <= max_colors,
            state@.profile == profile,
            state@.params.speed == BASE_SPEED,
            generated_shape(state@.params, profile),
    {
        let palette: ColorPalette = ColorPalette::generate(table_len, min_colors, max_colors);
        let matrix: BehaviorMatrix = BehaviorMatrix::random(palette.len());
        let params: SimulationParameters = SimulationParameters::init(profile);
        SimulationState { palette, matrix, params, profile }
    }

    /// Puts a state together from its parts, if they fit: the matrix must
    /// have exactly the classes of the palette.
    pub fn from_parts(
        palette: ColorPalette,
        matrix: BehaviorMatrix,
        params: SimulationParameters,
        profile: RadiusProfile,
    ) -> (r: Option<Self>)
        ensures
            r is Some <==> matrix@.len() == palette@.len(),
            r matches Some(state) ==> state@ == (StateModel {
                palette: palette@,
                table_len: palette.table_size(),
                matrix: matrix@,
                params: params@,
                profile,
            }) && state@.valid(),
    {
        proof {
            use_type_invariant(&palette);
            use_type_invariant(&matrix);
            use_type_invariant(&params);
        }
        if matrix.size() == palette.len() {
            Some(SimulationState { palette, matrix, params, profile })
        } else {
            None
        }
    }

    /// Applies a command. On `Ok` the state has taken the step that the
    /// command stands for, and the effect tells the host what to do with the
    /// live particles; on `Err` nothing has changed.
    pub fn apply(&mut self, command: Command) -> (r: Result<Effect, CommandError>)
        ensures
            r is Ok <==> accepts(old(self)@, command),
            r matches Ok(effect) ==> is_step(old(self)@, command, final(self)@, effect),
            r is Err ==> final(self)@ == old(self)@,
            final(self)@.valid(),
    {
        proof {
            use_type_invariant(&*self);
        }
        match command {
            Command::RegenerateBehaviorMatrix => {
                self.matrix = BehaviorMatrix::random(self.matrix.size());
                Ok(Effect::KeepParticles)
            },
            Command::RegenerateShapeConstants => {
                let mut params: SimulationParameters = self.params;
                params.regenerate_shape_constants(self.profile);
                self.params = params;
                Ok(Effect::KeepParticles)
            },
            Command::RegeneratePalette(count) => {
                self.regenerate_palette(count, count)
            },
            Command::DoubleSpeed => {
                let mut params: SimulationParameters = self.params;
                params.double_speed();
                self.params = params;
                Ok(Effect::KeepParticles)
            },
            Command::HalveSpeed => {
                let mut params: SimulationParameters = self.params;
                params.halve_speed();
                self.params = params;
                Ok(Effect::KeepParticles)
            },
        }
    }

    /// Draws a number of classes uniformly from `min_colors ..= max_colors`
    /// and applies `Command::RegeneratePalette` with it. Refused, with the
    /// state unchanged, where the interval is empty or not within `1 ..=` the
    /// size of the host's table.
    pub fn regenerate_palette(&mut self, min_colors: usize, max_colors: usize) -> (r: Result<
        Effect,
        CommandError,
    >)
        ensures
            r is Ok <==> 1 <= min_colors <= max_colors <= old(self)@.table_len,
            r matches Ok(effect) ==> {
                &&& min_colors <= final(self)@.palette.len() <= max_colors
                &&& is_step(
                    old(self)@,
                    Command::RegeneratePalette(final(self)@.palette.len() as usize),
                    final(self)@,
                    effect,
                )
            },
            r is Err ==> final(self)@ == old(self)@,
            final(self)@.valid(),
    {
        proof {
            use_type_invariant(&*self);
        }
        let table_len: usize = self.palette.table_len();
        if min_colors < 1 || min_colors > max_colors || max_colors > table_len {
            return Err(CommandError::ColorCountOutOfRange);
        }
        let palette: ColorPalette = ColorPalette::generate(table_len, min_colors, max_colors);
        let matrix: BehaviorMatrix = BehaviorMatrix::random(palette.len());
        *self = SimulationState { palette, matrix, params: self.params, profile: self.profile };
        Ok(Effect::RespawnParticles)
    }

    /// One tick of the engine under this state's matrix and parameters.
    pub fn tick(&self, snapshot: &Vec<Particle>, dt: u64) -> (r: Result<Vec<Particle>, TickError>)
        ensures
            r is Ok <==> tick_succeeds(snapshot@, self@.matrix, self@.params, dt as int),
            match r {
                Ok(next) => is_tick_outcome(
                    snapshot@,
                    self@.matrix,
                    self@.params,
                    dt as int,
                    Ok(next@),
                ),
                Err(e) => is_tick_outcome(snapshot@, self@.matrix, self@.params, dt as int, Err(e)),
            },
    {
        tick(snapshot, &self.matrix, &self.params, dt)
    }

    /// A particle for this state at a random place of the window: its color
    /// class drawn uniformly from the active classes, `x` from
    /// `-half_width .. half_width` and `y` from `-half_height .. half_height`.
    pub fn random_particle(&self, half_width: i64, half_height: i64) -> (p: Particle)
        requires
            half_width > 0,
            half_height > 0,
        ensures
            -half_width <= p.x < half_width,
            -half_height <= p.y < half_height,
            p.color_class < self@.palette.len(),
    {
        proof {
            use_type_invariant(self);
        }
        let x: i64 = random_in_range(-half_width, half_width - 1);
        let y: i64 = random_in_range(-half_height, half_height - 1);
        let color_class: usize = random_index(0, self.palette.len() - 1);
        Particle { x, y, color_class }
    }

    /// The palette.
    pub fn palette(&self) -> (palette: &ColorPalette)
        ensures
            palette@ == self@.palette,
            palette.table_size() == self@.table_len,
    {
        &self.palette
    }

    /// The behavior matrix.
    pub fn matrix(&self) -> (matrix: &BehaviorMatrix)
        ensures
            matrix@ == self@.matrix,
    {
        &self.matrix
    }

    /// The parameters.
    pub fn params(&self) -> (params: &SimulationParameters)
        ensures
            params@ == self@.params,
    {
        &self.params
    }

    /// How the attraction radius is chosen when the shape constants are
    /// drawn anew.
    pub fn profile(&self) -> (profile: RadiusProfile)
        ensures
            profile == self@.profile,
    {
        self.profile
    }
}

} // verus!
