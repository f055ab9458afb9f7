//! Lifecycle shells of the stack's processing stages.
//!
//! Each stage is created once at startup and run once per cycle of its
//! cycler, in the fixed order the wiring gives. The perception and
//! control mathematics behind these stages work on float-typed sensor
//! spaces and run outside the verified core; what stands here is the
//! lifecycle the engine relies on: a stage's `cycle` runs to completion
//! and publishes its outputs (the shells publish their defaults). A
//! result of `true` says the outputs were produced for this cycle.

use vstd::prelude::*;

verus! {

/// Records the microphone stream for later analysis.
pub struct MicrophoneRecorder {}

impl MicrophoneRecorder {
    /// Creates the stage.
    pub fn new() -> (r: Self) {
        MicrophoneRecorder {}
    }

    /// Runs one cycle, publishing default outputs.
    pub fn cycle(&mut self) -> (r: bool)
        ensures
            r,
    {
        true
    }
}

/// Derives the robot's center of mass from its kinematics.
pub struct CenterOfMassProvider {}

impl CenterOfMassProvider {
    /// Creates the stage.
    pub fn new() -> (r: Self) {
        CenterOfMassProvider {}
    }

    /// Runs one cycle, publishing default outputs.
    pub fn cycle(&mut self) -> (r: bool)
        ensures
            r,
    {
        true
    }
}

/// Feeds substitute world state while no perception runs.
pub struct FakeData {}

impl FakeData {
    /// Creates the stage.
    pub fn new() -> (r: Self) {
        FakeData {}
    }

    /// Runs one cycle, publishing default outputs.
    pub fn cycle(&mut self) -> (r: bool)
        ensures
            r,
    {
        true
    }
}

/// Drives the head joints toward the commanded look target.
pub struct HeadMotion {}

impl HeadMotion {
    /// Creates the stage.
    pub fn new() -> (r: Self) {
        HeadMotion {}
    }

    /// Runs one cycle, publishing default outputs; the joint control law
    /// itself works in float angle space, outside the core.
    pub fn cycle(&mut self) -> (r: bool)
        ensures
            r,
    {
        true
    }
}

/// Chooses the walking engine's command from the motion plan.
pub struct WalkManager {}

impl WalkManager {
    /// Creates the stage.
    pub fn new() -> (r: Self) {
        WalkManager {}
    }

    /// Runs one cycle, publishing default outputs.
    pub fn cycle(&mut self) -> (r: bool)
        ensures
            r,
    {
        true
    }
}

/// Fuses detected and sonar obstacles into tracked hypotheses.
pub struct ObstacleFilter {}

impl ObstacleFilter {
    /// Creates the stage.
    pub fn new() -> (r: Self) {
        ObstacleFilter {}
    }

    /// Runs one cycle, publishing default outputs.
    pub fn cycle(&mut self) -> (r: bool)
        ensures
            r,
    {
        true
    }
}

/// Estimates the torso orientation from inertial data.
pub struct OrientationFilter {}

impl OrientationFilter {
    /// Creates the stage.
    pub fn new() -> (r: Self) {
        OrientationFilter {}
    }

    /// Runs one cycle, publishing default outputs.
    pub fn cycle(&mut self) -> (r: bool)
        ensures
            r,
    {
        true
    }
}

/// Finds ball candidates in a camera frame.
pub struct BallDetection {}

impl BallDetection {
    /// Creates the stage.
    pub fn new() -> (r: Self) {
        BallDetection {}
    }

    /// Runs one cycle, publishing default outputs.
    pub fn cycle(&mut self) -> (r: bool)
        ensures
            r,
    {
        true
    }
}

} // verus!
