//! The hardware collaborator's interface: the core depends on these
//! signatures only, never on their implementation. Backends (a robot
//! body, a simulator, a replayer) implement the trait outside the core.

use vstd::prelude::*;

use crate::Timestamp;
use crate::image::Image;

verus! {

/// A hardware call failed; the cycle fails with it and the cycler stops
/// rather than continuing with stale sensor data.
#[derive(Clone, Debug)]
pub struct HardwareError {
    pub message: String,
}

/// Which camera a frame is read from.
#[derive(Clone, Copy, Debug, PartialEq, Eq, Structural)]
pub enum CameraPosition {
    Top,
    Bottom,
}

/// The robot's body and head identifiers.
#[derive(Clone, Debug)]
pub struct Ids {
    pub body_id: String,
    pub head_id: String,
}

/// Where a backend keeps its deployed resources.
#[derive(Clone, Debug)]
pub struct Paths {
    pub parameters: String,
    pub motions: String,
    pub neural_networks: String,
}

/// One capture from the microphones: the sample rate and one signed
/// 16-bit PCM track per channel.
#[derive(Clone, Debug)]
pub struct AudioSamples {
    pub rate: u32,
    pub channels: Vec<Vec<i16>>,
}

/// What the hardware offers a cycler. `Sensor` and `Command` are the
/// backend's sensor-state and actuation records; `Message` is a network
/// datagram payload. Nothing is promised of the results: whatever a
/// backend returns, the cyclers' own contracts hold.
pub trait HardwareInterface<Sensor, Command, Message> {
    /// The current instant of the canonical clock.
    fn current_time(&mut self) -> Timestamp;

    /// The robot's identifiers.
    fn get_ids(&mut self) -> Ids;

    /// The backend's resource locations.
    fn get_paths(&mut self) -> Paths;

    /// Blocks, with bounded latency, for the next sensor state.
    fn read_sensors(&mut self) -> Result<Sensor, HardwareError>;

    /// Applies an actuation command.
    fn write_actuators(&mut self, command: Command) -> Result<(), HardwareError>;

    /// Blocks for one frame of the given camera.
    fn read_camera(&mut self, position: CameraPosition) -> Result<Image, HardwareError>;

    /// Blocks for the next microphone capture.
    fn read_microphones(&mut self) -> Result<AudioSamples, HardwareError>;

    /// The next incoming network message.
    fn read_network(&mut self) -> Result<Message, HardwareError>;

    /// Sends a network message.
    fn write_network(&mut self, message: Message) -> Result<(), HardwareError>;
}

} // verus!
