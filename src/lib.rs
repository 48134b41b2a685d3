//! Session orchestration for extended-reality devices: feature negotiation,
//! the per-session frame pump, and the main-thread registry of backends.

mod error;
mod frame_pump;
mod registry;
mod session;
mod view;

pub use error::Error;
pub use session::{EnvironmentBlendMode, SessionBuilder, SessionId, SessionInit, SessionMode};
pub use frame_pump::{FramePump, PumpAction, PumpEvent, PumpModel, SessionMsgKind};
pub use registry::{
    Discovery, MainThreadRegistry, MainThreadSession, MockDeviceCallback, MockDiscovery,
    SessionRequestCallback, SessionSupportCallback,
};
pub use view::{Display, Floor, Input, LeftEye, Native, RightEye, Viewer, Viewport};
