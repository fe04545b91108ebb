//! Discovery and selection of the active media player on a session bus, the
//! extraction of its track metadata, and the state machine that drives the
//! update stream. Everything here is pure decision logic: the bus queries,
//! subscriptions and the channel itself are performed by the caller.
use vstd::prelude::*;

pub mod selection;
pub mod status;
pub mod session;
pub mod registry;

pub use registry::{discovery_order, name_less};
pub use selection::{get_active_player, score, wants_metadata, HandleReport, PlaybackStatus};
pub use session::{Action, Event, Phase, State};
pub use status::{Message, MprisUpdate, PlayerStatus, TrackMetadata};
