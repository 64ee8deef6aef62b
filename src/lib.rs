//! Verified core of a tactical agent: search-sweep scheduling of a
//! directional sensor, boost-ability timing, bounded sample windows,
//! self-identification broadcast frames, and fire-control bookkeeping.
//!
//! Angles handled here are binary angles (a full turn is `2^32` units) and
//! distances are whole metres, so that every rule below is exact integer
//! logic; callers convert to and from the simulator's real numbers.

pub mod boost;
pub mod broadcast;
pub mod class;
pub mod fire_control;
pub mod radar;
pub mod weapons;
pub mod window;

pub use boost::{boost, BoostAction, BoostController};
pub use broadcast::{decode_class_and_position, encode_class_and_position, BroadcastFrame};
pub use class::ObjectClass;
pub use fire_control::{
    least_fired_targets, min_shots, next_track_index, track_index_after_loss, turret_assignment,
    FrigateRadarMode, RadarTask, TrackEvent, TrackScheduler,
};
pub use radar::{RadarAim, RadarState};
pub use weapons::{bullet_speeds, gun_color, gun_offsets};
pub use window::SampleWindow;
