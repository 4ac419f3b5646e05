//! Simulation core of a tile-based entity runtime.
//!
//! The crate tracks where entities stand in a bounded discrete grid,
//! validates and applies movement under collision-layer constraints,
//! drives autonomous entities through a goal stack with deterministic
//! path generation, and connects the systems with FIFO message channels.

pub mod ai;
pub mod assoc;
pub mod config;
pub mod coord;
pub mod input_events;
pub mod lock;
pub mod map;
pub mod message;
pub mod render;
pub mod resources;
pub mod shader;
pub mod store;

pub use ai::{AiBehavior, AiComponent, AiGoal, AiGoalDo, AiSystem};
pub use config::{Config, ConfigBuilder};
pub use coord::Coordinate;
pub use input_events::InputEventType;
pub use lock::{RLock, WLock, WriteGuard};
pub use map::{CollisionLayer, CollisionLayers, CollisionStore, Entity, InitialPosition, MapMessage, MapModel, MapSystem, Position, SpatialMap};
pub use message::{Message, MessageQueue, MessageReceiver, MessageSender};
pub use render::{BufferError, ImageKey, LightType, PipeKey, RenderError};
pub use resources::ResourcesType;
pub use shader::{Shader, ShaderKey};
pub use store::{Component, ComponentIter};
