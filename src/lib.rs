//! Verified core of a draw-call interceptor: the mod registry and its parent
//! arbitration, the render-state shadow, selection and snapshot state, frame
//! cadence and the resource accountant. Device calls are made by the host glue,
//! which hands this library plain values and performs the actions it returns.

pub mod hex;
pub mod names;
pub mod registry;
pub mod select;
pub mod loader;
pub mod render_state;
pub mod selection;
pub mod frame;
pub mod bindings;
pub mod hook;
pub mod input;
