//! A render graph: passes declare what they create, read and write, the graph
//! is turned into physical resources and an ordered list of callbacks, and a
//! pipeline cache, a per-frame constants allocator and a frame retirement
//! queue live beside it.
pub mod handles;
pub mod resource;
pub mod graph;
pub mod resource_registry;
pub mod lifetime;
pub mod tracking;
pub mod execute;
pub mod dynamic_constants;
pub mod shader_cache;
pub mod pipeline;
pub mod pipeline_cache;
pub mod render_loop;
pub mod laws;
pub mod resource_view;
pub mod srv;
pub mod uav;
