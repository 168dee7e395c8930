//! A server-side implementation of a length-framed, stateful binary network
//! protocol: wire codec with optional zlib compression, typed packets with
//! state-scoped dispatch, a per-connection protocol state machine, and an
//! event-bus registry model.

use vstd::prelude::*;

pub mod chunk;
pub mod common;
pub mod config;
pub mod data;
pub mod dimension;
pub mod error;
pub mod event;
pub mod packet;
pub mod player;
pub mod world;

verus! {

/// Protocol version advertised in the status response.
pub const PROTOCOL_VERSION: i32 = 771;

/// The server-wide shared state a connection holds a handle to: its brand,
/// the externally supplied status document (already serialized to JSON),
/// the bootstrap configuration, the event bus, and the registries.
pub struct RustmineServer {
    pub brand_name: String,
    pub status_json: String,
    pub config: config::ServerConfig,
    pub event_bus: event::EventBus,
    pub dimension_type_manager: dimension::DimensionTypeManager,
    pub world_manager: world::WorldManager,
}

impl RustmineServer {
    /// A fresh server: the default brand, an empty status document until a
    /// collaborator supplies one, no listeners, no dimensions, no worlds.
    pub fn new(config: config::ServerConfig) -> (r: RustmineServer)
        ensures
            r.brand_name@ == "Rustmine"@,
            r.status_json@ == Seq::<char>::empty(),
            r.config == config,
            forall|tag: u64| #[trigger] r.event_bus.spec_listeners(tag) == Seq::<
                event::ListenerEntry,
            >::empty(),
            forall|key: Seq<char>| #[trigger] r.dimension_type_manager.spec_get(key) == None::<
                dimension::DimensionType,
            >,
            r.world_manager.worlds@.len() == 0,
    {
        RustmineServer {
            brand_name: <String as vstd::string::StringExecFns>::from_str("Rustmine"),
            status_json: String::new(),
            config,
            event_bus: Default::default(),
            dimension_type_manager: Default::default(),
            world_manager: Default::default(),
        }
    }
}

} // verus!
