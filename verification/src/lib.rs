//! Client-side session management and wire protocol for a multi-channel
//! secure-messaging camera client.
//!
//! For one remote camera the library keeps several independent logical
//! channels (motion, livestream, push, config, thumbnail, setup), each backed
//! by an opaque secure session owned by the caller. The library itself holds
//! the verified core: length-prefixed framing, chunked media reassembly with
//! strict ordering and integrity checks, the pairing handshake schedule, the
//! heartbeat request/response check, and the per-(device, channel) slot
//! registry with lock bookkeeping. Network and file I/O, and the secure
//! session calls themselves, are driven by the embedding application, which
//! feeds their results back in as events.

pub mod envelope;
pub mod manager;
pub mod media;
pub mod pairing;
pub mod frame;
pub mod heartbeat;
pub mod logger;
pub mod registry;
pub mod wire;
