//! Blueprint parsing, prompt compilation and speech-dictionary logic of the
//! KnowLoop orchestrator, with their contracts.

pub mod digest;
pub mod ids;
pub mod keyed;
pub mod text;
pub mod unicode;
pub mod blueprint;
pub mod chat;
pub mod stt;
pub mod heartbeat;
pub mod retrospective;
pub mod protocol;
pub mod neural_routing;
pub mod collector;
pub mod reward_proxy;
