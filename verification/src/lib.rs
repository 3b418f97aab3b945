//! Verified core of a stateful Windows UI agent: the session state model,
//! its revisioned diff application, artifact retention, runtime health,
//! the wire codecs and the decision logic of the daemon and its MCP adapter.
mod ids;
mod stdext;
mod clock;
pub mod protocol;
pub mod text;
pub mod strmap;
pub mod model;
pub mod tree;
pub mod copy;
pub mod decimal;
pub mod floatbits;
pub mod diffspec;
pub mod state;
pub mod registry;
pub mod artifacts;
pub mod telemetry;
pub mod refresh;
pub mod json;
pub mod payload;
pub mod pb;
pub mod wire;
pub mod uiwire;
pub mod platform;
pub mod proxy;
pub mod agent;
pub mod compare;
pub mod observe;
pub mod materialize;
pub mod targets;
pub mod diagnostics;
pub mod capture;
pub mod probe;
