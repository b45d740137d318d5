//! Verified core of a game-client patch: the rules that decide which
//! host names are sinkholed, how HTTPS request URLs are redirected to a
//! local server, how IL2CPP strings are decoded, and how loaded patch
//! modules are tracked.
pub mod il2cpp;
pub mod marshal;
pub mod modules;
pub mod text;
