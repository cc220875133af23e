//! Verified core of a personal media server's HTTP gateway.
//!
//! The library holds the protocol logic of the gateway: the session gate that
//! protects every route except version-info and login, the decoder that turns
//! raw percent-encoded request segments into a virtual path, the translator
//! from the closed set of domain failure kinds to transport status codes, the
//! credential handler, the browse/flatten reply builders, and the serve
//! dispatcher that classifies a resolved file and selects its byte source.
//!
//! Everything the gateway talks to -- the collection index, the thumbnail
//! generator, the filesystem and the transport itself -- is a collaborator:
//! the host program performs those calls and hands their plain results to the
//! staged functions here, which make every decision under a contract.

pub mod classify;
pub mod credentials;
pub mod decode;
pub mod error;
pub mod gate;
pub mod listing;
pub mod response;
pub mod serve;
pub mod version;
