//! A home-automation object graph served over a request/response protocol.
//!
//! - `schema`: the entities, enums and tagged unions of the graph.
//! - `wire`: the field layer of the binary format and the codecs of the
//!   tagged unions `Number` and `SampledValue`.
//! - `entities`: the codecs of homes and rooms.
//! - `filter`: the name filter and home selection of every enumeration.
//! - `service`: the server's graph and its operations.
//! - `dispatch`: the client's option parsing and request building.
//! - `transport`: the encoding of requests and replies.
//! - `render`: the text lines that show entities and events.
//! - `respond`: the server's replies to requests.
pub mod schema;
pub mod wire;
pub mod filter;
pub mod service;
pub mod dispatch;
pub mod render;
pub mod transport;
pub mod entities;
pub mod respond;
