//! The core of a small HTTP API server, with nothing of the network in it:
//! routing, the reading of request bodies under a cap, the one form of every
//! error response, and the life of a server from set-up to shutdown. Beside
//! it stand a histogram for metrics and two pieces of the database model.

pub mod api_server;
pub mod body;
pub mod database_string;
pub mod error;
pub mod global_image;
pub mod histogram;
pub mod request;
pub mod response;
pub mod router;
pub mod support;
pub mod text;
