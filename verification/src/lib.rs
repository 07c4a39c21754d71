//! A minimal HTTP/1.x message engine: a grammar for methods, targets,
//! versions and headers, a byte-stream request parser with explicit
//! length limits, a response writer, server configuration, and the
//! validation rules of a CONNECT tunnelling proxy.
pub mod client;
pub mod common;
mod error;
pub mod proxy;
pub mod request;
pub mod response;
pub mod server;
pub mod text;

pub use client::Args;
pub use client::HttpClient;
pub use common::Headers;
pub use common::HttpVersion;
pub use error::ErrV;
pub use error::Error;
pub use error::IOErrorWrapper;
pub use server::HttpServer;
pub use server::HttpServerBuilder;
