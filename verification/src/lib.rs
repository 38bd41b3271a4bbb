//! A minimal HTTP/1.1 server core: request parsing, routing, response
//! serialization, and the server lifecycle state machine.
//!
//! The modules here hold the protocol engine itself; the surrounding
//! process (sockets, OS signals, the filesystem) feeds it plain values.

pub mod bytes;
pub mod cli;
pub mod config;
pub mod connection;
pub mod file;
pub mod http;
pub mod request;
pub mod response;
pub mod server;
pub mod shutdown;

pub use cli::get_cli_arg_by_name;
pub use config::Settings;
pub use connection::RouteOutcome;
pub use connection::file_read_response;
pub use connection::file_write_response;
pub use connection::parse_failure_response;
pub use connection::route_request;
pub use file::parse_filename_from_request_path;
pub use http::HTTPBody;
pub use http::HTTPContentType;
pub use http::HTTPStatus;
pub use request::ParseError;
pub use request::ParsedRequest;
pub use request::RequestHeaders;
pub use request::StreamParser;
pub use request::parse_request_headers;
pub use response::HTTPResponse;
pub use server::Server;
pub use server::ServerState;
pub use shutdown::OsSignalKind;
pub use shutdown::ShutdownSignal;
pub use shutdown::signal_for;
