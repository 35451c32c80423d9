//! A declarative routing core: a base path and a list of operation
//! declarations, each optionally tagged with a path suffix, are compiled
//! into normalized route entries, and a routing table dispatches an
//! inbound path string to the handler registered for it.

pub mod collector;
pub mod http;
pub mod paths;
pub mod response;
pub mod router;
pub mod setup;

pub use collector::{
    compile, OperationDeclaration, RouteAnnotation, RouteEntry, ValidationError,
};
pub use http::{extract_request_path, process_request};
pub use response::ApiResponse;
pub use router::{Handler, NotFound, Router};
pub use setup::{add_entries, setup_router, StaticHandler};
