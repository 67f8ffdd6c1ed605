//! The front end of a code playground: its static files under conditional
//! caching, the routes of its services, and the cross-origin policy that
//! holds for all of them.
//!
//! Nothing in this crate reads a file or a socket. It decides; I/O is left
//! to whoever runs the server.
pub mod asset_path;
pub mod cors;
pub mod file_server;
pub mod pattern;
pub mod resources;
pub mod response;
pub mod router;
pub mod site;
pub mod text;
pub mod timestamp;
