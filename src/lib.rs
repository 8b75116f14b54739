//! Discovery of video capture devices from the text report of an
//! enumeration tool, resolution of a device by identifier, and the
//! invocation that streams a device to an RTSP endpoint.
pub mod catalog;
pub mod cli;
pub mod header;
pub mod number;
pub mod serve;
pub mod text;

pub use catalog::{catalog_from_output, listing, parse_catalog, CatalogError, Device};
pub use cli::{Cli, Commands};
pub use serve::{
    destination_url, encoder_args, plan_serve, resolve, StreamLaunch, DEFAULT_RTSP_PORT,
    ENCODER_PROGRAM,
};
