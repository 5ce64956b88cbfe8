//! releasekit: fetching releases from git forges, with verified URL
//! parsing, request building and asset filtering.

pub mod client;
pub mod error;
pub mod filter;
pub mod model;
pub mod platform;
pub mod text;
pub mod url;

pub use error::Error;
pub use filter::Filter;
pub use model::{Asset, Release};
pub use platform::{GitHub, GitLab};
pub use url::PlatformUrl;
