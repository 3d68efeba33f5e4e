//! Account provisioning: what to put into a new remote's configuration, and
//! in which order it is created.

pub mod config;
pub mod document_laws;
pub mod oauth;
pub mod proton;
pub mod provision;
pub mod webdav;

pub use oauth::OAuthProvider;
pub use webdav::WebDavVendor;
