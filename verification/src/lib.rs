//! Launch-argument dispatch and window-lifecycle policy for a desktop shell
//! that hosts a single web page.

pub mod close;
pub mod config;
pub mod instance;
pub mod lifecycle;
pub mod reaction;
pub mod session;
pub mod text;
pub mod url_match;
pub mod window;

pub use session::run;
pub use url_match::extract_url_arg;
