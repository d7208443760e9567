//! Link detection, share listing and segmented download planning.
pub mod browser_cookies;
pub mod clock;
pub mod commands;
pub mod cookie_laws;
pub mod cookie_promises;
pub mod filename;
pub mod filename_laws;
pub mod http_fetcher;
pub mod json;
pub mod json_laws;
pub mod link;
pub mod media;
pub mod platforms;
pub mod text;
pub mod text_laws;
pub mod url_laws;
pub mod url_parser;
pub mod view_laws;
