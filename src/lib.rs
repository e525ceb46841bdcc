//! Request verification core: fingerprints, signed session cookies,
//! short-lived redirect tokens and the script challenge hand-off.
pub mod app_params;
pub mod config;
pub mod handlers;
pub mod laws;
pub mod primitives;
pub mod request;
pub mod text;

pub use app_params::{blake3_hash, blake3_hash_from_strings, AppParams, SessionCookie};
pub use handlers::{
    handle_request, js_challenge_handler, js_challenge_with, redirect_handler,
    redirect_handler_at, response_403, unauthorized_response, unauthorized_response_at,
    verify_handler, verify_handler_at, HttpResponse,
};
pub use config::{Config, Listen};
pub use request::HttpRequest;
