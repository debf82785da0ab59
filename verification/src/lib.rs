//! Serves the built sites of the bundled web tools on this machine.
//!
//! The library decides; it does not act. It says which directories to look at, which file answers
//! a request and which server to start. Each decision is a function of what is known so far. A
//! decision that needs to know more says what to find out, and is asked again with the answer.

pub mod embedded;
pub mod facts;
pub mod mime;
pub mod percent;
pub mod place;
pub mod preview;
pub mod projects;
pub mod request;
pub mod respond;
pub mod root_laws;
pub mod roots;
pub mod search_laws;
pub mod serve;
pub mod text;
