//! Client-side logic for Tomcat's Manager Text API: parsing the
//! line-oriented plain-text responses, decoding the `list` body into
//! structured context records, classifying HTTP outcomes, and deciding
//! version parameters for parallel deployment.

pub mod context;
pub mod deploy;
pub mod error;
pub mod list;
pub mod request;
pub mod response;
pub mod table;
pub mod text;
