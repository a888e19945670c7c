pub mod directive;
pub mod error;
pub mod hostname;
pub mod ip;
pub mod laws;
pub mod names;
pub mod remote;
pub mod resolver;
pub mod settings;
pub mod sync;
pub mod system;
pub mod text;
pub mod validator;
pub mod version;
