//! Creating fresh projects and associating existing ones.
pub mod existing;
pub mod fresh;
