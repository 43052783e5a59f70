//! Launch configuration for a desktop document editor: the options that the
//! command line gives, and the probe that tells whether the development server answers.

pub mod commands;
pub mod option_laws;
pub mod options;
pub mod probe;
pub mod text;
