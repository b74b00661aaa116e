//! A terminal advisor for llama.cpp: it looks at the machine, recommends
//! command-line parameters, lists the GGUF models that fit, and launches them.
//!
//! This crate is what it decides and computes. [`detect`] turns what the system
//! reports into the [`hardware`] that [`params`] recommends for; [`fetch`] and
//! [`models`] choose models and quantizations; [`installed`] and [`download`]
//! know the cache on the disk, and [`launch`] the command line. [`app`] holds
//! the state, [`events`] what changes it, and [`ui`] what is shown of it. What
//! is believed of code outside the crate stands in [`outside`].

pub mod app;
pub mod config;
pub mod detect;
pub mod download;
pub mod events;
pub mod fetch;
pub mod hardware;
pub mod installed;
pub mod launch;
pub mod models;
pub mod outside;
pub mod params;
pub mod share;
pub mod text;
pub mod ui;
