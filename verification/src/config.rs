//! The settings that are kept from one run to the next.

use vstd::prelude::*;

use crate::models;

verus! {

/// The settings that are kept.
#[derive(Debug)]
pub struct Config {
    /// The llama.cpp executable, or a directory that holds it.
    pub llama_cpp_path: Option<String>,
    /// The id of the model that was launched last.
    pub last_launched_model_id: Option<String>,
}

/// The settings as a mathematical value.
#[verifier::ext_equal]
pub struct ConfigView {
    pub llama_cpp_path: Option<Seq<char>>,
    pub last_launched_model_id: Option<Seq<char>>,
}

impl View for Config {
    type V = ConfigView;

    open spec fn view(&self) -> ConfigView {
        ConfigView {
            llama_cpp_path: models::text_view(self.llama_cpp_path),
            last_launched_model_id: models::text_view(self.last_launched_model_id),
        }
    }
}

impl Default for Config {
    fn default() -> (config: Config)
        ensures
            config@ == (ConfigView { llama_cpp_path: None, last_launched_model_id: None }),
    {
        Config { llama_cpp_path: None, last_launched_model_id: None }
    }
}

impl Clone for Config {
    fn clone(&self) -> (config: Config)
        ensures
            config@ == self@,
    {
        Config {
            llama_cpp_path: models::clone_text(&self.llama_cpp_path),
            last_launched_model_id: models::clone_text(&self.last_launched_model_id),
        }
    }
}

} // verus!
