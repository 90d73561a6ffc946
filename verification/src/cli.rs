//! The commands that an operator can give.

use std::path::PathBuf;
use vstd::prelude::*;

verus! {

/// std's owned file-system path. Nothing here looks inside one.
#[verifier::external_type_specification]
#[verifier::external_body]
pub struct ExPathBuf(PathBuf);

/// A parsed command line.
#[derive(Debug)]
pub struct Cli {
    pub command: Commands,
}

/// One command with its arguments.
#[derive(Debug)]
pub enum Commands {
    /// Render a configuration from a template.
    Render {
        /// The template file.
        template: PathBuf,
        /// The configuration file to write.
        output: PathBuf,
    },
    /// Fetch the template, and the environment example, from a remote place.
    Update {
        /// Where the template is fetched from.
        template_url: String,
        /// Where the template is saved.
        template_path: PathBuf,
        /// Where the environment example is fetched from.
        env_url: Option<String>,
        /// Where the environment example is saved.
        env_path: Option<PathBuf>,
    },
    /// Run the proxy under supervision.
    Run {
        /// The configuration file to run with.
        config: PathBuf,
    },
    /// Stop the supervised proxy.
    Stop,
}

} // verus!
