//! The commands of the program and what each of them does, step by step.

use vstd::prelude::*;

verus! {

/// What the command line asks for.
#[derive(Debug, Clone, PartialEq, Eq)]
pub struct Cli {
    /// The command.
    pub command: Commands,
    /// The directory of the Markdown documents.
    pub md_dir: String,
    /// The name of the configuration file.
    pub config: String,
}

/// The commands.
#[derive(Debug, Clone, PartialEq, Eq)]
pub enum Commands {
    /// Creates a new project.
    New { name: String, force: bool },
    /// Builds the site.
    Build { output_dir: String, incremental: bool },
    /// Builds the theme's CSS, then the site.
    BuildDev { output_dir: String, incremental: bool },
    /// Builds the theme's CSS.
    BuildCss,
    /// Builds the site and serves it.
    Serve { port: u16, output_dir: String, incremental: bool },
    /// Builds the theme's CSS and the site and serves it, and builds again
    /// when a template changes where `hotreload` is set.
    Dev { port: u16, output_dir: String, incremental: bool, hotreload: bool },
    /// Works out the sidebar anew.
    BuildSidebar,
}

/// One step of a command.
#[derive(Debug, Clone, Copy, PartialEq, Eq, Structural)]
pub enum Step {
    /// Lays out a new project.
    NewProject,
    /// Makes sure that the configuration, the build state, the theme and the
    /// default pages exist.
    Setup,
    /// Builds the theme's CSS.
    BuildCss,
    /// Builds the site; `incremental` is what the command line asked for.
    Build { incremental: bool },
    /// Serves the output.
    Serve,
    /// Serves the output and builds the site again when a template changes.
    Watch,
    /// Works out the sidebar anew.
    Sidebar,
}

impl Commands {
    /// The steps of the command, in order.
    pub open spec fn spec_steps(self) -> Seq<Step> {
        match self {
            Commands::New { .. } => seq![Step::NewProject],
            Commands::Build { incremental, .. } => seq![Step::Setup, Step::Build { incremental }],
            Commands::BuildDev { incremental, .. } => seq![
                Step::Setup,
                Step::BuildCss,
                Step::Setup,
                Step::Build { incremental },
            ],
            Commands::BuildCss => seq![Step::Setup, Step::BuildCss],
            Commands::Serve { incremental, .. } => seq![
                Step::Setup,
                Step::Build { incremental },
                Step::Serve,
            ],
            Commands::Dev { incremental, hotreload, .. } => seq![
                Step::Setup,
                Step::BuildCss,
                Step::Setup,
                Step::Build { incremental },
                if hotreload {
                    Step::Watch
                } else {
                    Step::Serve
                },
            ],
            Commands::BuildSidebar => seq![Step::Sidebar],
        }
    }

    /// The steps of the command, in order.
    pub fn steps(&self) -> (steps: Vec<Step>)
        ensures
            steps@ == self.spec_steps(),
    {
        let mut steps: Vec<Step> = Vec::new();
        match self {
            Commands::New { .. } => {
                steps.push(Step::NewProject);
            },
            Commands::Build { incremental, .. } => {
                steps.push(Step::Setup);
                steps.push(Step::Build { incremental: *incremental });
            },
            Commands::BuildDev { incremental, .. } => {
                steps.push(Step::Setup);
                steps.push(Step::BuildCss);
                steps.push(Step::Setup);
                steps.push(Step::Build { incremental: *incremental });
            },
            Commands::BuildCss => {
                steps.push(Step::Setup);
                steps.push(Step::BuildCss);
            },
            Commands::Serve { incremental, .. } => {
                steps.push(Step::Setup);
                steps.push(Step::Build { incremental: *incremental });
                steps.push(Step::Serve);
            },
            Commands::Dev { incremental, hotreload, .. } => {
                steps.push(Step::Setup);
                steps.push(Step::BuildCss);
                steps.push(Step::Setup);
                steps.push(Step::Build { incremental: *incremental });
                if *hotreload {
                    steps.push(Step::Watch);
                } else {
                    steps.push(Step::Serve);
                }
            },
            Commands::BuildSidebar => {
                steps.push(Step::Sidebar);
            },
        }
        assert(steps@ =~= self.spec_steps());
        steps
    }
}

/// The shortest time between two builds that a watcher starts, in
/// milliseconds: changes that come faster are taken together.
pub const DEBOUNCE_MILLIS: u64 = 150;

/// Whether a watcher that last built `elapsed_millis` milliseconds ago
/// builds again on a change.
pub fn should_rebuild(elapsed_millis: u64) -> (rebuild: bool)
    ensures
        rebuild == (elapsed_millis >= DEBOUNCE_MILLIS),
{
    elapsed_millis >= DEBOUNCE_MILLIS
}

} // verus!
