//! A static blog generator: the incremental regeneration engine and the
//! reverse-pagination addressing scheme.

pub mod build_state;
pub mod changes;
pub mod cli;
pub mod config;
pub mod error;
pub mod field;
pub mod front_matter;
pub mod generator;
pub mod listing;
pub mod menu;
pub mod paginate;
pub mod post;
pub mod seqs;
pub mod sidebar;
pub mod source;
pub mod store;
pub mod syndication;
pub mod taxonomy;
pub mod text;
pub mod utils;

pub use build_state::{
    ensure_sidebar_data, log_build_info, read_build_mode, regenerate_sidebar, BuildFile,
};
pub use cli::{Cli, Commands};
pub use config::Config;
pub use error::Error;
pub use generator::Generator;
pub use post::{Post, PostParser};
pub use utils::{
    get_npm_command, resolve_build_toml_path_read, resolve_build_toml_path_write,
    resolve_config_toml_path_read, strip_html_tags, BuildMode, RuntimePaths, RuntimePathsBuilder,
};
