use rustpress::cli::{should_rebuild, Commands, Step};
use rustpress::error::Error;
use rustpress::menu::order_by_weight;
use rustpress::utils::{
    get_npm_command, join_path, resolve_build_toml_path_read, resolve_build_toml_path_write,
    resolve_config_toml_path_read, Existing, RuntimePathsBuilder,
};

fn nothing() -> Existing {
    Existing {
        source_build_toml: false,
        root_theme: false,
        root_theme_public: false,
        source_theme: false,
        source_theme_public: false,
    }
}

#[test]
fn paths_are_joined_with_one_slash() {
    assert_eq!(join_path("source", "build.toml"), "source/build.toml");
    assert_eq!(join_path("source/", "build.toml"), "source/build.toml");
    assert_eq!(join_path("", "build.toml"), "build.toml");
    assert_eq!(join_path(".", "x"), "./x");
    for (base, name) in [("source", "a"), ("source/", "a"), ("", "a"), ("a/b", "c/d")] {
        assert_eq!(
            join_path(base, name),
            std::path::Path::new(base).join(name).to_str().unwrap()
        );
    }
}

#[test]
fn the_build_state_is_read_from_the_source_directory_first() {
    assert_eq!(resolve_build_toml_path_read("source", true), "source/build.toml");
    assert_eq!(resolve_build_toml_path_read("source", false), "build.toml");
}

#[test]
fn the_build_state_is_written_where_it_is() {
    assert_eq!(resolve_build_toml_path_write("source", true, true), "source/build.toml");
    assert_eq!(resolve_build_toml_path_write("source", true, false), "source/build.toml");
    assert_eq!(resolve_build_toml_path_write("source", false, true), "build.toml");
    assert_eq!(resolve_build_toml_path_write("source", false, false), "source/build.toml");
}

#[test]
fn the_configuration_is_read_from_the_source_directory_first() {
    assert_eq!(resolve_config_toml_path_read("source", "config.toml", true), "source/config.toml");
    assert_eq!(resolve_config_toml_path_read("source", "site.toml", false), "site.toml");
}

#[test]
fn npm_has_another_name_on_windows() {
    assert_eq!(get_npm_command(true), "npm.cmd");
    assert_eq!(get_npm_command(false), "npm");
}

#[test]
fn the_theme_is_taken_from_the_root_first() {
    let builder = RuntimePathsBuilder::new().md_dir("source").theme_name("dark");
    assert_eq!(
        builder.places(),
        (
            "source/build.toml".to_string(),
            "themes/dark".to_string(),
            "themes/dark/public".to_string(),
            "source/themes/dark".to_string(),
            "source/themes/dark/public".to_string(),
        )
    );
    let paths = builder.clone().build(&nothing());
    assert_eq!(paths.build_toml_path, "build.toml");
    assert_eq!(paths.theme_dir, "themes/dark");
    assert_eq!(paths.theme_templates_dir, "themes/dark/templates");
    assert_eq!(paths.theme_static_dir, "themes/dark/static");
    let mut found = nothing();
    found.source_theme = true;
    found.source_theme_public = true;
    found.source_build_toml = true;
    let paths = builder.clone().build(&found);
    assert_eq!(paths.build_toml_path, "source/build.toml");
    assert_eq!(paths.theme_dir, "source/themes/dark");
    assert_eq!(paths.theme_templates_dir, "source/themes/dark/templates");
    assert_eq!(paths.theme_static_dir, "source/themes/dark/public");
    found.root_theme = true;
    found.root_theme_public = true;
    let paths = builder.clone().build(&found);
    assert_eq!(paths.theme_dir, "themes/dark");
    assert_eq!(paths.theme_static_dir, "themes/dark/public");
    found.root_theme_public = false;
    let paths = builder.build(&found);
    assert_eq!(paths.theme_static_dir, "themes/dark/static");
}

#[test]
fn a_builder_has_defaults() {
    let paths = RuntimePathsBuilder::new().build(&nothing());
    assert_eq!(paths.theme_dir, "themes/default");
    assert_eq!(paths.build_toml_path, "build.toml");
    let mut found = nothing();
    found.source_theme = true;
    found.source_build_toml = true;
    let paths = RuntimePathsBuilder::new().build(&found);
    assert_eq!(paths.theme_dir, "./themes/default");
    assert_eq!(paths.build_toml_path, "./build.toml");
    assert_eq!(paths.theme_static_dir, "./themes/default/static");
}

#[test]
fn commands_are_run_step_by_step() {
    let out = "public".to_string();
    assert_eq!(Commands::New { name: "x".to_string(), force: true }.steps(), vec![Step::NewProject]);
    assert_eq!(
        Commands::Build { output_dir: out.clone(), incremental: true }.steps(),
        vec![Step::Setup, Step::Build { incremental: true }]
    );
    assert_eq!(
        Commands::BuildDev { output_dir: out.clone(), incremental: false }.steps(),
        vec![Step::Setup, Step::BuildCss, Step::Setup, Step::Build { incremental: false }]
    );
    assert_eq!(Commands::BuildCss.steps(), vec![Step::Setup, Step::BuildCss]);
    assert_eq!(
        Commands::Serve { port: 1111, output_dir: out.clone(), incremental: false }.steps(),
        vec![Step::Setup, Step::Build { incremental: false }, Step::Serve]
    );
    assert_eq!(
        Commands::Dev { port: 1, output_dir: out.clone(), incremental: true, hotreload: false }
            .steps(),
        vec![Step::Setup, Step::BuildCss, Step::Setup, Step::Build { incremental: true }, Step::Serve]
    );
    assert_eq!(
        Commands::Dev { port: 1, output_dir: out, incremental: true, hotreload: true }.steps(),
        vec![Step::Setup, Step::BuildCss, Step::Setup, Step::Build { incremental: true }, Step::Watch]
    );
    assert_eq!(Commands::BuildSidebar.steps(), vec![Step::Sidebar]);
}

#[test]
fn changes_that_come_fast_are_taken_together() {
    assert!(!should_rebuild(0));
    assert!(!should_rebuild(149));
    assert!(should_rebuild(150));
    assert!(should_rebuild(10_000));
}

#[test]
fn errors_describe_themselves() {
    assert_eq!(Error::Io("x".to_string()).message(), "IO 错误: x");
    assert_eq!(Error::Config("x".to_string()).message(), "配置错误: x");
    assert_eq!(Error::Template("x".to_string()).message(), "模板错误: x");
    assert_eq!(Error::Markdown("x".to_string()).message(), "Markdown 解析错误: x");
    assert_eq!(Error::Yaml("x".to_string()).message(), "YAML 解析错误: x");
    assert_eq!(Error::Json("x".to_string()).message(), "JSON 序列化错误: x");
    assert_eq!(Error::Toml("x".to_string()).message(), "TOML 解析错误: x");
    assert_eq!(Error::Server("x".to_string()).message(), "服务器错误: x");
    assert_eq!(Error::Other(String::new()).message(), "错误: ");
    assert_eq!(
        Error::InvalidPage { page: 4, total_pages: 3 }.message(),
        "错误: 无效的页码: 4，总页数: 3"
    );
}

#[test]
fn a_menu_is_ordered_by_weight() {
    assert_eq!(order_by_weight(&vec![Some(3), Some(1), Some(2)]), vec![1, 2, 0]);
    assert_eq!(order_by_weight(&vec![Some(2), None, Some(2), Some(-1), None]), vec![3, 0, 2, 1, 4]);
    assert_eq!(order_by_weight(&vec![None, Some(i64::MAX), Some(i64::MIN)]), vec![2, 0, 1]);
    assert!(order_by_weight(&Vec::new()).is_empty());
    let weights: Vec<Option<i64>> = vec![Some(5), Some(5), None, Some(0), Some(5), Some(-3)];
    let mut expected: Vec<usize> = (0..weights.len()).collect();
    expected.sort_by_key(|i| weights[*i].unwrap_or(i64::MAX));
    assert_eq!(order_by_weight(&weights), expected);
}
