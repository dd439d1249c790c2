use rustv::cli::{get_command, Args, Command};
use rustv::path::{file_name, join, normalize_path};
use rustv::rustv::{chomp, locate_installation_directory, load_versions, read_current_version, rustv_directories, Rustv};
use rustv::shell::{CommandLine, Shell};
use rustv::version::{BuildType, Version};

fn release(name: &str, binary_url: &str, source_url: &str) -> Version {
    Version {
        name: name.to_string(),
        binary_url: binary_url.to_string(),
        source_url: source_url.to_string(),
        cargo: true,
        from_source: false,
    }
}

fn nightly() -> Version {
    release(
        "nightly",
        "http://static.rust-lang.org/dist/rust-nightly-x86_64-unknown-linux-gnu.tar.gz",
        "http://static.rust-lang.org/dist/rust-nightly.tar.gz",
    )
}

fn args(flags: [bool; 5]) -> Args {
    Args {
        cmd_install: flags[0],
        cmd_which: flags[1],
        cmd_global: flags[2],
        cmd_refresh: flags[3],
        cmd_versions: flags[4],
        arg_version: String::new(),
        arg_command: String::new(),
    }
}

fn command_parts(shell: &Shell) -> (String, Vec<String>) {
    let c = shell.command();
    (c.program.clone(), c.args.clone())
}

#[test]
fn join_adds_one_separator() {
    assert_eq!(join("/home/u", ".rustv"), "/home/u/.rustv");
    assert_eq!(join("/home/u/", ".rustv"), "/home/u/.rustv");
    assert_eq!(join("", "bin"), "bin");
}

#[test]
fn join_normalizes() {
    assert_eq!(join("/a/./b/", "../c"), "/a/c");
    assert_eq!(join("x", ".."), ".");
    assert_eq!(join("/a", ""), "/a");
    assert_eq!(join("/a//b/", ""), "/a/b");
    assert_eq!(join("/", "x"), "/x");
    assert_eq!(join("..", "x"), "../x");
    assert_eq!(join("/tmp", "/x/../y/"), "/y");
}

#[test]
fn normalize_paths() {
    assert_eq!(normalize_path("a//b/./c/.."), "a/b");
    assert_eq!(normalize_path("../x"), "../x");
    assert_eq!(normalize_path("../../x/.."), "../..");
    assert_eq!(normalize_path("/.."), "/");
    assert_eq!(normalize_path("/../a"), "/a");
    assert_eq!(normalize_path(""), ".");
    assert_eq!(normalize_path("/"), "/");
    assert_eq!(normalize_path("./"), ".");
    assert_eq!(normalize_path("/opt/rv/"), "/opt/rv");
    assert_eq!(normalize_path("plain/path"), "plain/path");
}

#[test]
fn join_absolute_component_replaces() {
    assert_eq!(join("/tmp", "/tmp/source-nightly"), "/tmp/source-nightly");
}

#[test]
fn file_name_is_last_component() {
    assert_eq!(file_name("/r/versions/nightly/bin/rustc"), Some("rustc".to_string()));
    assert_eq!(file_name("cargo"), Some("cargo".to_string()));
    assert_eq!(file_name("/r/bin/"), Some("bin".to_string()));
    assert_eq!(file_name("/r/bin/./cargo/"), Some("cargo".to_string()));
    assert_eq!(file_name("/"), None);
    assert_eq!(file_name(".."), None);
    assert_eq!(file_name("/r/.."), None);
    assert_eq!(file_name("."), None);
    assert_eq!(file_name(""), None);
}

#[test]
fn installation_directory_prefers_rustv_path() {
    assert_eq!(locate_installation_directory(Some("/opt/rustv"), Some("/home/u")), "/opt/rustv");
    assert_eq!(locate_installation_directory(None, Some("/home/u")), "/home/u/.rustv");
    assert_eq!(locate_installation_directory(Some("/opt/rv/"), None), "/opt/rv");
    assert_eq!(locate_installation_directory(None, Some("/home/u/")), "/home/u/.rustv");
}

#[test]
fn chomp_strips_trailing_newlines() {
    assert_eq!(chomp("0.12.0\n"), "0.12.0");
    assert_eq!(chomp("0.12.0\r\n"), "0.12.0");
    assert_eq!(chomp("nightly"), "nightly");
    assert_eq!(chomp(""), "");
}

#[test]
fn chomp_drops_one_character_per_line_break() {
    assert_eq!(chomp("a\nb"), "a\n");
    assert_eq!(chomp("\n\n"), "");
}

#[test]
fn current_version_defaults_to_system() {
    assert_eq!(read_current_version(None), "system");
    assert_eq!(read_current_version(Some("nightly\n")), "nightly");
}

#[test]
fn version_file_round_trip() {
    let mut rustv = Rustv::new("/r", "system", vec![]);
    let switch = rustv.change_version("0.12.0");
    let name = read_current_version(Some(switch.version_file_contents.as_str()));
    let restarted = Rustv::new("/r", name.as_str(), vec![]);
    assert_eq!(restarted.current_version(), rustv.current_version());
    let edited = format!("{}\n", switch.version_file_contents);
    assert_eq!(read_current_version(Some(edited.as_str())), "0.12.0");
}

#[test]
fn new_installation_layout() {
    assert_eq!(
        rustv_directories("/home/u/.rustv"),
        vec!["/home/u/.rustv", "/home/u/.rustv/bin", "/home/u/.rustv/versions", "/home/u/.rustv/dl_cache"]
    );
    assert_eq!(rustv_directories("/home/u/.rustv/")[0], "/home/u/.rustv");
}

#[test]
fn rustv_paths() {
    let rustv = Rustv::new("/home/u/.rustv", "nightly", vec![]);
    assert_eq!(rustv.root(), "/home/u/.rustv");
    assert_eq!(rustv.current_version(), "/home/u/.rustv/versions/nightly");
    assert_eq!(rustv.install_path_for("0.12.0"), "/home/u/.rustv/versions/0.12.0");
    assert_eq!(rustv.download_path(), "/home/u/.rustv/dl_cache");
    assert_eq!(rustv.cache_path(), "/home/u/.rustv/cache");
    assert_eq!(rustv.bin_dir(), "/home/u/.rustv/versions/nightly/bin");
    assert_eq!(rustv.which("rustc"), "/home/u/.rustv/versions/nightly/bin/rustc");
}

#[test]
fn restart_on_untidy_root_keeps_current_version() {
    let mut rustv = Rustv::new("/r/./x/", "system", vec![]);
    let switch = rustv.change_version("0.12.0");
    let name = read_current_version(Some(switch.version_file_contents.as_str()));
    let as_given = Rustv::new("/r/./x/", name.as_str(), vec![]);
    let as_normalized = Rustv::new(rustv.root(), name.as_str(), vec![]);
    assert_eq!(as_given.current_version(), rustv.current_version());
    assert_eq!(as_normalized.current_version(), rustv.current_version());
    assert_eq!(rustv.current_version(), "/r/x/versions/0.12.0");
}

#[test]
fn distinct_dirs_under_any_root() {
    for root in ["/", ".", "..", "../..", "a/..", ""] {
        let rustv = Rustv::new(root, "system", vec![]);
        assert_ne!(rustv.install_path_for("0.11.0"), rustv.install_path_for("0.12.0"));
    }
    assert_eq!(Rustv::new("/", "x", vec![]).install_path_for("v"), "/versions/v");
    assert_eq!(Rustv::new("", "x", vec![]).install_path_for("v"), "versions/v");
    assert_eq!(Rustv::new("../..", "x", vec![]).which("cargo"), "../../versions/x/bin/cargo");
}

#[test]
fn distinct_versions_distinct_dirs() {
    let rustv = Rustv::new("/r", "system", vec![]);
    assert_ne!(rustv.install_path_for("0.11.0"), rustv.install_path_for("0.12.0"));
}

#[test]
fn which_follows_change_version() {
    let mut rustv = Rustv::new("/r", "system", vec![]);
    let switch = rustv.change_version("0.11.0");
    assert_eq!(rustv.root(), "/r");
    assert_eq!(rustv.current_version(), "/r/versions/0.11.0");
    assert_eq!(rustv.which("cargo"), "/r/versions/0.11.0/bin/cargo");
    assert_eq!(switch.version_file, "/r/current_version");
    assert_eq!(switch.version_file_contents, "0.11.0");
    assert_eq!(switch.lib_link, "/r/lib");
    assert_eq!(switch.lib_target, "/r/versions/0.11.0/lib");
    assert_eq!(switch.share_link, "/r/share");
    assert_eq!(switch.share_target, "/r/versions/0.11.0/share");
}

#[test]
fn versions_listing_marks_current() {
    let rustv = Rustv::new("/r", "nightly", vec![]);
    let entries = vec!["/r/versions/0.12.0".to_string(), "/r/versions/nightly".to_string()];
    assert_eq!(rustv.versions(&entries), vec!["/r/versions/0.12.0", "/r/versions/nightly*"]);
    assert_eq!(rustv.versions(&vec![]), Vec::<String>::new());
    let untidy = vec!["/r/versions/nightly/".to_string(), "/r//versions/./0.12.0".to_string()];
    assert_eq!(rustv.versions(&untidy), vec!["/r/versions/nightly*", "/r/versions/0.12.0"]);
}

#[test]
fn shim_for_tool() {
    let rustv = Rustv::new("/r", "nightly", vec![]);
    let shim = rustv.create_binary_shim("/r/versions/nightly/bin/rustc");
    assert_eq!(shim.path, "/r/bin/rustc");
    assert_eq!(
        shim.contents,
        "#!/bin/sh\nexport RUSTV_PATH=/r\nexport DYLD_LIBRARY_PATH=$RUSTV_PATH/versions/`cat $RUSTV_PATH/current_version`/lib\n$RUSTV_PATH/versions/`cat $RUSTV_PATH/current_version`/bin/rustc $@"
    );
}

#[test]
fn shim_under_untidy_root() {
    let rustv = Rustv::new("/r/", "nightly", vec![]);
    assert_eq!(rustv.root(), "/r");
    let shim = rustv.create_binary_shim("/r/versions/nightly/bin/rustc/");
    assert_eq!(shim.path, "/r/bin/rustc");
    assert!(shim.contents.starts_with("#!/bin/sh\nexport RUSTV_PATH=/r\n"));
}

#[test]
fn refresh_makes_one_shim_per_tool() {
    let rustv = Rustv::new("/r", "nightly", vec![]);
    let tools = vec!["/r/versions/nightly/bin/rustc".to_string(), "/r/versions/nightly/bin/cargo".to_string()];
    let shims = rustv.refresh(&tools);
    assert_eq!(shims.len(), 2);
    assert_eq!(shims[0].path, "/r/bin/rustc");
    assert_eq!(shims[1].path, "/r/bin/cargo");
    assert!(shims[1].contents.ends_with("/bin/cargo $@"));
}

#[test]
fn shims_do_not_depend_on_current_version() {
    let mut rustv = Rustv::new("/r", "nightly", vec![]);
    let before = rustv.create_binary_shim("/r/versions/nightly/bin/rustc");
    rustv.change_version("0.12.0");
    let after = rustv.create_binary_shim("/r/versions/0.12.0/bin/rustc");
    assert_eq!(before.path, after.path);
    assert_eq!(before.contents, after.contents);
}

#[test]
fn install_runs_rustv_build() {
    let rustv = Rustv::new("/r", "nightly", vec![]);
    let shell = rustv.install("0.12.0", "/r/versions/0.12.0");
    let (program, args) = command_parts(&shell);
    assert_eq!(program, "rustv-build");
    assert_eq!(args, vec!["0.12.0", "/r/versions/0.12.0"]);
}

#[test]
fn listed_versions_are_found_by_name() {
    let versions = vec![
        release("0.11.0", "http://a/old", "http://a/old-src"),
        nightly(),
        release("0.11.0", "http://a/new", "http://a/new-src"),
    ];
    let rustv = Rustv::new("/r", "system", versions);
    assert!(rustv.has_version("nightly"));
    assert!(rustv.has_version("0.11.0"));
    assert!(!rustv.has_version("0.10.0"));
    assert_eq!(rustv.version(&"0.11.0".to_string()).binary_url, "http://a/new");
    assert_eq!(rustv.version(&"nightly".to_string()).name, "nightly");
}

#[test]
fn load_versions_keeps_last_of_a_name() {
    let table = load_versions(vec![release("a", "http://x/1", "http://x/1s"), release("a", "http://x/2", "http://x/2s")]);
    assert_eq!(table.len(), 1);
    assert_eq!(table.get("a").unwrap().binary_url, "http://x/2");
}

#[test]
fn url_by_build_type() {
    let v = nightly();
    assert_eq!(v.url(BuildType::Source), "http://static.rust-lang.org/dist/rust-nightly.tar.gz");
    assert_eq!(
        v.url(BuildType::Binary),
        "http://static.rust-lang.org/dist/rust-nightly-x86_64-unknown-linux-gnu.tar.gz"
    );
}

#[test]
fn url_is_normalized_by_the_parser() {
    let v = release("x", "HTTP://Example.COM", "http://example.com/a/../b");
    assert_eq!(v.url(BuildType::Binary), "http://example.com/");
    assert_eq!(v.try_url(BuildType::Source), Some("http://example.com/b".to_string()));
}

#[test]
fn url_that_does_not_parse() {
    let v = release("x", "not a url", "");
    assert_eq!(v.try_url(BuildType::Binary), None);
    assert_eq!(v.try_url(BuildType::Source), None);
    assert!(v.try_install("/r/dl_cache", "/tmp", "/r/versions", BuildType::Binary).is_none());
}

#[test]
fn download_plan() {
    let v = nightly();
    let plan = v.download("/tmp", BuildType::Source);
    assert_eq!(plan.url, "http://static.rust-lang.org/dist/rust-nightly.tar.gz");
    assert_eq!(plan.dl_path, "/tmp/nightly");
    assert_eq!(plan.source_path, "/tmp/source-nightly");
    assert_eq!(plan.result, "/tmp/source-nightly");
    let (program, args) = command_parts(&plan.unpack);
    assert_eq!(program, "tar");
    assert_eq!(args, vec!["-xzvf", "/tmp/nightly", "-C", "/tmp/source-nightly", "--strip-components=1"]);
}

#[test]
fn download_plan_under_relative_tmpdir() {
    let plan = nightly().download("tmp", BuildType::Binary);
    assert_eq!(plan.source_path, "tmp/source-nightly");
    assert_eq!(plan.result, "tmp/tmp/source-nightly");
}

#[test]
fn build_from_source_steps() {
    let plan = nightly().build_rust_in("/tmp/source-nightly", "/r/versions", "nightly", BuildType::Source);
    assert_eq!(plan.working_dir, "/tmp/source-nightly");
    assert_eq!(plan.steps.len(), 3);
    assert_eq!(command_parts(&plan.steps[0].shell), ("/tmp/source-nightly/configure".to_string(), vec!["--prefix=/r/versions/nightly".to_string()]));
    assert!(plan.steps[0].panics_on_failure);
    assert_eq!(command_parts(&plan.steps[1].shell), ("make".to_string(), vec![]));
    assert!(plan.steps[1].panics_on_failure);
    assert_eq!(command_parts(&plan.steps[2].shell), ("make".to_string(), vec!["install".to_string()]));
    assert!(!plan.steps[2].panics_on_failure);
}

#[test]
fn build_from_binary_steps() {
    let plan = nightly().build_rust_in("/tmp/source-nightly", "/r/versions/nightly", "nightly", BuildType::Binary);
    assert_eq!(plan.steps.len(), 1);
    assert_eq!(command_parts(&plan.steps[0].shell), ("/tmp/source-nightly/install.sh".to_string(), vec!["--prefix=/r/versions/nightly".to_string()]));
    assert!(!plan.steps[0].panics_on_failure);
    let untidy = nightly().build_rust_in("/tmp/src/", "/r/versions/./nightly/", "nightly", BuildType::Binary);
    assert_eq!(command_parts(&untidy.steps[0].shell), ("/tmp/src/install.sh".to_string(), vec!["--prefix=/r/versions/nightly".to_string()]));
}

#[test]
fn install_plan_builds_in_unpacked_dir() {
    let plan = nightly().install("/r/dl_cache", "/tmp", "/r/versions", BuildType::Source);
    assert_eq!(plan.build.working_dir, plan.download.result);
    assert_eq!(plan.build.working_dir, "/tmp/source-nightly");
    assert_eq!(command_parts(&plan.build.steps[0].shell).1, vec!["--prefix=/r/versions/nightly".to_string()]);
    let same = nightly().try_install("/r/dl_cache", "/tmp", "/r/versions", BuildType::Source).unwrap();
    assert_eq!(same.download.dl_path, plan.download.dl_path);
}

#[test]
fn command_line_builder() {
    let mut c = CommandLine::new("make");
    c.arg("install");
    let shell = Shell::new(c);
    assert_eq!(command_parts(&shell), ("make".to_string(), vec!["install".to_string()]));
}

#[test]
fn command_by_first_flag() {
    assert_eq!(get_command(&args([true, false, false, false, false])), Command::Install);
    assert_eq!(get_command(&args([false, true, false, false, false])), Command::Which);
    assert_eq!(get_command(&args([false, false, true, false, false])), Command::Global);
    assert_eq!(get_command(&args([false, false, false, true, false])), Command::Refresh);
    assert_eq!(get_command(&args([false, false, false, false, true])), Command::Versions);
    assert_eq!(get_command(&args([false, true, true, false, true])), Command::Which);
}

#[test]
fn build_type_follows_listing() {
    let mut v = nightly();
    assert_eq!(v.build_type(), BuildType::Binary);
    v.from_source = true;
    assert_eq!(v.build_type(), BuildType::Source);
}
