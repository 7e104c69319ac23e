use guessfs_indexer::sidecar::{
    options_from_flags, push_arg, relaunch_args, sidecar_args, trim_line_ending, SidecarFlags,
};
use guessfs_indexer::IndexOptions;

fn flag_strings(items: &[&str]) -> Vec<String> {
    items.iter().map(|s| s.to_string()).collect()
}

fn bare_options(path: &str) -> IndexOptions {
    IndexOptions {
        path: path.to_string(),
        index_directories: false,
        index_files: false,
        file_types: None,
        excluded_regex: None,
        excluded_paths: None,
        excluded_files: None,
        exclude_hidden: None,
        exclude_system: None,
        exclude_temporary: None,
        exclude_empty: None,
        exclude_admin: None,
    }
}

#[test]
fn push_arg_appends_flag_and_value() {
    let mut args = flag_strings(&["--path", "/r"]);
    push_arg(&mut args, "--types", Some("jpg,png".to_string()));
    assert_eq!(args, flag_strings(&["--path", "/r", "--types", "jpg,png"]));
}

#[test]
fn push_arg_without_value_appends_nothing() {
    let mut args = flag_strings(&["--path", "/r"]);
    push_arg(&mut args, "--types", None);
    assert_eq!(args, flag_strings(&["--path", "/r"]));
}

#[test]
fn bare_options_carry_only_the_path() {
    assert_eq!(sidecar_args(&bare_options("/r")), flag_strings(&["--path", "/r"]));
}

#[test]
fn every_option_has_its_flag() {
    let options = IndexOptions {
        path: "C:\\".to_string(),
        index_directories: true,
        index_files: true,
        file_types: Some(flag_strings(&["jpg", "png"])),
        excluded_regex: Some("^C:\\\\Windows".to_string()),
        excluded_paths: Some(flag_strings(&["C:\\Windows", "C:\\ProgramData"])),
        excluded_files: Some(flag_strings(&[".sys"])),
        exclude_hidden: Some(true),
        exclude_system: Some(true),
        exclude_temporary: Some(true),
        exclude_empty: Some(true),
        exclude_admin: Some(true),
    };
    assert_eq!(
        sidecar_args(&options),
        flag_strings(&[
            "--path",
            "C:\\",
            "--index",
            "files,dirs",
            "--types",
            "jpg,png",
            "--exclude-regex",
            "^C:\\\\Windows",
            "--exclude-paths",
            "C:\\Windows,C:\\ProgramData",
            "--exclude-files",
            ".sys",
            "--exclude",
            "hidden,system,temp,empty,privileged",
        ])
    );
}

#[test]
fn toggles_that_are_off_are_not_listed() {
    let mut options = bare_options("/r");
    options.index_directories = true;
    options.exclude_hidden = Some(false);
    options.exclude_temporary = Some(true);
    options.exclude_admin = Some(true);
    options.excluded_paths = Some(Vec::new());
    assert_eq!(
        sidecar_args(&options),
        flag_strings(&[
            "--path",
            "/r",
            "--index",
            "dirs",
            "--exclude-paths",
            "",
            "--exclude",
            "temp,privileged",
        ])
    );
}

#[test]
fn flags_stand_for_options() {
    let options = options_from_flags(SidecarFlags {
        path: "/r".to_string(),
        index: "files,dirs".to_string(),
        types: Some("jpg,png".to_string()),
        exclude: Some("hidden,temp".to_string()),
        exclude_regex: Some("node_modules".to_string()),
        exclude_paths: Some("/r/a,/r/b".to_string()),
        exclude_files: None,
    });
    assert_eq!(options.path, "/r");
    assert!(options.index_directories);
    assert!(options.index_files);
    assert_eq!(options.file_types, Some(flag_strings(&["jpg", "png"])));
    assert_eq!(options.excluded_regex.as_deref(), Some("node_modules"));
    assert_eq!(options.excluded_paths, Some(flag_strings(&["/r/a", "/r/b"])));
    assert_eq!(options.excluded_files, Some(Vec::new()));
    assert_eq!(options.exclude_hidden, Some(true));
    assert_eq!(options.exclude_system, Some(false));
    assert_eq!(options.exclude_temporary, Some(true));
    assert_eq!(options.exclude_empty, Some(false));
    assert_eq!(options.exclude_admin, Some(false));
}

#[test]
fn absent_flags_leave_everything_off() {
    let options = options_from_flags(SidecarFlags {
        path: "/r".to_string(),
        index: "dirs".to_string(),
        types: None,
        exclude: None,
        exclude_regex: None,
        exclude_paths: None,
        exclude_files: None,
    });
    assert!(options.index_directories);
    assert!(!options.index_files);
    assert_eq!(options.file_types, None);
    assert_eq!(options.excluded_regex, None);
    assert_eq!(options.excluded_paths, Some(Vec::new()));
    assert_eq!(options.excluded_files, Some(Vec::new()));
    assert_eq!(options.exclude_hidden, Some(false));
    assert_eq!(options.exclude_system, Some(false));
    assert_eq!(options.exclude_temporary, Some(false));
    assert_eq!(options.exclude_empty, Some(false));
    assert_eq!(options.exclude_admin, Some(false));
}

#[test]
fn index_words_are_whole_items() {
    let options = options_from_flags(SidecarFlags {
        path: "/r".to_string(),
        index: "filesystem,dir".to_string(),
        types: None,
        exclude: Some("hiddenx,privileged".to_string()),
        exclude_regex: None,
        exclude_paths: None,
        exclude_files: None,
    });
    assert!(!options.index_directories);
    assert!(!options.index_files);
    assert_eq!(options.exclude_hidden, Some(false));
    assert_eq!(options.exclude_admin, Some(true));
}

#[test]
fn arguments_round_trip_through_flags() {
    let mut options = bare_options("/r");
    options.index_files = true;
    options.exclude_empty = Some(true);
    let args = sidecar_args(&options);
    assert_eq!(args, flag_strings(&["--path", "/r", "--index", "files", "--exclude", "empty"]));
    let back = options_from_flags(SidecarFlags {
        path: args[1].clone(),
        index: args[3].clone(),
        types: None,
        exclude: Some(args[5].clone()),
        exclude_regex: None,
        exclude_paths: None,
        exclude_files: None,
    });
    assert_eq!(back.path, options.path);
    assert_eq!(back.index_files, options.index_files);
    assert_eq!(back.index_directories, options.index_directories);
    assert_eq!(back.exclude_empty, Some(true));
    assert_eq!(back.exclude_hidden, Some(false));
}

#[test]
fn line_ending_is_removed_once() {
    assert_eq!(trim_line_ending("done\n"), "done");
    assert_eq!(trim_line_ending("done\r\n"), "done");
    assert_eq!(trim_line_ending("done"), "done");
    assert_eq!(trim_line_ending("done\r"), "done\r");
    assert_eq!(trim_line_ending("done\n\n"), "done\n");
    assert_eq!(trim_line_ending("done\r\r\n"), "done\r");
    assert_eq!(trim_line_ending("\n"), "");
    assert_eq!(trim_line_ending("\r\n"), "");
    assert_eq!(trim_line_ending(""), "");
}

#[test]
fn relaunch_drops_the_elevation_flag() {
    assert_eq!(
        relaunch_args(&flag_strings(&["--path", "C:\\", "--elevate", "--index", "files"])),
        flag_strings(&["--path", "C:\\", "--index", "files"])
    );
    assert_eq!(
        relaunch_args(&flag_strings(&["--elevate", "--elevate"])),
        flag_strings(&[])
    );
    assert_eq!(
        relaunch_args(&flag_strings(&["--path", "--elevated"])),
        flag_strings(&["--path", "--elevated"])
    );
    assert_eq!(relaunch_args(&Vec::new()), flag_strings(&[]));
}
