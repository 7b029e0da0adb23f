use code_scanner::config::{load_config, ProjectConfig, DEFAULT_MAX_FILE_SIZE};

fn names(list: &[&str]) -> Vec<String> {
    list.iter().map(|s| s.to_string()).collect()
}

fn empty_overrides() -> ProjectConfig {
    ProjectConfig {
        code_extensions: Vec::new(),
        ignore_dirs: Vec::new(),
        ignore_files: Vec::new(),
        ignore_extensions: Vec::new(),
        max_file_size: 0,
    }
}

#[test]
fn default_rules_are_filled() {
    let c = ProjectConfig::default();
    assert!(!c.code_extensions.is_empty());
    assert!(!c.ignore_dirs.is_empty());
    assert!(!c.ignore_files.is_empty());
    assert!(!c.ignore_extensions.is_empty());
    assert_eq!(c.max_file_size, 1048576);
    assert_eq!(DEFAULT_MAX_FILE_SIZE, 1048576);
    assert!(c.code_extensions.contains(&"dockerfile".to_string()));
    assert!(c.ignore_dirs.contains(&"node_modules".to_string()));
    assert!(c.ignore_files.contains(&"cargo.lock".to_string()));
    assert!(c.ignore_extensions.contains(&"png".to_string()));
    assert_eq!(c.code_extensions.len(), 34);
    assert_eq!(c.ignore_dirs.len(), 18);
    assert_eq!(c.ignore_files.len(), 8);
    assert_eq!(c.ignore_extensions.len(), 28);
}

#[test]
fn override_of_size_only_keeps_sets() {
    let mut over = empty_overrides();
    over.max_file_size = 10;
    let c = load_config(Some(over));
    let d = ProjectConfig::default();
    assert_eq!(c.max_file_size, 10);
    assert_eq!(c.code_extensions, d.code_extensions);
    assert_eq!(c.ignore_dirs, d.ignore_dirs);
    assert_eq!(c.ignore_files, d.ignore_files);
    assert_eq!(c.ignore_extensions, d.ignore_extensions);
}

#[test]
fn override_of_sets_only_keeps_size() {
    let mut over = empty_overrides();
    over.code_extensions = names(&["zig"]);
    over.ignore_dirs = names(&["vendor"]);
    let c = load_config(Some(over));
    let d = ProjectConfig::default();
    assert_eq!(c.max_file_size, 1048576);
    assert_eq!(c.code_extensions, names(&["zig"]));
    assert_eq!(c.ignore_dirs, names(&["vendor"]));
    assert_eq!(c.ignore_files, d.ignore_files);
    assert_eq!(c.ignore_extensions, d.ignore_extensions);
}

#[test]
fn missing_override_gives_defaults() {
    let c = load_config(None);
    let d = ProjectConfig::default();
    assert_eq!(c.code_extensions, d.code_extensions);
    assert_eq!(c.ignore_dirs, d.ignore_dirs);
    assert_eq!(c.ignore_files, d.ignore_files);
    assert_eq!(c.ignore_extensions, d.ignore_extensions);
    assert_eq!(c.max_file_size, d.max_file_size);
}

#[test]
fn apply_overrides_replaces_each_set_field() {
    let mut c = ProjectConfig::default();
    let over = ProjectConfig {
        code_extensions: names(&["a"]),
        ignore_dirs: names(&["b"]),
        ignore_files: names(&["c"]),
        ignore_extensions: names(&["d"]),
        max_file_size: 7,
    };
    c.apply_overrides(over);
    assert_eq!(c.code_extensions, names(&["a"]));
    assert_eq!(c.ignore_dirs, names(&["b"]));
    assert_eq!(c.ignore_files, names(&["c"]));
    assert_eq!(c.ignore_extensions, names(&["d"]));
    assert_eq!(c.max_file_size, 7);
}

#[test]
fn override_names_are_lower_cased() {
    let mut over = empty_overrides();
    over.code_extensions = names(&["RS", "Go"]);
    over.ignore_files = names(&["README.MD"]);
    let c = load_config(Some(over));
    assert_eq!(c.code_extensions, names(&["rs", "go"]));
    assert_eq!(c.ignore_files, names(&["readme.md"]));
    assert_eq!(c.ignore_dirs, ProjectConfig::default().ignore_dirs);
}
