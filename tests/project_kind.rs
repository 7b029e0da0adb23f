use code_scanner::project::{detect_project_type, is_single_project_root, projects_to_scan};

fn names(list: &[&str]) -> Vec<String> {
    list.iter().map(|s| s.to_string()).collect()
}

#[test]
fn labels_by_marker_files() {
    assert_eq!(detect_project_type(&names(&["package.json", "next.config.js"])), "Next.js");
    assert_eq!(detect_project_type(&names(&["tsconfig.json", "package.json"])), "TypeScript/Node");
    assert_eq!(detect_project_type(&names(&["package.json"])), "Node.js");
    assert_eq!(detect_project_type(&names(&["Cargo.toml", "src"])), "Rust");
    assert_eq!(detect_project_type(&names(&["setup.py", "manage.py"])), "Django");
    assert_eq!(detect_project_type(&names(&["pyproject.toml"])), "Python");
    assert_eq!(detect_project_type(&names(&["build.gradle"])), "Java/Kotlin");
    assert_eq!(detect_project_type(&names(&["go.mod"])), "Go");
    assert_eq!(detect_project_type(&names(&["pubspec.yaml"])), "Flutter");
    assert_eq!(detect_project_type(&names(&["README.md"])), "Genérico");
    assert_eq!(detect_project_type(&Vec::new()), "Genérico");
}

#[test]
fn project_root_markers() {
    assert!(is_single_project_root(&names(&["Cargo.toml"])));
    assert!(is_single_project_root(&names(&["x", ".git"])));
    assert!(is_single_project_root(&names(&["requirements.txt"])));
    assert!(is_single_project_root(&names(&["package.json"])));
    assert!(!is_single_project_root(&names(&["go.mod", "a"])));
}

#[test]
fn scan_targets_fall_back_to_root() {
    let r = projects_to_scan("in".to_string(), &names(&["a", "b"]), names(&["in/a", "in/b"]));
    assert_eq!(r, names(&["in/a", "in/b"]));
    let r = projects_to_scan("in".to_string(), &names(&["Cargo.toml", "a"]), names(&["in/a"]));
    assert_eq!(r, names(&["in"]));
    let r = projects_to_scan("in".to_string(), &names(&["notes.txt"]), Vec::new());
    assert_eq!(r, names(&["in"]));
}

#[test]
fn marker_list_covers_every_rule() {
    let m = code_scanner::project::marker_files();
    assert_eq!(m.len(), 13);
    assert_eq!(detect_project_type(&m), "Next.js");
    assert!(is_single_project_root(&m));
    assert!(m.contains(&".git".to_string()));
}
