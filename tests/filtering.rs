use code_scanner::config::ProjectConfig;
use code_scanner::order::sort_files;
use code_scanner::render::{report_lines, FileDump};
use code_scanner::scanner::{classify, collect_files, tree_line, AcceptedFile, Collector, Entry, Verdict};

fn path(p: &str) -> Vec<String> {
    p.split('/').map(|s| s.to_string()).collect()
}

fn file(p: &str, size: u64) -> Entry {
    Entry { components: path(p), is_dir: false, size: Some(size) }
}

fn dir(p: &str) -> Entry {
    Entry { components: path(p), is_dir: true, size: Some(4096) }
}

#[test]
fn dockerfile_accepted_through_its_name() {
    let c = ProjectConfig::default();
    assert_eq!(classify(&file("Dockerfile", 10), &c), Verdict::Accept);
    assert_eq!(classify(&file("app/Makefile", 10), &c), Verdict::Accept);
}

#[test]
fn extension_less_name_in_ignore_dirs_is_pruned() {
    let mut c = ProjectConfig::default();
    c.ignore_dirs.push("dockerfile".to_string());
    assert_eq!(classify(&file("Dockerfile", 10), &c), Verdict::Prune);
    assert_eq!(classify(&file("node_modules", 10), &ProjectConfig::default()), Verdict::Prune);
}

#[test]
fn whole_name_in_code_list_rescues_unknown_extension() {
    let mut c = ProjectConfig::default();
    c.code_extensions.push("notes.weird".to_string());
    assert_eq!(classify(&file("NOTES.weird", 1), &c), Verdict::Accept);
    assert_eq!(classify(&file("other.weird", 1), &c), Verdict::Skip);
}

#[test]
fn rules_apply_in_order() {
    let c = ProjectConfig::default();
    assert_eq!(classify(&dir("src"), &c), Verdict::Descend);
    assert_eq!(classify(&dir("Target"), &c), Verdict::Prune);
    assert_eq!(classify(&file("Cargo.lock", 5), &c), Verdict::Skip);
    assert_eq!(classify(&file("logo.PNG", 5), &c), Verdict::Skip);
    assert_eq!(classify(&file("data.bin", 5), &c), Verdict::Skip);
    assert_eq!(classify(&file("Main.RS", 5), &c), Verdict::Accept);
    assert_eq!(classify(&file(".gitignore", 5), &c), Verdict::Accept);
    assert_eq!(classify(&file("LICENSE", 5), &c), Verdict::Accept);
    assert_eq!(classify(&Entry { components: path("a.rs"), is_dir: false, size: None }, &c), Verdict::Drop);
    assert_eq!(classify(&file("node_modules/x.js", 5), &c), Verdict::Prune);
}

#[test]
fn size_limit_is_inclusive() {
    let c = ProjectConfig::default();
    assert_eq!(classify(&file("a.txt", 1048576), &c), Verdict::Accept);
    assert_eq!(classify(&file("a.txt", 1048577), &c), Verdict::TooLarge);
    let mut col = Collector::new();
    let line = col.visit(file("a.txt", 1048577), &c);
    assert!(line.is_none());
    assert_eq!(col.stats.skipped, 1);
    assert_eq!(col.files.len(), 0);
    let line = col.visit(file("b.txt", 1048576), &c);
    assert_eq!(line, Some("└── b.txt".to_string()));
    assert_eq!(col.stats.skipped, 1);
    assert_eq!(col.stats.total_size, 1048576);
}

#[test]
fn tree_lines_indent_by_depth() {
    assert_eq!(tree_line(&path("src"), true), "├── src/");
    assert_eq!(tree_line(&path("src/main.go"), false), "  └── main.go");
    assert_eq!(tree_line(&path("a/b/C.txt"), false), "    └── C.txt");
}

#[test]
fn files_sorted_by_path() {
    let files = vec![
        AcceptedFile { components: path("b.txt"), size: 1 },
        AcceptedFile { components: path("c/d.txt"), size: 2 },
        AcceptedFile { components: path("a.txt"), size: 3 },
    ];
    let sorted = sort_files(files);
    let order: Vec<Vec<String>> = sorted.iter().map(|f| f.components.clone()).collect();
    assert_eq!(order, vec![path("a.txt"), path("b.txt"), path("c/d.txt")]);
    assert_eq!(sorted[0].size, 3);
}

#[test]
fn sort_compares_full_paths_bytewise() {
    let files = vec![
        AcceptedFile { components: path("a/b"), size: 1 },
        AcceptedFile { components: path("a.txt"), size: 1 },
        AcceptedFile { components: path("a-b/x"), size: 1 },
        AcceptedFile { components: path("B.txt"), size: 1 },
    ];
    let sorted = sort_files(files);
    let order: Vec<Vec<String>> = sorted.iter().map(|f| f.components.clone()).collect();
    assert_eq!(order, vec![path("B.txt"), path("a-b/x"), path("a.txt"), path("a/b")]);
    let mut joined: Vec<String> = order.iter().map(|p| p.join("/")).collect();
    let shown = joined.clone();
    joined.sort();
    assert_eq!(shown, joined);
}

#[test]
fn scenario_project_with_pruned_dir_and_image() {
    let entries = vec![
        dir("src"),
        file("src/main.go", 50),
        dir("node_modules"),
        file("node_modules/x.js", 20),
        file("image.png", 300),
    ];
    let c = ProjectConfig::default();
    let col = collect_files(entries, &c);
    assert_eq!(col.tree_lines, vec!["├── src/".to_string(), "  └── main.go".to_string()]);
    assert_eq!(col.files.len(), 1);
    assert_eq!(col.files[0].components, path("src/main.go"));
    assert_eq!(col.stats.skipped, 1);
    assert_eq!(col.stats.total_size, 50);
}

#[test]
fn scenario_report_lists_and_numbers_main_go() {
    let entries = vec![
        dir("src"),
        file("src/main.go", 50),
        dir("node_modules"),
        file("node_modules/x.js", 20),
        file("image.png", 300),
    ];
    let col = collect_files(entries, &ProjectConfig::default());
    let files = sort_files(col.files);
    let text = "package main\n\nfunc main() {\n}\n";
    let dumps: Vec<FileDump> = files
        .iter()
        .map(|f| FileDump {
            components: f.components.clone(),
            size: f.size,
            binary: false,
            text: Some(text.to_string()),
        })
        .collect();
    let report = report_lines("demo", "Go", "2025-01-01 00:00:00", &col.tree_lines, &dumps, col.stats);
    assert!(report.contains(&"├── src/".to_string()));
    assert!(report.contains(&"  └── main.go".to_string()));
    assert!(report.contains(&"│ 📄 src/main.go".to_string()));
    assert!(report.contains(&"   1 │ package main".to_string()));
    assert!(report.contains(&"   4 │ }".to_string()));
    assert!(!report.iter().any(|l| l.starts_with("   5 │")));
    assert!(!report.iter().any(|l| l.contains("x.js") || l.contains("image.png")));
    assert!(report.contains(&"  ✅ Arquivos processados: 1".to_string()));
    assert!(report.contains(&"  ⏭️  Arquivos ignorados (estimado): 1".to_string()));
    assert!(report.contains(&"  💾 Tamanho total do conteúdo: 50 B".to_string()));
}

#[test]
fn walk_order_does_not_change_file_order() {
    let c = ProjectConfig::default();
    let a = collect_files(vec![file("b.txt", 1), file("c/d.txt", 2), file("a.txt", 3)], &c);
    let b = collect_files(vec![file("c/d.txt", 2), file("a.txt", 3), file("b.txt", 1)], &c);
    let sa: Vec<Vec<String>> = sort_files(a.files).iter().map(|f| f.components.clone()).collect();
    let sb: Vec<Vec<String>> = sort_files(b.files).iter().map(|f| f.components.clone()).collect();
    assert_eq!(sa, sb);
    assert_eq!(sa, vec![path("a.txt"), path("b.txt"), path("c/d.txt")]);
}
