use code_scanner::render::{
    decimal, file_section, head_lines, join_path, padded_left, padded_right, report_file_name,
    report_lines, split_lines, summary_lines, FileDump, BINARY_NOTE, NOT_TEXT_NOTE,
};
use code_scanner::scanner::ScanStats;
use code_scanner::utils::{format_size, is_binary};

fn path(p: &str) -> Vec<String> {
    p.split('/').map(|s| s.to_string()).collect()
}

#[test]
fn lines_split_like_str_lines() {
    assert_eq!(split_lines("a\nb\r\nc"), vec!["a", "b", "c"]);
    assert_eq!(split_lines("a\n"), vec!["a"]);
    assert_eq!(split_lines(""), Vec::<String>::new());
    assert_eq!(split_lines("\n\nx\r"), vec!["", "", "x\r"]);
    let text = "one\ntwo\r\n\nthree\n";
    let expected: Vec<String> = text.lines().map(|l| l.to_string()).collect();
    assert_eq!(split_lines(text), expected);
}

#[test]
fn numbers_and_padding() {
    assert_eq!(decimal(0), "0");
    assert_eq!(decimal(1234567), "1234567");
    assert_eq!(decimal(u64::MAX), u64::MAX.to_string());
    assert_eq!(padded_left("7", 4), "   7");
    assert_eq!(padded_left("12345", 4), "12345");
    assert_eq!(padded_right("ab", 5), "ab   ");
    assert_eq!(padded_right("ação", 6), "ação  ");
    assert_eq!(join_path(&path("src/a/b.rs")), "src/a/b.rs");
    assert_eq!(report_file_name("demo"), "demo_project_code.txt");
}

#[test]
fn size_text_uses_decimal_units() {
    assert_eq!(format_size(50), "50 B");
    assert_eq!(format_size(1_000_000), "1 MB");
    assert_eq!(format_size(1_500), "1.50 kB");
}

#[test]
fn zero_byte_in_head_means_binary() {
    assert!(is_binary(Some(&[1u8, 2, 0, 3][..])));
    assert!(!is_binary(Some(&b"plain text"[..])));
    assert!(is_binary(None));
    let mut late = vec![b'a'; 1024];
    late.push(0);
    assert!(!is_binary(Some(&late[..])));
    late[1023] = 0;
    assert!(is_binary(Some(&late[..])));
}

#[test]
fn binary_file_gets_placeholder() {
    let dump = FileDump {
        components: path("img/logo.dat"),
        size: 2000,
        binary: true,
        text: Some("ignored\nlines".to_string()),
    };
    let s = file_section(&dump);
    assert_eq!(s.len(), 6);
    assert_eq!(s[1], "│ 📄 img/logo.dat");
    assert_eq!(s[2], "│ 📊 Tamanho: 2 kB");
    assert_eq!(s[4], BINARY_NOTE);
    assert!(!s.iter().any(|l| l.contains(" │ ignored")));
}

#[test]
fn text_file_gets_numbered_lines() {
    let dump = FileDump {
        components: path("src/main.go"),
        size: 50,
        binary: false,
        text: Some("package main\n\nfunc main() {}\n".to_string()),
    };
    let s = file_section(&dump);
    assert_eq!(s.len(), 8);
    assert_eq!(s[0], "┌─────────────────────────────────────────────────────────────");
    assert_eq!(s[4], "   1 │ package main");
    assert_eq!(s[5], "   2 │ ");
    assert_eq!(s[6], "   3 │ func main() {}");
    assert_eq!(s[7], "└─────────────────────────────────────────────────────────────\n");
    let unreadable = FileDump { components: path("x.txt"), size: 1, binary: false, text: None };
    assert_eq!(file_section(&unreadable)[4], NOT_TEXT_NOTE);
}

#[test]
fn head_and_summary_lines() {
    let h = head_lines("demo", "Rust", "2025-01-02 03:04:05");
    assert_eq!(h.len(), 7);
    assert_eq!(h[1], format!("║ PROJETO: {:<45}║", "demo"));
    assert_eq!(h[2], format!("║ Tipo: {:<48}║", "Rust"));
    assert_eq!(h[3], format!("║ Data: {:<48}║", "2025-01-02 03:04:05"));
    let s = summary_lines(1, ScanStats { total_size: 50, skipped: 1 });
    assert_eq!(s[2], "  ✅ Arquivos processados: 1");
    assert_eq!(s[3], "  ⏭️  Arquivos ignorados (estimado): 1");
    assert_eq!(s[4], "  💾 Tamanho total do conteúdo: 50 B");
}

#[test]
fn report_twice_differs_only_in_time() {
    let tree = vec!["├── src/".to_string(), "  └── main.go".to_string()];
    let dumps = vec![FileDump {
        components: path("src/main.go"),
        size: 50,
        binary: false,
        text: Some("package main\n".to_string()),
    }];
    let stats = ScanStats { total_size: 50, skipped: 1 };
    let a = report_lines("demo", "Go", "2025-01-01 00:00:00", &tree, &dumps, stats);
    let b = report_lines("demo", "Go", "2025-06-30 12:34:56", &tree, &dumps, stats);
    assert_eq!(a.len(), b.len());
    for i in 0..a.len() {
        if i != 3 {
            assert_eq!(a[i], b[i]);
        }
    }
    assert_ne!(a[3], b[3]);
    assert_eq!(a[a.len() - 5], "📊 RESUMO");
}
