use jayjay::source_path::{classify_path, extensions, filenames, is_source_path, load};

#[test]
fn programming_and_markup_are_source() {
    assert!(is_source_path("src/main.rs"));
    assert!(is_source_path("App.swift"));
    assert!(is_source_path("dir\\view.ts"));
    assert!(is_source_path("index.html"));
    assert!(is_source_path("README.md"));
    assert!(is_source_path("Dockerfile"));
    assert!(is_source_path("CMakeLists.txt"));
}

#[test]
fn data_and_media_are_not_source() {
    assert!(!is_source_path("song.mp3"));
    assert!(!is_source_path("clip.wav"));
    assert!(!is_source_path("photo.png"));
    assert!(!is_source_path("package-lock.json"));
    assert!(!is_source_path("data.yaml"));
    assert!(!is_source_path("notes.csv"));
    assert!(!is_source_path("unknown.bin"));
    assert!(!is_source_path("random_blob"));
}

#[test]
fn longest_suffix_wins_for_compound_extensions() {
    assert!(is_source_path("page.blade.php"));
    assert!(is_source_path("config.h.in"));
}

#[test]
fn names_are_compared_in_lower_case() {
    assert!(is_source_path("SRC/MAIN.RS"));
    assert!(is_source_path("docs/Guide.MD"));
    assert!(is_source_path("MAKEFILE"));
}

#[test]
fn only_the_last_component_counts() {
    assert!(!is_source_path("src.rs/data"));
    assert!(!is_source_path("lib.rs\\blob"));
    assert!(!is_source_path("dir/"));
    assert!(!is_source_path(""));
}

#[test]
fn any_dot_may_start_the_extension() {
    let exts = load(".in\n");
    let names = load("");
    assert!(classify_path("config.h.in", &exts, &names));
    assert!(classify_path("a.b.c.in", &exts, &names));
    assert!(!classify_path("config.h.inx", &exts, &names));
    assert!(!classify_path("in", &exts, &names));
}

#[test]
fn load_skips_blank_and_comment_lines() {
    let table = load("# comment\n.rs\n\n.go\r\n#.py\n.md");
    assert_eq!(table, vec![".rs".to_string(), ".go".to_string(), ".md".to_string()]);
    assert!(load("").is_empty());
    assert!(load("\n\n# x\n").is_empty());
}

#[test]
fn built_in_tables_are_loaded() {
    let exts = extensions();
    assert!(exts.contains(&".rs".to_string()));
    assert!(!exts.contains(&".json".to_string()));
    let names = filenames();
    assert!(names.contains(&"dockerfile".to_string()));
    assert!(names.contains(&"cmakelists.txt".to_string()));
}
