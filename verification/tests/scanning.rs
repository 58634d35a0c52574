use clap_host::scan::{
    scan, scan_dir, standard_dirs, DirEntry, FoundPath, PathPart, Platform, SearchEnv, RANK_NAME,
    RANK_ROOT,
};

fn env(home: Option<&str>, clap_path: Option<&str>) -> SearchEnv {
    SearchEnv {
        common_program_files: None,
        local_app_data: None,
        home: home.map(str::to_string),
        clap_path: clap_path.map(str::to_string),
    }
}

fn file(name: &str, id: usize) -> DirEntry {
    DirEntry::File { name: name.as_bytes().to_vec(), id }
}

fn path(text: &str, id: usize) -> FoundPath {
    let mut parts = Vec::new();
    if text.starts_with('/') {
        parts.push(PathPart { rank: RANK_ROOT, name: Vec::new() });
    }
    for name in text.split('/').filter(|n| !n.is_empty()) {
        parts.push(PathPart { rank: RANK_NAME, name: name.as_bytes().to_vec() });
    }
    FoundPath { parts, id }
}

#[test]
fn scan_dir_finds_clap_files_recursively() {
    let root = vec![
        file("ignore.txt", 0),
        DirEntry::Dir(vec![file("b.clap", 1)]),
        file("a.clap", 2),
    ];
    let paths = ["ignore.txt", "sub/b.clap", "a.clap"];
    let mut found: Vec<&str> = scan_dir(&root).iter().map(|id| paths[*id]).collect();
    found.sort();
    assert_eq!(found.len(), 2);
    assert!(found[0].ends_with("a.clap"));
    assert!(found[1].ends_with("sub/b.clap"));
}

#[test]
fn only_the_extension_counts() {
    let root = vec![
        file(".clap", 0),
        file("x.CLAP", 1),
        file("x.clap.bak", 2),
        file("clap", 3),
        file("..clap", 4),
        file("x.y.clap", 5),
        DirEntry::Dir(vec![]),
        DirEntry::Dir(vec![DirEntry::Dir(vec![file("z.clap", 6)])]),
    ];
    assert_eq!(scan_dir(&root), vec![4, 5, 6]);
    assert!(scan_dir(&vec![]).is_empty());
}

#[test]
fn standard_dirs_has_entries_on_all_platforms() {
    assert!(!standard_dirs(Platform::Unix, &env(None, None)).is_empty());
    assert!(!standard_dirs(Platform::MacOs, &env(None, None)).is_empty());
    let mut windows = env(None, None);
    windows.common_program_files = Some("C:\\Program Files\\Common Files".to_string());
    assert!(!standard_dirs(Platform::Windows, &windows).is_empty());
}

#[test]
fn standard_dirs_follow_the_platform() {
    assert_eq!(
        standard_dirs(Platform::Unix, &env(Some("/home/me"), None)),
        vec![vec!["/usr/lib/clap"], vec!["/usr/local/lib/clap"], vec!["/home/me", ".clap"]]
    );
    assert_eq!(
        standard_dirs(Platform::MacOs, &env(Some("/Users/me"), None)),
        vec![
            vec!["/Library/Audio/Plug-Ins/CLAP"],
            vec!["/Users/me", "Library/Audio/Plug-Ins/CLAP"]
        ]
    );
    let windows = SearchEnv {
        common_program_files: Some("C:\\C".to_string()),
        local_app_data: Some("C:\\L".to_string()),
        home: Some("/ignored".to_string()),
        clap_path: Some(" D:\\x ;;E:\\y; ".to_string()),
    };
    assert_eq!(
        standard_dirs(Platform::Windows, &windows),
        vec![
            vec!["C:\\C", "CLAP"],
            vec!["C:\\L", "Programs", "Common", "CLAP"],
            vec!["D:\\x"],
            vec!["E:\\y"]
        ]
    );
    assert!(standard_dirs(Platform::Windows, &env(None, None)).is_empty());
}

#[test]
fn the_search_path_adds_directories() {
    let dirs = standard_dirs(Platform::Unix, &env(None, Some("/a: /b ::\t:/c;d")));
    assert_eq!(dirs[2..], [vec!["/a"], vec!["/b"], vec!["/c;d"]]);
}

#[test]
fn scans_are_sorted_and_without_repetition() {
    let found = vec![
        path("/b/x.clap", 0),
        path("/a/z.clap", 1),
        path("/a//z.clap", 2),
        path("/a.b/y.clap", 3),
        path("/a/b/c.clap", 4),
        path("/b/x.clap", 5),
        path("rel.clap", 6),
    ];
    let ids: Vec<usize> = scan(found).iter().map(|p| p.id).collect();
    // Component by component: `a` comes before `a.b`, and the root before names.
    assert_eq!(ids, vec![4, 1, 3, 0, 6]);
}

#[test]
fn scans_sort_as_paths_do() {
    let texts = ["/z", "/a/b", "/a", "/a-b/c", "/a/b/c", "/a/B", "/é", "/a.b"];
    let found = texts.iter().enumerate().map(|(i, t)| path(t, i)).collect();
    let got: Vec<&str> = scan(found).iter().map(|p| texts[p.id]).collect();
    let mut want: Vec<std::path::PathBuf> = texts.iter().map(std::path::PathBuf::from).collect();
    want.sort();
    let want: Vec<&str> = want.iter().map(|p| p.to_str().unwrap()).collect();
    assert_eq!(got, want);
}
