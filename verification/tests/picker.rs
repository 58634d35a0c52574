use clap_host::loader::{Descriptor, Loader};
use clap_host::picker::{
    collect_entries, entry_matches, no_match_text, pick, row_text, visible, Entry, Pick,
};

#[test]
fn filter_matches_name_id_and_path() {
    let path = "C:/Program Files/Common/CLAP/Vital.clap";
    assert!(entry_matches("Vital", "com.vital", path, "vital"));
    assert!(entry_matches("Vital", "com.vital", path, "VITAL"));
    assert!(entry_matches("Surge XT", "com.surge", "C:/CLAP/Surge.clap", "surge clap"));
    assert!(!entry_matches("Vital", "com.vital", path, "surge"));
    assert!(!entry_matches("Vital", "com.vital", path, "vital surge"));
}

#[test]
fn blank_filters_match_everything() {
    assert!(entry_matches("Vital", "com.vital", "x", ""));
    assert!(entry_matches("Vital", "com.vital", "x", " \t "));
    assert!(entry_matches("ÄÖ", "id", "p", "  äö\u{2003}ID "));
    // Words do not match across the fields.
    assert!(!entry_matches("ab", "cd", "p", "abcd"));
}

#[test]
fn filters_match_word_for_word() {
    let both = |a: &str, b: &str| {
        let m = |f: &str| entry_matches("Surge XT", "com.surge", "/clap/Surge.clap", f);
        let joined = m(&format!("{a} {b}"));
        assert_eq!(joined, m(a) && m(b));
        assert_eq!(joined, m(&format!("{b}\t{a}")));
        assert_eq!(m(&format!("{a} {a}")), m(a));
        joined
    };
    assert!(both("surge", "clap xt"));
    assert!(both("XT", ""));
    assert!(!both("surge", "vital"));
    assert!(!both("vital", "surge"));
}

fn entry(name: &str) -> Entry {
    Entry {
        path: format!("/{name}.clap"),
        name: name.to_string(),
        id: format!("com.{name}"),
    }
}

#[test]
fn numbers_select_visible_rows() {
    let entries = vec![entry("Alpha"), entry("Beta"), entry("Alphabet")];
    assert_eq!(visible(&entries, ""), vec![0, 1, 2]);
    let rows = visible(&entries, "alpha");
    assert_eq!(rows, vec![0, 2]);
    assert!(matches!(pick(&rows, Some(" 1 \n")), Pick::Row(2)));
    assert!(matches!(pick(&rows, Some("+0\n")), Pick::Row(0)));
    match pick(&rows, Some("2\n")) {
        Pick::Filter(f) => assert_eq!(f, "2"),
        _ => panic!("a number beyond the rows is a filter"),
    }
    match pick(&rows, Some("  BETA x\n")) {
        Pick::Filter(f) => assert_eq!(f, "beta x"),
        _ => panic!("text is a filter"),
    }
}

#[test]
fn empty_input_q_and_end_of_input_quit() {
    let rows = vec![0];
    assert!(matches!(pick(&rows, Some("\n")), Pick::Quit));
    assert!(matches!(pick(&rows, Some("q\n")), Pick::Quit));
    assert!(matches!(pick(&rows, Some(" Q \n")), Pick::Quit));
    assert!(matches!(pick(&rows, None), Pick::Quit));
    assert!(matches!(pick(&rows, Some("quit\n")), Pick::Filter(_)));
}

#[test]
fn rows_and_messages_read_well() {
    assert_eq!(row_text(3, &entry("Vital")), "[3] Vital  id=com.Vital  (/Vital.clap)");
    assert_eq!(
        no_match_text("a\"b"),
        "(no match for \"a\\\"b\" — type new text to re-filter)"
    );
}

#[test]
fn every_plugin_of_a_file_is_a_row() {
    let loader = Loader::new(
        vec![
            Some(Descriptor { id: Some(b"one".to_vec()), name: Some(b"One\0rest".to_vec()) }),
            None,
            Some(Descriptor { id: None, name: Some(b"Two".to_vec()) }),
        ],
        true,
    );
    let rows = collect_entries(Some("/a.clap"), "/a.clap", Ok(&loader)).unwrap();
    assert_eq!(rows.len(), 2);
    assert_eq!((rows[0].name.as_str(), rows[0].id.as_str()), ("One", "one"));
    assert_eq!((rows[1].name.as_str(), rows[1].id.as_str()), ("Two", ""));
    assert_eq!(rows[1].path, "/a.clap");
    let broken = collect_entries(Some("/b.clap"), "/b.clap", Err("dlopen: no".to_string()));
    assert_eq!(broken.err().unwrap(), "warn: /b.clap: dlopen: no");
    let odd = collect_entries(None, "/?.clap", Ok(&loader));
    assert_eq!(odd.err().unwrap(), "warn: /?.clap: not valid UTF-8, skipped");
}
