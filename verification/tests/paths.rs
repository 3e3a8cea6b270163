use iceberg_register::paths::{load_paths, select_paths, PathsError};
use iceberg_register::text::{split, trim};

/// The selection in terms of the standard library.
fn expected(list: &str) -> Vec<String> {
    list.lines()
        .map(str::trim)
        .filter(|l| !l.is_empty() && !l.starts_with('#'))
        .map(str::to_owned)
        .collect()
}

#[test]
fn one_path_per_line() {
    let list = "s3://bucket/path/to/data/2026-02-01/symbol/xxx.parquet\ns3://bucket/key.parquet\n";
    assert_eq!(
        load_paths("/tmp/paths.txt", list).unwrap(),
        vec![
            "s3://bucket/path/to/data/2026-02-01/symbol/xxx.parquet".to_string(),
            "s3://bucket/key.parquet".to_string(),
        ]
    );
}

#[test]
fn blank_lines_and_comments_are_ignored() {
    let list = "# header\n\n  \t\na\n  # indented\n#b\n c # not a comment\n";
    assert_eq!(select_paths(list), vec!["a".to_string(), "c # not a comment".to_string()]);
}

#[test]
fn order_and_repetition_are_kept() {
    assert_eq!(select_paths("b\na\nb"), vec!["b".to_string(), "a".to_string(), "b".to_string()]);
}

#[test]
fn list_without_paths_is_refused() {
    for list in ["", "\n", "  \n\r\n", "# only\n#comments", " # x"] {
        let error = load_paths("/tmp/paths.txt", list).unwrap_err();
        assert_eq!(error, PathsError::NoPaths { paths_file: "/tmp/paths.txt".to_string() });
        assert_eq!(error.message(), "--paths-file /tmp/paths.txt contained no paths");
    }
}

#[test]
fn carriage_returns_make_no_difference() {
    let plain = "a\n\nb\n#c\nd";
    assert_eq!(select_paths(&plain.replace('\n', "\r\n")), select_paths(plain));
    assert_eq!(select_paths("a\rb\n"), vec!["a\rb".to_string()]);
    assert_eq!(select_paths("a\r"), vec!["a".to_string()]);
}

#[test]
fn selection_agrees_with_the_standard_library() {
    let pieces = ["", "a", "#", " ", "\r", "\n", "\r\n", "\u{a0}", "é", "\u{85}x", "\u{2028}"];
    for a in pieces {
        for b in pieces {
            for c in pieces {
                for d in pieces {
                    let list = format!("{a}{b}{c}{d}");
                    assert_eq!(select_paths(&list), expected(&list), "{:?}", list);
                }
            }
        }
    }
}

#[test]
fn white_space_is_that_of_the_standard_library() {
    for code in 0..=0x10ffffu32 {
        if let Some(c) = char::from_u32(code) {
            let text = c.to_string();
            assert_eq!(trim(&text), text.trim(), "{:x}", code);
            assert_eq!(trim(&text).is_empty(), c.is_whitespace(), "{:x}", code);
        }
    }
}

#[test]
fn trimming_keeps_what_is_inside() {
    assert_eq!(trim("  a b\t"), "a b");
    assert_eq!(trim("\u{3000}x\u{2003}"), "x");
    assert_eq!(trim(""), "");
    assert_eq!(trim(" \n"), "");
}

#[test]
fn splitting_keeps_empty_pieces() {
    assert_eq!(split("", '.'), vec!["".to_string()]);
    assert_eq!(split("a..b.", '.'), vec!["a", "", "b", ""]);
    assert_eq!(split("abc", '.'), vec!["abc"]);
}

#[test]
fn joining_undoes_splitting() {
    for s in ["", ".", "a.b", "..x."] {
        assert_eq!(split(s, '.').join("."), s);
    }
}

#[test]
fn lists_can_be_put_together() {
    let (a, b) = ("x\n#y", " z \n");
    let mut both = select_paths(a);
    both.extend(select_paths(b));
    assert_eq!(select_paths(&format!("{a}\n{b}")), both);
}

#[test]
fn an_ignored_line_can_stand_anywhere() {
    for line in ["", "   ", "# note", "\t#"] {
        assert_eq!(select_paths(&format!("a\n{line}\nb")), select_paths("a\nb"));
        assert_eq!(select_paths(&format!("{line}\na\nb")), select_paths("a\nb"));
    }
}

#[test]
fn a_written_list_is_read_again() {
    let paths = vec!["s3://b/1".to_string(), "s3://b/2 3".to_string(), "x#y".to_string()];
    assert_eq!(select_paths(&paths.join("\n")), paths);
    assert_eq!(select_paths(&format!("{}\n", paths.join("\n"))), paths);
}

#[test]
fn read_paths_have_nothing_to_trim() {
    for path in select_paths(" a \n\tb\r\n#c\n\u{a0}d") {
        assert_eq!(path.trim(), path);
        assert!(!path.is_empty() && !path.starts_with('#') && !path.contains('\n'));
    }
}
