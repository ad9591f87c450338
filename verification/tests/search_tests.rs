use ummerse::tools::search::{is_binary_extension, matching_lines, result_cap};

#[test]
fn binary_extensions_are_skipped() {
    for e in ["png", "jpg", "jpeg", "gif", "bmp", "wasm", "bin", "dll", "exe"] {
        assert!(is_binary_extension(e));
    }
    assert!(!is_binary_extension("rs"));
    assert!(!is_binary_extension("PNG"));
    assert!(!is_binary_extension(""));
}

#[test]
fn result_cap_is_at_least_one() {
    assert_eq!(result_cap(0), 1);
    assert_eq!(result_cap(50), 50);
}

#[test]
fn matching_lines_numbers_and_trims() {
    let content = "fn main() {\r\n    let Player = 1;\n}\n  player two  ";
    let m = matching_lines(content, "player", false, 10);
    assert_eq!(m, vec![(2, "let Player = 1;".to_string()), (4, "player two".to_string())]);
    let m = matching_lines(content, "player", true, 10);
    assert_eq!(m, vec![(4, "player two".to_string())]);
    let m = matching_lines(content, "PLAYER", false, 1);
    assert_eq!(m, vec![(2, "let Player = 1;".to_string())]);
    assert!(matching_lines(content, "player", false, 0).is_empty());
    assert!(matching_lines("", "", false, 5).is_empty());
    assert_eq!(matching_lines("a\n\nb\n", "", true, 5).len(), 3);
    assert_eq!(matching_lines("x\r", "\r", true, 5), vec![(1, "x".to_string())]);
}
