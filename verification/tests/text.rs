use music_library_cli::text::{decimal_string, trim_str};

#[test]
fn decimal_rendering() {
    for n in [0usize, 7, 10, 99, 100, 12345, usize::MAX] {
        assert_eq!(decimal_string(n), n.to_string());
    }
}

#[test]
fn trimming_matches_std() {
    for s in ["", "  ", " a b ", "\u{3000}x\u{85}", "\u{200b}y", "z\t\n"] {
        assert_eq!(trim_str(s), s.trim(), "{s:?}");
    }
}
