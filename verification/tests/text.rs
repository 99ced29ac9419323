use astrid_capsule::paths::{climbs, components_of, join_paths, lies_under};
use astrid_capsule::text::{
    decimal_text, ends_with, parse_u16, rsplit_at, same_ignoring_case, split_text, starts_with,
    strip_prefix,
};
use astrid_capsule::topic::{has_valid_segments, topic_matches};
use std::path::{Path, PathBuf};

#[test]
fn text_helpers_agree_with_the_standard_library() {
    for s in ["", "a", "a.b", ".a", "a.", "..", "é.ü", "ab.ab"] {
        let split: Vec<String> = s.split('.').map(String::from).collect();
        assert_eq!(split_text(s, '.'), split, "split of {s:?}");
        assert_eq!(rsplit_at(s, '.'), s.rsplit_once('.'), "last dot of {s:?}");
        for p in ["", "a", ".", "é", "ab."] {
            assert_eq!(starts_with(s, p), s.starts_with(p));
            assert_eq!(ends_with(s, p), s.ends_with(p));
            assert_eq!(strip_prefix(s, p), s.strip_prefix(p));
            assert_eq!(same_ignoring_case(s, p), s.eq_ignore_ascii_case(p));
        }
    }
    assert!(same_ignoring_case("AzÉ", "aZÉ"));
    assert!(!same_ignoring_case("É", "é"));
    for s in ["", "0", "00080", "+7", "++7", "65535", "65536", "99999999", "-1", " 1", "1a", "+"] {
        assert_eq!(parse_u16(s), s.parse::<u16>().ok(), "port of {s:?}");
    }
    for n in [0u64, 7, 10, 65535, 1_000_000, u64::MAX] {
        assert_eq!(decimal_text(n), n.to_string());
    }
}

#[test]
fn paths_agree_with_the_standard_library() {
    let paths = [
        "", "/", "a", "/a", "a/", "/a/b", "/a//b/", "./a", "a/./b", "../a", "/a/../b", "/ab", ".",
        "..", "//", "/.", "a/b/c", ".a", "/a/.b",
    ];
    for p in paths {
        let parts: Vec<String> = Path::new(p)
            .components()
            .map(|c| c.as_os_str().to_str().unwrap().to_string())
            .collect();
        assert_eq!(components_of(p), parts, "components of {p:?}");
        assert_eq!(climbs(p), parts.iter().any(|c| c == ".."));
        for q in paths {
            assert_eq!(
                lies_under(p, q),
                Path::new(p).starts_with(q),
                "{p:?} under {q:?}"
            );
            assert_eq!(
                Path::new(&join_paths(p, q)).as_os_str(),
                PathBuf::from(p).join(q).as_os_str(),
                "{p:?} joined with {q:?}"
            );
        }
    }
}

#[test]
fn topics_match_segment_by_segment() {
    assert!(has_valid_segments("a.b.c"));
    assert!(!has_valid_segments(""));
    assert!(!has_valid_segments("a..b"));
    assert!(topic_matches("a.b", "a.b"));
    assert!(topic_matches("a.b", "a.*"));
    assert!(topic_matches("a.b", "*.b"));
    assert!(!topic_matches("a.b.c", "a.*"));
    assert!(!topic_matches("a", "a.*"));
    assert!(!topic_matches("a.b", "a.c"));
}
