use co_review::util::{epoch_ms, slugify};

#[test]
fn slugify_basics() {
    assert_eq!(slugify("Hello, World!"), "hello-world");
    assert_eq!(slugify("owner/repo"), "owner-repo");
    assert_eq!(slugify("  spaced  "), "spaced");
    assert_eq!(slugify("a__b--c"), "a-b-c");
    assert_eq!(slugify("!!!"), "");
}

#[test]
fn slugify_is_idempotent_and_clean() {
    for s in ["Hello, World!", "--a--", "MiXeD_case 42", "ünïcode ok", ""] {
        let once = slugify(s);
        assert_eq!(slugify(&once), once);
        assert!(!once.starts_with('-') && !once.ends_with('-'));
        assert!(!once.contains("--"));
        assert!(once.chars().all(|c| c.is_ascii_lowercase() || c.is_ascii_digit() || c == '-'));
    }
}

#[test]
fn clock_readings_become_stored_milliseconds() {
    assert_eq!(epoch_ms(Some(1_700_000_000_123)), 1_700_000_000_123);
    assert_eq!(epoch_ms(None), 0);
    assert_eq!(epoch_ms(Some(u64::MAX as u128 + 5)), 4);
}

#[test]
fn slug_keeps_the_alphanumerics_in_order() {
    let s = slugify("  Fix: Parse_URL (v2)!! ");
    assert_eq!(s, "fix-parse-url-v2");
    assert_eq!(s.replace('-', ""), "fixparseurlv2");
}

#[test]
fn slug_runs_gaps_and_edges() {
    // a run stays whole
    assert_eq!(slugify("abC12"), format!("{}{}", slugify("ab"), slugify("C12")));
    // a gap between runs is one dash
    assert_eq!(slugify("ab;: _cd"), format!("{}-{}", slugify("ab"), slugify("cd")));
    // edges leave no trace
    assert_eq!(slugify("--!ab c"), slugify("ab c"));
    assert_eq!(slugify("ab c?? "), slugify("ab c"));
}
