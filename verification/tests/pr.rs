use co_review::pr::{parse, parse_github_remote, PrRef};

#[test]
fn bare_numbers() {
    assert_eq!(parse("123").unwrap(), PrRef::number_only(123));
    assert_eq!(parse("#123").unwrap(), PrRef::number_only(123));
    assert_eq!(parse("PR123").unwrap(), PrRef::number_only(123));
    assert_eq!(parse("pr/123").unwrap(), PrRef::number_only(123));
    assert_eq!(parse("pull/123").unwrap(), PrRef::number_only(123));
    assert_eq!(parse("  42 ").unwrap(), PrRef::number_only(42));
}

#[test]
fn owner_repo_forms() {
    let want = PrRef {
        owner: Some("elKei24".into()),
        repo: Some("herdr-co-review".into()),
        number: 7,
    };
    assert_eq!(parse("elKei24/herdr-co-review#7").unwrap(), want);
    assert_eq!(parse("elKei24/herdr-co-review/pull/7").unwrap(), want);
    assert_eq!(parse("elKei24/herdr-co-review/7").unwrap(), want);
}

#[test]
fn urls() {
    let want = PrRef {
        owner: Some("elKei24".into()),
        repo: Some("herdr-co-review".into()),
        number: 7,
    };
    assert_eq!(parse("https://github.com/elKei24/herdr-co-review/pull/7").unwrap(), want);
    assert_eq!(parse("https://github.com/elKei24/herdr-co-review/pull/7/files").unwrap(), want);
    assert_eq!(parse("github.com/elKei24/herdr-co-review/pull/7").unwrap(), want);
}

#[test]
fn rejects_garbage() {
    assert!(parse("").is_err());
    assert!(parse("not-a-pr").is_err());
    assert!(parse("owner/repo/tree/main").is_err());
}

#[test]
fn remote_parsing() {
    assert_eq!(
        parse_github_remote("git@github.com:elKei24/herdr-co-review.git"),
        Some(("elKei24".into(), "herdr-co-review".into()))
    );
    assert_eq!(
        parse_github_remote("https://github.com/elKei24/herdr-co-review.git"),
        Some(("elKei24".into(), "herdr-co-review".into()))
    );
    assert_eq!(
        parse_github_remote("https://github.com/elKei24/herdr-co-review"),
        Some(("elKei24".into(), "herdr-co-review".into()))
    );
    assert_eq!(parse_github_remote("https://gitlab.com/x/y.git"), None);
}

use co_review::pr::PrError;

#[test]
fn numbers_round_trip() {
    for n in [0u64, 1, 9, 10, 99, 12345, u64::MAX] {
        assert_eq!(parse(&n.to_string()).unwrap(), PrRef::number_only(n));
        assert_eq!(parse(&format!("#{n}")).unwrap(), PrRef::number_only(n));
    }
}

#[test]
fn owner_repo_round_trip() {
    let r = parse("a.b/c-d_e#31").unwrap();
    assert_eq!(r.owner.as_deref(), Some("a.b"));
    assert_eq!(r.repo.as_deref(), Some("c-d_e"));
    assert_eq!(r.number, 31);
    // an owner spelled like the host makes the input a host-only URL
    assert!(parse("github.com/r#5").is_err());
}

#[test]
fn error_kinds_and_messages() {
    assert_eq!(parse("   "), Err(PrError::Empty));
    assert_eq!(parse("   ").unwrap_err().message(), "empty PR reference");
    let e = parse("nope").unwrap_err();
    assert_eq!(e, PrError::NoNumber("nope".into()));
    assert_eq!(e.message(), "could not parse a PR number from 'nope'");
    let e = parse("https://github.com/owner/repo/tree/main/").unwrap_err();
    assert_eq!(e, PrError::NoReference("owner/repo/tree/main".into()));
    assert_eq!(e.message(), "could not parse a PR reference from 'owner/repo/tree/main'");
    // a number too large for u64 is no number
    assert!(parse("18446744073709551616").is_err());
}

#[test]
fn more_remotes() {
    assert_eq!(
        parse_github_remote("ssh://git@github.com/o/r.git"),
        Some(("o".into(), "r".into()))
    );
    assert_eq!(parse_github_remote("  https://github.com/o/r/  "), Some(("o".into(), "r".into())));
    assert_eq!(parse_github_remote("git@github.com:o"), None);
}

#[test]
fn remotes_read_back_owner_and_repo() {
    for (o, r) in [("a", "b"), ("Org.Name", "repo-x_y"), ("o", "r.git")] {
        let want = Some((o.to_string(), r.to_string()));
        assert_eq!(parse_github_remote(&format!("git@github.com:{o}/{r}.git")), want);
        assert_eq!(parse_github_remote(&format!("https://github.com/{o}/{r}.git")), want);
    }
}

#[test]
fn every_remote_form_reads_back() {
    let prefixes = ["git@github.com:", "ssh://git@github.com/", "https://github.com/", "http://github.com/"];
    for (o, r) in [("a", "b"), ("Org.Name", "repo-x_y"), ("o", "git"), ("o", "r.gi")] {
        let want = Some((o.to_string(), r.to_string()));
        for p in prefixes {
            for s in ["", ".git", "/"] {
                assert_eq!(parse_github_remote(&format!("{p}{o}/{r}{s}")), want, "{p}{o}/{r}{s}");
            }
        }
    }
}

#[test]
fn pull_urls_round_trip() {
    for (o, r, n) in [("a", "b", 0u64), ("Org.Name", "repo-x_y", 42), ("o", "r", u64::MAX)] {
        let got = parse(&format!("https://github.com/{o}/{r}/pull/{n}")).unwrap();
        assert_eq!(got.owner.as_deref(), Some(o));
        assert_eq!(got.repo.as_deref(), Some(r));
        assert_eq!(got.number, n);
    }
}
