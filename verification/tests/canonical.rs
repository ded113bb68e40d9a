use bb_core::canonical::{
    canonicalize, canonicalize_parsed, canonicalize_parts, find_marker, is_alnum, scan_alnum,
    CanonicalLink, RejectionReason, SourceDomain, UrlParts,
};

fn parts(scheme: &str, host: Option<&str>, path: &str, query: Option<&str>) -> UrlParts {
    UrlParts {
        scheme: scheme.to_string(),
        host: host.map(|h| h.to_string()),
        path: path.to_string(),
        query: query.map(|q| q.to_string()),
    }
}

fn primary(id: &str) -> CanonicalLink {
    CanonicalLink { source_domain: SourceDomain::PrimaryHost, resource_id: id.to_string() }
}

fn short(id: &str) -> CanonicalLink {
    CanonicalLink { source_domain: SourceDomain::ShortHost, resource_id: id.to_string() }
}

#[test]
fn watch_link_stops_at_ampersand() {
    let link = canonicalize("https://youtube.com/watch?v=abc123&t=5s").unwrap();
    assert_eq!(link.resource_id, "abc123");
    assert_eq!(link.source_domain, SourceDomain::PrimaryHost);
    assert_eq!(link.canonical_url(), "https://youtube.com/watch?v=abc123");
}

#[test]
fn short_link_gives_its_path() {
    let link = canonicalize("https://youtu.be/xyz789").unwrap();
    assert_eq!(link.resource_id, "xyz789");
    assert_eq!(link.source_domain, SourceDomain::ShortHost);
    assert_eq!(link.canonical_url(), "https://youtube.com/watch?v=xyz789");
}

#[test]
fn non_url_is_malformed() {
    assert_eq!(canonicalize("not a url"), Err(RejectionReason::Malformed));
    assert_eq!(canonicalize(""), Err(RejectionReason::Malformed));
    assert_eq!(canonicalize("youtube.com/watch?v=abc"), Err(RejectionReason::Malformed));
    assert_eq!(canonicalize("/watch?v=abc"), Err(RejectionReason::Malformed));
}

#[test]
fn other_scheme_is_invalid_scheme() {
    assert_eq!(canonicalize("ftp://example.com/x"), Err(RejectionReason::InvalidScheme));
    assert_eq!(canonicalize("ftp://youtube.com/watch?v=abc"), Err(RejectionReason::InvalidScheme));
    assert_eq!(canonicalize("mailto:someone@youtube.com"), Err(RejectionReason::InvalidScheme));
}

#[test]
fn host_outside_the_list_is_disallowed() {
    assert_eq!(canonicalize("https://example.com/watch?v=abc"), Err(RejectionReason::DisallowedHost));
    assert_eq!(
        canonicalize("https://music.youtube.com/watch?v=abc"),
        Err(RejectionReason::DisallowedHost)
    );
    assert_eq!(canonicalize("http://youtube.com.evil.org/watch?v=abc"), Err(RejectionReason::DisallowedHost));
    assert_eq!(canonicalize("https://www.youtu.be/abc"), Err(RejectionReason::DisallowedHost));
    assert_eq!(canonicalize("https://127.0.0.1/watch?v=abc"), Err(RejectionReason::DisallowedHost));
}

#[test]
fn aliases_and_plain_http_are_accepted() {
    assert_eq!(canonicalize("http://www.youtube.com/watch?v=a1"), Ok(primary("a1")));
    assert_eq!(canonicalize("https://m.youtube.com/watch?v=dQw4w9WgXcQ"), Ok(primary("dQw4w9WgXcQ")));
    assert_eq!(canonicalize("http://youtu.be/Zz9"), Ok(short("Zz9")));
}

#[test]
fn wrong_path_on_long_host_is_invalid_path() {
    assert_eq!(canonicalize("https://youtube.com/"), Err(RejectionReason::InvalidPath));
    assert_eq!(canonicalize("https://youtube.com/playlist?v=abc"), Err(RejectionReason::InvalidPath));
    assert_eq!(canonicalize("https://youtube.com/watch/?v=abc"), Err(RejectionReason::InvalidPath));
    assert_eq!(canonicalize("https://youtube.com/Watch?v=abc"), Err(RejectionReason::InvalidPath));
}

#[test]
fn missing_query_or_marker_is_missing_identifier() {
    assert_eq!(canonicalize("https://youtube.com/watch"), Err(RejectionReason::MissingIdentifier));
    assert_eq!(canonicalize("https://youtube.com/watch?"), Err(RejectionReason::MissingIdentifier));
    assert_eq!(canonicalize("https://youtube.com/watch?t=5s"), Err(RejectionReason::MissingIdentifier));
    assert_eq!(canonicalize("https://youtube.com/watch?v"), Err(RejectionReason::MissingIdentifier));
}

#[test]
fn empty_identifier_is_accepted() {
    assert_eq!(canonicalize("https://youtube.com/watch?v=&x=1"), Ok(primary("")));
    assert_eq!(canonicalize("https://youtube.com/watch?v="), Ok(primary("")));
    assert_eq!(canonicalize("https://youtu.be/"), Ok(short("")));
    assert_eq!(canonicalize("https://youtu.be"), Ok(short("")));
}

#[test]
fn identifier_follows_the_first_marker() {
    assert_eq!(canonicalize("https://youtube.com/watch?t=1&v=abc"), Ok(primary("abc")));
    assert_eq!(canonicalize("https://youtube.com/watch?rev=1&v=abc"), Ok(primary("1")));
    assert_eq!(canonicalize("https://youtube.com/watch?v=ab-cd"), Ok(primary("ab")));
    assert_eq!(canonicalize("https://youtube.com/watch?v=ab_cd"), Ok(primary("ab")));
    assert_eq!(canonicalize("https://youtube.com/watch?v=abc#frag"), Ok(primary("abc")));
    assert_eq!(canonicalize("https://youtube.com/watch?v=v=x"), Ok(primary("v")));
}

#[test]
fn short_link_path_is_not_validated() {
    assert_eq!(canonicalize("https://youtu.be/a/b-c"), Ok(short("a/b-c")));
    assert_eq!(canonicalize("https://youtu.be/abc?t=5"), Ok(short("abc")));
}

#[test]
fn host_is_compared_as_parsed() {
    assert_eq!(canonicalize("https://YouTube.com/watch?v=abc"), Ok(primary("abc")));
    assert_eq!(canonicalize("HTTPS://youtu.be/abc"), Ok(short("abc")));
    assert_eq!(canonicalize("https://youtube.com:443/watch?v=abc"), Ok(primary("abc")));
    assert_eq!(canonicalize("https://user@youtube.com:8080/watch?v=abc"), Ok(primary("abc")));
}

#[test]
fn parts_are_checked_in_order() {
    assert_eq!(
        canonicalize_parts(&parts("ftp", Some("example.com"), "/x", None)),
        Err(RejectionReason::InvalidScheme)
    );
    assert_eq!(
        canonicalize_parts(&parts("https", Some("example.com"), "/x", None)),
        Err(RejectionReason::DisallowedHost)
    );
    assert_eq!(canonicalize_parts(&parts("https", None, "/watch", Some("v=a"))), Err(RejectionReason::DisallowedHost));
    assert_eq!(
        canonicalize_parts(&parts("https", Some("youtube.com"), "/x", None)),
        Err(RejectionReason::InvalidPath)
    );
    assert_eq!(
        canonicalize_parts(&parts("https", Some("youtube.com"), "/watch", None)),
        Err(RejectionReason::MissingIdentifier)
    );
    assert_eq!(
        canonicalize_parts(&parts("http", Some("m.youtube.com"), "/watch", Some("v=Ab9&x"))),
        Ok(primary("Ab9"))
    );
}

#[test]
fn parts_host_match_is_exact_and_case_sensitive() {
    assert_eq!(
        canonicalize_parts(&parts("https", Some("YouTube.com"), "/watch", Some("v=a"))),
        Err(RejectionReason::DisallowedHost)
    );
    assert_eq!(
        canonicalize_parts(&parts("https", Some("youtube.com."), "/watch", Some("v=a"))),
        Err(RejectionReason::DisallowedHost)
    );
    assert_eq!(
        canonicalize_parts(&parts("HTTPS", Some("youtube.com"), "/watch", Some("v=a"))),
        Err(RejectionReason::InvalidScheme)
    );
}

#[test]
fn short_parts_drop_the_first_character_of_the_path() {
    assert_eq!(canonicalize_parts(&parts("https", Some("youtu.be"), "/abc", None)), Ok(short("abc")));
    assert_eq!(canonicalize_parts(&parts("https", Some("youtu.be"), "", None)), Ok(short("")));
    assert_eq!(canonicalize_parts(&parts("https", Some("youtu.be"), "/", None)), Ok(short("")));
    assert_eq!(canonicalize_parts(&parts("https", Some("youtu.be"), "/é/x", None)), Ok(short("é/x")));
}

#[test]
fn no_parse_is_malformed() {
    assert_eq!(canonicalize_parsed(&None), Err(RejectionReason::Malformed));
    assert_eq!(
        canonicalize_parsed(&Some(parts("https", Some("youtu.be"), "/q", None))),
        Ok(short("q"))
    );
}

#[test]
fn marker_is_found_at_its_first_occurrence() {
    let chars = |s: &str| s.chars().collect::<Vec<char>>();
    assert_eq!(find_marker(&chars("v=abc")), Some(0));
    assert_eq!(find_marker(&chars("t=1&v=abc&v=d")), Some(4));
    assert_eq!(find_marker(&chars("vv=")), Some(1));
    assert_eq!(find_marker(&chars("v")), None);
    assert_eq!(find_marker(&chars("")), None);
    assert_eq!(find_marker(&chars("V=abc")), None);
    assert_eq!(find_marker(&chars("v =abc")), None);
}

#[test]
fn scan_stops_at_first_other_character() {
    let chars = |s: &str| s.chars().collect::<Vec<char>>();
    assert_eq!(scan_alnum(&chars("abc123&t"), 0), 6);
    assert_eq!(scan_alnum(&chars("abc123"), 2), 6);
    assert_eq!(scan_alnum(&chars("&abc"), 0), 0);
    assert_eq!(scan_alnum(&chars("abc"), 3), 3);
    assert_eq!(scan_alnum(&chars("abécd"), 0), 2);
}

#[test]
fn only_ascii_letters_and_digits_are_alnum() {
    for c in ['a', 'z', 'A', 'Z', '0', '9', 'm', 'Q', '5'] {
        assert!(is_alnum(c));
    }
    for c in ['-', '_', '&', '=', ' ', '/', '@', '[', '`', '{', ':', 'é', '٣'] {
        assert!(!is_alnum(c));
    }
}
