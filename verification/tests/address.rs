use timhatdiehandandermaus::address::Address;

#[test]
fn address_is_kept_in_normal_form() {
    let address = Address::parse("HTTP://Example.COM").unwrap();
    assert_eq!(address.as_str(), "http://example.com/");
    assert_eq!(address.into_string(), "http://example.com/");
}

#[test]
fn address_that_is_normal_is_unchanged() {
    let address = Address::parse("https://www.imdb.com/title/tt0078748/").unwrap();
    assert_eq!(address.as_str(), "https://www.imdb.com/title/tt0078748/");
}

#[test]
fn text_that_is_no_absolute_url_is_refused() {
    assert_eq!(
        Address::parse("movie/42").unwrap_err().reason,
        "relative URL without a base"
    );
    assert_eq!(Address::parse("").unwrap_err().reason, "relative URL without a base");
    assert_eq!(Address::parse("http://").unwrap_err().reason, "empty host");
    assert_eq!(
        Address::parse("http://api:port/").unwrap_err().reason,
        "invalid port number"
    );
}

#[test]
fn join_resolves_against_the_base() {
    let base = Address::parse("http://api").unwrap();
    assert_eq!(base.join("movie").unwrap().as_str(), "http://api/movie");
    assert_eq!(base.join("movie/42").unwrap().as_str(), "http://api/movie/42");
    assert_eq!(
        base.join("queue/42?status=Watched").unwrap().as_str(),
        "http://api/queue/42?status=Watched"
    );
}

#[test]
fn join_replaces_the_last_segment_of_the_base() {
    let base = Address::parse("https://example.net/a/b.html").unwrap();
    assert_eq!(base.join("c.png").unwrap().as_str(), "https://example.net/a/c.png");
    let base = Address::parse("https://example.net/a/b/").unwrap();
    assert_eq!(base.join("c.png").unwrap().as_str(), "https://example.net/a/b/c.png");
}

#[test]
fn join_with_an_absolute_url_replaces_the_base() {
    let base = Address::parse("https://alice.com/a").unwrap();
    assert_eq!(base.join("http://eve.com/b").unwrap().as_str(), "http://eve.com/b");
}

#[test]
fn join_on_a_base_without_hierarchy_is_refused() {
    let base = Address::parse("mailto:someone@example.com").unwrap();
    assert_eq!(
        base.join("movie").unwrap_err().reason,
        "relative URL with a cannot-be-a-base base"
    );
}

#[test]
fn refusal_names_its_reason() {
    assert_eq!(Address::parse("movie/42").unwrap_err().name, "RelativeUrlWithoutBase");
    assert_eq!(Address::parse("http://").unwrap_err().name, "EmptyHost");
    assert_eq!(Address::parse("http://api:port/").unwrap_err().name, "InvalidPort");
    let base = Address::parse("mailto:someone@example.com").unwrap();
    assert_eq!(base.join("movie").unwrap_err().name, "RelativeUrlWithCannotBeABaseBase");
}
