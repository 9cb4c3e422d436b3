use feed_harvest::batch::{author_entry_id, extract_batch};
use feed_harvest::extract::{
    apply_strategy, build_airdrop, extract_airdrop, extract_links, extract_mentions,
    extract_tweet_id_from_href, get_attribute, parse_created_at, resolve_id, resolve_text,
    Element, Fragment, IdStrategy,
};
use feed_harvest::timestamp::Timestamp;

fn el(tag: &str, attrs: &[(&str, &str)]) -> Element {
    Element {
        tag: tag.to_string(),
        attributes: attrs.iter().map(|(k, v)| (k.to_string(), v.to_string())).collect(),
    }
}

fn anchor(href: &str) -> Element {
    el("a", &[("href", href)])
}

fn fragment(time_parent_href: Option<&str>, anchors: &[&str], text: Option<&str>) -> Fragment {
    Fragment {
        time_element: Some(el("time", &[("datetime", "2024-01-02T03:04:05Z")])),
        time_parent: time_parent_href.map(anchor),
        anchors: anchors.iter().map(|h| anchor(h)).collect(),
        text_container: text.map(|t| t.to_string()),
        full_text: String::new(),
    }
}

fn at(secs: i64) -> Timestamp {
    Timestamp { secs, nanos: 0 }
}

#[test]
fn href_id_follows_status_segment() {
    assert_eq!(
        extract_tweet_id_from_href("https://x.com/solana/status/12345"),
        Some("12345".to_string())
    );
    assert_eq!(
        extract_tweet_id_from_href("/solana/status/987/photo/1"),
        Some("987".to_string())
    );
    assert_eq!(extract_tweet_id_from_href("/solana/status/"), Some(String::new()));
    assert_eq!(extract_tweet_id_from_href("https://x.com/solana"), None);
}

#[test]
fn attribute_lookup() {
    let e = el("a", &[("role", "link"), ("href", "/a/status/1")]);
    assert_eq!(get_attribute(&e, "href"), Some("/a/status/1".to_string()));
    assert_eq!(get_attribute(&e, "role"), Some("link".to_string()));
    assert_eq!(get_attribute(&e, "datetime"), None);
}

#[test]
fn mentions_strip_punctuation_and_bare_sigil() {
    assert_eq!(
        extract_mentions("hello @alice, cc @bob! @ nope"),
        vec!["@alice".to_string(), "@bob".to_string()]
    );
}

#[test]
fn mentions_keep_order_and_repeats() {
    assert_eq!(
        extract_mentions("(@carol) @dave\n@carol\t@@ x@y"),
        vec!["@dave".to_string(), "@carol".to_string(), "@@".to_string()]
    );
    assert_eq!(extract_mentions(""), Vec::<String>::new());
    assert_eq!(extract_mentions("   "), Vec::<String>::new());
}

#[test]
fn links_exclude_own_permalink() {
    let anchors = vec![anchor("https://site/x/status/42"), anchor("https://example.com/a")];
    assert_eq!(extract_links(&anchors, "42"), vec!["https://example.com/a".to_string()]);
}

#[test]
fn links_keep_absolute_targets_once_in_first_seen_order() {
    let anchors = vec![
        anchor("https://b.example/"),
        anchor("/relative/path"),
        anchor("#top"),
        anchor("http://a.example/x"),
        anchor("https://b.example/"),
        el("a", &[("class", "no-target")]),
        anchor("ftp://c.example/"),
        anchor("https://x.com/other/status/7"),
    ];
    assert_eq!(
        extract_links(&anchors, "42"),
        vec![
            "https://b.example/".to_string(),
            "http://a.example/x".to_string(),
            "https://x.com/other/status/7".to_string(),
        ]
    );
}

#[test]
fn id_from_time_permalink_first() {
    let f = fragment(Some("/solana/status/111"), &["/solana/status/222"], None);
    assert_eq!(resolve_id(&f), Some("111".to_string()));
    assert_eq!(apply_strategy(IdStrategy::ItemLink, &f), Some("222".to_string()));
}

#[test]
fn id_falls_back_to_item_link_skipping_media() {
    let f = fragment(
        None,
        &["https://x.com/solana", "/solana/status/5/photo/1", "/solana/status/6/video/1", "/solana/status/77"],
        None,
    );
    assert_eq!(resolve_id(&f), Some("77".to_string()));
}

#[test]
fn id_from_time_parent_needs_anchor() {
    let mut f = fragment(None, &[], None);
    f.time_parent = Some(el("div", &[("href", "/solana/status/1")]));
    assert_eq!(apply_strategy(IdStrategy::TimePermalink, &f), None);
    assert_eq!(resolve_id(&f), None);
}

#[test]
fn empty_permalink_id_falls_through() {
    let f = fragment(Some("/solana/status/"), &["/solana/status/9"], None);
    assert_eq!(resolve_id(&f), Some("9".to_string()));
}

#[test]
fn text_is_trimmed_container_text() {
    let f = fragment(None, &[], Some("  hello world \n"));
    assert_eq!(resolve_text(&f), Some("hello world".to_string()));
    let g = fragment(None, &[], Some(" \t\n "));
    assert_eq!(resolve_text(&g), None);
}

#[test]
fn text_falls_back_to_full_text_without_blank_lines() {
    let mut f = fragment(None, &[], None);
    f.full_text = "first\n\n   \nsecond\n".to_string();
    assert_eq!(resolve_text(&f), Some("first\nsecond".to_string()));
    f.full_text = "\n \n".to_string();
    assert_eq!(resolve_text(&f), None);
}

#[test]
fn created_at_parses_rfc3339() {
    let f = fragment(None, &[], None);
    assert_eq!(parse_created_at(&f), Some(Timestamp { secs: 1704164645, nanos: 0 }));
    let mut g = fragment(None, &[], None);
    g.time_element = Some(el("time", &[("datetime", "2024-01-02T05:04:05.5+02:00")]));
    assert_eq!(parse_created_at(&g), Some(Timestamp { secs: 1704164645, nanos: 500_000_000 }));
    g.time_element = Some(el("time", &[("datetime", "yesterday")]));
    assert_eq!(parse_created_at(&g), None);
    g.time_element = None;
    assert_eq!(parse_created_at(&g), None);
}

#[test]
fn record_has_every_field() {
    let f = fragment(
        Some("/solana/status/42"),
        &["/solana/status/42", "https://example.com/a"],
        Some(" gm @alice! "),
    );
    let r = extract_airdrop(&f, "solana_official", 2, &Vec::new(), at(100)).unwrap();
    assert_eq!(r.tweet_id, "42");
    assert_eq!(r.text, Some("gm @alice!".to_string()));
    assert_eq!(r.author_id, "solana_official");
    assert_eq!(r.created_at, Some(at(1704164645)));
    assert_eq!(r.saved_at, at(100));
    assert_eq!(r.deepness, 2);
    assert!(r.keywords.is_empty());
    assert_eq!(r.token_name, None);
    assert_eq!(r.mentioned_users, vec!["@alice".to_string()]);
    assert_eq!(r.links, vec!["https://example.com/a".to_string()]);
}

#[test]
fn seen_id_gives_no_record() {
    let f = fragment(Some("/solana/status/42"), &[], Some("text"));
    let first = extract_airdrop(&f, "a", 2, &Vec::new(), at(1)).unwrap();
    let seen = vec![first.tweet_id.clone()];
    assert!(extract_airdrop(&f, "a", 2, &seen, at(2)).is_none());
}

#[test]
fn fragment_without_identifier_gives_no_record() {
    let f = fragment(Some("https://x.com/solana"), &["https://example.com/a"], Some("@alice hi"));
    assert!(build_airdrop(&f, "a", 2, &Vec::new(), None, at(1)).is_none());
}

#[test]
fn batch_keeps_first_record_of_each_identifier() {
    let frags = vec![
        fragment(Some("/s/status/1"), &[], Some("one")),
        fragment(None, &["/s/status/2"], Some("two")),
        fragment(Some("/s/status/1"), &[], Some("one again")),
        fragment(None, &[], Some("no id")),
    ];
    let r = extract_batch(&frags, "s", 2, at(5));
    assert_eq!(r.len(), 2);
    assert_eq!(r[0].tweet_id, "1");
    assert_eq!(r[0].text, Some("one".to_string()));
    assert_eq!(r[1].tweet_id, "2");
}

#[test]
fn author_entry_found() {
    let entries = vec![
        "<article>x</article>".to_string(),
        "author_id: author_id: solana".to_string(),
        "author_id: other".to_string(),
    ];
    assert_eq!(author_entry_id(&entries), Some("solana".to_string()));
    assert_eq!(author_entry_id(&vec!["nothing".to_string()]), None);
}
