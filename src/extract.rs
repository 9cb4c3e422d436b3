//! Turning one feed-item fragment into an [`Airdrop`] record: resolving the
//! item's identifier, its text, its time, the handles it mentions and the
//! links it carries.

use vstd::prelude::*;
use crate::text::{
    char_seqs, chars_of, contains_chars, contains_seq, drop_blank_lines, find_from, first_from,
    matches_at, split_words, starts_with_seq, string_of, sub_chars, trim_chars,
    trimmed, without_blank_lines, words, Trim,
};
use crate::timestamp::{parse_rfc3339, rfc3339_instant, Timestamp};

verus! {

/// One element of a fragment: its tag name and its attributes, in document order.
pub struct Element {
    pub tag: String,
    pub attributes: Vec<(String, String)>,
}

/// What the extractor reads of one feed item's DOM sub-tree.
pub struct Fragment {
    /// The first element that carries a `datetime` attribute.
    pub time_element: Option<Element>,
    /// The element that directly encloses `time_element`.
    pub time_parent: Option<Element>,
    /// Every anchor of the fragment, in document order.
    pub anchors: Vec<Element>,
    /// The rendered text of the primary text container, if the fragment has one.
    pub text_container: Option<String>,
    /// The rendered text of the whole fragment.
    pub full_text: String,
}

/// One harvested feed item.
pub struct Airdrop {
    pub tweet_id: String,
    pub text: Option<String>,
    pub author_id: String,
    pub created_at: Option<Timestamp>,
    pub saved_at: Timestamp,
    pub deepness: u32,
    pub keywords: Vec<String>,
    pub token_name: Option<String>,
    pub mentioned_users: Vec<String>,
    pub links: Vec<String>,
}

/// The view of an optional string.
pub open spec fn opt_view(o: Option<String>) -> Option<Seq<char>> {
    match o {
        Some(s) => Some(s@),
        None => None,
    }
}

/// The views of a sequence of strings.
pub open spec fn str_seqs(v: Seq<String>) -> Seq<Seq<char>> {
    v.map_values(|s: String| s@)
}

/// The value of the first attribute named `name` among `attrs`.
pub open spec fn attr_in(attrs: Seq<(String, String)>, name: Seq<char>) -> Option<Seq<char>>
    decreases attrs.len(),
{
    if attrs.len() == 0 {
        None
    } else if attrs[0].0@ == name {
        Some(attrs[0].1@)
    } else {
        attr_in(attrs.drop_first(), name)
    }
}

/// The value of the attribute `name` of `e`.
pub open spec fn attribute(e: Element, name: Seq<char>) -> Option<Seq<char>> {
    attr_in(e.attributes@, name)
}

/// The value of the attribute `attr_name` of `element`, if it has one.
pub fn get_attribute(element: &Element, attr_name: &str) -> (r: Option<String>)
    ensures
        opt_view(r) == attribute(*element, attr_name@),
{
    let name = String::from_str(attr_name);
    let attrs = &element.attributes;
    let mut i: usize = 0;
    assert(attrs@.subrange(0, attrs@.len() as int) =~= attrs@);
    while i < attrs.len()
        invariant
            i <= attrs.len(),
            name@ == attr_name@,
            attrs == &element.attributes,
            attribute(*element, attr_name@) == attr_in(
                attrs@.subrange(i as int, attrs@.len() as int),
                attr_name@,
            ),
        decreases attrs.len() - i,
    {
        assert(attrs@.subrange(i as int, attrs@.len() as int).drop_first() =~= attrs@.subrange(
            i + 1,
            attrs@.len() as int,
        ));
        if attrs[i].0 == name {
            return Some(attrs[i].1.clone());
        }
        i += 1;
    }
    None
}

/// The path segment that precedes an item's identifier in its permalink.
pub open spec fn status_marker() -> Seq<char> {
    seq!['/', 's', 't', 'a', 't', 'u', 's', '/']
}

fn status_marker_chars() -> (r: Vec<char>)
    ensures
        r@ == status_marker(),
{
    let r = vec!['/', 's', 't', 'a', 't', 'u', 's', '/'];
    assert(r@ =~= status_marker());
    r
}

/// `s` up to, not including, its first `/`.
pub open spec fn before_slash(s: Seq<char>) -> Seq<char> {
    match first_from(s, seq!['/'], 0) {
        Some(k) => s.take(k),
        None => s,
    }
}

/// The identifier in a permalink: what follows the first `/status/` up to the
/// next `/`; none where `/status/` does not occur.
pub open spec fn status_id(href: Seq<char>) -> Option<Seq<char>> {
    match first_from(href, status_marker(), 0) {
        Some(k) => Some(before_slash(href.skip(k + 8))),
        None => None,
    }
}

/// Extracts the identifier that follows `/status/` in a link target.
pub fn extract_tweet_id_from_href(href: &str) -> (r: Option<String>)
    ensures
        opt_view(r) == status_id(href@),
{
    let h = chars_of(href);
    let marker = status_marker_chars();
    match find_from(&h, &marker, 0) {
        Some(k) => {
            let n = h.len();
            assert(marker@.len() == 8);
            let rest = sub_chars(&h, k + 8, n);
            assert(rest@ =~= h@.skip(k + 8));
            let slash = vec!['/'];
            assert(slash@ =~= seq!['/']);
            let id = match find_from(&rest, &slash, 0) {
                Some(e) => sub_chars(&rest, 0, e),
                None => rest,
            };
            assert(id@ =~= before_slash(h@.skip(k + 8)));
            Some(string_of(&id))
        },
        None => None,
    }
}

/// The name of the attribute that holds an anchor's target.
pub open spec fn href_name() -> Seq<char> {
    seq!['h', 'r', 'e', 'f']
}

/// The name of the attribute that holds a machine-readable time.
pub open spec fn datetime_name() -> Seq<char> {
    seq!['d', 'a', 't', 'e', 't', 'i', 'm', 'e']
}

fn href_of(e: &Element) -> (r: Option<String>)
    ensures
        opt_view(r) == attribute(*e, href_name()),
{
    proof {
        reveal_strlit("href");
    }
    assert("href"@ =~= href_name());
    get_attribute(e, "href")
}

/// The identifier of the permalink that encloses the fragment's time element.
pub open spec fn permalink_id(f: Fragment) -> Option<Seq<char>> {
    match f.time_parent {
        Some(p) => if p.tag@ == seq!['a'] {
            match attribute(p, href_name()) {
                Some(h) => status_id(h),
                None => None,
            }
        } else {
            None
        },
        None => None,
    }
}

/// Whether a link target names an item's permalink rather than one of its media viewers.
pub open spec fn is_item_link(h: Seq<char>) -> bool {
    &&& contains_seq(h, status_marker())
    &&& !contains_seq(h, seq!['/', 'p', 'h', 'o', 't', 'o', '/'])
    &&& !contains_seq(h, seq!['/', 'v', 'i', 'd', 'e', 'o', '/'])
}

/// The identifier of the first anchor, from position `i` on, whose target is an item link.
pub open spec fn item_link_id_from(anchors: Seq<Element>, i: int) -> Option<Seq<char>>
    decreases anchors.len() - i,
{
    if i < 0 || i >= anchors.len() {
        None
    } else {
        match attribute(anchors[i], href_name()) {
            Some(h) => if is_item_link(h) {
                status_id(h)
            } else {
                item_link_id_from(anchors, i + 1)
            },
            None => item_link_id_from(anchors, i + 1),
        }
    }
}

/// A way of resolving a fragment's identifier.
#[derive(Clone, Copy, PartialEq, Eq, Structural, Debug)]
pub enum IdStrategy {
    /// The permalink anchor that encloses the item's time element.
    TimePermalink,
    /// The first anchor whose target is an item link.
    ItemLink,
}

/// The identifier that `strategy` reads from `f`.
pub open spec fn id_by(strategy: IdStrategy, f: Fragment) -> Option<Seq<char>> {
    match strategy {
        IdStrategy::TimePermalink => permalink_id(f),
        IdStrategy::ItemLink => item_link_id_from(f.anchors@, 0),
    }
}

/// The strategies, in the order in which they are tried.
pub open spec fn strategy_order() -> Seq<IdStrategy> {
    seq![IdStrategy::TimePermalink, IdStrategy::ItemLink]
}

/// The strategies, in the order in which they are tried.
pub fn id_strategies() -> (r: Vec<IdStrategy>)
    ensures
        r@ == strategy_order(),
{
    let r = vec![IdStrategy::TimePermalink, IdStrategy::ItemLink];
    assert(r@ =~= strategy_order());
    r
}

/// The first non-empty identifier that the strategies of `order` give for `f`.
pub open spec fn first_id(order: Seq<IdStrategy>, f: Fragment) -> Option<Seq<char>>
    decreases order.len(),
{
    if order.len() == 0 {
        None
    } else {
        match id_by(order[0], f) {
            Some(id) => if id.len() > 0 {
                Some(id)
            } else {
                first_id(order.drop_first(), f)
            },
            None => first_id(order.drop_first(), f),
        }
    }
}

/// The identifier that the strategies give is never empty.
pub proof fn lemma_first_id_nonempty(order: Seq<IdStrategy>, f: Fragment)
    ensures
        first_id(order, f) matches Some(id) ==> id.len() > 0,
    decreases order.len(),
{
    if order.len() > 0 {
        lemma_first_id_nonempty(order.drop_first(), f);
    }
}

/// The identifier of a fragment: the first non-empty one that the strategies give, in order.
pub open spec fn resolved_id(f: Fragment) -> Option<Seq<char>> {
    first_id(strategy_order(), f)
}

fn contains_literal(h: &Vec<char>, lit: &str) -> (r: bool)
    ensures
        r == contains_seq(h@, lit@),
{
    let p = chars_of(lit);
    contains_chars(h, &p)
}

/// The identifier that `strategy` reads from `fragment`.
pub fn apply_strategy(strategy: IdStrategy, fragment: &Fragment) -> (r: Option<String>)
    ensures
        opt_view(r) == id_by(strategy, *fragment),
{
    match strategy {
        IdStrategy::TimePermalink => match &fragment.time_parent {
            Some(p) => {
                let a = String::from_str("a");
                proof {
                    reveal_strlit("a");
                }
                assert(a@ =~= seq!['a']);
                if p.tag == a {
                    match href_of(p) {
                        Some(h) => extract_tweet_id_from_href(h.as_str()),
                        None => None,
                    }
                } else {
                    None
                }
            },
            None => None,
        },
        IdStrategy::ItemLink => {
            let anchors = &fragment.anchors;
            let mut i: usize = 0;
            while i < anchors.len()
                invariant
                    i <= anchors.len(),
                    anchors == &fragment.anchors,
                    strategy == IdStrategy::ItemLink,
                    item_link_id_from(anchors@, 0) == item_link_id_from(anchors@, i as int),
                decreases anchors.len() - i,
            {
                match href_of(&anchors[i]) {
                    Some(h) => {
                        let hc = chars_of(h.as_str());
                        proof {
                            reveal_strlit("/status/");
                            reveal_strlit("/photo/");
                            reveal_strlit("/video/");
                        }
                        assert("/status/"@ =~= status_marker());
                        assert("/photo/"@ =~= seq!['/', 'p', 'h', 'o', 't', 'o', '/']);
                        assert("/video/"@ =~= seq!['/', 'v', 'i', 'd', 'e', 'o', '/']);
                        if contains_literal(&hc, "/status/") && !contains_literal(&hc, "/photo/")
                            && !contains_literal(&hc, "/video/") {
                            assert(is_item_link(h@));
                            assert(item_link_id_from(anchors@, i as int) == status_id(h@));
                            return extract_tweet_id_from_href(h.as_str());
                        }
                    },
                    None => {},
                }
                i += 1;
            }
            None
        },
    }
}

/// Resolves the identifier of `fragment`: the first non-empty identifier that
/// the strategies give, tried in order.
pub fn resolve_id(fragment: &Fragment) -> (r: Option<String>)
    ensures
        opt_view(r) == resolved_id(*fragment),
{
    let order = id_strategies();
    let mut i: usize = 0;
    assert(order@.subrange(0, order@.len() as int) =~= order@);
    while i < order.len()
        invariant
            i <= order.len(),
            resolved_id(*fragment) == first_id(order@.subrange(i as int, order@.len() as int), *fragment),
        decreases order.len() - i,
    {
        assert(order@.subrange(i as int, order@.len() as int).drop_first() =~= order@.subrange(
            i + 1,
            order@.len() as int,
        ));
        match apply_strategy(order[i], fragment) {
            Some(id) => {
                if id.unicode_len() > 0 {
                    return Some(id);
                }
            },
            None => {},
        }
        i += 1;
    }
    None
}

/// The handle that a word mentions: a word that starts with `@`, with the
/// characters that are neither alphanumeric nor `@` trimmed from both ends,
/// unless nothing or a bare `@` is left.
pub open spec fn mention_of_word(w: Seq<char>) -> Option<Seq<char>> {
    if w.len() > 0 && w[0] == '@' {
        let t = trimmed(w, Trim::MentionEdge);
        if t.len() > 0 && t != seq!['@'] {
            Some(t)
        } else {
            None
        }
    } else {
        None
    }
}

/// The handles that the words `ws` mention, in order, repeats kept.
pub open spec fn mentions_of_words(ws: Seq<Seq<char>>) -> Seq<Seq<char>>
    decreases ws.len(),
{
    if ws.len() == 0 {
        Seq::empty()
    } else {
        let r = mentions_of_words(ws.drop_last());
        match mention_of_word(ws.last()) {
            Some(m) => r.push(m),
            None => r,
        }
    }
}

/// The handles that the text `t` mentions, in order, repeats kept.
pub open spec fn mentions_in(t: Seq<char>) -> Seq<Seq<char>> {
    mentions_of_words(words(t))
}

fn mention_of(w: &Vec<char>) -> (r: Option<Vec<char>>)
    ensures
        match r {
            Some(m) => mention_of_word(w@) == Some(m@),
            None => mention_of_word(w@) is None,
        },
{
    if w.len() > 0 && w[0] == '@' {
        let t = trim_chars(w, &Trim::MentionEdge);
        let bare = t.len() == 1 && t[0] == '@';
        assert(bare <==> t@ =~= seq!['@']);
        if t.len() > 0 && !bare {
            Some(t)
        } else {
            None
        }
    } else {
        None
    }
}

/// The handles that `text` mentions: its white-space separated words that
/// start with `@`, trimmed of surrounding punctuation, in order, repeats kept.
pub fn extract_mentions(text: &str) -> (r: Vec<String>)
    ensures
        str_seqs(r@) == mentions_in(text@),
{
    let cs = chars_of(text);
    let ws = split_words(&cs);
    let mut r: Vec<String> = Vec::new();
    let mut i: usize = 0;
    while i < ws.len()
        invariant
            i <= ws.len(),
            char_seqs(ws@) == words(text@),
            str_seqs(r@) == mentions_of_words(char_seqs(ws@).take(i as int)),
        decreases ws.len() - i,
    {
        assert(char_seqs(ws@).take(i + 1).drop_last() =~= char_seqs(ws@).take(i as int));
        assert(char_seqs(ws@).take(i + 1).last() == ws@[i as int]@);
        match mention_of(&ws[i]) {
            Some(m) => {
                let ms = string_of(&m);
                r.push(ms);
                assert(str_seqs(r@) =~= mentions_of_words(char_seqs(ws@).take(i + 1)));
            },
            None => {},
        }
        i += 1;
    }
    assert(char_seqs(ws@).take(ws.len() as int) =~= char_seqs(ws@));
    r
}

/// Whether a link target is kept among an item's links: an absolute http or
/// https target that is not the item's own permalink nor an in-page anchor.
pub open spec fn keep_link(h: Seq<char>, id: Seq<char>) -> bool {
    &&& (starts_with_seq(h, seq!['h', 't', 't', 'p', ':', '/', '/']) || starts_with_seq(
        h,
        seq!['h', 't', 't', 'p', 's', ':', '/', '/'],
    ))
    &&& !contains_seq(h, status_marker() + id)
    &&& !starts_with_seq(h, seq!['#'])
}

/// The kept targets of `anchors`, in first-seen order, each once.
pub open spec fn link_scan(anchors: Seq<Element>, id: Seq<char>) -> Seq<Seq<char>>
    decreases anchors.len(),
{
    if anchors.len() == 0 {
        Seq::empty()
    } else {
        let r = link_scan(anchors.drop_last(), id);
        match attribute(anchors.last(), href_name()) {
            Some(h) => if keep_link(h, id) && !r.contains(h) {
                r.push(h)
            } else {
                r
            },
            None => r,
        }
    }
}

/// Whether `s` is among `v`.
pub fn has_string(v: &Vec<String>, s: &String) -> (r: bool)
    ensures
        r == str_seqs(v@).contains(s@),
{
    let mut i: usize = 0;
    while i < v.len()
        invariant
            i <= v.len(),
            forall|k: int| 0 <= k < i ==> str_seqs(v@)[k] != s@,
        decreases v.len() - i,
    {
        if v[i] == *s {
            assert(str_seqs(v@)[i as int] == s@);
            return true;
        }
        i += 1;
    }
    false
}

/// The links of an item: the targets of `anchors` that are absolute http or
/// https links, other than the item's own permalink and in-page anchors, in
/// first-seen order, each once.
pub fn extract_links(anchors: &Vec<Element>, item_id: &str) -> (r: Vec<String>)
    ensures
        str_seqs(r@) == link_scan(anchors@, item_id@),
{
    let mut own = status_marker_chars();
    let id = chars_of(item_id);
    let mut k: usize = 0;
    while k < id.len()
        invariant
            k <= id.len(),
            own@ == status_marker() + id@.take(k as int),
        decreases id.len() - k,
    {
        own.push(id[k]);
        k += 1;
        assert(own@ =~= status_marker() + id@.take(k as int));
    }
    assert(id@.take(id.len() as int) =~= id@);
    let http = vec!['h', 't', 't', 'p', ':', '/', '/'];
    let https = vec!['h', 't', 't', 'p', 's', ':', '/', '/'];
    let hash = vec!['#'];
    assert(http@ =~= seq!['h', 't', 't', 'p', ':', '/', '/']);
    assert(https@ =~= seq!['h', 't', 't', 'p', 's', ':', '/', '/']);
    assert(hash@ =~= seq!['#']);
    let mut r: Vec<String> = Vec::new();
    let mut i: usize = 0;
    while i < anchors.len()
        invariant
            i <= anchors.len(),
            own@ == status_marker() + item_id@,
            http@ == seq!['h', 't', 't', 'p', ':', '/', '/'],
            https@ == seq!['h', 't', 't', 'p', 's', ':', '/', '/'],
            hash@ == seq!['#'],
            str_seqs(r@) == link_scan(anchors@.take(i as int), item_id@),
        decreases anchors.len() - i,
    {
        assert(anchors@.take(i + 1).drop_last() =~= anchors@.take(i as int));
        match href_of(&anchors[i]) {
            Some(h) => {
                let hc = chars_of(h.as_str());
                let keep = (matches_at(&hc, &http, 0) || matches_at(&hc, &https, 0))
                    && !contains_chars(&hc, &own) && !matches_at(&hc, &hash, 0);
                if keep && !has_string(&r, &h) {
                    r.push(h);
                    assert(str_seqs(r@) =~= link_scan(anchors@.take(i + 1), item_id@));
                }
            },
            None => {},
        }
        i += 1;
    }
    assert(anchors@.take(anchors.len() as int) =~= anchors@);
    r
}

/// The text of a fragment: the trimmed text of its primary container, or,
/// without one, its whole text with blank lines removed; none where that is empty.
pub open spec fn text_of(f: Fragment) -> Option<Seq<char>> {
    let t = match f.text_container {
        Some(c) => trimmed(c@, Trim::Whitespace),
        None => without_blank_lines(f.full_text@),
    };
    if t.len() == 0 {
        None
    } else {
        Some(t)
    }
}

/// The text of `fragment`: the trimmed text of its primary container, or,
/// without one, its whole text with blank lines removed; none where that is empty.
pub fn resolve_text(fragment: &Fragment) -> (r: Option<String>)
    ensures
        opt_view(r) == text_of(*fragment),
{
    let t = match &fragment.text_container {
        Some(c) => {
            let cs = chars_of(c.as_str());
            trim_chars(&cs, &Trim::Whitespace)
        },
        None => {
            let cs = chars_of(fragment.full_text.as_str());
            drop_blank_lines(&cs)
        },
    };
    if t.len() == 0 {
        None
    } else {
        Some(string_of(&t))
    }
}

/// The handles that an optional text mentions.
pub open spec fn mentions_of_text(t: Option<Seq<char>>) -> Seq<Seq<char>> {
    match t {
        Some(s) => mentions_in(s),
        None => Seq::empty(),
    }
}

/// The instant that a fragment's time element names, where it parses.
pub open spec fn created_at_of(f: Fragment) -> Option<Timestamp> {
    match f.time_element {
        Some(e) => match attribute(e, datetime_name()) {
            Some(s) => rfc3339_instant(s),
            None => None,
        },
        None => None,
    }
}

/// The instant that the time element of `fragment` names; none where there is
/// no such element or its text does not parse.
pub fn parse_created_at(fragment: &Fragment) -> (r: Option<Timestamp>)
    ensures
        r == created_at_of(*fragment),
{
    match &fragment.time_element {
        Some(e) => {
            proof {
                reveal_strlit("datetime");
            }
            assert("datetime"@ =~= datetime_name());
            match get_attribute(e, "datetime") {
                Some(s) => parse_rfc3339(s.as_str()),
                None => None,
            }
        },
        None => None,
    }
}

/// Whether `r` is the record of fragment `f` with identifier `id`.
pub open spec fn describes(
    r: Airdrop,
    f: Fragment,
    id: Seq<char>,
    author: Seq<char>,
    deepness: u32,
    created: Option<Timestamp>,
    saved: Timestamp,
) -> bool {
    &&& r.tweet_id@ == id
    &&& opt_view(r.text) == text_of(f)
    &&& r.author_id@ == author
    &&& r.created_at == created
    &&& r.saved_at == saved
    &&& r.deepness == deepness
    &&& r.keywords@.len() == 0
    &&& r.token_name is None
    &&& str_seqs(r.mentioned_users@) == mentions_of_text(text_of(f))
    &&& str_seqs(r.links@) == link_scan(f.anchors@, id)
}

/// What extraction gives: no record where the fragment has no identifier or
/// its identifier is among `seen`; else a record that `describes` it.
pub open spec fn extraction(
    r: Option<Airdrop>,
    f: Fragment,
    author: Seq<char>,
    deepness: u32,
    seen: Seq<Seq<char>>,
    created: Option<Timestamp>,
    saved: Timestamp,
) -> bool {
    match resolved_id(f) {
        None => r is None,
        Some(id) => if seen.contains(id) {
            r is None
        } else {
            r is Some && describes(r->0, f, id, author, deepness, created, saved)
        },
    }
}

/// Builds the record of `fragment`, given the instant its time element names
/// and the instant of extraction; none where the fragment has no identifier or
/// its identifier is among `seen_ids`.
pub fn build_airdrop(
    fragment: &Fragment,
    author_id: &str,
    deepness: u32,
    seen_ids: &Vec<String>,
    created_at: Option<Timestamp>,
    saved_at: Timestamp,
) -> (r: Option<Airdrop>)
    ensures
        extraction(r, *fragment, author_id@, deepness, str_seqs(seen_ids@), created_at, saved_at),
{
    let id = match resolve_id(fragment) {
        Some(id) => id,
        None => return None,
    };
    if has_string(seen_ids, &id) {
        return None;
    }
    let text = resolve_text(fragment);
    let mentioned_users = match &text {
        Some(t) => extract_mentions(t.as_str()),
        None => Vec::new(),
    };
    assert(str_seqs(mentioned_users@) =~= mentions_of_text(text_of(*fragment)));
    let links = extract_links(&fragment.anchors, id.as_str());
    Some(
        Airdrop {
            tweet_id: id,
            text,
            author_id: String::from_str(author_id),
            created_at,
            saved_at,
            deepness,
            keywords: Vec::new(),
            token_name: None,
            mentioned_users,
            links,
        },
    )
}

/// Extracts the record of `fragment` at the instant `saved_at`; none where the
/// fragment has no identifier or its identifier is among `seen_ids`.
pub fn extract_airdrop(
    fragment: &Fragment,
    author_id: &str,
    deepness: u32,
    seen_ids: &Vec<String>,
    saved_at: Timestamp,
) -> (r: Option<Airdrop>)
    ensures
        extraction(
            r,
            *fragment,
            author_id@,
            deepness,
            str_seqs(seen_ids@),
            created_at_of(*fragment),
            saved_at,
        ),
{
    let created_at = parse_created_at(fragment);
    build_airdrop(fragment, author_id, deepness, seen_ids, created_at, saved_at)
}

/// A fragment from which no strategy resolves a non-empty identifier gives no
/// record, whatever else it holds.
pub proof fn lemma_unresolved_fragment_gives_nothing(
    r: Option<Airdrop>,
    f: Fragment,
    author: Seq<char>,
    deepness: u32,
    seen: Seq<Seq<char>>,
    created: Option<Timestamp>,
    saved: Timestamp,
)
    requires
        forall|k: int|
            0 <= k < strategy_order().len() ==> match id_by(#[trigger] strategy_order()[k], f) {
                Some(id) => id.len() == 0,
                None => true,
            },
        extraction(r, f, author, deepness, seen, created, saved),
    ensures
        r is None,
{
    let order = strategy_order();
    assert(order.drop_first() =~= seq![IdStrategy::ItemLink]);
    assert(order.drop_first().drop_first() =~= Seq::<IdStrategy>::empty());
    let _ = id_by(strategy_order()[0], f);
    let _ = id_by(strategy_order()[1], f);
    assert(order.drop_first()[0] == IdStrategy::ItemLink);
    assert(first_id(order.drop_first().drop_first(), f) is None);
    assert(first_id(order.drop_first(), f) is None);
    assert(first_id(order, f) is None);
}

/// Extracting a fragment a second time, with the identifier of the record the
/// first extraction gave added to the seen identifiers, gives no record.
pub proof fn lemma_rerun_gives_nothing(
    first: Option<Airdrop>,
    second: Option<Airdrop>,
    f: Fragment,
    author: Seq<char>,
    deepness: u32,
    seen: Seq<Seq<char>>,
    created: Option<Timestamp>,
    saved: Timestamp,
    later_saved: Timestamp,
)
    requires
        extraction(first, f, author, deepness, seen, created, saved),
        first is Some,
        extraction(second, f, author, deepness, seen.push(first->0.tweet_id@), created, later_saved),
    ensures
        second is None,
{
    let id = first->0.tweet_id@;
    assert(seen.push(id)[seen.len() as int] == id);
}

} // verus!
