//! Extracting a collected set of fragments at once, and finding the author
//! entry that such a set carries beside its fragments.

use vstd::prelude::*;
use crate::extract::{
    created_at_of, describes, extract_airdrop, opt_view, resolved_id, str_seqs, Airdrop, Fragment,
};
use crate::text::{chars_of, matches_at, starts_with_seq, string_of, sub_chars};
use crate::timestamp::Timestamp;

verus! {

/// The text that introduces the author entry of a collected set.
pub open spec fn author_prefix() -> Seq<char> {
    seq!['a', 'u', 't', 'h', 'o', 'r', '_', 'i', 'd', ':', ' ']
}

/// `s` with every leading repetition of the non-empty `p` removed.
pub open spec fn strip_repeated_prefix(s: Seq<char>, p: Seq<char>) -> Seq<char>
    decreases s.len(),
{
    if p.len() > 0 && starts_with_seq(s, p) {
        strip_repeated_prefix(s.skip(p.len() as int), p)
    } else {
        s
    }
}

/// The author named by the first of `entries` that starts with `author_id: `,
/// from position `i` on.
pub open spec fn author_from(entries: Seq<String>, i: int) -> Option<Seq<char>>
    decreases entries.len() - i,
{
    if i < 0 || i >= entries.len() {
        None
    } else if starts_with_seq(entries[i]@, author_prefix()) {
        Some(strip_repeated_prefix(entries[i]@, author_prefix()))
    } else {
        author_from(entries, i + 1)
    }
}

/// The author named by the first entry that starts with `author_id: `: the
/// rest of that entry, with any further repetitions of the prefix removed.
pub fn author_entry_id(entries: &Vec<String>) -> (r: Option<String>)
    ensures
        opt_view(r) == author_from(entries@, 0),
{
    let prefix = vec!['a', 'u', 't', 'h', 'o', 'r', '_', 'i', 'd', ':', ' '];
    assert(prefix@ =~= author_prefix());
    let mut i: usize = 0;
    while i < entries.len()
        invariant
            i <= entries.len(),
            prefix@ == author_prefix(),
            author_from(entries@, 0) == author_from(entries@, i as int),
        decreases entries.len() - i,
    {
        let e = chars_of(entries[i].as_str());
        if matches_at(&e, &prefix, 0) {
            let mut start: usize = 0;
            assert(e@.skip(0) =~= e@);
            while matches_at(&e, &prefix, start)
                invariant
                    start <= e.len(),
                    prefix@ == author_prefix(),
                    strip_repeated_prefix(e@, prefix@) == strip_repeated_prefix(
                        e@.skip(start as int),
                        prefix@,
                    ),
                decreases e.len() - start,
            {
                assert(e@.skip(start as int).subrange(0, prefix@.len() as int) =~= e@.subrange(
                    start as int,
                    start + prefix@.len(),
                ));
                assert(e@.skip(start as int).skip(prefix@.len() as int) =~= e@.skip(
                    start + prefix@.len(),
                ));
                start = start + prefix.len();
            }
            proof {
                if start + prefix@.len() <= e@.len() {
                    assert(e@.skip(start as int).subrange(0, prefix@.len() as int) =~= e@.subrange(
                        start as int,
                        start + prefix@.len(),
                    ));
                }
            }
            let n = e.len();
            let rest = sub_chars(&e, start, n);
            assert(rest@ =~= e@.skip(start as int));
            return Some(string_of(&rest));
        }
        i += 1;
    }
    None
}

/// Going through `frags` in order with the identifiers `seen` already taken:
/// every identifier taken at the end, and the positions of the fragments that
/// gave a new record.
pub open spec fn batch_scan(seen: Seq<Seq<char>>, frags: Seq<Fragment>) -> (
    Seq<Seq<char>>,
    Seq<int>,
)
    decreases frags.len(),
{
    if frags.len() == 0 {
        (seen, Seq::empty())
    } else {
        let (ids, picks) = batch_scan(seen, frags.drop_last());
        match resolved_id(frags.last()) {
            Some(id) => if ids.contains(id) {
                (ids, picks)
            } else {
                (ids.push(id), picks.push(frags.len() - 1))
            },
            None => (ids, picks),
        }
    }
}

/// Extracts every fragment of `fragments` in order at the instant `saved_at`,
/// keeping one record for each identifier, the first found.
pub fn extract_batch(
    fragments: &Vec<Fragment>,
    author_id: &str,
    deepness: u32,
    saved_at: Timestamp,
) -> (r: Vec<Airdrop>)
    ensures
        ({
            let (ids, picks) = batch_scan(Seq::empty(), fragments@);
            &&& r@.len() == picks.len()
            &&& forall|j: int|
                0 <= j < picks.len() ==> {
                    let f = fragments@[#[trigger] picks[j]];
                    describes(r@[j], f, ids[j], author_id@, deepness, created_at_of(f), saved_at)
                }
        }),
{
    let mut seen: Vec<String> = Vec::new();
    let mut r: Vec<Airdrop> = Vec::new();
    let ghost mut picks: Seq<int> = Seq::empty();
    let mut i: usize = 0;
    assert(fragments@.take(0) =~= Seq::<Fragment>::empty());
    assert(str_seqs(seen@) =~= Seq::<Seq<char>>::empty());
    while i < fragments.len()
        invariant
            i <= fragments.len(),
            (str_seqs(seen@), picks) == batch_scan(Seq::empty(), fragments@.take(i as int)),
            r@.len() == picks.len(),
            seen@.len() == picks.len(),
            forall|j: int| 0 <= j < picks.len() ==> 0 <= #[trigger] picks[j] < i,
            forall|j: int|
                0 <= j < picks.len() ==> {
                    let f = fragments@[#[trigger] picks[j]];
                    describes(
                        r@[j],
                        f,
                        str_seqs(seen@)[j],
                        author_id@,
                        deepness,
                        created_at_of(f),
                        saved_at,
                    )
                },
        decreases fragments.len() - i,
    {
        assert(fragments@.take(i + 1).drop_last() =~= fragments@.take(i as int));
        assert(fragments@.take(i + 1).last() == fragments@[i as int]);
        match extract_airdrop(&fragments[i], author_id, deepness, &seen, saved_at) {
            Some(rec) => {
                let ghost prev_seen = seen@;
                let ghost prev_r = r@;
                let id = rec.tweet_id.clone();
                seen.push(id);
                r.push(rec);
                proof {
                    assert(str_seqs(seen@) =~= str_seqs(prev_seen).push(rec.tweet_id@));
                    let old_picks = picks;
                    picks = picks.push(i as int);
                    assert(picks.drop_last() =~= old_picks);
                    assert(forall|k: int| 0 <= k < prev_r.len() ==> r@[k] == prev_r[k]);
                    assert(forall|k: int|
                        0 <= k < prev_seen.len() ==> str_seqs(seen@)[k] == str_seqs(prev_seen)[k]);
                }
            },
            None => {},
        }
        i += 1;
    }
    assert(fragments@.take(fragments@.len() as int) =~= fragments@);
    r
}

} // verus!
