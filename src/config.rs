use vstd::prelude::*;
use crate::store::{repo_parts, split_repo};

verus! {

/// Settings of the service: credentials, the chat that new items are posted
/// to, the repositories to poll and those to leave out of discovery.
#[derive(Clone, Debug)]
pub struct Config {
    pub telegram_bot_token: String,
    pub github_token: String,
    pub chat_id: i64,
    /// `(owner, repo)` pairs.
    pub repositories: Vec<(String, String)>,
    /// `(owner, repo)` pairs that discovery skips.
    pub ignored_repositories: Vec<(String, String)>,
}

/// The entry that one comma-separated piece gives: `owner/repo` with exactly
/// one slash and both parts non-empty, else none.
pub open spec fn entry_of(piece: Seq<char>) -> Seq<(Seq<char>, Seq<char>)> {
    match repo_parts(piece) {
        Some((o, n)) => if o.len() > 0 && n.len() > 0 {
            seq![(o, n)]
        } else {
            seq![]
        },
        None => seq![],
    }
}

/// Reading `s` left to right: the entries of the pieces closed by a comma,
/// and the piece still open.
pub open spec fn scan(s: Seq<char>) -> (Seq<(Seq<char>, Seq<char>)>, Seq<char>)
    decreases s.len(),
{
    if s.len() == 0 {
        (seq![], seq![])
    } else {
        let (done, cur) = scan(s.drop_last());
        if s.last() == ',' {
            (done + entry_of(cur), seq![])
        } else {
            (done, cur.push(s.last()))
        }
    }
}

/// The repositories that a comma-separated `owner/repo` list names.
pub open spec fn repo_list(s: Seq<char>) -> Seq<(Seq<char>, Seq<char>)> {
    scan(s).0 + entry_of(scan(s).1)
}

pub open spec fn pair_views(v: Seq<(String, String)>) -> Seq<(Seq<char>, Seq<char>)> {
    v.map_values(|p: (String, String)| (p.0@, p.1@))
}

fn push_entry(out: &mut Vec<(String, String)>, piece: &str)
    ensures
        pair_views(final(out)@) == pair_views(old(out)@) + entry_of(piece@),
{
    let ghost before = out@;
    match split_repo(piece) {
        Some((o, n)) => {
            if o.unicode_len() > 0 && n.unicode_len() > 0 {
                out.push((o, n));
                assert(pair_views(out@) =~= pair_views(before) + entry_of(piece@));
            } else {
                assert(pair_views(out@) =~= pair_views(before) + entry_of(piece@));
            }
        },
        None => {
            assert(pair_views(out@) =~= pair_views(before) + entry_of(piece@));
        },
    }
}

/// Reads a comma-separated list of `owner/repo` entries; an entry without
/// exactly one slash, or with an empty part, is skipped.
pub fn parse_repo_list(s: &str) -> (r: Vec<(String, String)>)
    ensures
        pair_views(r@) == repo_list(s@),
{
    let n = s.unicode_len();
    let mut out: Vec<(String, String)> = Vec::new();
    let mut start: usize = 0;
    let mut i: usize = 0;
    assert(pair_views(out@) =~= Seq::<(Seq<char>, Seq<char>)>::empty());
    assert(s@.take(0) =~= Seq::<char>::empty());
    assert(s@.subrange(0, 0) =~= Seq::<char>::empty());
    while i < n
        invariant
            n == s@.len(),
            0 <= start <= i <= n,
            pair_views(out@) == scan(s@.take(i as int)).0,
            s@.subrange(start as int, i as int) == scan(s@.take(i as int)).1,
        decreases n - i,
    {
        assert(s@.take(i + 1).drop_last() =~= s@.take(i as int));
        assert(s@.take(i + 1).last() == s@[i as int]);
        if s.get_char(i) == ',' {
            let piece = s.substring_char(start, i);
            push_entry(&mut out, piece);
            start = i + 1;
            assert(s@.subrange(start as int, i + 1) =~= Seq::<char>::empty());
        } else {
            assert(s@.subrange(start as int, i + 1) =~= s@.subrange(start as int, i as int).push(s@[i as int]));
        }
        i = i + 1;
    }
    assert(s@.take(n as int) =~= s@);
    let piece = s.substring_char(start, n);
    push_entry(&mut out, piece);
    out
}

/// Whether `(owner, repo)` is among the pairs of `list`.
pub fn is_listed(list: &Vec<(String, String)>, owner: &String, repo: &String) -> (r: bool)
    ensures
        r == pair_views(list@).contains((owner@, repo@)),
{
    let mut i: usize = 0;
    while i < list.len()
        invariant
            0 <= i <= list@.len(),
            forall|k: int| 0 <= k < i ==> pair_views(list@)[k] != (owner@, repo@),
        decreases list@.len() - i,
    {
        if list[i].0 == *owner && list[i].1 == *repo {
            assert(pair_views(list@)[i as int] == (owner@, repo@));
            return true;
        }
        i = i + 1;
    }
    false
}

} // verus!
