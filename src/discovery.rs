use vstd::prelude::*;
use crate::record::{PrData, PrView, names};
use crate::store::{repo_full_name, full_name, key_of, seen_key, SeenKeys};

verus! {

/// A pull request as the remote service reports it. Times are seconds since
/// the Unix epoch.
#[derive(Clone, Debug)]
pub struct RemoteItem {
    pub number: u64,
    pub title: Option<String>,
    pub author: Option<String>,
    pub url: Option<String>,
    pub created_at: Option<i64>,
    pub is_merged: bool,
    pub is_draft: bool,
    pub is_closed: bool,
}

/// The item was created after `since`.
pub open spec fn created_after(item: RemoteItem, since: i64) -> bool {
    item.created_at is Some && item.created_at->0 > since
}

/// Whether the item was created after `since`; an item without a creation
/// time is never new.
pub fn is_new_since(item: &RemoteItem, since: i64) -> (r: bool)
    ensures
        r == created_after(*item, since),
{
    match item.created_at {
        Some(t) => t > since,
        None => false,
    }
}

/// The text of `o`, or `dflt` when there is none.
pub open spec fn text_or(o: Option<String>, dflt: Seq<char>) -> Seq<char> {
    match o {
        Some(s) => s@,
        None => dflt,
    }
}

fn text_or_exec(o: &Option<String>, dflt: &str) -> (r: String)
    ensures
        r@ == text_or(*o, dflt@),
{
    match o {
        Some(s) => s.clone(),
        None => dflt.to_owned(),
    }
}

/// The status record of an item when it is first surfaced.
pub open spec fn fresh_view(owner: Seq<char>, name: Seq<char>, item: RemoteItem, chat_id: i64) -> PrView {
    PrView {
        pr_url: text_or(item.url, ""@),
        title: text_or(item.title, ""@),
        author: text_or(item.author, "unknown"@),
        repo: full_name(owner, name),
        pr_number: item.number,
        reviewers: Set::empty(),
        approvals: Set::empty(),
        changes_requested: Set::empty(),
        comments: Set::empty(),
        is_merged: item.is_merged,
        is_draft: item.is_draft,
        re_review_requested: false,
        chat_id,
    }
}

/// Builds the record of a newly surfaced item of `owner/name`: no
/// participants yet, the item's own merged and draft flags.
pub fn fresh_record(owner: &str, name: &str, item: &RemoteItem, chat_id: i64) -> (r: PrData)
    ensures
        r.wf(),
        r@ == fresh_view(owner@, name@, *item, chat_id),
{
    let r = PrData {
        pr_url: text_or_exec(&item.url, ""),
        title: text_or_exec(&item.title, ""),
        author: text_or_exec(&item.author, "unknown"),
        repo: repo_full_name(owner, name),
        pr_number: item.number,
        reviewers: Vec::new(),
        approvals: Vec::new(),
        changes_requested: Vec::new(),
        comments: Vec::new(),
        is_merged: item.is_merged,
        is_draft: item.is_draft,
        re_review_requested: false,
        chat_id,
    };
    assert(names(r.reviewers@) =~= Set::empty());
    assert(names(r.approvals@) =~= Set::empty());
    assert(names(r.changes_requested@) =~= Set::empty());
    assert(names(r.comments@) =~= Set::empty());
    r
}

/// An item to surface: its seen key and the record to post.
#[derive(Clone, Debug)]
pub struct Surfacing {
    pub key: String,
    pub record: PrData,
}

pub open spec fn surfacing_views(v: Seq<Surfacing>) -> Seq<(Seq<char>, PrView)> {
    v.map_values(|x: Surfacing| (x.key@, x.record@))
}

/// Discovery over the first `n` items of `owner/name`: each item created
/// after `since` whose key is not yet seen is surfaced and its key marked.
/// Gives what is surfaced, in order, and the seen set after.
pub open spec fn discovery(
    items: Seq<RemoteItem>,
    since: i64,
    seen: Set<Seq<char>>,
    owner: Seq<char>,
    name: Seq<char>,
    chat_id: i64,
    n: int,
) -> (Seq<(Seq<char>, PrView)>, Set<Seq<char>>)
    decreases n,
{
    if n <= 0 {
        (seq![], seen)
    } else {
        let (out, s) = discovery(items, since, seen, owner, name, chat_id, n - 1);
        let item = items[n - 1];
        let k = key_of(full_name(owner, name), item.number);
        if created_after(item, since) && !s.contains(k) {
            (out.push((k, fresh_view(owner, name, item, chat_id))), s.insert(k))
        } else {
            (out, s)
        }
    }
}

proof fn lemma_keys_marked(
    items: Seq<RemoteItem>,
    since: i64,
    seen: Set<Seq<char>>,
    owner: Seq<char>,
    name: Seq<char>,
    chat_id: i64,
    n: int,
)
    requires
        0 <= n <= items.len(),
    ensures
        seen.subset_of(discovery(items, since, seen, owner, name, chat_id, n).1),
        forall|i: int| 0 <= i < n && created_after(#[trigger] items[i], since) ==>
            discovery(items, since, seen, owner, name, chat_id, n).1.contains(key_of(full_name(owner, name), items[i].number)),
    decreases n,
{
    if n > 0 {
        lemma_keys_marked(items, since, seen, owner, name, chat_id, n - 1);
    }
}

/// Discovery run a second time over the same items, with the seen set the
/// first run left, surfaces nothing and marks nothing new.
pub proof fn lemma_rediscovery_surfaces_nothing(
    items: Seq<RemoteItem>,
    since: i64,
    seen: Set<Seq<char>>,
    owner: Seq<char>,
    name: Seq<char>,
    chat_id: i64,
)
    ensures
        ({
            let after = discovery(items, since, seen, owner, name, chat_id, items.len() as int).1;
            discovery(items, since, after, owner, name, chat_id, items.len() as int) == (Seq::<(Seq<char>, PrView)>::empty(), after)
        }),
{
    let n = items.len() as int;
    let after = discovery(items, since, seen, owner, name, chat_id, n).1;
    lemma_keys_marked(items, since, seen, owner, name, chat_id, n);
    lemma_second_round(items, since, after, owner, name, chat_id, n);
}

proof fn lemma_second_round(
    items: Seq<RemoteItem>,
    since: i64,
    after: Set<Seq<char>>,
    owner: Seq<char>,
    name: Seq<char>,
    chat_id: i64,
    m: int,
)
    requires
        0 <= m <= items.len(),
        forall|i: int| 0 <= i < items.len() && created_after(#[trigger] items[i], since) ==>
            after.contains(key_of(full_name(owner, name), items[i].number)),
    ensures
        discovery(items, since, after, owner, name, chat_id, m) == (Seq::<(Seq<char>, PrView)>::empty(), after),
    decreases m,
{
    if m > 0 {
        lemma_second_round(items, since, after, owner, name, chat_id, m - 1);
        let item = items[m - 1];
        if created_after(item, since) {
            assert(after.contains(key_of(full_name(owner, name), item.number)));
        }
    }
}

/// The discovery phase for one repository: picks the items created after
/// `since` that the dedup guard lets through, marks their keys in `seen`,
/// and builds the record to post for each.
pub fn plan_discovery(
    items: &Vec<RemoteItem>,
    since: i64,
    seen: &mut SeenKeys,
    owner: &str,
    name: &str,
    chat_id: i64,
) -> (r: Vec<Surfacing>)
    ensures
        (surfacing_views(r@), final(seen)@) == discovery(items@, since, old(seen)@, owner@, name@, chat_id, items@.len() as int),
        forall|i: int| 0 <= i < r@.len() ==> (#[trigger] r@[i]).record.wf(),
{
    let ghost s0 = seen@;
    let repo = repo_full_name(owner, name);
    let mut out: Vec<Surfacing> = Vec::new();
    let mut i: usize = 0;
    assert(surfacing_views(out@) =~= Seq::<(Seq<char>, PrView)>::empty());
    while i < items.len()
        invariant
            0 <= i <= items@.len(),
            repo@ == full_name(owner@, name@),
            (surfacing_views(out@), seen@) == discovery(items@, since, s0, owner@, name@, chat_id, i as int),
            forall|k: int| 0 <= k < out@.len() ==> (#[trigger] out@[k]).record.wf(),
        decreases items@.len() - i,
    {
        let item = &items[i];
        let key = seen_key(repo.as_str(), item.number);
        if is_new_since(item, since) && seen.should_surface(&key) {
            seen.mark_seen(&key);
            let record = fresh_record(owner, name, item, chat_id);
            let ghost before = out@;
            out.push(Surfacing { key, record });
            assert(surfacing_views(out@) =~= surfacing_views(before).push((key@, record@)));
        }
        i = i + 1;
    }
    out
}

} // verus!
