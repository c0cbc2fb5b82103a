use vstd::prelude::*;
use crate::record::{PrData, PrMessage, names, distinct, add_user, has_user};
use crate::link::{decimal, decimal_digits};

verus! {

/// `s` has a slash at `i` and none elsewhere.
pub open spec fn single_slash_at(s: Seq<char>, i: int) -> bool {
    &&& 0 <= i < s.len()
    &&& s[i] == '/'
    &&& forall|j: int| 0 <= j < s.len() && j != i ==> s[j] != '/'
}

/// Owner and name of an `owner/name` string with exactly one slash.
pub open spec fn repo_parts(s: Seq<char>) -> Option<(Seq<char>, Seq<char>)> {
    if exists|i: int| single_slash_at(s, i) {
        let i = choose|i: int| single_slash_at(s, i);
        Some((s.take(i), s.skip(i + 1)))
    } else {
        None
    }
}

/// Splits an `owner/name` repository string; `None` unless it holds
/// exactly one slash.
pub fn split_repo(repo: &str) -> (r: Option<(String, String)>)
    ensures
        match r {
            Some((o, n)) => repo_parts(repo@) == Some((o@, n@)),
            None => repo_parts(repo@) is None,
        },
{
    let n = repo.unicode_len();
    let mut pos: usize = 0;
    let mut count: usize = 0;
    let mut i: usize = 0;
    while i < n
        invariant
            n == repo@.len(),
            0 <= i <= n,
            count <= i,
            count == 0 ==> forall|j: int| 0 <= j < i ==> repo@[j] != '/',
            count >= 1 ==> pos < i && repo@[pos as int] == '/',
            count == 1 ==> forall|j: int| 0 <= j < i && j != pos ==> repo@[j] != '/',
            count >= 2 ==> exists|j: int| 0 <= j < i && j != pos && repo@[j] == '/',
        decreases n - i,
    {
        if repo.get_char(i) == '/' {
            if count == 0 {
                pos = i;
            }
            if count < 2 {
                count = count + 1;
            }
        }
        i = i + 1;
    }
    if count != 1 {
        proof {
            if exists|k: int| single_slash_at(repo@, k) {
                let k = choose|k: int| single_slash_at(repo@, k);
                if count >= 2 {
                    let j = choose|j: int| 0 <= j < n && j != pos && repo@[j] == '/';
                }
            }
        }
        return None;
    }
    proof {
        let k = choose|k: int| single_slash_at(repo@, k);
        assert(single_slash_at(repo@, pos as int));
        assert(k == pos);
    }
    let owner = repo.substring_char(0, pos).to_owned();
    let name = repo.substring_char(pos + 1, n).to_owned();
    assert(repo@.subrange(0, pos as int) =~= repo@.take(pos as int));
    assert(repo@.subrange(pos + 1, n as int) =~= repo@.skip(pos + 1));
    Some((owner, name))
}

/// `owner/name`.
pub open spec fn full_name(owner: Seq<char>, name: Seq<char>) -> Seq<char> {
    owner + "/"@ + name
}

/// Joins owner and name into `owner/name`.
pub fn repo_full_name(owner: &str, name: &str) -> (r: String)
    ensures
        r@ == full_name(owner@, name@),
{
    let mut r = owner.to_owned();
    r.append("/");
    r.append(name);
    r
}

/// The key that marks an item as surfaced: `owner/name#number`.
pub open spec fn key_of(repo: Seq<char>, number: u64) -> Seq<char> {
    repo + "#"@ + decimal_digits(number as nat)
}

/// The seen key of item `number` of repository `repo` (`owner/name`).
pub fn seen_key(repo: &str, number: u64) -> (r: String)
    ensures
        r@ == key_of(repo@, number),
{
    let mut r = repo.to_owned();
    r.append("#");
    let digits = decimal(number);
    r.append(digits.as_str());
    r
}

/// The durable set of seen keys, as the dedup guard sees it. Keys are only
/// ever added.
pub struct SeenKeys {
    keys: Vec<String>,
}

impl View for SeenKeys {
    type V = Set<Seq<char>>;

    closed spec fn view(&self) -> Set<Seq<char>> {
        names(self.keys@)
    }
}

/// The seen set after marking each of `ks` in turn.
pub open spec fn mark_all(s: Set<Seq<char>>, ks: Seq<Seq<char>>) -> Set<Seq<char>>
    decreases ks.len(),
{
    if ks.len() == 0 {
        s
    } else {
        mark_all(s, ks.drop_last()).insert(ks.last())
    }
}

impl SeenKeys {
    /// No key seen yet.
    pub fn new() -> (r: SeenKeys)
        ensures
            r@ == Set::<Seq<char>>::empty(),
    {
        let r = SeenKeys { keys: Vec::new() };
        assert(r@ =~= Set::<Seq<char>>::empty());
        r
    }

    /// Whether `key` has been marked.
    pub fn has_seen(&self, key: &String) -> (r: bool)
        ensures
            r == self@.contains(key@),
    {
        has_user(&self.keys, key)
    }

    /// Marks `key`; marking it again changes nothing.
    pub fn mark_seen(&mut self, key: &String)
        ensures
            final(self)@ == old(self)@.insert(key@),
    {
        add_user(&mut self.keys, key);
    }

    /// The dedup guard: whether the item under `key` is still to be surfaced.
    /// A caller that gets `true` marks the key before anything else looks.
    pub fn should_surface(&self, key: &String) -> (r: bool)
        ensures
            r == !self@.contains(key@),
    {
        !self.has_seen(key)
    }
}

/// Once a key is marked, the guard never lets its item surface again,
/// however many keys are marked after it.
pub proof fn lemma_surface_once(s: Set<Seq<char>>, k: Seq<char>, later: Seq<Seq<char>>)
    ensures
        mark_all(s.insert(k), later).contains(k),
    decreases later.len(),
{
    if later.len() > 0 {
        lemma_surface_once(s, k, later.drop_last());
    }
}

/// How a user takes part in a tracked item, as a stored row says.
#[derive(Clone, Copy, Debug, PartialEq, Eq, Structural)]
pub enum Participation {
    Reviewer,
    Approval,
    ChangeRequest,
    Comment,
}

/// The stored name of a participation kind.
pub open spec fn kind_name(p: Participation) -> Seq<char> {
    match p {
        Participation::Reviewer => "reviewing"@,
        Participation::Approval => "approval"@,
        Participation::ChangeRequest => "change_request"@,
        Participation::Comment => "comment"@,
    }
}

/// The stored name of a participation kind.
pub fn participation_name(p: Participation) -> (r: &'static str)
    ensures
        r@ == kind_name(p),
{
    match p {
        Participation::Reviewer => "reviewing",
        Participation::Approval => "approval",
        Participation::ChangeRequest => "change_request",
        Participation::Comment => "comment",
    }
}

/// Reads a stored participation kind; an unknown name gives `None`.
pub fn participation_of(name: &String) -> (r: Option<Participation>)
    ensures
        match r {
            Some(p) => kind_name(p) == name@,
            None => forall|p: Participation| kind_name(p) != name@,
        },
{
    let kinds = [Participation::Reviewer, Participation::Approval, Participation::ChangeRequest, Participation::Comment];
    let mut i: usize = 0;
    while i < 4
        invariant
            0 <= i <= 4,
            kinds@ == seq![Participation::Reviewer, Participation::Approval, Participation::ChangeRequest, Participation::Comment],
            forall|j: int| 0 <= j < i ==> kind_name(kinds@[j]) != name@,
        decreases 4 - i,
    {
        let p = kinds[i];
        let candidate = participation_name(p).to_owned();
        if candidate == *name {
            return Some(p);
        }
        i = i + 1;
    }
    proof {
        assert forall|p: Participation| kind_name(p) != name@ by {
            let j: int = match p {
                Participation::Reviewer => 0,
                Participation::Approval => 1,
                Participation::ChangeRequest => 2,
                Participation::Comment => 3,
            };
            assert(kinds@[j] == p);
        }
    }
    None
}

/// A stored participation row: user and kind.
pub open spec fn row_views(rows: Seq<(String, Participation)>) -> Seq<(Seq<char>, Participation)> {
    rows.map_values(|r: (String, Participation)| (r.0@, r.1))
}

pub open spec fn tagged(v: Seq<String>, p: Participation) -> Seq<(Seq<char>, Participation)> {
    v.map_values(|s: String| (s@, p))
}

/// The rows that store the participant lists of `d`.
pub open spec fn rows_of(d: PrData) -> Seq<(Seq<char>, Participation)> {
    tagged(d.reviewers@, Participation::Reviewer) + tagged(d.approvals@, Participation::Approval)
        + tagged(d.changes_requested@, Participation::ChangeRequest) + tagged(d.comments@, Participation::Comment)
}

/// The users that the rows give kind `p`.
pub open spec fn members(rows: Seq<(Seq<char>, Participation)>, p: Participation) -> Set<Seq<char>> {
    Set::new(|u: Seq<char>| exists|i: int| 0 <= i < rows.len() && rows[i] == (u, p))
}

fn push_tagged(rows: &mut Vec<(String, Participation)>, v: &Vec<String>, p: Participation)
    ensures
        row_views(final(rows)@) == row_views(old(rows)@) + tagged(v@, p),
{
    let ghost start = row_views(rows@);
    let mut i: usize = 0;
    while i < v.len()
        invariant
            0 <= i <= v@.len(),
            row_views(rows@) == start + tagged(v@.take(i as int), p),
        decreases v@.len() - i,
    {
        let ghost before = rows@;
        let item = v[i].clone();
        rows.push((item, p));
        assert(rows@ == before.push((item, p)));
        assert(row_views(rows@) =~= row_views(before).push((v@[i as int]@, p)));
        assert(tagged(v@.take(i + 1), p) =~= tagged(v@.take(i as int), p).push((v@[i as int]@, p)));
        assert(row_views(rows@) =~= start + tagged(v@.take(i + 1), p));
        i = i + 1;
    }
    assert(v@.take(v@.len() as int) =~= v@);
}

/// The participation rows that store the record's lists.
pub fn participant_rows(data: &PrData) -> (r: Vec<(String, Participation)>)
    ensures
        row_views(r@) == rows_of(*data),
{
    let mut rows: Vec<(String, Participation)> = Vec::new();
    assert(row_views(rows@) =~= Seq::<(Seq<char>, Participation)>::empty());
    push_tagged(&mut rows, &data.reviewers, Participation::Reviewer);
    push_tagged(&mut rows, &data.approvals, Participation::Approval);
    push_tagged(&mut rows, &data.changes_requested, Participation::ChangeRequest);
    push_tagged(&mut rows, &data.comments, Participation::Comment);
    assert(row_views(rows@) =~= rows_of(*data));
    rows
}

/// The four participant lists of a record.
#[derive(Clone, Debug)]
pub struct ParticipantLists {
    pub reviewers: Vec<String>,
    pub approvals: Vec<String>,
    pub changes_requested: Vec<String>,
    pub comments: Vec<String>,
}

impl ParticipantLists {
    pub open spec fn wf(&self) -> bool {
        &&& distinct(self.reviewers@)
        &&& distinct(self.approvals@)
        &&& distinct(self.changes_requested@)
        &&& distinct(self.comments@)
    }

    /// These are the lists that `rows` store.
    pub open spec fn stored_in(&self, rows: Seq<(Seq<char>, Participation)>) -> bool {
        &&& names(self.reviewers@) == members(rows, Participation::Reviewer)
        &&& names(self.approvals@) == members(rows, Participation::Approval)
        &&& names(self.changes_requested@) == members(rows, Participation::ChangeRequest)
        &&& names(self.comments@) == members(rows, Participation::Comment)
    }
}

proof fn lemma_members_push(rows: Seq<(Seq<char>, Participation)>, x: (Seq<char>, Participation), p: Participation)
    ensures
        members(rows.push(x), p) == (if x.1 == p { members(rows, p).insert(x.0) } else { members(rows, p) }),
{
    let a = members(rows.push(x), p);
    let b = if x.1 == p { members(rows, p).insert(x.0) } else { members(rows, p) };
    assert forall|u: Seq<char>| a.contains(u) implies b.contains(u) by {
        let i = choose|i: int| 0 <= i < rows.len() + 1 && rows.push(x)[i] == (u, p);
        if i < rows.len() {
            assert(rows[i] == (u, p));
        }
    }
    assert forall|u: Seq<char>| b.contains(u) implies a.contains(u) by {
        if members(rows, p).contains(u) {
            let i = choose|i: int| 0 <= i < rows.len() && rows[i] == (u, p);
            assert(rows.push(x)[i] == (u, p));
        } else {
            assert(rows.push(x)[rows.len() as int] == (u, p));
        }
    }
    assert(a =~= b);
}

/// Sorts stored participation rows back into the four lists, each user once.
pub fn group_rows(rows: &Vec<(String, Participation)>) -> (r: ParticipantLists)
    ensures
        r.wf(),
        r.stored_in(row_views(rows@)),
{
    let mut out = ParticipantLists {
        reviewers: Vec::new(),
        approvals: Vec::new(),
        changes_requested: Vec::new(),
        comments: Vec::new(),
    };
    let ghost rv = row_views(rows@);
    proof {
        let e = Seq::<(Seq<char>, Participation)>::empty();
        assert(names(out.reviewers@) =~= members(e, Participation::Reviewer));
        assert(names(out.approvals@) =~= members(e, Participation::Approval));
        assert(names(out.changes_requested@) =~= members(e, Participation::ChangeRequest));
        assert(names(out.comments@) =~= members(e, Participation::Comment));
        assert(rv.take(0) =~= e);
    }
    let mut i: usize = 0;
    while i < rows.len()
        invariant
            0 <= i <= rows@.len(),
            rv == row_views(rows@),
            out.wf(),
            out.stored_in(rv.take(i as int)),
        decreases rows@.len() - i,
    {
        let (user, p) = (&rows[i].0, rows[i].1);
        match p {
            Participation::Reviewer => { add_user(&mut out.reviewers, user); },
            Participation::Approval => { add_user(&mut out.approvals, user); },
            Participation::ChangeRequest => { add_user(&mut out.changes_requested, user); },
            Participation::Comment => { add_user(&mut out.comments, user); },
        }
        proof {
            assert(rv.take(i + 1) =~= rv.take(i as int).push(rv[i as int]));
            lemma_members_push(rv.take(i as int), rv[i as int], Participation::Reviewer);
            lemma_members_push(rv.take(i as int), rv[i as int], Participation::Approval);
            lemma_members_push(rv.take(i as int), rv[i as int], Participation::ChangeRequest);
            lemma_members_push(rv.take(i as int), rv[i as int], Participation::Comment);
        }
        i = i + 1;
    }
    assert(rv.take(rows@.len() as int) =~= rv);
    out
}

proof fn lemma_members_tagged(v: Seq<String>, p: Participation, q: Participation)
    ensures
        members(tagged(v, p), q) == (if p == q { names(v) } else { Set::<Seq<char>>::empty() }),
{
    let a = members(tagged(v, p), q);
    let b = if p == q { names(v) } else { Set::<Seq<char>>::empty() };
    assert forall|u: Seq<char>| a.contains(u) implies b.contains(u) by {
        let i = choose|i: int| 0 <= i < tagged(v, p).len() && tagged(v, p)[i] == (u, q);
        assert(v[i]@ == u);
    }
    assert forall|u: Seq<char>| b.contains(u) implies a.contains(u) by {
        let i = choose|i: int| 0 <= i < v.len() && v[i]@ == u;
        assert(tagged(v, p)[i] == (u, q));
    }
    assert(a =~= b);
}

proof fn lemma_members_concat(a: Seq<(Seq<char>, Participation)>, b: Seq<(Seq<char>, Participation)>, p: Participation)
    ensures
        members(a + b, p) == members(a, p) + members(b, p),
{
    let l = members(a + b, p);
    let r = members(a, p) + members(b, p);
    assert forall|u: Seq<char>| l.contains(u) implies r.contains(u) by {
        let i = choose|i: int| 0 <= i < (a + b).len() && (a + b)[i] == (u, p);
        if i < a.len() {
            assert(a[i] == (u, p));
        } else {
            assert(b[i - a.len()] == (u, p));
        }
    }
    assert forall|u: Seq<char>| r.contains(u) implies l.contains(u) by {
        if members(a, p).contains(u) {
            let i = choose|i: int| 0 <= i < a.len() && a[i] == (u, p);
            assert((a + b)[i] == (u, p));
        } else {
            let i = choose|i: int| 0 <= i < b.len() && b[i] == (u, p);
            assert((a + b)[a.len() + i] == (u, p));
        }
    }
    assert(l =~= r);
}

/// Storing a record's lists as rows and reading them back gives the same
/// participant sets.
pub proof fn lemma_rows_round_trip(d: PrData)
    ensures
        members(rows_of(d), Participation::Reviewer) == names(d.reviewers@),
        members(rows_of(d), Participation::Approval) == names(d.approvals@),
        members(rows_of(d), Participation::ChangeRequest) == names(d.changes_requested@),
        members(rows_of(d), Participation::Comment) == names(d.comments@),
{
    let t1 = tagged(d.reviewers@, Participation::Reviewer);
    let t2 = tagged(d.approvals@, Participation::Approval);
    let t3 = tagged(d.changes_requested@, Participation::ChangeRequest);
    let t4 = tagged(d.comments@, Participation::Comment);
    let ps = seq![Participation::Reviewer, Participation::Approval, Participation::ChangeRequest, Participation::Comment];
    assert forall|k: int| 0 <= k < 4 implies members(rows_of(d), #[trigger] ps[k]) == members(t1, ps[k]) + members(t2, ps[k]) + members(t3, ps[k]) + members(t4, ps[k]) by {
        let p = ps[k];
        lemma_members_concat(t1 + t2 + t3, t4, p);
        lemma_members_concat(t1 + t2, t3, p);
        lemma_members_concat(t1, t2, p);
    }
    let e = Set::<Seq<char>>::empty();
    lemma_members_tagged(d.reviewers@, Participation::Reviewer, Participation::Reviewer);
    lemma_members_tagged(d.approvals@, Participation::Approval, Participation::Reviewer);
    lemma_members_tagged(d.changes_requested@, Participation::ChangeRequest, Participation::Reviewer);
    lemma_members_tagged(d.comments@, Participation::Comment, Participation::Reviewer);
    lemma_members_tagged(d.reviewers@, Participation::Reviewer, Participation::Approval);
    lemma_members_tagged(d.approvals@, Participation::Approval, Participation::Approval);
    lemma_members_tagged(d.changes_requested@, Participation::ChangeRequest, Participation::Approval);
    lemma_members_tagged(d.comments@, Participation::Comment, Participation::Approval);
    lemma_members_tagged(d.reviewers@, Participation::Reviewer, Participation::ChangeRequest);
    lemma_members_tagged(d.approvals@, Participation::Approval, Participation::ChangeRequest);
    lemma_members_tagged(d.changes_requested@, Participation::ChangeRequest, Participation::ChangeRequest);
    lemma_members_tagged(d.comments@, Participation::Comment, Participation::ChangeRequest);
    lemma_members_tagged(d.reviewers@, Participation::Reviewer, Participation::Comment);
    lemma_members_tagged(d.approvals@, Participation::Approval, Participation::Comment);
    lemma_members_tagged(d.changes_requested@, Participation::ChangeRequest, Participation::Comment);
    lemma_members_tagged(d.comments@, Participation::Comment, Participation::Comment);
    assert(ps[0] == Participation::Reviewer);
    assert(ps[1] == Participation::Approval);
    assert(ps[2] == Participation::ChangeRequest);
    assert(ps[3] == Participation::Comment);
    assert(e + names(d.reviewers@) =~= names(d.reviewers@));
    assert(names(d.reviewers@) + e + e + e =~= names(d.reviewers@));
    assert(e + names(d.approvals@) + e + e =~= names(d.approvals@));
    assert(e + e + names(d.changes_requested@) + e =~= names(d.changes_requested@));
    assert(e + e + e + names(d.comments@) =~= names(d.comments@));
}

/// The stored form of `d` under `message_id`: the repository split into
/// owner and name. `None` when the repository is not `owner/name` or the
/// number does not fit the stored integer.
pub fn to_pr_message(message_id: &String, data: &PrData) -> (r: Option<PrMessage>)
    ensures
        r is Some <==> (repo_parts(data.repo@) is Some && data.pr_number <= i64::MAX),
        r is Some ==> {
            let m = r->0;
            &&& m.message_id@ == message_id@
            &&& m.chat_id == data.chat_id
            &&& m.pr_url@ == data.pr_url@
            &&& m.title@ == data.title@
            &&& m.author@ == data.author@
            &&& repo_parts(data.repo@) == Some((m.repo_owner@, m.repo_name@))
            &&& m.pr_number as int == data.pr_number as int
            &&& m.is_merged == data.is_merged
            &&& m.is_draft == data.is_draft
            &&& m.re_review_requested == data.re_review_requested
        },
{
    let (owner, name) = match split_repo(data.repo.as_str()) {
        Some(parts) => parts,
        None => return None,
    };
    if data.pr_number > i64::MAX as u64 {
        return None;
    }
    Some(PrMessage {
        message_id: message_id.clone(),
        chat_id: data.chat_id,
        pr_url: data.pr_url.clone(),
        title: data.title.clone(),
        author: data.author.clone(),
        repo_owner: owner,
        repo_name: name,
        pr_number: data.pr_number as i64,
        is_merged: data.is_merged,
        is_draft: data.is_draft,
        re_review_requested: data.re_review_requested,
    })
}

/// The record that a stored message and its participant lists make up.
/// `None` when the stored number is negative.
pub fn from_pr_message(m: &PrMessage, lists: ParticipantLists) -> (r: Option<PrData>)
    requires
        lists.wf(),
    ensures
        r is Some <==> m.pr_number >= 0,
        r is Some ==> {
            let d = r->0;
            &&& d.wf()
            &&& d.pr_url@ == m.pr_url@
            &&& d.title@ == m.title@
            &&& d.author@ == m.author@
            &&& d.repo@ == full_name(m.repo_owner@, m.repo_name@)
            &&& d.pr_number as int == m.pr_number as int
            &&& d.reviewers@ == lists.reviewers@
            &&& d.approvals@ == lists.approvals@
            &&& d.changes_requested@ == lists.changes_requested@
            &&& d.comments@ == lists.comments@
            &&& d.is_merged == m.is_merged
            &&& d.is_draft == m.is_draft
            &&& d.re_review_requested == m.re_review_requested
            &&& d.chat_id == m.chat_id
        },
{
    if m.pr_number < 0 {
        return None;
    }
    Some(PrData {
        pr_url: m.pr_url.clone(),
        title: m.title.clone(),
        author: m.author.clone(),
        repo: repo_full_name(m.repo_owner.as_str(), m.repo_name.as_str()),
        pr_number: m.pr_number as u64,
        reviewers: lists.reviewers,
        approvals: lists.approvals,
        changes_requested: lists.changes_requested,
        comments: lists.comments,
        is_merged: m.is_merged,
        is_draft: m.is_draft,
        re_review_requested: m.re_review_requested,
        chat_id: m.chat_id,
    })
}

} // verus!
