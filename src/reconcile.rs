use vstd::prelude::*;
use crate::record::{PrData, PrView, names, distinct, has_user};

verus! {

/// The state of one review annotation on the remote item.
#[derive(Clone, Copy, Debug, PartialEq, Eq, Structural)]
pub enum ReviewState {
    Approved,
    ChangesRequested,
    Commented,
    Dismissed,
    Pending,
    Other,
}

/// One review annotation, in the order the remote service lists them
/// (oldest first). Either part may be missing.
#[derive(Clone, Debug)]
pub struct Review {
    pub user: Option<String>,
    pub state: Option<ReviewState>,
}

/// An annotation that counts: it has both an author and a state.
pub open spec fn counted(r: Review) -> bool {
    r.user is Some && r.state is Some
}

/// Annotation `i` is the last one that counts from its author.
pub open spec fn latest_at(rs: Seq<Review>, i: int) -> bool {
    &&& 0 <= i < rs.len()
    &&& counted(rs[i])
    &&& forall|j: int| i < j < rs.len() && counted(rs[j]) ==> rs[j].user->0@ != rs[i].user->0@
}

/// Among the first `n` annotations, the authors whose latest annotation
/// overall has state `st`.
pub open spec fn latest_among(rs: Seq<Review>, st: ReviewState, n: int) -> Set<Seq<char>> {
    Set::new(|u: Seq<char>| exists|i: int| 0 <= i < n && latest_at(rs, i) && rs[i].user->0@ == u && rs[i].state->0 == st)
}

/// The authors whose latest annotation has state `st`.
pub open spec fn latest_with(rs: Seq<Review>, st: ReviewState) -> Set<Seq<char>> {
    latest_among(rs, st, rs.len() as int)
}

/// An author's last counted annotation alone decides where they stand: they
/// are in the set of its state and in no other, so an earlier comment
/// followed by an approval leaves them among the approvers only.
pub proof fn lemma_latest_state_wins(rs: Seq<Review>, i: int, st: ReviewState)
    requires
        latest_at(rs, i),
    ensures
        latest_with(rs, st).contains(rs[i].user->0@) == (st == rs[i].state->0),
{
    let u = rs[i].user->0@;
    if latest_with(rs, st).contains(u) {
        let m = choose|m: int| 0 <= m < rs.len() && latest_at(rs, m) && rs[m].user->0@ == u && rs[m].state->0 == st;
        assert(m == i) by {
            if m < i {
                assert(!(counted(rs[i]) && rs[i].user->0@ != rs[m].user->0@));
            } else if m > i {
                assert(!(counted(rs[m]) && rs[m].user->0@ != rs[i].user->0@));
            }
        }
    }
    if st == rs[i].state->0 {
        assert(latest_among(rs, st, rs.len() as int).contains(u));
    }
}

/// Each author's latest annotation, sorted by state. Other states are
/// dropped.
#[derive(Clone, Debug)]
pub struct ReviewSets {
    pub approvals: Vec<String>,
    pub changes_requested: Vec<String>,
    pub comments: Vec<String>,
}

impl ReviewSets {
    pub open spec fn wf(&self) -> bool {
        &&& distinct(self.approvals@)
        &&& distinct(self.changes_requested@)
        &&& distinct(self.comments@)
    }

    /// These are the sets that `rs` projects to.
    pub open spec fn projects(&self, rs: Seq<Review>) -> bool {
        &&& names(self.approvals@) == latest_with(rs, ReviewState::Approved)
        &&& names(self.changes_requested@) == latest_with(rs, ReviewState::ChangesRequested)
        &&& names(self.comments@) == latest_with(rs, ReviewState::Commented)
    }
}

fn is_latest(reviews: &Vec<Review>, i: usize) -> (r: bool)
    requires
        i < reviews@.len(),
    ensures
        r == latest_at(reviews@, i as int),
{
    let user = match &reviews[i].user {
        Some(u) => u,
        None => return false,
    };
    if reviews[i].state.is_none() {
        return false;
    }
    let n = reviews.len();
    let mut j: usize = i + 1;
    while j < n
        invariant
            i < j <= reviews@.len(),
            n == reviews@.len(),
            reviews@[i as int].user == Some(*user),
            forall|k: int| i < k < j && counted(reviews@[k]) ==> reviews@[k].user->0@ != user@,
        decreases reviews@.len() - j,
    {
        if let Some(v) = &reviews[j].user {
            if reviews[j].state.is_some() && *v == *user {
                return false;
            }
        }
        j = j + 1;
    }
    true
}

proof fn lemma_push_latest(rs: Seq<Review>, st: ReviewState, i: int, v: Seq<String>, w: Seq<String>)
    requires
        0 <= i < rs.len(),
        names(v) == latest_among(rs, st, i),
        distinct(v),
        w == (if latest_at(rs, i) && rs[i].state->0 == st { v.push(rs[i].user->0) } else { v }),
    ensures
        names(w) == latest_among(rs, st, i + 1),
        distinct(w),
{
    if latest_at(rs, i) && rs[i].state->0 == st {
        let u = rs[i].user->0;
        assert forall|k: int| 0 <= k < v.len() implies v[k]@ != u@ by {
            assert(names(v).contains(v[k]@));
            let m = choose|m: int| 0 <= m < i && latest_at(rs, m) && rs[m].user->0@ == v[k]@ && rs[m].state->0 == st;
        }
        assert(names(w) =~= latest_among(rs, st, i + 1)) by {
            assert forall|x: Seq<char>| latest_among(rs, st, i + 1).contains(x) implies names(w).contains(x) by {
                let m = choose|m: int| 0 <= m < i + 1 && latest_at(rs, m) && rs[m].user->0@ == x && rs[m].state->0 == st;
                if m < i {
                    assert(latest_among(rs, st, i).contains(x));
                    let k = choose|k: int| 0 <= k < v.len() && v[k]@ == x;
                    assert(w[k]@ == x);
                } else {
                    assert(w[v.len() as int]@ == x);
                }
            }
            assert forall|x: Seq<char>| names(w).contains(x) implies latest_among(rs, st, i + 1).contains(x) by {
                let k = choose|k: int| 0 <= k < w.len() && w[k]@ == x;
                if k < v.len() {
                    assert(v[k]@ == x);
                    assert(names(v).contains(x));
                }
            }
        }
    } else {
        assert(names(w) =~= latest_among(rs, st, i + 1)) by {
            assert forall|x: Seq<char>| latest_among(rs, st, i + 1).contains(x) implies names(w).contains(x) by {
                let m = choose|m: int| 0 <= m < i + 1 && latest_at(rs, m) && rs[m].user->0@ == x && rs[m].state->0 == st;
                assert(m != i);
                assert(latest_among(rs, st, i).contains(x));
            }
            assert forall|x: Seq<char>| names(w).contains(x) implies latest_among(rs, st, i + 1).contains(x) by {
                assert(latest_among(rs, st, i).contains(x));
                let m = choose|m: int| 0 <= m < i && latest_at(rs, m) && rs[m].user->0@ == x && rs[m].state->0 == st;
            }
        }
    }
}

/// Projects the annotations onto each author's latest state: an author is
/// an approver, has requested changes, or has commented, by their last
/// annotation alone.
pub fn latest_review_states(reviews: &Vec<Review>) -> (r: ReviewSets)
    ensures
        r.wf(),
        r.projects(reviews@),
{
    let mut approvals: Vec<String> = Vec::new();
    let mut changes_requested: Vec<String> = Vec::new();
    let mut comments: Vec<String> = Vec::new();
    let ghost rs = reviews@;
    assert(names(approvals@) =~= latest_among(rs, ReviewState::Approved, 0));
    assert(names(changes_requested@) =~= latest_among(rs, ReviewState::ChangesRequested, 0));
    assert(names(comments@) =~= latest_among(rs, ReviewState::Commented, 0));
    let mut i: usize = 0;
    while i < reviews.len()
        invariant
            0 <= i <= reviews@.len(),
            rs == reviews@,
            distinct(approvals@),
            distinct(changes_requested@),
            distinct(comments@),
            names(approvals@) == latest_among(rs, ReviewState::Approved, i as int),
            names(changes_requested@) == latest_among(rs, ReviewState::ChangesRequested, i as int),
            names(comments@) == latest_among(rs, ReviewState::Commented, i as int),
        decreases reviews@.len() - i,
    {
        let ghost (a0, c0, m0) = (approvals@, changes_requested@, comments@);
        if is_latest(reviews, i) {
            let user = match &reviews[i].user {
                Some(u) => u.clone(),
                None => String::new(),
            };
            match reviews[i].state {
                Some(ReviewState::Approved) => approvals.push(user),
                Some(ReviewState::ChangesRequested) => changes_requested.push(user),
                Some(ReviewState::Commented) => comments.push(user),
                _ => {},
            }
        }
        proof {
            lemma_push_latest(rs, ReviewState::Approved, i as int, a0, approvals@);
            lemma_push_latest(rs, ReviewState::ChangesRequested, i as int, c0, changes_requested@);
            lemma_push_latest(rs, ReviewState::Commented, i as int, m0, comments@);
        }
        i = i + 1;
    }
    ReviewSets { approvals, changes_requested, comments }
}

/// Whether two participant lists hold the same users, in any order.
pub fn same_members(a: &Vec<String>, b: &Vec<String>) -> (r: bool)
    ensures
        r == (names(a@) == names(b@)),
{
    let mut i: usize = 0;
    while i < a.len()
        invariant
            0 <= i <= a@.len(),
            forall|k: int| 0 <= k < i ==> names(b@).contains(#[trigger] a@[k]@),
        decreases a@.len() - i,
    {
        if !has_user(b, &a[i]) {
            assert(names(a@).contains(a@[i as int]@));
            return false;
        }
        i = i + 1;
    }
    let mut j: usize = 0;
    while j < b.len()
        invariant
            0 <= j <= b@.len(),
            forall|k: int| 0 <= k < a@.len() ==> names(b@).contains(#[trigger] a@[k]@),
            forall|k: int| 0 <= k < j ==> names(a@).contains(#[trigger] b@[k]@),
        decreases b@.len() - j,
    {
        if !has_user(a, &b[j]) {
            assert(names(b@).contains(b@[j as int]@));
            return false;
        }
        j = j + 1;
    }
    assert(names(a@) =~= names(b@)) by {
        assert forall|x: Seq<char>| names(a@).contains(x) implies names(b@).contains(x) by {
            let k = choose|k: int| 0 <= k < a@.len() && a@[k]@ == x;
        }
        assert forall|x: Seq<char>| names(b@).contains(x) implies names(a@).contains(x) by {
            let k = choose|k: int| 0 <= k < b@.len() && b@[k]@ == x;
        }
    }
    true
}

/// The record brought in line with the remote item: its draft flag and the
/// three review sets are taken from the remote side, all else is kept.
pub open spec fn synced(
    d: PrView,
    draft: bool,
    approvals: Set<Seq<char>>,
    changes: Set<Seq<char>>,
    comments: Set<Seq<char>>,
) -> PrView {
    PrView { is_draft: draft, approvals, changes_requested: changes, comments, ..d }
}

/// Brings the record in line with the remote draft flag and review sets;
/// returns whether anything differed.
pub fn reconcile(data: &mut PrData, is_draft: bool, sets: ReviewSets) -> (changed: bool)
    requires
        old(data).wf(),
        sets.wf(),
    ensures
        final(data).wf(),
        final(data)@ == synced(old(data)@, is_draft, names(sets.approvals@), names(sets.changes_requested@), names(sets.comments@)),
        changed == (final(data)@ != old(data)@),
{
    let ghost d0 = data@;
    let changed = data.is_draft != is_draft
        || !same_members(&data.approvals, &sets.approvals)
        || !same_members(&data.changes_requested, &sets.changes_requested)
        || !same_members(&data.comments, &sets.comments);
    data.is_draft = is_draft;
    data.approvals = sets.approvals;
    data.changes_requested = sets.changes_requested;
    data.comments = sets.comments;
    proof {
        if !changed {
            assert(data@ == d0);
        }
    }
    changed
}

/// What the remote service reports of an item.
#[derive(Clone, Copy, Debug)]
pub struct RemoteStatus {
    pub is_closed: bool,
    pub is_merged: bool,
    pub is_draft: bool,
}

/// Whether the tracked message must be retired: the item is closed or merged.
pub fn should_retire(status: &RemoteStatus) -> (r: bool)
    ensures
        r == (status.is_closed || status.is_merged),
{
    status.is_closed || status.is_merged
}

/// What the sweep phase does with one tracked message.
#[derive(Clone, Copy, Debug)]
pub struct SweepPlan {
    /// The record changed: store it and edit the message.
    pub edit: bool,
    /// The item is closed or merged: delete the message and the record.
    pub retire: bool,
}

/// One sweep step for a tracked record: reconciles it with the remote status
/// and annotations, and says whether to edit and whether to retire. Retiring
/// does not depend on whether an edit is due.
pub fn sweep_item(data: &mut PrData, status: &RemoteStatus, reviews: &Vec<Review>) -> (r: SweepPlan)
    requires
        old(data).wf(),
    ensures
        final(data).wf(),
        final(data)@ == synced(
            old(data)@,
            status.is_draft,
            latest_with(reviews@, ReviewState::Approved),
            latest_with(reviews@, ReviewState::ChangesRequested),
            latest_with(reviews@, ReviewState::Commented),
        ),
        r.edit == (final(data)@ != old(data)@),
        r.retire == (status.is_closed || status.is_merged),
{
    let sets = latest_review_states(reviews);
    let edit = reconcile(data, status.is_draft, sets);
    SweepPlan { edit, retire: should_retire(status) }
}

} // verus!
