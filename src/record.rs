use vstd::prelude::*;

verus! {

/// The status record of one tracked pull request: the chat message that
/// mirrors it, what the remote item is, and its review participants.
#[derive(Clone, Debug)]
pub struct PrData {
    pub pr_url: String,
    pub title: String,
    pub author: String,
    /// `owner/repo`.
    pub repo: String,
    pub pr_number: u64,
    pub reviewers: Vec<String>,
    pub approvals: Vec<String>,
    pub changes_requested: Vec<String>,
    pub comments: Vec<String>,
    pub is_merged: bool,
    pub is_draft: bool,
    pub re_review_requested: bool,
    pub chat_id: i64,
}

/// The mathematical model of a status record: participant lists are sets.
pub ghost struct PrView {
    pub pr_url: Seq<char>,
    pub title: Seq<char>,
    pub author: Seq<char>,
    pub repo: Seq<char>,
    pub pr_number: u64,
    pub reviewers: Set<Seq<char>>,
    pub approvals: Set<Seq<char>>,
    pub changes_requested: Set<Seq<char>>,
    pub comments: Set<Seq<char>>,
    pub is_merged: bool,
    pub is_draft: bool,
    pub re_review_requested: bool,
    pub chat_id: i64,
}

impl View for PrData {
    type V = PrView;

    open spec fn view(&self) -> PrView {
        PrView {
            pr_url: self.pr_url@,
            title: self.title@,
            author: self.author@,
            repo: self.repo@,
            pr_number: self.pr_number,
            reviewers: names(self.reviewers@),
            approvals: names(self.approvals@),
            changes_requested: names(self.changes_requested@),
            comments: names(self.comments@),
            is_merged: self.is_merged,
            is_draft: self.is_draft,
            re_review_requested: self.re_review_requested,
            chat_id: self.chat_id,
        }
    }
}

impl PrData {
    /// Every participant list holds each user at most once.
    pub open spec fn wf(&self) -> bool {
        &&& distinct(self.reviewers@)
        &&& distinct(self.approvals@)
        &&& distinct(self.changes_requested@)
        &&& distinct(self.comments@)
    }
}

/// A tracked message as the store keeps it: the record without its
/// participant lists, with the repository split into owner and name.
#[derive(Clone, Debug)]
pub struct PrMessage {
    pub message_id: String,
    pub chat_id: i64,
    pub pr_url: String,
    pub title: String,
    pub author: String,
    pub repo_owner: String,
    pub repo_name: String,
    pub pr_number: i64,
    pub is_merged: bool,
    pub is_draft: bool,
    pub re_review_requested: bool,
}

/// A repository that the reconciliation loop polls.
#[derive(Clone, Debug)]
pub struct TrackedRepo {
    pub id: i64,
    pub owner: String,
    pub name: String,
}

/// The set of user names held by a participant list.
pub open spec fn names(v: Seq<String>) -> Set<Seq<char>> {
    Set::new(|u: Seq<char>| exists|i: int| 0 <= i < v.len() && v[i]@ == u)
}

/// A participant list holds each user at most once.
pub open spec fn distinct(v: Seq<String>) -> bool {
    forall|i: int, j: int| 0 <= i < v.len() && 0 <= j < v.len() && i != j ==> v[i]@ != v[j]@
}

/// Returns whether `user` is in `list`.
pub fn has_user(list: &Vec<String>, user: &String) -> (r: bool)
    ensures
        r == names(list@).contains(user@),
{
    let mut i: usize = 0;
    while i < list.len()
        invariant
            0 <= i <= list@.len(),
            forall|k: int| 0 <= k < i ==> list@[k]@ != user@,
        decreases list@.len() - i,
    {
        if list[i] == *user {
            return true;
        }
        i = i + 1;
    }
    false
}

/// Adds `user` to `list` unless already present; returns whether it was added.
pub fn add_user(list: &mut Vec<String>, user: &String) -> (added: bool)
    ensures
        distinct(old(list)@) ==> distinct(final(list)@),
        names(final(list)@) == names(old(list)@).insert(user@),
        added == !names(old(list)@).contains(user@),
{
    if has_user(list, user) {
        assert(names(list@) == names(list@).insert(user@));
        false
    } else {
        let ghost before = list@;
        list.push(user.clone());
        assert(names(list@) =~= names(before).insert(user@)) by {
            assert forall|u: Seq<char>| names(before).insert(user@).contains(u) implies names(list@).contains(u) by {
                if u == user@ {
                    assert(list@[before.len() as int]@ == u);
                } else {
                    let i = choose|i: int| 0 <= i < before.len() && before[i]@ == u;
                    assert(list@[i]@ == u);
                }
            }
        }
        true
    }
}

/// Removes `user` from `list`, keeping the order of the others.
pub fn remove_user(list: &mut Vec<String>, user: &String)
    requires
        distinct(old(list)@),
    ensures
        distinct(final(list)@),
        names(final(list)@) == names(old(list)@).remove(user@),
{
    let ghost before = list@;
    let mut kept: Vec<String> = Vec::new();
    let mut i: usize = 0;
    while i < list.len()
        invariant
            0 <= i <= list@.len(),
            list@ == before,
            distinct(before),
            distinct(kept@),
            forall|k: int| 0 <= k < kept@.len() ==> kept@[k]@ != user@,
            forall|k: int|
                0 <= k < kept@.len() ==> exists|j: int| 0 <= j < i && before[j]@ == #[trigger] kept@[k]@,
            forall|j: int|
                0 <= j < i && before[j]@ != user@ ==> exists|k: int|
                    0 <= k < kept@.len() && kept@[k]@ == #[trigger] before[j]@,
        decreases list@.len() - i,
    {
        if list[i] != *user {
            let ghost old_kept = kept@;
            assert forall|k: int| 0 <= k < old_kept.len() implies old_kept[k]@ != list@[i as int]@ by {
                let j = choose|j: int| 0 <= j < i && before[j]@ == old_kept[k]@;
                assert(j != i);
            }
            kept.push(list[i].clone());
            assert forall|k: int| 0 <= k < kept@.len() implies exists|j: int| 0 <= j < i + 1 && before[j]@ == #[trigger] kept@[k]@ by {
                if k < old_kept.len() {
                    let j = choose|j: int| 0 <= j < i && before[j]@ == old_kept[k]@;
                    assert(before[j]@ == kept@[k]@);
                } else {
                    assert(before[i as int]@ == kept@[k]@);
                }
            }
            assert forall|j: int| 0 <= j < i + 1 && before[j]@ != user@ implies exists|k: int|
                0 <= k < kept@.len() && kept@[k]@ == #[trigger] before[j]@ by {
                if j < i {
                    let k = choose|k: int| 0 <= k < old_kept.len() && old_kept[k]@ == before[j]@;
                    assert(kept@[k]@ == before[j]@);
                } else {
                    assert(kept@[old_kept.len() as int]@ == before[j]@);
                }
            }
        }
        i = i + 1;
    }
    assert(names(kept@) =~= names(before).remove(user@)) by {
        assert forall|u: Seq<char>| names(kept@).contains(u) implies names(before).remove(user@).contains(u) by {
            let k = choose|k: int| 0 <= k < kept@.len() && kept@[k]@ == u;
            let j = choose|j: int| 0 <= j < before.len() && before[j]@ == kept@[k]@;
        }
        assert forall|u: Seq<char>| names(before).remove(user@).contains(u) implies names(kept@).contains(u) by {
            let j = choose|j: int| 0 <= j < before.len() && before[j]@ == u;
            let k = choose|k: int| 0 <= k < kept@.len() && kept@[k]@ == before[j]@;
        }
    }
    *list = kept;
}

} // verus!
