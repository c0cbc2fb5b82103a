use vstd::prelude::*;
use crate::record::{PrData, PrView, names, add_user, remove_user, has_user};

verus! {

/// What a reaction symbol means, told by its first character.
#[derive(Clone, Copy, Debug, PartialEq, Eq, Structural)]
pub enum Reaction {
    /// Red heart: the user will review.
    Heart,
    /// Thumbs up: the user approves.
    ThumbsUp,
    /// OK hand: the user has commented, and is done reviewing.
    OkHand,
    /// Crying face: the user gives up reviewing.
    Cry,
    /// Hundred points: the item is merged.
    Hundred,
    /// Cooking: the item is a draft.
    Cooking,
    /// Folded hands: a re-review is requested.
    Pray,
    /// Any other symbol counts as a comment.
    Other,
}

pub open spec fn reaction_of(e: Seq<char>) -> Reaction {
    if e.len() == 0 {
        Reaction::Other
    } else if e[0] == '\u{2764}' {
        Reaction::Heart
    } else if e[0] == '\u{1f44d}' {
        Reaction::ThumbsUp
    } else if e[0] == '\u{1f44c}' {
        Reaction::OkHand
    } else if e[0] == '\u{1f62d}' {
        Reaction::Cry
    } else if e[0] == '\u{1f4af}' {
        Reaction::Hundred
    } else if e[0] == '\u{1f373}' {
        Reaction::Cooking
    } else if e[0] == '\u{1f64f}' {
        Reaction::Pray
    } else {
        Reaction::Other
    }
}

/// The symbols of a list of reactions.
pub open spec fn views(v: Seq<String>) -> Seq<Seq<char>> {
    v.map_values(|s: String| s@)
}

/// The effect of `user` adding a symbol of kind `k`.
pub open spec fn on_add(d: PrView, u: Seq<char>, k: Reaction) -> PrView {
    match k {
        Reaction::Heart => PrView { reviewers: d.reviewers.insert(u), ..d },
        Reaction::ThumbsUp => PrView { approvals: d.approvals.insert(u), ..d },
        Reaction::OkHand => PrView {
            comments: d.comments.insert(u),
            reviewers: d.reviewers.remove(u),
            ..d
        },
        Reaction::Cry => PrView { reviewers: d.reviewers.remove(u), ..d },
        Reaction::Hundred => PrView { is_merged: true, ..d },
        Reaction::Cooking => PrView { is_draft: true, ..d },
        Reaction::Pray => PrView { re_review_requested: true, comments: Set::empty(), ..d },
        Reaction::Other => PrView { comments: d.comments.insert(u), ..d },
    }
}

/// The effect of `user` taking back a symbol of kind `k`.
pub open spec fn on_remove(d: PrView, u: Seq<char>, k: Reaction) -> PrView {
    match k {
        Reaction::Heart => PrView { reviewers: d.reviewers.remove(u), ..d },
        Reaction::ThumbsUp => PrView { approvals: d.approvals.remove(u), ..d },
        Reaction::OkHand => PrView { comments: d.comments.remove(u), ..d },
        Reaction::Cry => d,
        Reaction::Hundred => PrView { is_merged: false, ..d },
        Reaction::Cooking => PrView { is_draft: false, ..d },
        Reaction::Pray => PrView { re_review_requested: false, ..d },
        Reaction::Other => PrView { comments: d.comments.remove(u), ..d },
    }
}

/// First pass: the symbols of `olds` missing from `news`, taken back in order.
pub open spec fn removals(d: PrView, u: Seq<char>, olds: Seq<Seq<char>>, news: Seq<Seq<char>>) -> PrView
    decreases olds.len(),
{
    if olds.len() == 0 {
        d
    } else {
        let prev = removals(d, u, olds.drop_last(), news);
        if news.contains(olds.last()) {
            prev
        } else {
            on_remove(prev, u, reaction_of(olds.last()))
        }
    }
}

/// Second pass: the symbols of `news` missing from `olds`, added in order.
pub open spec fn additions(d: PrView, u: Seq<char>, news: Seq<Seq<char>>, olds: Seq<Seq<char>>) -> PrView
    decreases news.len(),
{
    if news.len() == 0 {
        d
    } else {
        let prev = additions(d, u, news.drop_last(), olds);
        if olds.contains(news.last()) {
            prev
        } else {
            on_add(prev, u, reaction_of(news.last()))
        }
    }
}

pub open spec fn has_kind(s: Seq<Seq<char>>, k: Reaction) -> bool {
    exists|i: int| 0 <= i < s.len() && reaction_of(s[i]) == k
}

/// A flag symbol that was present before and is gone now leaves its flag off.
pub open spec fn settle_flags(d: PrView, olds: Seq<Seq<char>>, news: Seq<Seq<char>>) -> PrView {
    let gone = |k: Reaction| has_kind(olds, k) && !has_kind(news, k);
    PrView {
        is_merged: if gone(Reaction::Hundred) { false } else { d.is_merged },
        is_draft: if gone(Reaction::Cooking) { false } else { d.is_draft },
        re_review_requested: if gone(Reaction::Pray) { false } else { d.re_review_requested },
        ..d
    }
}

/// The record after `u` changed their reactions from `olds` to `news`.
pub open spec fn react(d: PrView, u: Seq<char>, olds: Seq<Seq<char>>, news: Seq<Seq<char>>) -> PrView {
    settle_flags(additions(removals(d, u, olds, news), u, news, olds), olds, news)
}

/// Tells the kind of a reaction symbol.
pub fn classify(emoji: &String) -> (r: Reaction)
    ensures
        r == reaction_of(emoji@),
{
    let s = emoji.as_str();
    if s.unicode_len() == 0 {
        return Reaction::Other;
    }
    let c = s.get_char(0);
    if c == '\u{2764}' {
        Reaction::Heart
    } else if c == '\u{1f44d}' {
        Reaction::ThumbsUp
    } else if c == '\u{1f44c}' {
        Reaction::OkHand
    } else if c == '\u{1f62d}' {
        Reaction::Cry
    } else if c == '\u{1f4af}' {
        Reaction::Hundred
    } else if c == '\u{1f373}' {
        Reaction::Cooking
    } else if c == '\u{1f64f}' {
        Reaction::Pray
    } else {
        Reaction::Other
    }
}

proof fn lemma_names_views(v: Seq<String>, x: Seq<char>)
    ensures
        names(v).contains(x) == views(v).contains(x),
{
    if names(v).contains(x) {
        let i = choose|i: int| 0 <= i < v.len() && v[i]@ == x;
        assert(views(v)[i] == x);
    }
    if views(v).contains(x) {
        let i = choose|i: int| 0 <= i < views(v).len() && views(v)[i] == x;
        assert(v[i]@ == x);
    }
}

fn contains_symbol(list: &Vec<String>, e: &String) -> (r: bool)
    ensures
        r == views(list@).contains(e@),
{
    let r = has_user(list, e);
    proof {
        lemma_names_views(list@, e@);
    }
    r
}

fn has_kind_exec(list: &Vec<String>, k: Reaction) -> (r: bool)
    ensures
        r == has_kind(views(list@), k),
{
    let mut i: usize = 0;
    while i < list.len()
        invariant
            0 <= i <= list@.len(),
            forall|j: int| 0 <= j < i ==> reaction_of(#[trigger] views(list@)[j]) != k,
        decreases list@.len() - i,
    {
        if classify(&list[i]) == k {
            assert(reaction_of(views(list@)[i as int]) == k);
            return true;
        }
        i = i + 1;
    }
    false
}

fn apply_add(data: &mut PrData, user: &String, k: Reaction)
    requires
        old(data).wf(),
    ensures
        final(data).wf(),
        final(data)@ == on_add(old(data)@, user@, k),
{
    match k {
        Reaction::Heart => {
            add_user(&mut data.reviewers, user);
        },
        Reaction::ThumbsUp => {
            add_user(&mut data.approvals, user);
        },
        Reaction::OkHand => {
            add_user(&mut data.comments, user);
            remove_user(&mut data.reviewers, user);
        },
        Reaction::Cry => {
            remove_user(&mut data.reviewers, user);
        },
        Reaction::Hundred => {
            data.is_merged = true;
        },
        Reaction::Cooking => {
            data.is_draft = true;
        },
        Reaction::Pray => {
            data.re_review_requested = true;
            data.comments = Vec::new();
            assert(names(data.comments@) =~= Set::empty());
        },
        Reaction::Other => {
            add_user(&mut data.comments, user);
        },
    }
}

fn apply_remove(data: &mut PrData, user: &String, k: Reaction)
    requires
        old(data).wf(),
    ensures
        final(data).wf(),
        final(data)@ == on_remove(old(data)@, user@, k),
{
    match k {
        Reaction::Heart => remove_user(&mut data.reviewers, user),
        Reaction::ThumbsUp => remove_user(&mut data.approvals, user),
        Reaction::OkHand => remove_user(&mut data.comments, user),
        Reaction::Cry => {},
        Reaction::Hundred => {
            data.is_merged = false;
        },
        Reaction::Cooking => {
            data.is_draft = false;
        },
        Reaction::Pray => {
            data.re_review_requested = false;
        },
        Reaction::Other => remove_user(&mut data.comments, user),
    }
}

/// Applies one reaction change of `user` on the tracked message: the symbols
/// that left are taken back first, then the new ones are added, and last a
/// flag whose symbol is gone altogether is turned off.
pub fn apply_reaction(
    data: &mut PrData,
    user: &String,
    old_emojis: &Vec<String>,
    new_emojis: &Vec<String>,
)
    requires
        old(data).wf(),
    ensures
        final(data).wf(),
        final(data)@ == react(old(data)@, user@, views(old_emojis@), views(new_emojis@)),
{
    let ghost d0 = data@;
    let ghost olds = views(old_emojis@);
    let ghost news = views(new_emojis@);
    let mut i: usize = 0;
    while i < old_emojis.len()
        invariant
            0 <= i <= old_emojis@.len(),
            olds == views(old_emojis@),
            news == views(new_emojis@),
            data.wf(),
            data@ == removals(d0, user@, olds.take(i as int), news),
        decreases old_emojis@.len() - i,
    {
        assert(olds.take(i + 1).drop_last() =~= olds.take(i as int));
        assert(olds.take(i + 1).last() == old_emojis@[i as int]@);
        if !contains_symbol(new_emojis, &old_emojis[i]) {
            let k = classify(&old_emojis[i]);
            apply_remove(data, user, k);
        }
        i = i + 1;
    }
    assert(olds.take(olds.len() as int) =~= olds);
    let ghost d1 = data@;
    let mut j: usize = 0;
    while j < new_emojis.len()
        invariant
            0 <= j <= new_emojis@.len(),
            olds == views(old_emojis@),
            news == views(new_emojis@),
            data.wf(),
            data@ == additions(d1, user@, news.take(j as int), olds),
        decreases new_emojis@.len() - j,
    {
        assert(news.take(j + 1).drop_last() =~= news.take(j as int));
        assert(news.take(j + 1).last() == new_emojis@[j as int]@);
        if !contains_symbol(old_emojis, &new_emojis[j]) {
            let k = classify(&new_emojis[j]);
            apply_add(data, user, k);
        }
        j = j + 1;
    }
    assert(news.take(news.len() as int) =~= news);
    if has_kind_exec(old_emojis, Reaction::Hundred) && !has_kind_exec(new_emojis, Reaction::Hundred) {
        data.is_merged = false;
    }
    if has_kind_exec(old_emojis, Reaction::Cooking) && !has_kind_exec(new_emojis, Reaction::Cooking) {
        data.is_draft = false;
    }
    if has_kind_exec(old_emojis, Reaction::Pray) && !has_kind_exec(new_emojis, Reaction::Pray) {
        data.re_review_requested = false;
    }
}

/// Whether taking back a symbol of kind `k` would change anything of `u`
/// in `d`: the set it removes `u` from holds `u`, or the flag it turns off
/// is on.
pub open spec fn touches(d: PrView, u: Seq<char>, k: Reaction) -> bool {
    match k {
        Reaction::Heart => d.reviewers.contains(u),
        Reaction::ThumbsUp => d.approvals.contains(u),
        Reaction::OkHand => d.comments.contains(u),
        Reaction::Cry => false,
        Reaction::Hundred => d.is_merged,
        Reaction::Cooking => d.is_draft,
        Reaction::Pray => d.re_review_requested,
        Reaction::Other => d.comments.contains(u),
    }
}

proof fn lemma_single(d: PrView, u: Seq<char>, e: Seq<char>, others: Seq<Seq<char>>)
    ensures
        removals(d, u, seq![e], others) == (if others.contains(e) { d } else { on_remove(d, u, reaction_of(e)) }),
        additions(d, u, seq![e], others) == (if others.contains(e) { d } else { on_add(d, u, reaction_of(e)) }),
        removals(d, u, seq![], others) == d,
        additions(d, u, seq![], others) == d,
        has_kind(seq![e], reaction_of(e)),
        forall|k: Reaction| has_kind(seq![e], k) ==> k == reaction_of(e),
        forall|k: Reaction| !has_kind(Seq::<Seq<char>>::empty(), k),
{
    assert(seq![e].drop_last() =~= Seq::<Seq<char>>::empty());
    assert(seq![e][0] == e);
    assert(seq![e].last() == e);
    assert(removals(d, u, seq![], others) == d);
    assert(additions(d, u, seq![], others) == d);
}

/// Taking back a symbol that was never added (nothing that its removal
/// would undo is there) leaves the record as it was.
pub proof fn lemma_remove_never_added(d: PrView, u: Seq<char>, e: Seq<char>)
    requires
        !touches(d, u, reaction_of(e)),
    ensures
        react(d, u, seq![e], seq![]) == d,
{
    lemma_single(d, u, e, seq![]);
    let k = reaction_of(e);
    assert(!Seq::<Seq<char>>::empty().contains(e));
    let r = on_remove(d, u, k);
    assert(additions(r, u, seq![], seq![e]) == r) by {
        lemma_single(r, u, e, seq![]);
    }
    assert(d.reviewers.remove(u) =~= d.reviewers || d.reviewers.contains(u));
    assert(d.approvals.remove(u) =~= d.approvals || d.approvals.contains(u));
    assert(d.comments.remove(u) =~= d.comments || d.comments.contains(u));
}

/// Adding a heart a second time changes nothing: the reviewing users form a set.
pub proof fn lemma_heart_idempotent(d: PrView, u: Seq<char>, h: Seq<char>)
    requires
        reaction_of(h) == Reaction::Heart,
    ensures
        react(react(d, u, seq![], seq![h]), u, seq![], seq![h]) == react(d, u, seq![], seq![h]),
{
    let once = react(d, u, seq![], seq![h]);
    lemma_single(d, u, h, seq![]);
    let r0 = removals(d, u, seq![], seq![h]);
    lemma_single(r0, u, h, seq![]);
    assert(!Seq::<Seq<char>>::empty().contains(h));
    let r1 = removals(once, u, seq![], seq![h]);
    lemma_single(once, u, h, seq![]);
    lemma_single(r1, u, h, seq![]);
    assert(once.reviewers.insert(u) =~= once.reviewers);
}

/// Adding an OK hand takes the user out of the reviewing set, whether or not
/// they were in it, and puts them among the commenters.
pub proof fn lemma_ok_hand_leaves_reviewers(d: PrView, u: Seq<char>, e: Seq<char>)
    requires
        reaction_of(e) == Reaction::OkHand,
    ensures
        react(d, u, seq![], seq![e]).reviewers == d.reviewers.remove(u),
        !react(d, u, seq![], seq![e]).reviewers.contains(u),
        react(d, u, seq![], seq![e]).comments.contains(u),
{
    lemma_single(d, u, e, seq![]);
    assert(!Seq::<Seq<char>>::empty().contains(e));
}

/// Adding folded hands, whatever was held before, ends with no commenters
/// and a re-review requested.
pub proof fn lemma_pray_requests_rereview(d: PrView, u: Seq<char>, olds: Seq<Seq<char>>, e: Seq<char>)
    requires
        reaction_of(e) == Reaction::Pray,
        !olds.contains(e),
    ensures
        react(d, u, olds, seq![e]).comments == Set::<Seq<char>>::empty(),
        react(d, u, olds, seq![e]).re_review_requested,
{
    let r = removals(d, u, olds, seq![e]);
    lemma_single(r, u, e, olds);
}

} // verus!
