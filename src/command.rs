use vstd::prelude::*;
use crate::record::{PrData, PrView, names, add_user, remove_user};
use crate::text::{starts_with, contains_text, contains_seq};

verus! {

/// A text command, given as a reply to a tracked message.
#[derive(Clone, Copy, Debug, PartialEq, Eq, Structural)]
pub enum Command {
    /// `/upgrade`: take over the link in the message replied to.
    Upgrade,
    /// `/help` or `/start`.
    Help,
    /// `/addressed` or `/rereview`: request a re-review.
    ReReview,
    /// `/review`: join the users reviewing the item.
    Review,
    /// `/approve`.
    Approve,
    /// `/comment`.
    Comment,
    /// `/giveup`: stop reviewing the item.
    GiveUp,
    /// `/merge`.
    Merge,
    /// `/draft`: toggle the draft flag.
    Draft,
}

/// The command that a message text starts with, if any.
pub open spec fn command_of(t: Seq<char>) -> Option<Command> {
    if "/upgrade"@.is_prefix_of(t) {
        Some(Command::Upgrade)
    } else if "/help"@.is_prefix_of(t) || "/start"@.is_prefix_of(t) {
        Some(Command::Help)
    } else if "/addressed"@.is_prefix_of(t) || "/rereview"@.is_prefix_of(t) {
        Some(Command::ReReview)
    } else if "/review"@.is_prefix_of(t) {
        Some(Command::Review)
    } else if "/approve"@.is_prefix_of(t) {
        Some(Command::Approve)
    } else if "/comment"@.is_prefix_of(t) {
        Some(Command::Comment)
    } else if "/giveup"@.is_prefix_of(t) {
        Some(Command::GiveUp)
    } else if "/merge"@.is_prefix_of(t) {
        Some(Command::Merge)
    } else if "/draft"@.is_prefix_of(t) {
        Some(Command::Draft)
    } else {
        None
    }
}

/// Reads the command that `text` starts with.
pub fn parse_command(text: &str) -> (r: Option<Command>)
    ensures
        r == command_of(text@),
{
    if starts_with(text, "/upgrade") {
        Some(Command::Upgrade)
    } else if starts_with(text, "/help") || starts_with(text, "/start") {
        Some(Command::Help)
    } else if starts_with(text, "/addressed") || starts_with(text, "/rereview") {
        Some(Command::ReReview)
    } else if starts_with(text, "/review") {
        Some(Command::Review)
    } else if starts_with(text, "/approve") {
        Some(Command::Approve)
    } else if starts_with(text, "/comment") {
        Some(Command::Comment)
    } else if starts_with(text, "/giveup") {
        Some(Command::GiveUp)
    } else if starts_with(text, "/merge") {
        Some(Command::Merge)
    } else if starts_with(text, "/draft") {
        Some(Command::Draft)
    } else {
        None
    }
}

/// The record with a re-review requested: the flag set, the commenters cleared.
pub open spec fn rereview(d: PrView) -> PrView {
    PrView { re_review_requested: true, comments: Set::empty(), ..d }
}

/// The record after `u` issues `c`.
pub open spec fn command_effect(d: PrView, u: Seq<char>, c: Command) -> PrView {
    match c {
        Command::ReReview => rereview(d),
        Command::Review => PrView { reviewers: d.reviewers.insert(u), ..d },
        Command::Approve => PrView { approvals: d.approvals.insert(u), ..d },
        Command::Comment => PrView { comments: d.comments.insert(u), ..d },
        Command::GiveUp => PrView { reviewers: d.reviewers.remove(u), ..d },
        Command::Merge => PrView { is_merged: true, ..d },
        Command::Draft => PrView { is_draft: !d.is_draft, ..d },
        Command::Upgrade | Command::Help => d,
    }
}

/// Whether `c` from `u` counts as a change: an add only when the user was
/// not there yet, the toggle and the unconditional sets always.
pub open spec fn command_changes(d: PrView, u: Seq<char>, c: Command) -> bool {
    match c {
        Command::Review => !d.reviewers.contains(u),
        Command::Approve => !d.approvals.contains(u),
        Command::Comment => !d.comments.contains(u),
        Command::Upgrade | Command::Help => false,
        _ => true,
    }
}

/// Requests a re-review: sets the flag and clears the commenters.
pub fn request_rereview(data: &mut PrData)
    requires
        old(data).wf(),
    ensures
        final(data).wf(),
        final(data)@ == rereview(old(data)@),
{
    data.re_review_requested = true;
    data.comments = Vec::new();
    assert(names(data.comments@) =~= Set::empty());
}

/// Applies the command `cmd` of `user`; returns whether the record changed.
pub fn apply_command(data: &mut PrData, user: &String, cmd: Command) -> (changed: bool)
    requires
        old(data).wf(),
    ensures
        final(data).wf(),
        changed == command_changes(old(data)@, user@, cmd),
        final(data)@ == command_effect(old(data)@, user@, cmd),
{
    match cmd {
        Command::ReReview => {
            request_rereview(data);
            true
        },
        Command::Review => add_user(&mut data.reviewers, user),
        Command::Approve => add_user(&mut data.approvals, user),
        Command::Comment => add_user(&mut data.comments, user),
        Command::GiveUp => {
            remove_user(&mut data.reviewers, user);
            true
        },
        Command::Merge => {
            data.is_merged = true;
            true
        },
        Command::Draft => {
            data.is_draft = !data.is_draft;
            true
        },
        Command::Upgrade | Command::Help => false,
    }
}

/// A reply text that looks like it carries a link.
pub open spec fn link_like(t: Seq<char>) -> bool {
    contains_seq(t, "http"@) || contains_seq(t, "github.com"@)
}

/// Whether a reply text looks like it carries a link.
pub fn mentions_link(text: &str) -> (r: bool)
    ensures
        r == link_like(text@),
{
    contains_text(text, "http") || contains_text(text, "github.com")
}

/// What to do with the tracked message after a reply to it.
#[derive(Clone, Copy, Debug, PartialEq, Eq, Structural)]
pub enum ReplyAction {
    /// Nothing changed.
    Ignore,
    /// A command changed the record: store it, edit the message, and delete
    /// the command message.
    UpdateAndDeleteCommand,
    /// A link in the reply requested a re-review: store and edit.
    Update,
}

/// The outcome of a reply with text `t` from `u` to a message tracking `d`.
pub open spec fn reply_outcome(d: PrView, u: Seq<char>, t: Seq<char>) -> (PrView, ReplyAction) {
    let c = command_of(t);
    if c is Some && (c->0 == Command::Upgrade || c->0 == Command::Help) {
        (d, ReplyAction::Ignore)
    } else if c is Some && command_changes(d, u, c->0) {
        (command_effect(d, u, c->0), ReplyAction::UpdateAndDeleteCommand)
    } else if link_like(t) {
        (rereview(d), ReplyAction::Update)
    } else {
        (d, ReplyAction::Ignore)
    }
}

/// Applies a reply of `user` with `text` to the tracked record: a command
/// that changes something is applied; otherwise a reply that looks like it
/// carries a link requests a re-review.
pub fn apply_reply(data: &mut PrData, user: &String, text: &str) -> (r: ReplyAction)
    requires
        old(data).wf(),
    ensures
        final(data).wf(),
        (final(data)@, r) == reply_outcome(old(data)@, user@, text@),
{
    let ghost d0 = data@;
    let cmd = parse_command(text);
    match cmd {
        Some(Command::Upgrade) | Some(Command::Help) => {
            return ReplyAction::Ignore;
        },
        Some(c) => {
            if apply_command(data, user, c) {
                return ReplyAction::UpdateAndDeleteCommand;
            }
            proof {
                assert(d0.reviewers.contains(user@) ==> d0.reviewers.insert(user@) =~= d0.reviewers);
                assert(d0.approvals.contains(user@) ==> d0.approvals.insert(user@) =~= d0.approvals);
                assert(d0.comments.contains(user@) ==> d0.comments.insert(user@) =~= d0.comments);
            }
        },
        None => {},
    }
    if mentions_link(text) {
        request_rereview(data);
        ReplyAction::Update
    } else {
        ReplyAction::Ignore
    }
}

} // verus!
