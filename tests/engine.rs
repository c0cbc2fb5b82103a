use pr_monitor::command::{apply_command, apply_reply, mentions_link, parse_command, request_rereview, Command, ReplyAction};
use pr_monitor::config::{is_listed, parse_repo_list};
use pr_monitor::discovery::{fresh_record, is_new_since, plan_discovery, RemoteItem};
use pr_monitor::link::{extract_pr_info, parse_u64, pr_info_from_captures, PR_LINK_PATTERN};
use pr_monitor::reaction::{apply_reaction, classify, Reaction};
use pr_monitor::reconcile::{
    latest_review_states, reconcile, same_members, should_retire, sweep_item, RemoteStatus, Review,
    ReviewSets, ReviewState,
};
use pr_monitor::record::{add_user, has_user, remove_user, PrData};
use pr_monitor::render::generate_message_text;
use pr_monitor::store::{
    from_pr_message, group_rows, participant_rows, participation_name, participation_of, repo_full_name,
    seen_key, split_repo, to_pr_message, Participation, SeenKeys,
};
use pr_monitor::text::{contains_text, starts_with};

const HEART: &str = "\u{2764}";
const THUMBS_UP: &str = "\u{1f44d}";
const OK_HAND: &str = "\u{1f44c}";
const CRY: &str = "\u{1f62d}";
const HUNDRED: &str = "\u{1f4af}";
const COOKING: &str = "\u{1f373}";
const PRAY: &str = "\u{1f64f}";

fn s(x: &str) -> String {
    x.to_string()
}

fn list(xs: &[&str]) -> Vec<String> {
    xs.iter().map(|x| x.to_string()).collect()
}

fn record() -> PrData {
    PrData {
        pr_url: s("https://github.com/acme/widgets/pull/42"),
        title: s("Fix bug"),
        author: s("alice"),
        repo: s("acme/widgets"),
        pr_number: 42,
        reviewers: vec![],
        approvals: vec![],
        changes_requested: vec![],
        comments: vec![],
        is_merged: false,
        is_draft: false,
        re_review_requested: false,
        chat_id: -100,
    }
}

fn sorted(v: &[String]) -> Vec<String> {
    let mut v = v.to_vec();
    v.sort();
    v
}

fn item(number: u64, created_at: Option<i64>) -> RemoteItem {
    RemoteItem {
        number,
        title: Some(s("Fix bug")),
        author: Some(s("alice")),
        url: Some(format!("https://github.com/acme/widgets/pull/{}", number)),
        created_at,
        is_merged: false,
        is_draft: false,
        is_closed: false,
    }
}

fn review(user: &str, state: ReviewState) -> Review {
    Review { user: Some(s(user)), state: Some(state) }
}

// ---- reactions ----

#[test]
fn heart_removed_leaves_other_sets() {
    let mut d = record();
    d.reviewers = list(&["carol", "dave"]);
    d.approvals = list(&["carol"]);
    d.comments = list(&["erin"]);
    apply_reaction(&mut d, &s("carol"), &list(&[HEART]), &vec![]);
    assert_eq!(d.reviewers, list(&["dave"]));
    assert_eq!(d.approvals, list(&["carol"]));
    assert_eq!(d.comments, list(&["erin"]));
}

#[test]
fn heart_twice_same_as_once() {
    let mut d = record();
    apply_reaction(&mut d, &s("bob"), &vec![], &list(&[HEART]));
    apply_reaction(&mut d, &s("bob"), &vec![], &list(&[HEART]));
    assert_eq!(d.reviewers, list(&["bob"]));
}

#[test]
fn ok_hand_removes_from_reviewers_even_if_absent() {
    let mut d = record();
    d.reviewers = list(&["dave"]);
    apply_reaction(&mut d, &s("bob"), &vec![], &list(&[OK_HAND]));
    assert_eq!(d.reviewers, list(&["dave"]));
    assert_eq!(d.comments, list(&["bob"]));
    apply_reaction(&mut d, &s("dave"), &vec![], &list(&[OK_HAND]));
    assert!(d.reviewers.is_empty());
    assert_eq!(sorted(&d.comments), list(&["bob", "dave"]));
}

#[test]
fn pray_clears_comments_and_requests_rereview() {
    let mut d = record();
    d.comments = list(&["bob", "carol"]);
    apply_reaction(&mut d, &s("alice"), &list(&[THUMBS_UP]), &list(&[THUMBS_UP, PRAY]));
    assert!(d.comments.is_empty());
    assert!(d.re_review_requested);
}

#[test]
fn pray_removed_turns_flag_off() {
    let mut d = record();
    d.re_review_requested = true;
    apply_reaction(&mut d, &s("alice"), &list(&[PRAY]), &vec![]);
    assert!(!d.re_review_requested);
}

#[test]
fn removing_never_added_symbol_changes_nothing() {
    let mut d = record();
    d.reviewers = list(&["dave"]);
    d.approvals = list(&["erin"]);
    d.comments = list(&["frank"]);
    for sym in [HEART, THUMBS_UP, OK_HAND, CRY, HUNDRED, COOKING, PRAY, "\u{1f525}"] {
        let mut e = d.clone();
        apply_reaction(&mut e, &s("bob"), &list(&[sym]), &vec![]);
        assert_eq!(e.reviewers, d.reviewers);
        assert_eq!(e.approvals, d.approvals);
        assert_eq!(e.comments, d.comments);
        assert_eq!(e.is_merged, d.is_merged);
        assert_eq!(e.is_draft, d.is_draft);
        assert_eq!(e.re_review_requested, d.re_review_requested);
    }
}

#[test]
fn thumbs_up_add_and_remove() {
    let mut d = record();
    apply_reaction(&mut d, &s("bob"), &vec![], &list(&[THUMBS_UP]));
    assert_eq!(d.approvals, list(&["bob"]));
    apply_reaction(&mut d, &s("bob"), &list(&[THUMBS_UP]), &vec![]);
    assert!(d.approvals.is_empty());
}

#[test]
fn cry_leaves_reviewers_and_its_removal_does_nothing() {
    let mut d = record();
    d.reviewers = list(&["bob"]);
    apply_reaction(&mut d, &s("bob"), &list(&[HEART]), &list(&[HEART, CRY]));
    assert!(d.reviewers.is_empty());
    apply_reaction(&mut d, &s("bob"), &list(&[CRY]), &vec![]);
    assert!(d.reviewers.is_empty());
}

#[test]
fn hundred_and_cooking_flags() {
    let mut d = record();
    apply_reaction(&mut d, &s("bob"), &vec![], &list(&[HUNDRED, COOKING]));
    assert!(d.is_merged);
    assert!(d.is_draft);
    apply_reaction(&mut d, &s("bob"), &list(&[HUNDRED, COOKING]), &list(&[COOKING]));
    assert!(!d.is_merged);
    assert!(d.is_draft);
}

#[test]
fn other_symbol_is_a_comment() {
    let mut d = record();
    apply_reaction(&mut d, &s("bob"), &vec![], &list(&["\u{1f525}"]));
    assert_eq!(d.comments, list(&["bob"]));
    apply_reaction(&mut d, &s("bob"), &list(&["\u{1f525}"]), &vec![]);
    assert!(d.comments.is_empty());
}

#[test]
fn heart_with_variation_selector_classifies() {
    assert_eq!(classify(&s("\u{2764}\u{fe0f}")), Reaction::Heart);
    assert_eq!(classify(&s(OK_HAND)), Reaction::OkHand);
    assert_eq!(classify(&s("")), Reaction::Other);
    assert_eq!(classify(&s("x")), Reaction::Other);
}

// ---- commands ----

#[test]
fn commands_parse() {
    assert_eq!(parse_command("/upgrade"), Some(Command::Upgrade));
    assert_eq!(parse_command("/help me"), Some(Command::Help));
    assert_eq!(parse_command("/start"), Some(Command::Help));
    assert_eq!(parse_command("/addressed"), Some(Command::ReReview));
    assert_eq!(parse_command("/rereview"), Some(Command::ReReview));
    assert_eq!(parse_command("/review"), Some(Command::Review));
    assert_eq!(parse_command("/approve"), Some(Command::Approve));
    assert_eq!(parse_command("/comment"), Some(Command::Comment));
    assert_eq!(parse_command("/giveup"), Some(Command::GiveUp));
    assert_eq!(parse_command("/merge"), Some(Command::Merge));
    assert_eq!(parse_command("/draft"), Some(Command::Draft));
    assert_eq!(parse_command("review"), None);
    assert_eq!(parse_command(""), None);
}

#[test]
fn add_commands_report_change_once() {
    let mut d = record();
    assert!(apply_command(&mut d, &s("bob"), Command::Review));
    assert!(!apply_command(&mut d, &s("bob"), Command::Review));
    assert!(apply_command(&mut d, &s("bob"), Command::Approve));
    assert!(!apply_command(&mut d, &s("bob"), Command::Approve));
    assert!(apply_command(&mut d, &s("bob"), Command::Comment));
    assert!(!apply_command(&mut d, &s("bob"), Command::Comment));
    assert_eq!(d.reviewers, list(&["bob"]));
    assert_eq!(d.approvals, list(&["bob"]));
    assert_eq!(d.comments, list(&["bob"]));
}

#[test]
fn unconditional_commands_always_change() {
    let mut d = record();
    assert!(apply_command(&mut d, &s("bob"), Command::GiveUp));
    assert!(apply_command(&mut d, &s("bob"), Command::Merge));
    assert!(d.is_merged);
    assert!(apply_command(&mut d, &s("bob"), Command::Draft));
    assert!(d.is_draft);
    assert!(apply_command(&mut d, &s("bob"), Command::Draft));
    assert!(!d.is_draft);
    d.comments = list(&["carol"]);
    assert!(apply_command(&mut d, &s("bob"), Command::ReReview));
    assert!(d.comments.is_empty());
    assert!(d.re_review_requested);
    assert!(!apply_command(&mut d, &s("bob"), Command::Help));
}

#[test]
fn reply_with_link_requests_rereview() {
    let mut d = record();
    d.comments = list(&["carol"]);
    let r = apply_reply(&mut d, &s("alice"), "fixed in https://example.org/diff");
    assert_eq!(r, ReplyAction::Update);
    assert!(d.re_review_requested);
    assert!(d.comments.is_empty());
}

#[test]
fn reply_command_then_plain_text() {
    let mut d = record();
    assert_eq!(apply_reply(&mut d, &s("bob"), "/review"), ReplyAction::UpdateAndDeleteCommand);
    assert_eq!(apply_reply(&mut d, &s("bob"), "/review"), ReplyAction::Ignore);
    assert_eq!(apply_reply(&mut d, &s("bob"), "/review see github.com"), ReplyAction::Update);
    assert_eq!(apply_reply(&mut d, &s("bob"), "thanks"), ReplyAction::Ignore);
    assert_eq!(apply_reply(&mut d, &s("bob"), "/help http"), ReplyAction::Ignore);
    assert_eq!(d.reviewers, list(&["bob"]));
}

#[test]
fn link_detection() {
    assert!(mentions_link("see http://x"));
    assert!(mentions_link("github.com/acme"));
    assert!(!mentions_link("no link here"));
    assert!(!mentions_link(""));
    let mut d = record();
    d.comments = list(&["x"]);
    request_rereview(&mut d);
    assert!(d.comments.is_empty() && d.re_review_requested);
}

#[test]
fn text_search() {
    assert!(starts_with("/review now", "/review"));
    assert!(!starts_with("/rev", "/review"));
    assert!(starts_with("abc", ""));
    assert!(contains_text("abcdef", "cde"));
    assert!(contains_text("abc", ""));
    assert!(!contains_text("abc", "abcd"));
    assert!(contains_text("\u{1f44d}x", "x"));
}

// ---- participant lists ----

#[test]
fn participant_list_operations() {
    let mut v = list(&["a", "b", "c"]);
    assert!(!add_user(&mut v, &s("b")));
    assert!(add_user(&mut v, &s("d")));
    remove_user(&mut v, &s("b"));
    assert_eq!(v, list(&["a", "c", "d"]));
    assert!(has_user(&v, &s("d")));
    assert!(!has_user(&v, &s("b")));
}

// ---- link extraction ----

#[test]
fn extracts_pr_link() {
    let r = extract_pr_info("please look at https://github.com/acme/widgets/pull/42 thanks");
    assert_eq!(r, Some((s("acme"), s("widgets"), 42)));
    assert_eq!(extract_pr_info("https://github.com/acme/widgets/issues/42"), None);
    assert_eq!(extract_pr_info("nothing"), None);
    assert_eq!(extract_pr_info("github.com/a/b/pull/99999999999999999999"), None);
}

#[test]
fn captures_to_pr_info() {
    let caps = Some(vec![Some(s("whole")), Some(s("o")), Some(s("r")), Some(s("7"))]);
    assert_eq!(pr_info_from_captures(caps), Some((s("o"), s("r"), 7)));
    assert_eq!(pr_info_from_captures(Some(vec![Some(s("whole")), Some(s("o"))])), None);
    assert_eq!(pr_info_from_captures(Some(vec![Some(s("w")), None, Some(s("r")), Some(s("7"))])), None);
    assert_eq!(pr_info_from_captures(None), None);
    assert!(PR_LINK_PATTERN.contains("pull"));
}

#[test]
fn parses_decimal_numbers() {
    assert_eq!(parse_u64("0"), Some(0));
    assert_eq!(parse_u64("042"), Some(42));
    assert_eq!(parse_u64("18446744073709551615"), Some(u64::MAX));
    assert_eq!(parse_u64("18446744073709551616"), None);
    assert_eq!(parse_u64("12a"), None);
    assert_eq!(parse_u64("+1"), None);
    assert_eq!(parse_u64(""), None);
}

// ---- store ----

#[test]
fn seen_key_format() {
    assert_eq!(seen_key("acme/widgets", 42), "acme/widgets#42");
    assert_eq!(seen_key("a/b", 0), "a/b#0");
    assert_eq!(seen_key("a/b", u64::MAX), "a/b#18446744073709551615");
}

#[test]
fn should_surface_once_after_mark() {
    let mut seen = SeenKeys::new();
    let k = s("acme/widgets#42");
    assert!(seen.should_surface(&k));
    seen.mark_seen(&k);
    for _ in 0..3 {
        assert!(!seen.should_surface(&k));
    }
    seen.mark_seen(&k);
    seen.mark_seen(&s("acme/widgets#43"));
    assert!(!seen.should_surface(&k));
    assert!(seen.has_seen(&s("acme/widgets#43")));
    assert!(seen.should_surface(&s("acme/widgets#44")));
}

#[test]
fn splits_repository() {
    assert_eq!(split_repo("acme/widgets"), Some((s("acme"), s("widgets"))));
    assert_eq!(split_repo("acme"), None);
    assert_eq!(split_repo("a/b/c"), None);
    assert_eq!(split_repo("/x"), Some((s(""), s("x"))));
    assert_eq!(repo_full_name("acme", "widgets"), "acme/widgets");
}

#[test]
fn stored_message_round_trip() {
    let mut d = record();
    d.reviewers = list(&["bob"]);
    d.comments = list(&["carol", "dave"]);
    d.is_draft = true;
    let m = to_pr_message(&s("17"), &d).unwrap();
    assert_eq!(m.repo_owner, "acme");
    assert_eq!(m.repo_name, "widgets");
    assert_eq!(m.pr_number, 42);
    assert_eq!(m.message_id, "17");
    let rows = participant_rows(&d);
    assert_eq!(rows.len(), 3);
    let lists = group_rows(&rows);
    let back = from_pr_message(&m, lists).unwrap();
    assert_eq!(back.repo, "acme/widgets");
    assert_eq!(back.reviewers, d.reviewers);
    assert_eq!(back.comments, d.comments);
    assert!(back.approvals.is_empty());
    assert!(back.is_draft);
    assert_eq!(back.chat_id, -100);
}

#[test]
fn stored_message_rejections() {
    let mut d = record();
    d.repo = s("widgets");
    assert!(to_pr_message(&s("1"), &d).is_none());
    let mut d = record();
    d.pr_number = u64::MAX;
    assert!(to_pr_message(&s("1"), &d).is_none());
    let mut m = to_pr_message(&s("1"), &record()).unwrap();
    m.pr_number = -1;
    let lists = group_rows(&vec![]);
    assert!(from_pr_message(&m, lists).is_none());
}

#[test]
fn participation_names() {
    for p in [Participation::Reviewer, Participation::Approval, Participation::ChangeRequest, Participation::Comment] {
        assert_eq!(participation_of(&s(participation_name(p))), Some(p));
    }
    assert_eq!(participation_name(Participation::Approval), "approval");
    assert_eq!(participation_of(&s("emoji")), None);
    let rows = vec![(s("a"), Participation::Reviewer), (s("a"), Participation::Reviewer), (s("b"), Participation::ChangeRequest)];
    let g = group_rows(&rows);
    assert_eq!(g.reviewers, list(&["a"]));
    assert_eq!(g.changes_requested, list(&["b"]));
}

// ---- reconciliation ----

#[test]
fn latest_annotation_wins() {
    let rs = vec![review("A", ReviewState::Commented), review("A", ReviewState::Approved)];
    let sets = latest_review_states(&rs);
    assert_eq!(sets.approvals, list(&["A"]));
    assert!(sets.comments.is_empty());
    assert!(sets.changes_requested.is_empty());
}

#[test]
fn projection_drops_other_states_and_incomplete() {
    let rs = vec![
        review("A", ReviewState::Approved),
        review("A", ReviewState::Dismissed),
        review("B", ReviewState::ChangesRequested),
        Review { user: None, state: Some(ReviewState::Approved) },
        Review { user: Some(s("B")), state: None },
        review("C", ReviewState::Commented),
        review("D", ReviewState::Pending),
    ];
    let sets = latest_review_states(&rs);
    assert!(sets.approvals.is_empty());
    assert_eq!(sets.changes_requested, list(&["B"]));
    assert_eq!(sets.comments, list(&["C"]));
}

#[test]
fn sweep_adds_approval_and_edits_once() {
    let mut d = record();
    let status = RemoteStatus { is_closed: false, is_merged: false, is_draft: false };
    let rs = vec![review("bob", ReviewState::Approved)];
    let plan = sweep_item(&mut d, &status, &rs);
    assert!(plan.edit);
    assert!(!plan.retire);
    assert_eq!(d.approvals, list(&["bob"]));
    let again = sweep_item(&mut d, &status, &rs);
    assert!(!again.edit);
}

#[test]
fn sweep_retires_closed_item_even_with_edit() {
    let mut d = record();
    let status = RemoteStatus { is_closed: true, is_merged: false, is_draft: true };
    let plan = sweep_item(&mut d, &status, &vec![review("bob", ReviewState::Approved)]);
    assert!(plan.edit);
    assert!(plan.retire);
    let mut e = record();
    let plan = sweep_item(&mut e, &RemoteStatus { is_closed: false, is_merged: true, is_draft: false }, &vec![]);
    assert!(!plan.edit);
    assert!(plan.retire);
}

#[test]
fn reconcile_is_order_independent() {
    let mut d = record();
    d.approvals = list(&["b", "a"]);
    let sets = ReviewSets { approvals: list(&["a", "b"]), changes_requested: vec![], comments: vec![] };
    assert!(!reconcile(&mut d, false, sets));
    let sets = ReviewSets { approvals: list(&["a"]), changes_requested: vec![], comments: vec![] };
    assert!(reconcile(&mut d, false, sets));
    assert_eq!(d.approvals, list(&["a"]));
    let sets = ReviewSets { approvals: list(&["a"]), changes_requested: vec![], comments: vec![] };
    assert!(reconcile(&mut d, true, sets));
    assert!(d.is_draft);
    assert!(same_members(&list(&["x", "y"]), &list(&["y", "x"])));
    assert!(!same_members(&list(&["x"]), &list(&["x", "y"])));
    assert!(should_retire(&RemoteStatus { is_closed: true, is_merged: false, is_draft: false }));
    assert!(!should_retire(&RemoteStatus { is_closed: false, is_merged: false, is_draft: false }));
}

// ---- discovery ----

#[test]
fn discovery_posts_new_item_once() {
    let items = vec![item(42, Some(1_000))];
    let mut seen = SeenKeys::new();
    let first = plan_discovery(&items, 500, &mut seen, "acme", "widgets", -100);
    assert_eq!(first.len(), 1);
    assert_eq!(first[0].key, "acme/widgets#42");
    assert_eq!(first[0].record.title, "Fix bug");
    assert_eq!(first[0].record.author, "alice");
    assert_eq!(first[0].record.repo, "acme/widgets");
    assert!(first[0].record.reviewers.is_empty());
    assert!(seen.has_seen(&s("acme/widgets#42")));
    let second = plan_discovery(&items, 500, &mut seen, "acme", "widgets", -100);
    assert!(second.is_empty());
}

#[test]
fn discovery_skips_old_and_duplicate_items() {
    let items = vec![item(1, Some(100)), item(2, None), item(3, Some(600)), item(3, Some(700))];
    let mut seen = SeenKeys::new();
    let out = plan_discovery(&items, 500, &mut seen, "acme", "widgets", 1);
    assert_eq!(out.len(), 1);
    assert_eq!(out[0].record.pr_number, 3);
    assert!(is_new_since(&items[2], 500));
    assert!(!is_new_since(&items[1], 0));
}

#[test]
fn fresh_record_defaults() {
    let it = RemoteItem {
        number: 5,
        title: None,
        author: None,
        url: None,
        created_at: None,
        is_merged: true,
        is_draft: true,
        is_closed: false,
    };
    let d = fresh_record("o", "r", &it, 9);
    assert_eq!(d.author, "unknown");
    assert_eq!(d.title, "");
    assert_eq!(d.pr_url, "");
    assert!(d.is_merged && d.is_draft && !d.re_review_requested);
    assert_eq!(d.chat_id, 9);
}

// ---- config ----

#[test]
fn repo_list_parsing() {
    let r = parse_repo_list("acme/widgets,bad,a/b/c,/x,y/,org/tool");
    assert_eq!(r, vec![(s("acme"), s("widgets")), (s("org"), s("tool"))]);
    assert!(parse_repo_list("").is_empty());
    assert!(is_listed(&r, &s("org"), &s("tool")));
    assert!(!is_listed(&r, &s("org"), &s("widgets")));
}

// ---- rendering ----

#[test]
fn message_text_rendering() {
    let mut d = record();
    d.reviewers = list(&["bob", "carol"]);
    d.is_draft = true;
    d.re_review_requested = true;
    let t = generate_message_text(&d);
    assert_eq!(
        t,
        "<b>PR:</b> <a href=\"https://github.com/acme/widgets/pull/42\">Fix bug</a>\n\
         <b>Author:</b> alice\n\
         <b>Repo:</b> acme/widgets\n\n\
         <b>Status:</b> \u{1f373} Draft/WIP\n\n\
         \u{1f64f} <b>Re-review Requested!</b>\n\n\
         \u{2764}\u{fe0f} <b>Reviewing:</b> bob, carol\n"
    );
    d.is_merged = true;
    d.re_review_requested = false;
    d.reviewers = vec![];
    d.approvals = list(&["dave"]);
    let t = generate_message_text(&d);
    assert!(t.contains("MERGED"));
    assert!(!t.contains("Draft"));
    assert!(t.ends_with("\u{1f44d} <b>Approved:</b> dave\n"));
}
