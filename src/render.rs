use vstd::prelude::*;
use crate::record::PrData;
use crate::reaction::views;

verus! {

/// `items` joined with `sep` between each two.
pub open spec fn join(items: Seq<Seq<char>>, sep: Seq<char>) -> Seq<char>
    decreases items.len(),
{
    if items.len() == 0 {
        Seq::empty()
    } else if items.len() == 1 {
        items[0]
    } else {
        join(items.drop_last(), sep) + sep + items.last()
    }
}

/// A labelled line listing users, or nothing when there are none.
pub open spec fn list_line(label: Seq<char>, v: Seq<String>) -> Seq<char> {
    if v.len() == 0 {
        Seq::empty()
    } else {
        label + join(views(v), ", "@) + "\n"@
    }
}

/// The status line: merged wins over draft.
pub open spec fn status_line(d: PrData) -> Seq<char> {
    if d.is_merged {
        "<b>Status:</b> \u{1f4af} MERGED\n\n"@
    } else if d.is_draft {
        "<b>Status:</b> \u{1f373} Draft/WIP\n\n"@
    } else {
        Seq::empty()
    }
}

pub open spec fn rereview_line(d: PrData) -> Seq<char> {
    if d.re_review_requested {
        "\u{1f64f} <b>Re-review Requested!</b>\n\n"@
    } else {
        Seq::empty()
    }
}

/// The HTML text of the tracked message for `d`.
pub open spec fn message_text(d: PrData) -> Seq<char> {
    "<b>PR:</b> <a href=\""@ + d.pr_url@ + "\">"@ + d.title@ + "</a>\n"@
        + "<b>Author:</b> "@ + d.author@ + "\n"@
        + "<b>Repo:</b> "@ + d.repo@ + "\n\n"@
        + status_line(d) + rereview_line(d)
        + list_line("\u{2764}\u{fe0f} <b>Reviewing:</b> "@, d.reviewers@)
        + list_line("\u{1f44d} <b>Approved:</b> "@, d.approvals@)
        + list_line("\u{1f527} <b>Changes requested:</b> "@, d.changes_requested@)
        + list_line("\u{1f44c} <b>Comments:</b> "@, d.comments@)
}

fn append_list(out: &mut String, label: &str, v: &Vec<String>)
    ensures
        final(out)@ == old(out)@ + list_line(label@, v@),
{
    if v.len() == 0 {
        assert(old(out)@ + list_line(label@, v@) =~= old(out)@);
        return;
    }
    let ghost start = out@;
    out.append(label);
    out.append(v[0].as_str());
    let ghost vs = views(v@);
    assert(vs.take(1).drop_last() =~= Seq::<Seq<char>>::empty());
    assert(join(vs.take(1), ", "@) == vs[0]);
    let mut i: usize = 1;
    while i < v.len()
        invariant
            1 <= i <= v@.len(),
            vs == views(v@),
            out@ == start + label@ + join(vs.take(i as int), ", "@),
        decreases v@.len() - i,
    {
        out.append(", ");
        out.append(v[i].as_str());
        assert(vs.take(i + 1).drop_last() =~= vs.take(i as int));
        assert(vs.take(i + 1).last() == v@[i as int]@);
        assert(out@ =~= start + label@ + join(vs.take(i + 1), ", "@));
        i = i + 1;
    }
    assert(vs.take(v@.len() as int) =~= vs);
    out.append("\n");
    assert(out@ =~= start + list_line(label@, v@));
}

/// Renders the tracked message for a record: link and title, author,
/// repository, status, re-review request, and the participant lists.
pub fn generate_message_text(data: &PrData) -> (r: String)
    ensures
        r@ == message_text(*data),
{
    let mut t = String::new();
    t.append("<b>PR:</b> <a href=\"");
    t.append(data.pr_url.as_str());
    t.append("\">");
    t.append(data.title.as_str());
    t.append("</a>\n");
    t.append("<b>Author:</b> ");
    t.append(data.author.as_str());
    t.append("\n");
    t.append("<b>Repo:</b> ");
    t.append(data.repo.as_str());
    t.append("\n\n");
    if data.is_merged {
        t.append("<b>Status:</b> \u{1f4af} MERGED\n\n");
    } else if data.is_draft {
        t.append("<b>Status:</b> \u{1f373} Draft/WIP\n\n");
    }
    if data.re_review_requested {
        t.append("\u{1f64f} <b>Re-review Requested!</b>\n\n");
    }
    append_list(&mut t, "\u{2764}\u{fe0f} <b>Reviewing:</b> ", &data.reviewers);
    append_list(&mut t, "\u{1f44d} <b>Approved:</b> ", &data.approvals);
    append_list(&mut t, "\u{1f527} <b>Changes requested:</b> ", &data.changes_requested);
    append_list(&mut t, "\u{1f44c} <b>Comments:</b> ", &data.comments);
    assert(t@ =~= message_text(*data));
    t
}

} // verus!
