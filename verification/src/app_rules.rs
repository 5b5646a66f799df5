//! The rows of the view as the viewport resolver gives them: with visibility rules that
//! let exactly the shown lines through and the application's expansions, the resolver's
//! rows are the view's rows.
use vstd::prelude::*;
use crate::app::{
    below, file_enabled, line_shown, pinned, row_flags_upto, rows_upto, trues, visible_flags, visible_lines, App,
};
use crate::file_manager::FileFilterRule;
use crate::filter::FilterRule;
use crate::log::LogLine;
use crate::marking::MarkOnlyVisibilityRule;
use crate::resolver::{
    expansion_rows, line_visible, resolved_rows, rule_tags, Tag, TagRule, ViewportResolver, VisibilityRule,
};
use crate::time_filter::TimeFilter;

verus! {

/// The log index of each row.
pub open spec fn row_lines(rows: Seq<(usize, Set<Tag>)>) -> Seq<usize> {
    rows.map_values(|r: (usize, Set<Tag>)| r.0)
}

/// Whether each row is tagged as added by an expansion.
pub open spec fn row_expanded(rows: Seq<(usize, Set<Tag>)>) -> Seq<bool> {
    rows.map_values(|r: (usize, Set<Tag>)| r.1.contains(Tag::Expanded))
}

/// No tag rule tags a line as added by an expansion.
pub open spec fn no_expanded_tags(tag_rules: Seq<Box<dyn TagRule>>) -> bool {
    forall|i: int, l: LogLine| 0 <= i < tag_rules.len() ==> #[trigger] tag_rules[i].tag_of(l) != Some(Tag::Expanded)
}

/// The rows an expansion adds show the expanded indices that lie within the log, each
/// tagged as expanded.
pub proof fn lemma_expansion_rows(tag_rules: Seq<Box<dyn TagRule>>, expanded: Seq<usize>, all: Seq<LogLine>)
    ensures
        row_lines(expansion_rows(tag_rules, expanded, all)) == below(expanded, all.len()),
        row_expanded(expansion_rows(tag_rules, expanded, all)) == trues(below(expanded, all.len()).len()),
    decreases expanded.len(),
{
    if expanded.len() > 0 {
        lemma_expansion_rows(tag_rules, expanded.drop_last(), all);
        let rest = expansion_rows(tag_rules, expanded.drop_last(), all);
        let l = expanded.last();
        if l < all.len() {
            let r = (l, rule_tags(tag_rules, all[l as int]).insert(Tag::Expanded));
            assert(row_lines(rest.push(r)) =~= row_lines(rest).push(l));
            let k = below(expanded.drop_last(), all.len()).len();
            assert(below(expanded, all.len()) == below(expanded.drop_last(), all.len()).push(l));
            assert(r.1.contains(Tag::Expanded));
            assert(row_expanded(rest.push(r)) =~= row_expanded(rest).push(true));
            assert(trues(k + 1) =~= trues(k).push(true));
        }
    } else {
        assert(row_lines(expansion_rows(tag_rules, expanded, all)) =~= below(expanded, all.len()));
        assert(row_expanded(expansion_rows(tag_rules, expanded, all)) =~= trues(0));
    }
}

/// With visibility rules that let through exactly the lines the application shows, and
/// the application's expansions, the resolver's rows show the view's rows, in order; when
/// no tag rule tags a line as expanded, a row is tagged as expanded exactly when an
/// expansion added it.
pub proof fn lemma_rows_are_resolved(
    app: App,
    vis_rules: Seq<Box<dyn VisibilityRule>>,
    tag_rules: Seq<Box<dyn TagRule>>,
    lines: Seq<LogLine>,
    n: nat,
)
    requires
        n <= lines.len(),
        lines.len() <= usize::MAX,
        forall|l: LogLine| #[trigger] line_shown(app, l) == line_visible(vis_rules, l),
    ensures
        row_lines(resolved_rows(vis_rules, tag_rules, app.expansion@, lines, n)) == rows_upto(app, lines, n),
        no_expanded_tags(tag_rules) ==> row_expanded(resolved_rows(vis_rules, tag_rules, app.expansion@, lines, n))
            == row_flags_upto(app, lines, n),
    decreases n,
{
    let rows = resolved_rows(vis_rules, tag_rules, app.expansion@, lines, n);
    if n == 0 {
        assert(row_lines(rows) =~= rows_upto(app, lines, n));
        assert(row_expanded(rows) =~= row_flags_upto(app, lines, n));
    } else {
        lemma_rows_are_resolved(app, vis_rules, tag_rules, lines, (n - 1) as nat);
        let prev = resolved_rows(vis_rules, tag_rules, app.expansion@, lines, (n - 1) as nat);
        let i = (n - 1) as usize;
        let l = lines[i as int];
        assert(line_shown(app, l) == line_visible(vis_rules, l));
        if line_visible(vis_rules, l) {
            let own = prev.push((i, rule_tags(tag_rules, l)));
            assert(row_lines(own) =~= row_lines(prev).push(i));
            assert(no_expanded_tags(tag_rules) ==> !rule_tags(tag_rules, l).contains(Tag::Expanded)) by {
                if no_expanded_tags(tag_rules) && rule_tags(tag_rules, l).contains(Tag::Expanded) {
                    let k = choose|k: int| 0 <= k < tag_rules.len() && #[trigger] tag_rules[k].tag_of(l) == Some(Tag::Expanded);
                    assert(tag_rules[k].tag_of(l) != Some(Tag::Expanded));
                }
            }
            assert(no_expanded_tags(tag_rules) ==> row_expanded(own) =~= row_expanded(prev).push(false));
            if app.expansion@.contains_key(i) {
                let ex = expansion_rows(tag_rules, app.expansion@[i], lines);
                lemma_expansion_rows(tag_rules, app.expansion@[i], lines);
                assert(row_lines(own + ex) =~= row_lines(own) + row_lines(ex));
                assert(row_expanded(own + ex) =~= row_expanded(own) + row_expanded(ex));
            }
        }
    }
}

/// A resolver whose visibility rules let through exactly the lines the application shows,
/// and which expands the lines the application expands, gives the view's rows for the
/// application's log; with no tag rule tagging a line as expanded, its expanded tags are
/// the view's flags.
pub proof fn lemma_view_is_resolved(app: App, r: ViewportResolver)
    requires
        app.log_buffer.lines().len() <= usize::MAX,
        r.expanded() == app.expansion@,
        forall|l: LogLine| #[trigger] line_shown(app, l) == line_visible(r.vis_rules(), l),
    ensures
        row_lines(r.resolve(app.log_buffer.lines())) == visible_lines(app),
        no_expanded_tags(r.tag_rules()) ==> row_expanded(r.resolve(app.log_buffer.lines())) == visible_flags(app),
{
    let lines = app.log_buffer.lines();
    lemma_rows_are_resolved(app, r.vis_rules(), r.tag_rules(), lines, lines.len());
}

/// A line is shown exactly when the rules built from the application let it through: the
/// file rule (with several files), the filter rule, the time filter when one is set, and
/// the marked-only rule when only marked lines are shown.
pub proof fn lemma_shown_by_rules(
    app: App,
    files: FileFilterRule,
    filters: FilterRule,
    marked: MarkOnlyVisibilityRule,
    l: LogLine,
)
    requires
        forall|id: usize| #[trigger] files.enabled_ids().contains(id) == file_enabled(app.file_manager, id),
        filters.filters() == app.filter.patterns(),
        filters.pinned().contains(l.index) == pinned(app, l),
        marked.marked() == app.marking@.dom(),
    ensures
        line_shown(app, l) == {
            &&& (app.file_manager.entries().len() > 1 ==> files.accepts(l))
            &&& filters.accepts(l)
            &&& (app.time_filter matches Some(tf) ==> tf.accepts(l))
            &&& (app.show_marked_lines_only ==> marked.accepts(l))
        },
{
    match l.log_file_id {
        Some(id) => {
            assert(files.enabled_ids().contains(id) == file_enabled(app.file_manager, id));
        },
        None => {},
    }
}

} // verus!
