//! Window rules, applied once when a window is created.

use vstd::prelude::*;
use crate::config::WindowRule;
use crate::text::str_eq;

verus! {

/// What the rules say of a new window.
pub struct RuleOutcome {
    pub workspace: Option<u32>,
    pub floating: Option<bool>,
    pub css_class: Option<String>,
}

/// The first workspace assignment among the rules whose `app_id` is exactly `app`.
pub open spec fn first_workspace(rules: Seq<WindowRule>, app: Seq<char>) -> Option<u32>
    decreases rules.len(),
{
    if rules.len() == 0 {
        None
    } else {
        let earlier = first_workspace(rules.drop_last(), app);
        if earlier is Some {
            earlier
        } else if rules.last().app_id@ == app {
            rules.last().workspace
        } else {
            None
        }
    }
}

/// The first floating override among the rules whose `app_id` is exactly `app`.
pub open spec fn first_floating(rules: Seq<WindowRule>, app: Seq<char>) -> Option<bool>
    decreases rules.len(),
{
    if rules.len() == 0 {
        None
    } else {
        let earlier = first_floating(rules.drop_last(), app);
        if earlier is Some {
            earlier
        } else if rules.last().app_id@ == app {
            rules.last().floating
        } else {
            None
        }
    }
}

/// The first css class among the rules whose `app_id` is exactly `app`.
pub open spec fn first_class(rules: Seq<WindowRule>, app: Seq<char>) -> Option<Seq<char>>
    decreases rules.len(),
{
    if rules.len() == 0 {
        None
    } else {
        let earlier = first_class(rules.drop_last(), app);
        if earlier is Some {
            earlier
        } else if rules.last().app_id@ == app {
            match rules.last().css_class {
                Some(c) => Some(c@),
                None => None,
            }
        } else {
            None
        }
    }
}

pub open spec fn class_view(c: Option<String>) -> Option<Seq<char>> {
    match c {
        Some(s) => Some(s@),
        None => None,
    }
}

/// Scans the rules in order and keeps, independently, the first workspace
/// assignment, floating override and css class of those matching `app_id`.
pub fn resolve_rules(rules: &[WindowRule], app_id: &str) -> (r: RuleOutcome)
    ensures
        r.workspace == first_workspace(rules@, app_id@),
        r.floating == first_floating(rules@, app_id@),
        class_view(r.css_class) == first_class(rules@, app_id@),
{
    let mut workspace: Option<u32> = None;
    let mut floating: Option<bool> = None;
    let mut css_class: Option<String> = None;
    let mut i: usize = 0;
    while i < rules.len()
        invariant
            0 <= i <= rules@.len(),
            workspace == first_workspace(rules@.subrange(0, i as int), app_id@),
            floating == first_floating(rules@.subrange(0, i as int), app_id@),
            class_view(css_class) == first_class(rules@.subrange(0, i as int), app_id@),
        decreases rules@.len() - i,
    {
        proof {
            assert(rules@.subrange(0, i + 1).drop_last() =~= rules@.subrange(0, i as int));
        }
        let rule = &rules[i];
        if str_eq(rule.app_id.as_str(), app_id) {
            if workspace.is_none() {
                workspace = rule.workspace;
            }
            if floating.is_none() {
                floating = rule.floating;
            }
            if css_class.is_none() {
                css_class = match &rule.css_class {
                    Some(c) => Some(c.clone()),
                    None => None,
                };
            }
        }
        i = i + 1;
    }
    proof { assert(rules@.subrange(0, rules@.len() as int) =~= rules@); }
    RuleOutcome { workspace, floating, css_class }
}

} // verus!
