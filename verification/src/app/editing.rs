//! Editing the search and add-project fields, and entering and leaving
//! search mode.
use crate::app::filters::{indices_len, lemma_matchers_ready};
use crate::app::moves::{edge_row, jumped};
use crate::app::{
    ci_refiltered, projects_refiltered, targets_refiltered, targets_refreshed, App, Focus,
    TextInput,
};
use tui_input::{Input, InputRequest};
use vstd::prelude::*;

verus! {

/// An edit of a one-line text field.
#[derive(Debug, Clone, Copy, PartialEq, Eq, Structural)]
pub enum EditRequest {
    InsertChar(char),
    DeletePrevChar,
    DeleteNextChar,
    DeletePrevWord,
    GoToPrevChar,
    GoToNextChar,
    GoToStart,
    GoToEnd,
}

/// Text and cursor of a field holding `value` with the cursor at `cursor`
/// after `request`, as tui-input edits it.
pub uninterp spec fn edited(value: Seq<char>, cursor: nat, request: EditRequest) -> (Seq<char>, nat);

/// `Input::handle` of tui-input, on a field made by `Input::new(value)` and
/// `with_cursor(cursor)`: the edited text and cursor. The edit works on
/// grapheme clusters and words as tui-input defines them; its outcome is named
/// by `edited` and nothing more is stated of it.
#[verifier::external_body]
fn input_handle(value: &String, cursor: usize, request: EditRequest) -> (r: (String, usize))
    ensures
        (r.0@, r.1 as nat) == edited(value@, cursor as nat, request),
{
    let mut input = Input::new(value.clone()).with_cursor(cursor);
    let request = match request {
        EditRequest::InsertChar(c) => InputRequest::InsertChar(c),
        EditRequest::DeletePrevChar => InputRequest::DeletePrevChar,
        EditRequest::DeleteNextChar => InputRequest::DeleteNextChar,
        EditRequest::DeletePrevWord => InputRequest::DeletePrevWord,
        EditRequest::GoToPrevChar => InputRequest::GoToPrevChar,
        EditRequest::GoToNextChar => InputRequest::GoToNextChar,
        EditRequest::GoToStart => InputRequest::GoToStart,
        EditRequest::GoToEnd => InputRequest::GoToEnd,
    };
    input.handle(request);
    (input.value().to_string(), input.cursor())
}

impl TextInput {
    /// Applies an edit (see `edited`).
    pub fn handle(&mut self, request: EditRequest)
        ensures
            (final(self).value@, final(self).cursor as nat) == edited(
                old(self).value@,
                old(self).cursor as nat,
                request,
            ),
    {
        let (value, cursor) = input_handle(&self.value, self.cursor, request);
        self.value = value;
        self.cursor = cursor;
    }

    /// Empties the field.
    pub fn reset(&mut self)
        ensures
            final(self).value@ == Seq::<char>::empty(),
            final(self).cursor == 0,
    {
        self.value = String::new();
        self.cursor = 0;
    }
}

/// A field after `request`.
pub open spec fn field_edited(pre: TextInput, post: TextInput, request: EditRequest) -> bool {
    (post.value@, post.cursor as nat) == edited(pre.value@, pre.cursor as nat, request)
}

/// An empty field.
pub open spec fn field_empty(f: TextInput) -> bool {
    f.value@.len() == 0 && f.cursor == 0
}

/// After an edit of the focused pane's search field: the query follows the
/// field and the pane's list is filtered anew; the running pane has no field.
pub open spec fn filter_edited(pre: App, post: App, request: EditRequest) -> bool {
    match pre.focus {
        Focus::Projects => {
            &&& field_edited(pre.project_input, post.project_input, request)
            &&& post.project_query@ == post.project_input.value@
            &&& projects_refiltered(
                App { project_input: post.project_input, project_query: post.project_query, ..pre },
                post,
            )
        },
        Focus::RunningTargets => post == pre,
        Focus::CiRuns => {
            &&& field_edited(pre.ci_input, post.ci_input, request)
            &&& post.ci_query@ == post.ci_input.value@
            &&& ci_refiltered(App { ci_input: post.ci_input, ci_query: post.ci_query, ..pre }, post)
        },
        Focus::Targets => {
            &&& field_edited(pre.target_input, post.target_input, request)
            &&& post.target_query@ == post.target_input.value@
            &&& targets_refiltered(
                App { target_input: post.target_input, target_query: post.target_query, ..pre },
                post,
            )
        },
    }
}

/// After search mode was left keeping the query: like a jump to the top of
/// the focused pane.
pub open spec fn filter_confirmed(pre: App, post: App) -> bool {
    jumped(App { filter_mode: false, ..pre }, post, true)
}

/// After search mode was left dropping the focused pane's query: the field
/// and query are emptied and the list filtered anew; the project cursor
/// goes to the top and the targets are refreshed; leaving a target search
/// also puts the target cursor on top and the focus back on projects.
pub open spec fn filter_cancelled(pre: App, post: App) -> bool {
    let pre1 = App { filter_mode: false, ..pre };
    match pre.focus {
        Focus::Projects => exists|m: App|
            #[trigger] projects_refiltered(
                App { project_input: m.project_input, project_query: m.project_query, ..pre1 },
                m,
            ) && field_empty(m.project_input) && m.project_query@.len() == 0 && targets_refreshed(
                App { cursor: edge_row(m.filtered_projects@.len(), true) as isize, ..m },
                post,
            ),
        Focus::RunningTargets => post == pre1,
        Focus::CiRuns => {
            &&& field_empty(post.ci_input)
            &&& post.ci_query@.len() == 0
            &&& ci_refiltered(App { ci_input: post.ci_input, ci_query: post.ci_query, ..pre1 }, post)
        },
        Focus::Targets => exists|m: App|
            #[trigger] targets_refiltered(
                App { target_input: m.target_input, target_query: m.target_query, ..pre1 },
                m,
            ) && field_empty(m.target_input) && m.target_query@.len() == 0 && post == (App {
                target_cursor: edge_row(m.filtered_targets@.len(), true) as isize,
                focus: Focus::Projects,
                ..m
            }),
    }
}

/// After the project search was dropped: field and query emptied, the
/// projects filtered anew and the project cursor put on top.
pub open spec fn project_search_cleared(pre: App, post: App) -> bool {
    exists|m: App|
        #[trigger] projects_refiltered(
            App { project_input: m.project_input, project_query: m.project_query, ..pre },
            m,
        ) && field_empty(m.project_input) && m.project_query@.len() == 0 && post == (App {
            cursor: edge_row(m.filtered_projects@.len(), true) as isize,
            ..m
        })
}

/// After the CI search was dropped: field and query emptied and the CI runs
/// filtered anew.
pub open spec fn ci_search_cleared(pre: App, post: App) -> bool {
    &&& field_empty(post.ci_input)
    &&& post.ci_query@.len() == 0
    &&& ci_refiltered(App { ci_input: post.ci_input, ci_query: post.ci_query, ..pre }, post)
}

/// After the target search was dropped: field and query emptied, the
/// targets filtered anew and the target cursor put on top.
pub open spec fn target_search_cleared(pre: App, post: App) -> bool {
    exists|m: App|
        #[trigger] targets_refiltered(
            App { target_input: m.target_input, target_query: m.target_query, ..pre },
            m,
        ) && field_empty(m.target_input) && m.target_query@.len() == 0 && post == (App {
            target_cursor: edge_row(m.filtered_targets@.len(), true) as isize,
            ..m
        })
}

/// After every search was dropped: the project, CI and target searches in
/// turn, then the CI cursor put on top and the targets of the now selected
/// project refreshed.
pub open spec fn filters_cleared(pre: App, post: App) -> bool {
    exists|a: App, b: App, c: App|
        #![trigger project_search_cleared(pre, a), ci_search_cleared(a, b), target_search_cleared(b, c)]
        project_search_cleared(pre, a) && ci_search_cleared(a, b) && target_search_cleared(b, c)
            && targets_refreshed(
            App { ci_cursor: edge_row(c.filtered_ci_runs@.len(), true) as isize, ..c },
            post,
        )
}

proof fn lemma_refiltered_keeps_search(pre: App, post: App)
    requires
        projects_refiltered(pre, post),
    ensures
        post.project_input == pre.project_input,
        post.project_query == pre.project_query,
{
}

impl App {
    /// Applies an edit to the focused pane's search field and filters its
    /// list with the new query.
    pub fn apply_filter_request(&mut self, request: EditRequest)
        requires
            old(self).matchers_ok(),
        ensures
            final(self).matchers_ok(),
            filter_edited(*old(self), *final(self), request),
    {
        proof {
            lemma_matchers_ready(*self);
        }
        match self.focus {
            Focus::Projects => {
                self.project_input.handle(request);
                self.project_query = self.project_input.value.clone();
                self.update_project_filter();
            },
            Focus::RunningTargets => {},
            Focus::CiRuns => {
                self.ci_input.handle(request);
                self.ci_query = self.ci_input.value.clone();
                self.update_ci_filter();
            },
            Focus::Targets => {
                self.target_input.handle(request);
                self.target_query = self.target_input.value.clone();
                self.update_target_filter();
            },
        }
    }

    /// Leaves search mode keeping the query; the focused pane's cursor goes
    /// to its first row.
    pub fn confirm_filter_mode(&mut self)
        requires
            old(self).matchers_ok(),
        ensures
            final(self).matchers_ok(),
            filter_confirmed(*old(self), *final(self)),
    {
        self.filter_mode = false;
        self.go_to_top();
    }

    /// Leaves search mode dropping the focused pane's query (see
    /// `filter_cancelled`).
    pub fn cancel_filter_mode(&mut self)
        requires
            old(self).matchers_ok(),
        ensures
            final(self).matchers_ok(),
            filter_cancelled(*old(self), *final(self)),
    {
        match self.focus {
            Focus::Projects => self.cancel_project_search_mode(),
            Focus::RunningTargets => {
                self.filter_mode = false;
            },
            Focus::CiRuns => {
                self.filter_mode = false;
                self.clear_ci_search();
            },
            Focus::Targets => self.cancel_target_search_mode(),
        }
    }

    fn cancel_project_search_mode(&mut self)
        requires
            old(self).matchers_ok(),
            old(self).focus == Focus::Projects,
        ensures
            final(self).matchers_ok(),
            filter_cancelled(*old(self), *final(self)),
    {
        self.filter_mode = false;
        let m = self.clear_project_search();
        self.refresh_targets();
        assert(projects_refiltered(
            App { project_input: m@.project_input, project_query: m@.project_query, ..App { filter_mode: false, ..*old(self) } },
            m@,
        ));
    }

    fn cancel_target_search_mode(&mut self)
        requires
            old(self).matchers_ok(),
            old(self).focus == Focus::Targets,
        ensures
            final(self).matchers_ok(),
            filter_cancelled(*old(self), *final(self)),
    {
        self.filter_mode = false;
        let ghost pre1 = *self;
        self.clear_target_search();
        let ghost mid = *self;
        self.focus = Focus::Projects;
        proof {
            let m = choose|m: App|
                #[trigger] targets_refiltered(
                    App { target_input: m.target_input, target_query: m.target_query, ..pre1 },
                    m,
                ) && field_empty(m.target_input) && m.target_query@.len() == 0 && mid == (App {
                    target_cursor: edge_row(m.filtered_targets@.len(), true) as isize,
                    ..m
                });
            assert(targets_refiltered(
                App { target_input: m.target_input, target_query: m.target_query, ..pre1 },
                m,
            ));
        }
    }

    #[verifier::spinoff_prover]
    fn clear_project_search(&mut self) -> (m: Ghost<App>)
        requires
            old(self).matchers_ok(),
        ensures
            final(self).matchers_ok(),
            project_search_cleared(*old(self), *final(self)),
            projects_refiltered(
                App { project_input: m@.project_input, project_query: m@.project_query, ..*old(self) },
                m@,
            ),
            field_empty(m@.project_input),
            m@.project_query@.len() == 0,
            *final(self) == (App { cursor: edge_row(m@.filtered_projects@.len(), true) as isize, ..m@ }),
    {
        proof {
            lemma_matchers_ready(*self);
        }
        self.project_input.reset();
        self.project_query = String::new();
        let ghost pre1 = *self;
        self.update_project_filter();
        let ghost m = *self;
        proof {
            lemma_refiltered_keeps_search(pre1, m);
            assert(pre1 == App { project_input: m.project_input, project_query: m.project_query, ..*old(self) });
        }
        let len = indices_len(&self.filtered_projects);
        self.cursor = if len == 0 {
            -1
        } else {
            0
        };
        Ghost(m)
    }

    fn clear_ci_search(&mut self)
        ensures
            ci_search_cleared(*old(self), *final(self)),
    {
        self.ci_input.reset();
        self.ci_query = String::new();
        self.update_ci_filter();
    }

    fn clear_target_search(&mut self)
        requires
            old(self).matchers_ok(),
        ensures
            final(self).matchers_ok(),
            target_search_cleared(*old(self), *final(self)),
    {
        proof {
            lemma_matchers_ready(*self);
        }
        self.target_input.reset();
        self.target_query = String::new();
        self.update_target_filter();
        let ghost m = *self;
        let len = indices_len(&self.filtered_targets);
        self.target_cursor = if len == 0 {
            -1
        } else {
            0
        };
        assert(targets_refiltered(
            App { target_input: m.target_input, target_query: m.target_query, ..*old(self) },
            m,
        ));
    }

    /// Drops every search (see `filters_cleared`).
    pub fn clear_all_filters(&mut self)
        requires
            old(self).matchers_ok(),
        ensures
            final(self).matchers_ok(),
            filters_cleared(*old(self), *final(self)),
    {
        self.clear_project_search();
        let ghost a = *self;
        self.clear_ci_search();
        let ghost b = *self;
        self.clear_target_search();
        let ghost c = *self;
        let clen = indices_len(&self.filtered_ci_runs);
        self.ci_cursor = if clen == 0 {
            -1
        } else {
            0
        };
        self.refresh_targets();
        assert(project_search_cleared(*old(self), a) && ci_search_cleared(a, b) && target_search_cleared(b, c));
    }
}

} // verus!
