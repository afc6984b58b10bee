use vstd::prelude::*;

use crate::models::{Todo, TodoListFilter, TodoToggleAction};
use crate::repository::{lists_exactly, newest_first, toggled, updated, TodoRepo, TodoRepoError};

verus! {

/// What one visitor's page shows besides the tasks: the filter last chosen,
/// the action that the bulk toggle control offers next, and the tasks.
#[derive(Debug)]
pub struct AppState {
    pub selected_filter: TodoListFilter,
    pub toggle_action: TodoToggleAction,
    pub todo_repo: TodoRepo,
}

/// The counters and the state of the two bulk controls, as a page fragment
/// shows them after a request.
#[derive(Debug, Clone, Copy, PartialEq, Eq, Structural)]
pub struct Summary {
    pub num_completed_items: u32,
    pub num_active_items: u32,
    pub num_all_items: u32,
    pub is_disabled_delete: bool,
    pub is_disabled_toggle: bool,
    pub action: TodoToggleAction,
}

/// A listing of tasks together with the summary.
#[derive(Debug)]
pub struct TodoListView {
    pub items: Vec<Todo>,
    pub summary: Summary,
}

/// One changed task, where the selected filter lets it show, together with
/// the summary.
#[derive(Debug)]
pub struct TodoItemView {
    pub item: Option<Todo>,
    pub summary: Summary,
}

/// The summary of `s`: the counters, the delete control disabled when nothing
/// is completed, the toggle control disabled when there are no tasks.
pub open spec fn summary_of(s: AppState) -> Summary {
    Summary {
        num_completed_items: s.todo_repo.num_completed_items,
        num_active_items: s.todo_repo.num_active_items,
        num_all_items: s.todo_repo.num_all_items,
        is_disabled_delete: s.todo_repo.num_completed_items == 0,
        is_disabled_toggle: s.todo_repo.num_all_items == 0,
        action: s.toggle_action,
    }
}

/// The action that the toggle control offers after `action` was applied.
pub open spec fn opposite(action: TodoToggleAction) -> TodoToggleAction {
    match action {
        TodoToggleAction::Uncheck => TodoToggleAction::Check,
        TodoToggleAction::Check => TodoToggleAction::Uncheck,
    }
}

impl Default for AppState {
    /// All tasks shown, the toggle control offering `Check`, no tasks.
    fn default() -> (r: Self)
        ensures
            r.selected_filter == TodoListFilter::All,
            r.toggle_action == TodoToggleAction::Check,
            r.todo_repo@ == Map::<u128, Todo>::empty(),
            r.todo_repo.num_completed_items == 0,
            r.todo_repo.num_active_items == 0,
            r.todo_repo.num_all_items == 0,
            r.todo_repo.counters_agree(),
    {
        AppState {
            selected_filter: TodoListFilter::All,
            toggle_action: TodoToggleAction::Check,
            todo_repo: TodoRepo::default(),
        }
    }
}

impl View for AppState {
    type V = (TodoListFilter, TodoToggleAction, Map<u128, Todo>, u32, u32, u32);

    open spec fn view(&self) -> Self::V {
        (
            self.selected_filter,
            self.toggle_action,
            self.todo_repo@,
            self.todo_repo.num_completed_items,
            self.todo_repo.num_active_items,
            self.todo_repo.num_all_items,
        )
    }
}

impl AppState {
    fn summary(&self) -> (r: Summary)
        ensures
            r == summary_of(*self),
    {
        Summary {
            num_completed_items: self.todo_repo.num_completed_items,
            num_active_items: self.todo_repo.num_active_items,
            num_all_items: self.todo_repo.num_all_items,
            is_disabled_delete: self.todo_repo.num_completed_items == 0,
            is_disabled_toggle: self.todo_repo.num_all_items == 0,
            action: self.toggle_action,
        }
    }

    /// Applies an update to the task stored under `id` (see
    /// `TodoRepo::update`). The toggle control then offers `Uncheck` where
    /// the completed counter has reached the total, else `Check`; the changed
    /// task shows where the selected filter admits it.
    pub fn update_todo(&mut self, id: &u128, text: Option<String>, is_completed: Option<bool>) -> (r:
        Result<TodoItemView, TodoRepoError>)
        requires
            old(self).todo_repo@.contains_key(*id) ==> match is_completed {
                Some(true) => old(self).todo_repo.num_completed_items < u32::MAX
                    && old(self).todo_repo.num_active_items > 0,
                Some(false) => old(self).todo_repo.num_completed_items > 0
                    && old(self).todo_repo.num_active_items < u32::MAX,
                None => true,
            },
        ensures
            final(self).selected_filter == old(self).selected_filter,
            !old(self).todo_repo@.contains_key(*id) ==> {
                &&& r == Err::<TodoItemView, TodoRepoError>(TodoRepoError::NotFound)
                &&& final(self)@ == old(self)@
            },
            old(self).todo_repo@.contains_key(*id) ==> {
                let t = updated(old(self).todo_repo@[*id], text, is_completed);
                let repo = final(self).todo_repo;
                &&& r is Ok
                &&& repo@ == old(self).todo_repo@.insert(*id, t)
                &&& repo.num_all_items == old(self).todo_repo.num_all_items
                &&& repo.num_completed_items == match is_completed {
                    Some(true) => old(self).todo_repo.num_completed_items + 1,
                    Some(false) => old(self).todo_repo.num_completed_items - 1,
                    None => old(self).todo_repo.num_completed_items as int,
                }
                &&& repo.num_active_items == match is_completed {
                    Some(true) => old(self).todo_repo.num_active_items - 1,
                    Some(false) => old(self).todo_repo.num_active_items + 1,
                    None => old(self).todo_repo.num_active_items as int,
                }
                &&& final(self).toggle_action == (if repo.num_completed_items
                    == repo.num_all_items {
                    TodoToggleAction::Uncheck
                } else {
                    TodoToggleAction::Check
                })
                &&& r->Ok_0.item == (if old(self).selected_filter.admits(t.is_completed) {
                    Some(t)
                } else {
                    None
                })
                &&& r->Ok_0.summary == summary_of(*final(self))
            },
    {
        let item = match self.todo_repo.update(id, text, is_completed) {
            Ok(item) => item,
            Err(e) => {
                return Err(e);
            },
        };
        self.toggle_action =
            if self.todo_repo.num_completed_items == self.todo_repo.num_all_items {
            TodoToggleAction::Uncheck
        } else {
            TodoToggleAction::Check
        };
        let item = if self.selected_filter.matches(&item) {
            Some(item)
        } else {
            None
        };
        Ok(TodoItemView { item, summary: self.summary() })
    }

    /// Removes the task stored under `id` (see `TodoRepo::delete`). The
    /// toggle control then offers `Check` where no task is left, else
    /// `Uncheck`.
    pub fn delete_todo(&mut self, id: &u128) -> (r: Result<Summary, TodoRepoError>)
        requires
            old(self).todo_repo@.contains_key(*id) ==> {
                &&& old(self).todo_repo.num_all_items > 0
                &&& old(self).todo_repo@[*id].is_completed
                    ==> old(self).todo_repo.num_completed_items > 0
                &&& !old(self).todo_repo@[*id].is_completed
                    ==> old(self).todo_repo.num_active_items > 0
            },
        ensures
            final(self).selected_filter == old(self).selected_filter,
            !old(self).todo_repo@.contains_key(*id) ==> {
                &&& r == Err::<Summary, TodoRepoError>(TodoRepoError::NotFound)
                &&& final(self)@ == old(self)@
            },
            old(self).todo_repo@.contains_key(*id) ==> {
                let was_completed = old(self).todo_repo@[*id].is_completed;
                let repo = final(self).todo_repo;
                &&& repo@ == old(self).todo_repo@.remove(*id)
                &&& repo.num_all_items == old(self).todo_repo.num_all_items - 1
                &&& repo.num_completed_items == old(self).todo_repo.num_completed_items - (
                if was_completed {
                    1int
                } else {
                    0int
                })
                &&& repo.num_active_items == old(self).todo_repo.num_active_items - (
                if was_completed {
                    0int
                } else {
                    1int
                })
                &&& final(self).toggle_action == (if repo.num_all_items == 0 {
                    TodoToggleAction::Check
                } else {
                    TodoToggleAction::Uncheck
                })
                &&& r == Ok::<Summary, TodoRepoError>(summary_of(*final(self)))
            },
            old(self).todo_repo.counters_agree() ==> final(self).todo_repo.counters_agree(),
    {
        match self.todo_repo.delete(id) {
            Ok(()) => {},
            Err(e) => {
                return Err(e);
            },
        }
        self.toggle_action = if self.todo_repo.num_all_items == 0 {
            TodoToggleAction::Check
        } else {
            TodoToggleAction::Uncheck
        };
        Ok(self.summary())
    }

    /// Adds a task holding `text` (see `TodoRepo::create`); the toggle control
    /// then offers `Check`. The new task shows unless the selected filter is
    /// `Completed`.
    pub fn create_todo(&mut self, text: &str) -> (r: TodoItemView)
        requires
            old(self).todo_repo.num_all_items < u32::MAX,
            old(self).todo_repo.num_active_items < u32::MAX,
        ensures
            final(self).selected_filter == old(self).selected_filter,
            final(self).toggle_action == TodoToggleAction::Check,
            exists|t: Todo|
                {
                    &&& t.text@ == text@
                    &&& !t.is_completed
                    &&& final(self).todo_repo@ == old(self).todo_repo@.insert(t.id, t)
                    &&& r.item == (if old(self).selected_filter == TodoListFilter::Completed {
                        None
                    } else {
                        Some(t)
                    })
                },
            final(self).todo_repo.num_all_items == old(self).todo_repo.num_all_items + 1,
            final(self).todo_repo.num_active_items == old(self).todo_repo.num_active_items + 1,
            final(self).todo_repo.num_completed_items == old(self).todo_repo.num_completed_items,
            r.summary == summary_of(*final(self)),
            !r.summary.is_disabled_toggle,
    {
        let item = self.todo_repo.create(text);
        let item = if self.selected_filter == TodoListFilter::Completed {
            None
        } else {
            Some(item)
        };
        self.toggle_action = TodoToggleAction::Check;
        TodoItemView { item, summary: self.summary() }
    }

    /// Gives every task the flag of `action` (see `TodoRepo::toggle_completed`);
    /// the toggle control then offers the other action. Lists the tasks that
    /// the selected filter admits.
    pub fn toggle_completed_todos(&mut self, action: TodoToggleAction) -> (r: TodoListView)
        ensures
            final(self).selected_filter == old(self).selected_filter,
            final(self).toggle_action == opposite(action),
            toggled(old(self).todo_repo, action, final(self).todo_repo),
            old(self).todo_repo.counters_agree() ==> final(self).todo_repo.counters_agree(),
            lists_exactly(final(self).todo_repo@, final(self).selected_filter, r.items@),
            newest_first(r.items@),
            r.summary == summary_of(*final(self)),
    {
        self.toggle_action = match action {
            TodoToggleAction::Uncheck => TodoToggleAction::Check,
            TodoToggleAction::Check => TodoToggleAction::Uncheck,
        };
        self.todo_repo.toggle_completed(&action);
        let items = self.todo_repo.list(&self.selected_filter);
        TodoListView { items, summary: self.summary() }
    }

    /// Removes every completed task (see `TodoRepo::delete_completed`); the
    /// toggle control then offers `Check` and the delete control is disabled.
    /// Lists the tasks that the selected filter admits.
    pub fn delete_completed_todos(&mut self) -> (r: TodoListView)
        requires
            old(self).todo_repo.num_completed_items <= old(self).todo_repo.num_all_items,
        ensures
            final(self).selected_filter == old(self).selected_filter,
            final(self).toggle_action == TodoToggleAction::Check,
            final(self).todo_repo@ == old(self).todo_repo@.restrict(
                crate::repository::keys_with(old(self).todo_repo@, false),
            ),
            final(self).todo_repo.num_all_items == old(self).todo_repo.num_all_items
                - old(self).todo_repo.num_completed_items,
            final(self).todo_repo.num_completed_items == 0,
            final(self).todo_repo.num_active_items == old(self).todo_repo.num_active_items,
            old(self).todo_repo.counters_agree() ==> final(self).todo_repo.counters_agree(),
            lists_exactly(final(self).todo_repo@, final(self).selected_filter, r.items@),
            newest_first(r.items@),
            r.summary == summary_of(*final(self)),
            r.summary.is_disabled_delete,
    {
        self.toggle_action = TodoToggleAction::Check;
        self.todo_repo.delete_completed();
        let items = self.todo_repo.list(&self.selected_filter);
        TodoListView { items, summary: self.summary() }
    }

    /// Selects `filter` and lists the tasks that it admits.
    pub fn list_todos(&mut self, filter: TodoListFilter) -> (r: TodoListView)
        ensures
            final(self).selected_filter == filter,
            final(self).toggle_action == old(self).toggle_action,
            final(self).todo_repo == old(self).todo_repo,
            lists_exactly(final(self).todo_repo@, filter, r.items@),
            newest_first(r.items@),
            r.summary == summary_of(*final(self)),
    {
        self.selected_filter = filter;
        let items = self.todo_repo.list(&filter);
        TodoListView { items, summary: self.summary() }
    }
}

} // verus!
