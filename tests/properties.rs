use todomvc::models::{Todo, TodoListFilter, TodoToggleAction};
use todomvc::repository::{TodoRepo, TodoRepoError};
use uuid::Uuid;

fn texts(todos: &[Todo]) -> Vec<String> {
    todos.iter().map(|t| t.text.clone()).collect()
}

fn assert_counters_match(repo: &TodoRepo) {
    let all = repo.list(&TodoListFilter::All).len() as u32;
    let active = repo.list(&TodoListFilter::Active).len() as u32;
    let completed = repo.list(&TodoListFilter::Completed).len() as u32;
    assert_eq!(repo.num_all_items, all);
    assert_eq!(repo.num_active_items, active);
    assert_eq!(repo.num_completed_items, completed);
    assert_eq!(repo.num_active_items + repo.num_completed_items, repo.num_all_items);
    assert_eq!(repo.items.len() as u32, repo.num_all_items);
}

#[test]
fn end_to_end_create_complete_and_clear() {
    let mut repo = TodoRepo::default();
    let a = repo.create("a");
    let b = repo.create("b");
    let c = repo.create("c");
    assert_eq!(repo.num_all_items, 3);
    assert_eq!(repo.num_active_items, 3);
    assert_eq!(repo.num_completed_items, 0);

    let updated = repo.update(&b.id, None, Some(true)).unwrap();
    assert!(updated.is_completed);
    assert_eq!(repo.num_completed_items, 1);
    assert_eq!(repo.num_active_items, 2);

    assert_eq!(repo.list(&TodoListFilter::Completed), vec![updated]);

    repo.delete_completed();
    assert_eq!(repo.num_all_items, 2);
    assert_eq!(repo.num_completed_items, 0);
    assert_eq!(repo.list(&TodoListFilter::All), vec![c, a]);
}

#[test]
fn counters_follow_a_sequence_of_operations() {
    let mut repo = TodoRepo::default();
    assert_counters_match(&repo);
    let a = repo.create("a");
    let b = repo.create("b");
    let c = repo.create("c");
    assert_counters_match(&repo);
    repo.update(&a.id, None, Some(true)).unwrap();
    assert_counters_match(&repo);
    repo.update(&b.id, Some("bb".to_string()), None).unwrap();
    assert_counters_match(&repo);
    repo.delete(&a.id).unwrap();
    assert_counters_match(&repo);
    repo.toggle_completed(&TodoToggleAction::Check);
    assert_counters_match(&repo);
    repo.update(&c.id, None, Some(false)).unwrap();
    assert_counters_match(&repo);
    repo.delete_completed();
    assert_counters_match(&repo);
    assert_eq!(texts(&repo.list(&TodoListFilter::All)), vec!["c".to_string()]);
}

#[test]
fn list_all_holds_every_task_once_newest_first() {
    let mut repo = TodoRepo::default();
    let mut made = Vec::new();
    for text in ["one", "two", "three", "four"] {
        made.push(repo.create(text));
    }
    let all = repo.list(&TodoListFilter::All);
    assert_eq!(all.len(), repo.items.len());
    for t in &made {
        assert_eq!(all.iter().filter(|x| x.id == t.id).count(), 1);
    }
    for pair in all.windows(2) {
        assert!(pair[0].created_at >= pair[1].created_at);
    }
    assert_eq!(texts(&all), vec!["four", "three", "two", "one"]);
}

#[test]
fn active_and_completed_listings_split_all() {
    let mut repo = TodoRepo::default();
    let a = repo.create("a");
    repo.create("b");
    let c = repo.create("c");
    repo.update(&a.id, None, Some(true)).unwrap();
    repo.update(&c.id, None, Some(true)).unwrap();

    let active = repo.list(&TodoListFilter::Active);
    let completed = repo.list(&TodoListFilter::Completed);
    let all = repo.list(&TodoListFilter::All);
    assert_eq!(texts(&active), vec!["b"]);
    assert_eq!(texts(&completed), vec!["c", "a"]);
    assert_eq!(active.len() + completed.len(), all.len());
    for t in &all {
        assert!(active.contains(t) != completed.contains(t));
    }
}

#[test]
fn create_keeps_text_and_counts_one_active_task() {
    let mut repo = TodoRepo::default();
    let x = repo.create("x");
    assert_eq!(x.text, "x");
    assert!(!x.is_completed);
    assert_eq!(repo.num_all_items, 1);
    assert_eq!(repo.num_active_items, 1);
    assert_eq!(repo.num_completed_items, 0);
    assert_eq!(repo.get(&x.id), Ok(x));
}

#[test]
fn create_accepts_empty_text() {
    let mut repo = TodoRepo::default();
    let t = repo.create("");
    assert_eq!(t.text, "");
    assert_eq!(repo.num_all_items, 1);
}

#[test]
fn delete_missing_id_keeps_counters() {
    let mut repo = TodoRepo::default();
    repo.create("a");
    let b = repo.create("b");
    repo.update(&b.id, None, Some(true)).unwrap();
    let missing = Uuid::new_v4().as_u128();
    assert_eq!(repo.delete(&missing), Err(TodoRepoError::NotFound));
    assert_eq!(repo.num_all_items, 2);
    assert_eq!(repo.num_active_items, 1);
    assert_eq!(repo.num_completed_items, 1);
    assert_eq!(repo.items.len(), 2);
}

#[test]
fn delete_completed_task_takes_it_off_completed_counter() {
    let mut repo = TodoRepo::default();
    repo.create("a");
    let b = repo.create("b");
    repo.update(&b.id, None, Some(true)).unwrap();
    assert_eq!(repo.delete(&b.id), Ok(()));
    assert_eq!(repo.num_all_items, 1);
    assert_eq!(repo.num_active_items, 1);
    assert_eq!(repo.num_completed_items, 0);
    assert_eq!(repo.get(&b.id), Err(TodoRepoError::NotFound));
}

#[test]
fn update_missing_id_with_fields_is_not_found() {
    let mut repo = TodoRepo::default();
    repo.create("a");
    let missing = Uuid::new_v4().as_u128();
    let result = repo.update(&missing, Some("b".to_string()), Some(true));
    assert_eq!(result, Err(TodoRepoError::NotFound));
    assert_eq!(repo.num_active_items, 1);
    assert_eq!(repo.num_completed_items, 0);
}

// The counters move by the flag that is asked for, not by whether the task's
// flag changed: completing a completed task counts it a second time.
#[test]
fn update_completing_a_completed_task_still_moves_counters() {
    let mut repo = TodoRepo::default();
    let a = repo.create("a");
    repo.create("b");
    repo.update(&a.id, None, Some(true)).unwrap();
    assert_eq!(repo.num_completed_items, 1);
    assert_eq!(repo.num_active_items, 1);
    let again = repo.update(&a.id, None, Some(true)).unwrap();
    assert!(again.is_completed);
    assert_eq!(repo.num_completed_items, 2);
    assert_eq!(repo.num_active_items, 0);
    assert_eq!(repo.num_all_items, 2);
}

#[test]
fn check_all_then_uncheck_all_leaves_every_task_active() {
    let mut repo = TodoRepo::default();
    let a = repo.create("a");
    repo.create("b");
    repo.create("c");
    repo.update(&a.id, None, Some(true)).unwrap();
    repo.toggle_completed(&TodoToggleAction::Check);
    assert_eq!(repo.num_completed_items, 3);
    assert_eq!(repo.num_active_items, 0);
    repo.toggle_completed(&TodoToggleAction::Uncheck);
    assert_eq!(repo.num_active_items, repo.num_all_items);
    assert_eq!(repo.num_all_items, 3);
    assert_eq!(repo.num_completed_items, 0);
    assert!(repo.items.values().all(|t| !t.is_completed));
}

#[test]
fn toggle_on_empty_collection_keeps_counters_at_zero() {
    let mut repo = TodoRepo::default();
    repo.toggle_completed(&TodoToggleAction::Check);
    assert_eq!(repo.num_all_items, 0);
    assert_eq!(repo.num_completed_items, 0);
    assert_eq!(repo.num_active_items, 0);
}

#[test]
fn delete_completed_without_completed_tasks_changes_nothing() {
    let mut repo = TodoRepo::default();
    repo.create("a");
    repo.create("b");
    let before = repo.list(&TodoListFilter::All);
    repo.delete_completed();
    assert_eq!(repo.list(&TodoListFilter::All), before);
    assert_eq!(repo.num_all_items, 2);
    assert_eq!(repo.num_active_items, 2);
    assert_eq!(repo.num_completed_items, 0);
}

#[test]
fn filters_admit_by_completion_flag() {
    let mut t = Todo::new("t");
    assert!(TodoListFilter::All.matches(&t));
    assert!(TodoListFilter::Active.matches(&t));
    assert!(!TodoListFilter::Completed.matches(&t));
    t.is_completed = true;
    assert!(TodoListFilter::All.matches(&t));
    assert!(!TodoListFilter::Active.matches(&t));
    assert!(TodoListFilter::Completed.matches(&t));
}

#[test]
fn new_tasks_get_distinct_ids_and_a_creation_time() {
    let a = Todo::new("a");
    let b = Todo::new("b");
    assert_ne!(a.id, b.id);
    assert_ne!(a.id, 0);
    assert!(a.created_at > 0);
    assert!(b.created_at >= a.created_at);
    assert_eq!(Uuid::from_u128(a.id).get_version_num(), 4);
}
