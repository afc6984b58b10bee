use vstd::prelude::*;

verus! {

/// One task of the list.
///
/// `id` and `created_at` are fixed when the task is made; listings order tasks
/// by `created_at`, newest first.
#[derive(Debug, PartialEq, Eq)]
pub struct Todo {
    pub is_completed: bool,
    /// Nanoseconds since the UNIX epoch at creation.
    pub created_at: u128,
    pub text: String,
    /// The 128 bits of a random (version 4) UUID.
    pub id: u128,
}

impl Clone for Todo {
    fn clone(&self) -> (r: Self)
        ensures
            r == *self,
    {
        Todo {
            is_completed: self.is_completed,
            created_at: self.created_at,
            text: self.text.clone(),
            id: self.id,
        }
    }
}

/// Relies on uuid::Uuid::new_v4 for a fresh random UUID, handed out as the
/// integer of its 16 bytes (Uuid::as_u128). Nothing is known of the value.
#[verifier::external_body]
fn random_id() -> (r: u128) {
    uuid::Uuid::new_v4().as_u128()
}

/// Relies on std::time::SystemTime::elapsed, called on the UNIX epoch: the
/// time now in nanoseconds since the epoch, or `None` where the system clock
/// stands before the epoch. Nothing is known of the value.
#[verifier::external_body]
fn nanos_since_epoch() -> (r: Option<u128>) {
    match std::time::UNIX_EPOCH.elapsed() {
        Ok(d) => Some(d.as_nanos()),
        Err(_) => None,
    }
}

impl Todo {
    /// A new task holding `text`, not completed, with a fresh random id and the
    /// current time as its creation time (zero if the clock stands before the
    /// UNIX epoch).
    pub fn new(text: &str) -> (r: Self)
        ensures
            r.text@ == text@,
            !r.is_completed,
    {
        let created_at: u128 = match nanos_since_epoch() {
            Some(n) => n,
            None => 0,
        };
        Todo { is_completed: false, created_at, text: text.to_owned(), id: random_id() }
    }
}

/// Which tasks a listing shows.
#[derive(Debug, Clone, Copy, PartialEq, Eq, Structural)]
pub enum TodoListFilter {
    Completed,
    Active,
    All,
}

impl TodoListFilter {
    /// Whether a task with completion flag `is_completed` passes the filter.
    pub open spec fn admits(self, is_completed: bool) -> bool {
        match self {
            TodoListFilter::Completed => is_completed,
            TodoListFilter::Active => !is_completed,
            TodoListFilter::All => true,
        }
    }

    /// The filter's name as the task list shows it.
    pub fn label(&self) -> (r: &'static str)
        ensures
            r@ == match *self {
                TodoListFilter::Completed => "completed"@,
                TodoListFilter::Active => "active"@,
                TodoListFilter::All => "all"@,
            },
    {
        proof {
            reveal_strlit("completed");
            reveal_strlit("active");
            reveal_strlit("all");
        }
        match self {
            TodoListFilter::Completed => "completed",
            TodoListFilter::Active => "active",
            TodoListFilter::All => "all",
        }
    }

    pub fn matches(&self, todo: &Todo) -> (r: bool)
        ensures
            r == self.admits(todo.is_completed),
    {
        match self {
            TodoListFilter::Completed => todo.is_completed,
            TodoListFilter::Active => !todo.is_completed,
            TodoListFilter::All => true,
        }
    }
}

/// What a bulk toggle does to every task.
#[derive(Debug, Clone, Copy, PartialEq, Eq, Structural)]
pub enum TodoToggleAction {
    Uncheck,
    Check,
}

impl TodoToggleAction {
    /// The completion flag that the action gives every task.
    pub open spec fn target(self) -> bool {
        self == TodoToggleAction::Check
    }

    /// The action's name, as the toggle control shows and sends it.
    pub fn label(&self) -> (r: &'static str)
        ensures
            r@ == match *self {
                TodoToggleAction::Uncheck => "Uncheck"@,
                TodoToggleAction::Check => "Check"@,
            },
    {
        proof {
            reveal_strlit("Uncheck");
            reveal_strlit("Check");
        }
        match self {
            TodoToggleAction::Uncheck => "Uncheck",
            TodoToggleAction::Check => "Check",
        }
    }
}

} // verus!
