use std::collections::HashMap;
use vstd::prelude::*;
use vstd::std_specs::iter::IteratorSpec;

use crate::models::{Todo, TodoListFilter, TodoToggleAction};

verus! {

broadcast use vstd::std_specs::hash::group_hash_axioms;

/// The one way a single-task operation fails: no task has the given id.
#[derive(Debug, Clone, Copy, PartialEq, Eq, Structural)]
pub enum TodoRepoError {
    NotFound,
}

/// The task collection, keyed by id, with three running counters.
///
/// The counters are kept up to date by each operation rather than computed on
/// demand; `counters_agree` says when they describe the collection exactly.
/// Every operation keeps them in agreement, with two exceptions that follow
/// from how the counters move: an `update` that sets the completion flag a
/// task already has, and a `create` whose new random id is already a key.
#[derive(Debug)]
pub struct TodoRepo {
    pub num_completed_items: u32,
    pub num_active_items: u32,
    pub num_all_items: u32,
    pub items: HashMap<u128, Todo>,
}

/// The keys of `m` whose task has completion flag `completed`.
pub open spec fn keys_with(m: Map<u128, Todo>, completed: bool) -> Set<u128> {
    m.dom().filter(|k: u128| m[k].is_completed == completed)
}

/// How many tasks of `m` have completion flag `completed`.
pub open spec fn count_with(m: Map<u128, Todo>, completed: bool) -> nat {
    keys_with(m, completed).len()
}

/// 1 where `t` has completion flag `completed`, else 0.
spec fn one_if(t: Todo, completed: bool) -> nat {
    if t.is_completed == completed {
        1
    } else {
        0
    }
}

/// `t` after an update that sets the given fields and keeps the others.
pub open spec fn updated(t: Todo, text: Option<String>, is_completed: Option<bool>) -> Todo {
    Todo {
        is_completed: match is_completed {
            Some(c) => c,
            None => t.is_completed,
        },
        created_at: t.created_at,
        text: match text {
            Some(s) => s,
            None => t.text,
        },
        id: t.id,
    }
}

/// An update with completion flag `is_completed` leaves `t`'s flag as it was
/// (no flag given) or turns it over; it does not set the flag `t` already has.
pub open spec fn changes_flag(t: Todo, is_completed: Option<bool>) -> bool {
    match is_completed {
        Some(c) => c != t.is_completed,
        None => true,
    }
}

/// `t` with completion flag `completed`.
pub open spec fn flagged(t: Todo, completed: bool) -> Todo {
    Todo { is_completed: completed, created_at: t.created_at, text: t.text, id: t.id }
}

/// `m` with every task given completion flag `completed`.
pub open spec fn with_flag(m: Map<u128, Todo>, completed: bool) -> Map<u128, Todo> {
    m.map_values(|t: Todo| flagged(t, completed))
}

/// `ks` runs through the keys of `m` whose task passes `filter`, each once,
/// and `r` holds their tasks in the same order.
pub open spec fn enumerates(
    m: Map<u128, Todo>,
    filter: TodoListFilter,
    ks: Seq<u128>,
    r: Seq<Todo>,
) -> bool {
    &&& ks.len() == r.len()
    &&& ks.no_duplicates()
    &&& ks.to_set() == m.dom().filter(|k: u128| filter.admits(m[k].is_completed))
    &&& forall|i: int| 0 <= i < ks.len() ==> r[i] == m[#[trigger] ks[i]]
}

/// `r` holds the tasks of `m` that pass `filter`, one for each key.
pub open spec fn lists_exactly(m: Map<u128, Todo>, filter: TodoListFilter, r: Seq<Todo>) -> bool {
    exists|ks: Seq<u128>| enumerates(m, filter, ks, r)
}

/// No task of `r` was created after one that comes before it.
pub open spec fn newest_first(r: Seq<Todo>) -> bool {
    forall|i: int, j: int| 0 <= i < j < r.len() ==> r[i].created_at >= r[j].created_at
}

impl View for TodoRepo {
    type V = Map<u128, Todo>;

    open spec fn view(&self) -> Map<u128, Todo> {
        self.items@
    }
}

proof fn lemma_count_remove(m: Map<u128, Todo>, k: u128, c: bool)
    requires
        m.dom().finite(),
        m.contains_key(k),
    ensures
        count_with(m.remove(k), c) + one_if(m[k], c) == count_with(m, c),
{
    m.dom().lemma_len_filter(|j: u128| m[j].is_completed == c);
    if m[k].is_completed == c {
        assert(keys_with(m.remove(k), c) =~= keys_with(m, c).remove(k));
    } else {
        assert(keys_with(m.remove(k), c) =~= keys_with(m, c));
    }
}

proof fn lemma_count_insert(m: Map<u128, Todo>, k: u128, v: Todo, c: bool)
    requires
        m.dom().finite(),
        !m.contains_key(k),
    ensures
        count_with(m.insert(k, v), c) == count_with(m, c) + one_if(v, c),
{
    m.dom().lemma_len_filter(|j: u128| m[j].is_completed == c);
    if v.is_completed == c {
        assert(keys_with(m.insert(k, v), c) =~= keys_with(m, c).insert(k));
    } else {
        assert(keys_with(m.insert(k, v), c) =~= keys_with(m, c));
    }
}

proof fn lemma_count_replace(m: Map<u128, Todo>, k: u128, v: Todo, c: bool)
    requires
        m.dom().finite(),
        m.contains_key(k),
    ensures
        count_with(m.insert(k, v), c) + one_if(m[k], c) == count_with(m, c) + one_if(v, c),
{
    lemma_count_remove(m, k, c);
    lemma_count_insert(m.remove(k), k, v, c);
    assert(m.remove(k).insert(k, v) =~= m.insert(k, v));
}

proof fn lemma_count_split(m: Map<u128, Todo>)
    requires
        m.dom().finite(),
    ensures
        count_with(m, true) + count_with(m, false) == m.len(),
{
    m.dom().lemma_len_filter(|j: u128| m[j].is_completed == true);
    m.dom().lemma_len_filter(|j: u128| m[j].is_completed == false);
    vstd::set_lib::lemma_set_disjoint_lens(keys_with(m, true), keys_with(m, false));
    assert(keys_with(m, true) + keys_with(m, false) =~= m.dom());
}

/// `after` is `before` once every task has been given the flag of `action`
/// and the counters set to match: the total kept, and the completed and
/// active counters set to the total and zero (`Check`) or zero and the total
/// (`Uncheck`).
pub open spec fn toggled(before: TodoRepo, action: TodoToggleAction, after: TodoRepo) -> bool {
    &&& after@ == with_flag(before@, action.target())
    &&& after.num_all_items == before.num_all_items
    &&& after.num_completed_items == (if action.target() {
        before.num_all_items
    } else {
        0
    })
    &&& after.num_active_items == (if action.target() {
        0
    } else {
        before.num_all_items
    })
}

impl Default for TodoRepo {
    /// An empty collection with all counters at zero.
    fn default() -> (r: Self)
        ensures
            r@ == Map::<u128, Todo>::empty(),
            r.num_completed_items == 0,
            r.num_active_items == 0,
            r.num_all_items == 0,
            r.counters_agree(),
    {
        let r = TodoRepo {
            num_completed_items: 0,
            num_active_items: 0,
            num_all_items: 0,
            items: HashMap::new(),
        };
        proof {
            assert(keys_with(r@, true) =~= Set::<u128>::empty());
            assert(keys_with(r@, false) =~= Set::<u128>::empty());
        }
        r
    }
}

impl TodoRepo {
    /// The counters describe the collection: `num_all_items` is its size and
    /// the other two count its active and completed tasks.
    pub open spec fn counters_agree(&self) -> bool {
        &&& self.num_all_items == self@.len()
        &&& self.num_active_items == count_with(self@, false)
        &&& self.num_completed_items == count_with(self@, true)
    }

    /// The task stored under `id`, or `NotFound`.
    pub fn get(&self, id: &u128) -> (r: Result<Todo, TodoRepoError>)
        ensures
            self@.contains_key(*id) ==> r == Ok::<Todo, TodoRepoError>(self@[*id]),
            !self@.contains_key(*id) ==> r == Err::<Todo, TodoRepoError>(TodoRepoError::NotFound),
    {
        match self.items.get(id) {
            Some(t) => Ok(t.clone()),
            None => Err(TodoRepoError::NotFound),
        }
    }

    /// Makes a new active task holding `text`, stores it under its id and
    /// counts it as one more task and one more active task.
    pub fn create(&mut self, text: &str) -> (r: Todo)
        requires
            old(self).num_all_items < u32::MAX,
            old(self).num_active_items < u32::MAX,
        ensures
            r.text@ == text@,
            !r.is_completed,
            final(self)@ == old(self)@.insert(r.id, r),
            final(self).num_all_items == old(self).num_all_items + 1,
            final(self).num_active_items == old(self).num_active_items + 1,
            final(self).num_completed_items == old(self).num_completed_items,
            old(self).counters_agree() && !old(self)@.contains_key(r.id)
                ==> final(self).counters_agree(),
    {
        let todo = Todo::new(text);
        proof {
            if !self@.contains_key(todo.id) {
                lemma_count_insert(self@, todo.id, todo, true);
                lemma_count_insert(self@, todo.id, todo, false);
            }
        }
        self.items.insert(todo.id, todo.clone());
        self.num_active_items = self.num_active_items + 1;
        self.num_all_items = self.num_all_items + 1;
        todo
    }

    /// Removes the task stored under `id` and takes it off the counters, or
    /// returns `NotFound` and changes nothing.
    pub fn delete(&mut self, id: &u128) -> (r: Result<(), TodoRepoError>)
        requires
            old(self)@.contains_key(*id) ==> {
                &&& old(self).num_all_items > 0
                &&& old(self)@[*id].is_completed ==> old(self).num_completed_items > 0
                &&& !old(self)@[*id].is_completed ==> old(self).num_active_items > 0
            },
        ensures
            !old(self)@.contains_key(*id) ==> {
                &&& r == Err::<(), TodoRepoError>(TodoRepoError::NotFound)
                &&& final(self)@ == old(self)@
                &&& final(self).num_all_items == old(self).num_all_items
                &&& final(self).num_active_items == old(self).num_active_items
                &&& final(self).num_completed_items == old(self).num_completed_items
            },
            old(self)@.contains_key(*id) ==> {
                let was_completed = old(self)@[*id].is_completed;
                &&& r == Ok::<(), TodoRepoError>(())
                &&& final(self)@ == old(self)@.remove(*id)
                &&& final(self).num_all_items == old(self).num_all_items - 1
                &&& final(self).num_completed_items == old(self).num_completed_items - (
                if was_completed {
                    1int
                } else {
                    0int
                })
                &&& final(self).num_active_items == old(self).num_active_items - (if was_completed {
                    0int
                } else {
                    1int
                })
            },
            old(self).counters_agree() ==> final(self).counters_agree(),
    {
        match self.items.remove(id) {
            None => Err(TodoRepoError::NotFound),
            Some(item) => {
                proof {
                    lemma_count_remove(old(self)@, *id, true);
                    lemma_count_remove(old(self)@, *id, false);
                }
                if item.is_completed {
                    self.num_completed_items = self.num_completed_items - 1;
                } else {
                    self.num_active_items = self.num_active_items - 1;
                }
                self.num_all_items = self.num_all_items - 1;
                Ok(())
            },
        }
    }

    /// Changes the task stored under `id`: its completion flag where
    /// `is_completed` is given, its text where `text` is given. A given flag
    /// moves one task between the counters in its direction, whatever the
    /// task's flag was before. Returns the changed task, or `NotFound` with
    /// nothing changed.
    pub fn update(&mut self, id: &u128, text: Option<String>, is_completed: Option<bool>) -> (r:
        Result<Todo, TodoRepoError>)
        requires
            old(self)@.contains_key(*id) ==> match is_completed {
                Some(true) => old(self).num_completed_items < u32::MAX
                    && old(self).num_active_items > 0,
                Some(false) => old(self).num_completed_items > 0
                    && old(self).num_active_items < u32::MAX,
                None => true,
            },
        ensures
            !old(self)@.contains_key(*id) ==> {
                &&& r == Err::<Todo, TodoRepoError>(TodoRepoError::NotFound)
                &&& final(self)@ == old(self)@
                &&& final(self).num_all_items == old(self).num_all_items
                &&& final(self).num_active_items == old(self).num_active_items
                &&& final(self).num_completed_items == old(self).num_completed_items
            },
            old(self)@.contains_key(*id) ==> {
                let t = updated(old(self)@[*id], text, is_completed);
                &&& r == Ok::<Todo, TodoRepoError>(t)
                &&& final(self)@ == old(self)@.insert(*id, t)
                &&& final(self).num_all_items == old(self).num_all_items
                &&& final(self).num_completed_items == match is_completed {
                    Some(true) => old(self).num_completed_items + 1,
                    Some(false) => old(self).num_completed_items - 1,
                    None => old(self).num_completed_items as int,
                }
                &&& final(self).num_active_items == match is_completed {
                    Some(true) => old(self).num_active_items - 1,
                    Some(false) => old(self).num_active_items + 1,
                    None => old(self).num_active_items as int,
                }
            },
            old(self).counters_agree() && (old(self)@.contains_key(*id) ==> changes_flag(
                old(self)@[*id],
                is_completed,
            )) ==> final(self).counters_agree(),
    {
        let mut todo = match self.items.get(id) {
            Some(t) => t.clone(),
            None => {
                return Err(TodoRepoError::NotFound);
            },
        };
        let ghost prior = todo;
        if let Some(c) = is_completed {
            todo.is_completed = c;
            if todo.is_completed {
                self.num_completed_items = self.num_completed_items + 1;
                self.num_active_items = self.num_active_items - 1;
            } else {
                self.num_completed_items = self.num_completed_items - 1;
                self.num_active_items = self.num_active_items + 1;
            }
        }
        if let Some(s) = text {
            todo.text = s;
        }
        proof {
            lemma_count_replace(old(self)@, *id, todo, true);
            lemma_count_replace(old(self)@, *id, todo, false);
        }
        self.items.insert(*id, todo.clone());
        Ok(todo)
    }

    /// Gives every task the completion flag of `action` (set for `Check`,
    /// cleared for `Uncheck`) and sets the counters to match: all tasks
    /// completed and none active, or the reverse.
    pub fn toggle_completed(&mut self, action: &TodoToggleAction)
        ensures
            toggled(*old(self), *action, *final(self)),
            old(self).counters_agree() ==> final(self).counters_agree(),
    {
        let is_completed: bool;
        match action {
            TodoToggleAction::Uncheck => {
                self.num_completed_items = 0;
                self.num_active_items = self.num_all_items;
                is_completed = false;
            },
            TodoToggleAction::Check => {
                self.num_completed_items = self.num_all_items;
                self.num_active_items = 0;
                is_completed = true;
            },
        }
        let ghost m = old(self)@;
        let mut next: HashMap<u128, Todo> = HashMap::new();
        let entries = self.items.iter();
        let ghost s = entries.remaining();
        proof {
            assert(forall|i: int|
                0 <= i < s.len() ==> m.contains_key(*#[trigger] s[i].0) && m[*s[i].0] == *s[i].1);
        }
        for (k, t) in it: entries
            invariant
                m == self@,
                it.seq() == s,
                forall|i: int|
                    0 <= i < s.len() ==> m.contains_key(*#[trigger] s[i].0) && m[*s[i].0]
                        == *s[i].1,
                forall|j: u128| #[trigger]
                    next@.contains_key(j) ==> m.contains_key(j) && next@[j] == flagged(
                        m[j],
                        is_completed,
                    ),
                forall|i: int|
                    0 <= i < it.index() ==> #[trigger] next@.contains_key(*it.seq()[i].0),
        {
            assert(m.contains_key(*k) && m[*k] == *t);
            let mut u = t.clone();
            u.is_completed = is_completed;
            next.insert(*k, u);
        }
        proof {
            assert forall|j: u128| m.contains_key(j) implies #[trigger] next@.contains_key(j) by {
                assert(s.contains((&j, &m[j])));
                let i = choose|i: int| 0 <= i < s.len() && s[i] == (&j, &m[j]);
                assert(next@.contains_key(*s[i].0));
            }
            assert(next@ =~= with_flag(m, is_completed));
            assert(keys_with(next@, is_completed) =~= next@.dom());
            assert(keys_with(next@, !is_completed) =~= Set::<u128>::empty());
            assert(next@.dom() =~= m.dom());
            assert(is_completed == action.target());
        }
        self.items = next;
    }

    /// Copies of the tasks that pass `filter`, each once, newest first.
    pub fn list(&self, filter: &TodoListFilter) -> (r: Vec<Todo>)
        ensures
            lists_exactly(self@, *filter, r@),
            newest_first(r@),
    {
        let ghost m = self@;
        let mut res: Vec<Todo> = Vec::new();
        let ghost mut ks: Seq<u128> = Seq::empty();
        let ghost mut from: Seq<int> = Seq::empty();
        let keys = self.items.keys();
        let ghost s = keys.remaining();
        for k in it: keys
            invariant
                m == self@,
                it.seq() == s,
                s.no_duplicates(),
                s.unref().to_set() == m.dom(),
                res@.len() == ks.len(),
                ks.len() == from.len(),
                ks.no_duplicates(),
                forall|x: int|
                    #![trigger ks[x]]
                    0 <= x < ks.len() ==> {
                        &&& m.contains_key(ks[x])
                        &&& filter.admits(m[ks[x]].is_completed)
                        &&& res@[x] == m[ks[x]]
                        &&& 0 <= from[x] < it.index()
                        &&& ks[x] == *s[from[x]]
                    },
                forall|i: int|
                    0 <= i < it.index() && filter.admits(m[*s[i]].is_completed) ==> ks.contains(
                        *#[trigger] s[i],
                    ),
                newest_first(res@),
        {
            proof {
                assert(*k == *s[it.index() as int]);
                assert(s.unref().to_set().contains(*s[it.index() as int]));
            }
            if let Some(t) = self.items.get(k) {
            if filter.matches(t) {
                let mut pos: usize = 0;
                while pos < res.len() && res[pos].created_at >= t.created_at
                    invariant
                        pos <= res.len(),
                        forall|x: int| 0 <= x < pos ==> res@[x].created_at >= t.created_at,
                    decreases res.len() - pos,
                {
                    pos = pos + 1;
                }
                proof {
                    assert forall|x: int| 0 <= x < ks.len() implies ks[x] != *k by {
                        if ks[x] == *k {
                            assert(s[from[x]] == s[it.index() as int]);
                        }
                    }
                }
                let ghost ks0 = ks;
                let ghost from0 = from;
                let ghost res0 = res@;
                res.insert(pos, t.clone());
                proof {
                    ks = ks.insert(pos as int, *k);
                    from = from.insert(pos as int, it.index() as int);
                    assert forall|x: int| #![trigger ks[x]] 0 <= x < ks.len() implies {
                        &&& m.contains_key(ks[x])
                        &&& filter.admits(m[ks[x]].is_completed)
                        &&& res@[x] == m[ks[x]]
                        &&& 0 <= from[x] < it.index() + 1
                        &&& ks[x] == *s[from[x]]
                    } by {
                        if x < pos {
                            assert(ks[x] == ks0[x] && from[x] == from0[x] && res@[x] == res0[x]);
                        } else if x > pos {
                            assert(ks[x] == ks0[x - 1] && from[x] == from0[x - 1] && res@[x]
                                == res0[x - 1]);
                        }
                    }
                    assert forall|y: u128| ks0.contains(y) implies ks.contains(y) by {
                        let j = choose|j: int| 0 <= j < ks0.len() && ks0[j] == y;
                        if j < pos {
                            assert(ks[j] == y);
                        } else {
                            assert(ks[j + 1] == y);
                        }
                    }
                    assert(ks[pos as int] == *k);
                    assert forall|a: int, b: int|
                        0 <= a < b < ks.len() implies ks[a] != ks[b] by {
                        if a < pos && b > pos {
                            assert(ks[b] == ks0[b - 1]);
                        }
                    }
                }
            }
            }
        }
        proof {
            let want = m.dom().filter(|j: u128| filter.admits(m[j].is_completed));
            assert forall|j: u128| want.contains(j) implies ks.contains(j) by {
                assert(s.unref().to_set().contains(j));
                let i = choose|i: int| 0 <= i < s.len() && s.unref()[i] == j;
                assert(ks.contains(*s[i]));
            }
            assert(ks.to_set() =~= want);
            assert(enumerates(m, *filter, ks, res@));
        }
        res
    }

    /// Removes every completed task at once; `num_all_items` drops by
    /// `num_completed_items`, which becomes zero.
    pub fn delete_completed(&mut self)
        requires
            old(self).num_completed_items <= old(self).num_all_items,
        ensures
            final(self)@ == old(self)@.restrict(keys_with(old(self)@, false)),
            final(self).num_all_items == old(self).num_all_items - old(self).num_completed_items,
            final(self).num_completed_items == 0,
            final(self).num_active_items == old(self).num_active_items,
            old(self).counters_agree() ==> final(self).counters_agree(),
            old(self).counters_agree() && (forall|k: u128| #[trigger]
                old(self)@.contains_key(k) ==> !old(self)@[k].is_completed) ==> {
                &&& final(self)@ == old(self)@
                &&& final(self).num_all_items == old(self).num_all_items
                &&& final(self).num_completed_items == old(self).num_completed_items
            },
    {
        let ghost m = old(self)@;
        let mut kept: HashMap<u128, Todo> = HashMap::new();
        let entries = self.items.iter();
        let ghost s = entries.remaining();
        proof {
            assert(forall|i: int|
                0 <= i < s.len() ==> m.contains_key(*#[trigger] s[i].0) && m[*s[i].0] == *s[i].1);
        }
        for (k, t) in it: entries
            invariant
                m == self@,
                it.seq() == s,
                forall|i: int|
                    0 <= i < s.len() ==> m.contains_key(*#[trigger] s[i].0) && m[*s[i].0]
                        == *s[i].1,
                forall|j: u128| #[trigger]
                    kept@.contains_key(j) ==> m.contains_key(j) && !m[j].is_completed
                        && kept@[j] == m[j],
                forall|i: int|
                    0 <= i < it.index() && !s[i].1.is_completed ==> #[trigger] kept@.contains_key(
                        *s[i].0,
                    ),
        {
            assert(m.contains_key(*k) && m[*k] == *t);
            if !t.is_completed {
                kept.insert(*k, t.clone());
            }
        }
        proof {
            let want = keys_with(m, false);
            assert forall|j: u128| want.contains(j) implies #[trigger] kept@.contains_key(j) by {
                assert(s.contains((&j, &m[j])));
                let i = choose|i: int| 0 <= i < s.len() && s[i] == (&j, &m[j]);
                assert(kept@.contains_key(*s[i].0));
            }
            assert(kept@ =~= m.restrict(want));
            m.dom().lemma_len_filter(|j: u128| m[j].is_completed == false);
            lemma_count_split(m);
            assert(keys_with(kept@, true) =~= Set::<u128>::empty());
            assert(keys_with(kept@, false) =~= want);
            assert(kept@.dom() =~= want);
            if forall|j: u128| #[trigger] m.contains_key(j) ==> !m[j].is_completed {
                assert(keys_with(m, true) =~= Set::<u128>::empty());
                assert(kept@ =~= m);
            }
        }
        self.items = kept;
        self.num_all_items = self.num_all_items - self.num_completed_items;
        self.num_completed_items = 0;
    }
}

/// Where the counters agree with the collection, the active and completed
/// counters add up to the total, and the total is the number of tasks.
pub proof fn lemma_counters_partition(repo: TodoRepo)
    requires
        repo.counters_agree(),
    ensures
        repo.num_active_items + repo.num_completed_items == repo.num_all_items,
        repo.num_all_items == repo@.len(),
{
    lemma_count_split(repo@);
}

/// A listing of all tasks has one entry for each task of the collection: as
/// many entries as tasks, and every task among them.
pub proof fn lemma_list_all_is_complete(m: Map<u128, Todo>, r: Seq<Todo>)
    requires
        m.dom().finite(),
        lists_exactly(m, TodoListFilter::All, r),
    ensures
        r.len() == m.len(),
        forall|k: u128| #[trigger] m.contains_key(k) ==> r.contains(m[k]),
{
    let ks = choose|ks: Seq<u128>| enumerates(m, TodoListFilter::All, ks, r);
    assert(ks.to_set() =~= m.dom());
    ks.unique_seq_to_set();
    assert forall|k: u128| #[trigger] m.contains_key(k) implies r.contains(m[k]) by {
        assert(ks.to_set().contains(k));
        let i = choose|i: int| 0 <= i < ks.len() && ks[i] == k;
        assert(r[i] == m[ks[i]]);
    }
}

/// The tasks listed as active and those listed as completed are, together,
/// the tasks listed under all, and no task is listed under both.
pub proof fn lemma_active_and_completed_split_all(
    m: Map<u128, Todo>,
    active: Seq<Todo>,
    completed: Seq<Todo>,
    all: Seq<Todo>,
)
    requires
        lists_exactly(m, TodoListFilter::Active, active),
        lists_exactly(m, TodoListFilter::Completed, completed),
        lists_exactly(m, TodoListFilter::All, all),
    ensures
        active.to_set() + completed.to_set() == all.to_set(),
        active.to_set().disjoint(completed.to_set()),
{
    let ka = choose|ks: Seq<u128>| enumerates(m, TodoListFilter::Active, ks, active);
    let kc = choose|ks: Seq<u128>| enumerates(m, TodoListFilter::Completed, ks, completed);
    let kx = choose|ks: Seq<u128>| enumerates(m, TodoListFilter::All, ks, all);
    assert forall|t: Todo| #[trigger] all.to_set().contains(t) implies (active.to_set()
        + completed.to_set()).contains(t) by {
        let i = choose|i: int| 0 <= i < all.len() && all[i] == t;
        let k = kx[i];
        assert(kx.to_set().contains(k));
        if t.is_completed {
            assert(kc.to_set().contains(k));
            let j = choose|j: int| 0 <= j < kc.len() && kc[j] == k;
            assert(completed[j] == t);
        } else {
            assert(ka.to_set().contains(k));
            let j = choose|j: int| 0 <= j < ka.len() && ka[j] == k;
            assert(active[j] == t);
        }
    }
    assert forall|t: Todo| #[trigger] (active.to_set() + completed.to_set()).contains(
        t,
    ) implies all.to_set().contains(t) by {
        if active.to_set().contains(t) {
            let i = choose|i: int| 0 <= i < active.len() && active[i] == t;
            assert(ka.to_set().contains(ka[i]));
            assert(kx.to_set().contains(ka[i]));
            let j = choose|j: int| 0 <= j < kx.len() && kx[j] == ka[i];
            assert(all[j] == t);
        } else {
            let i = choose|i: int| 0 <= i < completed.len() && completed[i] == t;
            assert(kc.to_set().contains(kc[i]));
            assert(kx.to_set().contains(kc[i]));
            let j = choose|j: int| 0 <= j < kx.len() && kx[j] == kc[i];
            assert(all[j] == t);
        }
    }
    assert(active.to_set() + completed.to_set() =~= all.to_set());
    assert forall|t: Todo| #[trigger] active.to_set().contains(t) implies !completed.to_set().contains(
        t,
    ) by {
        let i = choose|i: int| 0 <= i < active.len() && active[i] == t;
        assert(ka.to_set().contains(ka[i]));
        if completed.to_set().contains(t) {
            let j = choose|j: int| 0 <= j < completed.len() && completed[j] == t;
            assert(kc.to_set().contains(kc[j]));
        }
    }
}

/// Checking every task and then unchecking every task leaves the same ids,
/// every task active, the active counter at the total and the completed
/// counter at zero.
pub proof fn lemma_check_then_uncheck(before: TodoRepo, checked: TodoRepo, after: TodoRepo)
    requires
        toggled(before, TodoToggleAction::Check, checked),
        toggled(checked, TodoToggleAction::Uncheck, after),
    ensures
        after@.dom() == before@.dom(),
        forall|k: u128| #[trigger] after@.contains_key(k) ==> !after@[k].is_completed,
        after.num_all_items == before.num_all_items,
        after.num_active_items == after.num_all_items,
        after.num_completed_items == 0,
{
    assert(after@.dom() =~= before@.dom());
}

} // verus!
