//! The project as a mathematical value, and what each operation does to it.
//!
//! Every contract of the crate is stated over [`ProjectView`]. The laws at
//! the end of this file relate the operations to one another.

use vstd::prelude::*;
use crate::model::{Assignment, TaskView, UserView};
use crate::seq_facts::{
    lemma_filter_all, lemma_filter_increasing, lemma_filter_members, lemma_filter_no_duplicates,
};

verus! {

/// A project: its users and tasks in insertion order, the assignments
/// between them, and the id that the next new user and task will get.
pub struct ProjectView {
    pub users: Seq<UserView>,
    pub tasks: Seq<TaskView>,
    pub assignments: Seq<Assignment>,
    pub next_user_id: nat,
    pub next_task_id: nat,
}

/// The ids of `users`, in order.
pub open spec fn user_ids(users: Seq<UserView>) -> Seq<u64> {
    users.map_values(|u: UserView| u.id)
}

/// The ids of `tasks`, in order.
pub open spec fn task_ids(tasks: Seq<TaskView>) -> Seq<u64> {
    tasks.map_values(|t: TaskView| t.id)
}

/// `ids` are non-zero, strictly increasing and all below `next`.
///
/// Ids are handed out from a counter that only grows, and a new entity is
/// appended to its sequence, so this holds of every project.
pub open spec fn ids_in_order(ids: Seq<u64>, next: nat) -> bool {
    &&& forall|i: int| 0 <= i < ids.len() ==> 1 <= #[trigger] ids[i] < next
    &&& forall|i: int, j: int| 0 <= i < j < ids.len() ==> #[trigger] ids[i] < #[trigger] ids[j]
}

impl ProjectView {
    /// The project with nothing in it. The first ids handed out are 1.
    pub open spec fn empty() -> ProjectView {
        ProjectView {
            users: Seq::empty(),
            tasks: Seq::empty(),
            assignments: Seq::empty(),
            next_user_id: 1,
            next_task_id: 1,
        }
    }

    /// A user with this id is in the project.
    pub open spec fn has_user(self, id: u64) -> bool {
        user_ids(self.users).contains(id)
    }

    /// A task with this id is in the project.
    pub open spec fn has_task(self, id: u64) -> bool {
        task_ids(self.tasks).contains(id)
    }

    /// The user is assigned to the task.
    pub open spec fn is_assigned(self, user_id: u64, task_id: u64) -> bool {
        self.assignments.contains(Assignment { user_id, task_id })
    }

    /// The invariant of every project: ids are unique and never reused, no
    /// assignment occurs twice, and every assignment links a user and a task
    /// that are both in the project.
    pub open spec fn wf(self) -> bool {
        &&& 1 <= self.next_user_id <= u64::MAX
        &&& 1 <= self.next_task_id <= u64::MAX
        &&& ids_in_order(user_ids(self.users), self.next_user_id)
        &&& ids_in_order(task_ids(self.tasks), self.next_task_id)
        &&& self.assignments.no_duplicates()
        &&& forall|k: int|
            0 <= k < self.assignments.len() ==> self.has_user(
                (#[trigger] self.assignments[k]).user_id,
            ) && self.has_task(self.assignments[k].task_id)
    }

    /// The user that `add_user` creates: it gets the next unused id.
    pub open spec fn new_user(self, name: Seq<char>, git_email: Option<Seq<char>>) -> UserView {
        UserView { id: self.next_user_id as u64, name, git_email }
    }

    /// The project after a user was added at the end.
    pub open spec fn add_user(self, name: Seq<char>, git_email: Option<Seq<char>>) -> ProjectView {
        ProjectView {
            users: self.users.push(self.new_user(name, git_email)),
            next_user_id: self.next_user_id + 1,
            ..self
        }
    }

    /// The task that `add_task` creates: it gets the next unused id.
    pub open spec fn new_task(self, title: Seq<char>) -> TaskView {
        TaskView { id: self.next_task_id as u64, title }
    }

    /// The project after a task was added at the end.
    pub open spec fn add_task(self, title: Seq<char>) -> ProjectView {
        ProjectView {
            tasks: self.tasks.push(self.new_task(title)),
            next_task_id: self.next_task_id + 1,
            ..self
        }
    }

    /// The project without the user `id` and without the assignments of that
    /// user. The id is not handed out again.
    pub open spec fn remove_user(self, id: u64) -> ProjectView {
        ProjectView {
            users: self.users.filter(|u: UserView| u.id != id),
            assignments: self.assignments.filter(|a: Assignment| a.user_id != id),
            ..self
        }
    }

    /// The project without the task `id` and without the assignments to that
    /// task. The id is not handed out again.
    pub open spec fn remove_task(self, id: u64) -> ProjectView {
        ProjectView {
            tasks: self.tasks.filter(|t: TaskView| t.id != id),
            assignments: self.assignments.filter(|a: Assignment| a.task_id != id),
            ..self
        }
    }

    /// The project with the user assigned to the task. An assignment that is
    /// already there is not added a second time.
    pub open spec fn assign(self, user_id: u64, task_id: u64) -> ProjectView {
        if self.is_assigned(user_id, task_id) {
            self
        } else {
            ProjectView {
                assignments: self.assignments.push(Assignment { user_id, task_id }),
                ..self
            }
        }
    }

    /// The project without the assignment of the user to the task.
    pub open spec fn unassign(self, user_id: u64, task_id: u64) -> ProjectView {
        ProjectView {
            assignments: self.assignments.filter(
                |a: Assignment| a != (Assignment { user_id, task_id }),
            ),
            ..self
        }
    }

    /// The users assigned to the task, in the order in which the users were
    /// added to the project.
    pub open spec fn assigned_users(self, task_id: u64) -> Seq<UserView> {
        self.users.filter(|u: UserView| self.is_assigned(u.id, task_id))
    }
}

/// A user to be added: the name and, where known, the e-mail address.
pub type NewUser = (Seq<char>, Option<Seq<char>>);

impl ProjectView {
    /// The project after each of `entries` was added as a user, first to last.
    pub open spec fn add_users(self, entries: Seq<NewUser>) -> ProjectView
        decreases entries.len(),
    {
        if entries.len() == 0 {
            self
        } else {
            self.add_users(entries.drop_last()).add_user(entries.last().0, entries.last().1)
        }
    }

    /// The project after each of `user_ids` was assigned to the task, first
    /// to last.
    pub open spec fn assign_all(self, user_ids: Seq<u64>, task_id: u64) -> ProjectView
        decreases user_ids.len(),
    {
        if user_ids.len() == 0 {
            self
        } else {
            self.assign_all(user_ids.drop_last(), task_id).assign(user_ids.last(), task_id)
        }
    }

    /// The project after each of `user_ids` was taken off the task.
    pub open spec fn unassign_all(self, user_ids: Seq<u64>, task_id: u64) -> ProjectView
        decreases user_ids.len(),
    {
        if user_ids.len() == 0 {
            self
        } else {
            self.unassign_all(user_ids.drop_last(), task_id).unassign(user_ids.last(), task_id)
        }
    }

    /// The project after each of `user_ids` was removed, first to last.
    pub open spec fn remove_users(self, user_ids: Seq<u64>) -> ProjectView
        decreases user_ids.len(),
    {
        if user_ids.len() == 0 {
            self
        } else {
            self.remove_users(user_ids.drop_last()).remove_user(user_ids.last())
        }
    }

    /// Adding a user keeps the invariant, and the users of the project are
    /// then those it had and the new one.
    pub proof fn lemma_add_user(self, name: Seq<char>, git_email: Option<Seq<char>>)
        requires
            self.wf(),
            self.next_user_id < u64::MAX,
        ensures
            self.add_user(name, git_email).wf(),
            forall|id: u64|
                self.add_user(name, git_email).has_user(id) <==> self.has_user(id) || id
                    == self.next_user_id,
            !self.has_user(self.next_user_id as u64),
    {
        let q = self.add_user(name, git_email);
        let u = self.new_user(name, git_email);
        assert(user_ids(q.users) =~= user_ids(self.users).push(u.id));
        assert forall|id: u64| q.has_user(id) <==> self.has_user(id) || id
            == self.next_user_id by {
            if self.has_user(id) {
                let i = choose|i: int| 0 <= i < self.users.len() && user_ids(self.users)[i] == id;
                assert(user_ids(q.users)[i] == id);
            }
            if id == self.next_user_id {
                assert(user_ids(q.users)[self.users.len() as int] == id);
            }
        }
        assert forall|k: int| 0 <= k < q.assignments.len() implies q.has_user(
            (#[trigger] q.assignments[k]).user_id,
        ) && q.has_task(q.assignments[k].task_id) by {
            assert(self.has_user(self.assignments[k].user_id));
        }
    }

    /// Adding a task keeps the invariant, and the tasks of the project are
    /// then those it had and the new one.
    pub proof fn lemma_add_task(self, title: Seq<char>)
        requires
            self.wf(),
            self.next_task_id < u64::MAX,
        ensures
            self.add_task(title).wf(),
            forall|id: u64|
                self.add_task(title).has_task(id) <==> self.has_task(id) || id == self.next_task_id,
            !self.has_task(self.next_task_id as u64),
    {
        let q = self.add_task(title);
        let t = self.new_task(title);
        assert(task_ids(q.tasks) =~= task_ids(self.tasks).push(t.id));
        assert forall|id: u64| q.has_task(id) <==> self.has_task(id) || id
            == self.next_task_id by {
            if self.has_task(id) {
                let i = choose|i: int| 0 <= i < self.tasks.len() && task_ids(self.tasks)[i] == id;
                assert(task_ids(q.tasks)[i] == id);
            }
            if id == self.next_task_id {
                assert(task_ids(q.tasks)[self.tasks.len() as int] == id);
            }
        }
        assert forall|k: int| 0 <= k < q.assignments.len() implies q.has_user(
            (#[trigger] q.assignments[k]).user_id,
        ) && q.has_task(q.assignments[k].task_id) by {
            assert(self.has_task(self.assignments[k].task_id));
        }
    }

    /// A user is in the project exactly if one of its users has that id.
    pub proof fn lemma_has_user(self, id: u64)
        ensures
            self.has_user(id) <==> exists|i: int|
                0 <= i < self.users.len() && (#[trigger] self.users[i]).id == id,
    {
        if self.has_user(id) {
            let i = choose|i: int| 0 <= i < self.users.len() && user_ids(self.users)[i] == id;
            assert(self.users[i].id == id);
        }
        if exists|i: int| 0 <= i < self.users.len() && (#[trigger] self.users[i]).id == id {
            let i = choose|i: int| 0 <= i < self.users.len() && (#[trigger] self.users[i]).id == id;
            assert(user_ids(self.users)[i] == id);
        }
    }

    /// A task is in the project exactly if one of its tasks has that id.
    pub proof fn lemma_has_task(self, id: u64)
        ensures
            self.has_task(id) <==> exists|i: int|
                0 <= i < self.tasks.len() && (#[trigger] self.tasks[i]).id == id,
    {
        if self.has_task(id) {
            let i = choose|i: int| 0 <= i < self.tasks.len() && task_ids(self.tasks)[i] == id;
            assert(self.tasks[i].id == id);
        }
        if exists|i: int| 0 <= i < self.tasks.len() && (#[trigger] self.tasks[i]).id == id {
            let i = choose|i: int| 0 <= i < self.tasks.len() && (#[trigger] self.tasks[i]).id == id;
            assert(task_ids(self.tasks)[i] == id);
        }
    }

    /// Removing a user keeps the invariant. Afterwards the user is gone, no
    /// assignment names it, and every other user is still there.
    pub proof fn lemma_remove_user(self, id: u64)
        requires
            self.wf(),
        ensures
            self.remove_user(id).wf(),
            forall|other: u64|
                self.remove_user(id).has_user(other) <==> self.has_user(other) && other != id,
            forall|a: Assignment|
                self.remove_user(id).assignments.contains(a) <==> self.assignments.contains(a)
                    && a.user_id != id,
    {
        let q = self.remove_user(id);
        let keep = |u: UserView| u.id != id;
        let keep_a = |a: Assignment| a.user_id != id;
        lemma_filter_members(self.users, keep);
        lemma_filter_members(self.assignments, keep_a);
        lemma_filter_no_duplicates(self.assignments, keep_a);
        assert forall|i: int, j: int| 0 <= i < j < self.users.len() implies (|u: UserView|
            u.id as int)(#[trigger] self.users[i]) < (|u: UserView| u.id as int)(
            #[trigger] self.users[j],
        ) by {
            assert(user_ids(self.users)[i] < user_ids(self.users)[j]);
        }
        lemma_filter_increasing(self.users, keep, |u: UserView| u.id as int);
        assert forall|other: u64| q.has_user(other) <==> self.has_user(other) && other
            != id by {
            self.lemma_has_user(other);
            q.lemma_has_user(other);
            if q.has_user(other) {
                let i = choose|i: int| 0 <= i < q.users.len() && (#[trigger] q.users[i]).id == other;
                assert(q.users.contains(q.users[i]));
                assert(self.users.contains(q.users[i]));
            }
            if self.has_user(other) && other != id {
                let i = choose|i: int|
                    0 <= i < self.users.len() && (#[trigger] self.users[i]).id == other;
                assert(self.users.contains(self.users[i]));
                assert(q.users.contains(self.users[i]));
            }
        }
        assert forall|i: int| 0 <= i < q.users.len() implies 1 <= #[trigger] user_ids(q.users)[i]
            < q.next_user_id by {
            assert(q.users.contains(q.users[i]));
            assert(self.users.contains(q.users[i]));
            let k = choose|k: int| 0 <= k < self.users.len() && self.users[k] == q.users[i];
            assert(user_ids(self.users)[k] == q.users[i].id);
        }
        assert forall|k: int| 0 <= k < q.assignments.len() implies q.has_user(
            (#[trigger] q.assignments[k]).user_id,
        ) && q.has_task(q.assignments[k].task_id) by {
            let a = q.assignments[k];
            assert(q.assignments.contains(a));
            assert(self.assignments.contains(a));
            let m = choose|m: int| 0 <= m < self.assignments.len() && self.assignments[m] == a;
            assert(self.has_user(self.assignments[m].user_id));
        }
    }

    /// Removing a task keeps the invariant. Afterwards the task is gone, no
    /// assignment names it, and every other task is still there.
    pub proof fn lemma_remove_task(self, id: u64)
        requires
            self.wf(),
        ensures
            self.remove_task(id).wf(),
            forall|other: u64|
                self.remove_task(id).has_task(other) <==> self.has_task(other) && other != id,
            forall|a: Assignment|
                self.remove_task(id).assignments.contains(a) <==> self.assignments.contains(a)
                    && a.task_id != id,
    {
        let q = self.remove_task(id);
        let keep = |t: TaskView| t.id != id;
        let keep_a = |a: Assignment| a.task_id != id;
        lemma_filter_members(self.tasks, keep);
        lemma_filter_members(self.assignments, keep_a);
        lemma_filter_no_duplicates(self.assignments, keep_a);
        assert forall|i: int, j: int| 0 <= i < j < self.tasks.len() implies (|t: TaskView|
            t.id as int)(#[trigger] self.tasks[i]) < (|t: TaskView| t.id as int)(
            #[trigger] self.tasks[j],
        ) by {
            assert(task_ids(self.tasks)[i] < task_ids(self.tasks)[j]);
        }
        lemma_filter_increasing(self.tasks, keep, |t: TaskView| t.id as int);
        assert forall|other: u64| q.has_task(other) <==> self.has_task(other) && other
            != id by {
            self.lemma_has_task(other);
            q.lemma_has_task(other);
            if q.has_task(other) {
                let i = choose|i: int| 0 <= i < q.tasks.len() && (#[trigger] q.tasks[i]).id == other;
                assert(q.tasks.contains(q.tasks[i]));
                assert(self.tasks.contains(q.tasks[i]));
            }
            if self.has_task(other) && other != id {
                let i = choose|i: int|
                    0 <= i < self.tasks.len() && (#[trigger] self.tasks[i]).id == other;
                assert(self.tasks.contains(self.tasks[i]));
                assert(q.tasks.contains(self.tasks[i]));
            }
        }
        assert forall|i: int| 0 <= i < q.tasks.len() implies 1 <= #[trigger] task_ids(q.tasks)[i]
            < q.next_task_id by {
            assert(q.tasks.contains(q.tasks[i]));
            assert(self.tasks.contains(q.tasks[i]));
            let k = choose|k: int| 0 <= k < self.tasks.len() && self.tasks[k] == q.tasks[i];
            assert(task_ids(self.tasks)[k] == q.tasks[i].id);
        }
        assert forall|k: int| 0 <= k < q.assignments.len() implies q.has_user(
            (#[trigger] q.assignments[k]).user_id,
        ) && q.has_task(q.assignments[k].task_id) by {
            let a = q.assignments[k];
            assert(q.assignments.contains(a));
            assert(self.assignments.contains(a));
            let m = choose|m: int| 0 <= m < self.assignments.len() && self.assignments[m] == a;
            assert(self.has_task(self.assignments[m].task_id));
        }
    }

    /// Assigning a user of the project to a task of the project keeps the
    /// invariant, and adds that one pair to the assignments and no other.
    pub proof fn lemma_assign(self, user_id: u64, task_id: u64)
        requires
            self.wf(),
            self.has_user(user_id),
            self.has_task(task_id),
        ensures
            self.assign(user_id, task_id).wf(),
            forall|a: Assignment|
                self.assign(user_id, task_id).assignments.contains(a) <==> self.assignments.contains(
                    a,
                ) || a == (Assignment { user_id, task_id }),
    {
        let q = self.assign(user_id, task_id);
        let pair = Assignment { user_id, task_id };
        if !self.is_assigned(user_id, task_id) {
            assert(q.assignments[self.assignments.len() as int] == pair);
            assert forall|a: Assignment| q.assignments.contains(a) <==> self.assignments.contains(
                a,
            ) || a == pair by {
                if self.assignments.contains(a) {
                    let i = choose|i: int| 0 <= i < self.assignments.len() && self.assignments[i] == a;
                    assert(q.assignments[i] == a);
                }
            }
        }
    }

    /// Taking a user off a task keeps the invariant, and removes that one
    /// pair from the assignments and no other.
    pub proof fn lemma_unassign(self, user_id: u64, task_id: u64)
        requires
            self.wf(),
        ensures
            self.unassign(user_id, task_id).wf(),
            forall|a: Assignment|
                self.unassign(user_id, task_id).assignments.contains(a)
                    <==> self.assignments.contains(a) && a != (Assignment { user_id, task_id }),
    {
        let q = self.unassign(user_id, task_id);
        let keep = |a: Assignment| a != (Assignment { user_id, task_id });
        lemma_filter_members(self.assignments, keep);
        lemma_filter_no_duplicates(self.assignments, keep);
        assert forall|k: int| 0 <= k < q.assignments.len() implies q.has_user(
            (#[trigger] q.assignments[k]).user_id,
        ) && q.has_task(q.assignments[k].task_id) by {
            let a = q.assignments[k];
            assert(q.assignments.contains(a));
            assert(self.assignments.contains(a));
            let m = choose|m: int| 0 <= m < self.assignments.len() && self.assignments[m] == a;
            assert(self.has_user(self.assignments[m].user_id));
        }
    }
}

/// Ids are handed out in strictly increasing order: of the users that a run
/// of `add_user` calls creates, the one at position `k` gets the id
/// `next_user_id + k`. Every id is new to the project, and the project keeps
/// its invariant.
pub proof fn law_added_ids_increase(p: ProjectView, entries: Seq<NewUser>)
    requires
        p.wf(),
        p.next_user_id + entries.len() <= u64::MAX,
    ensures
        p.add_users(entries).wf(),
        p.add_users(entries).next_user_id == p.next_user_id + entries.len(),
        p.add_users(entries).users.len() == p.users.len() + entries.len(),
        p.add_users(entries).users.take(p.users.len() as int) == p.users,
        forall|k: int|
            0 <= k < entries.len() ==> (#[trigger] p.add_users(entries).users[p.users.len() + k]).id
                == p.next_user_id + k,
        forall|k: int|
            0 <= k < entries.len() ==> !p.has_user(
                (#[trigger] p.add_users(entries).users[p.users.len() + k]).id,
            ),
        forall|j: int, k: int|
            0 <= j < k < entries.len() ==> (#[trigger] p.add_users(entries).users[p.users.len() + j]).id
                < (#[trigger] p.add_users(entries).users[p.users.len() + k]).id,
    decreases entries.len(),
{
    if entries.len() > 0 {
        let before = p.add_users(entries.drop_last());
        law_added_ids_increase(p, entries.drop_last());
        before.lemma_add_user(entries.last().0, entries.last().1);
        let after = p.add_users(entries);
        assert(after.users.take(p.users.len() as int) =~= before.users.take(p.users.len() as int));
        assert forall|k: int| 0 <= k < entries.len() implies (#[trigger] after.users[p.users.len()
            + k]).id == p.next_user_id + k by {
            if k < entries.len() - 1 {
                assert(after.users[p.users.len() + k] == before.users[p.users.len() + k]);
            }
        }
        assert forall|k: int| 0 <= k < entries.len() implies !p.has_user(
            (#[trigger] after.users[p.users.len() + k]).id,
        ) by {
            let id = after.users[p.users.len() + k].id;
            if p.has_user(id) {
                let i = choose|i: int| 0 <= i < p.users.len() && user_ids(p.users)[i] == id;
                assert(user_ids(p.users)[i] < p.next_user_id);
            }
        }
    } else {
        assert(p.users.take(p.users.len() as int) =~= p.users);
    }
}

/// An id is never handed out twice: the user added after a removal gets an
/// id that differs from the id of the user removed.
pub proof fn law_removed_id_not_reused(
    p: ProjectView,
    id: u64,
    name: Seq<char>,
    git_email: Option<Seq<char>>,
)
    requires
        p.wf(),
        p.has_user(id),
    ensures
        p.remove_user(id).new_user(name, git_email).id != id,
{
    let i = choose|i: int| 0 <= i < p.users.len() && user_ids(p.users)[i] == id;
    assert(user_ids(p.users)[i] < p.next_user_id);
}

/// After a user was removed, the project has no user with that id and no
/// assignment that names it.
pub proof fn law_remove_user_forgets(p: ProjectView, id: u64)
    requires
        p.wf(),
    ensures
        !p.remove_user(id).has_user(id),
        forall|task_id: u64| !p.remove_user(id).is_assigned(id, task_id),
        forall|k: int|
            0 <= k < p.remove_user(id).assignments.len() ==> (#[trigger] p.remove_user(
                id,
            ).assignments[k]).user_id != id,
{
    p.lemma_remove_user(id);
    let q = p.remove_user(id);
    assert forall|k: int| 0 <= k < q.assignments.len() implies (#[trigger] q.assignments[k]).user_id
        != id by {
        assert(q.assignments.contains(q.assignments[k]));
    }
}

/// After a task was removed, the project has no task with that id and no
/// assignment that names it.
pub proof fn law_remove_task_forgets(p: ProjectView, id: u64)
    requires
        p.wf(),
    ensures
        !p.remove_task(id).has_task(id),
        forall|user_id: u64| !p.remove_task(id).is_assigned(user_id, id),
{
    p.lemma_remove_task(id);
}

/// Assigning twice is assigning once.
pub proof fn law_assign_idempotent(p: ProjectView, user_id: u64, task_id: u64)
    ensures
        p.assign(user_id, task_id).assign(user_id, task_id) == p.assign(user_id, task_id),
        p.assign(user_id, task_id).is_assigned(user_id, task_id),
{
    let q = p.assign(user_id, task_id);
    if !p.is_assigned(user_id, task_id) {
        assert(q.assignments[p.assignments.len() as int] == (Assignment { user_id, task_id }));
    }
}

/// Taking a user off a task to which the user is not assigned changes
/// nothing.
pub proof fn law_unassign_absent_is_noop(p: ProjectView, user_id: u64, task_id: u64)
    requires
        !p.is_assigned(user_id, task_id),
    ensures
        p.unassign(user_id, task_id) == p,
{
    let keep = |a: Assignment| a != (Assignment { user_id, task_id });
    assert forall|i: int| 0 <= i < p.assignments.len() implies keep(p.assignments[i]) by {
        assert(p.assignments.contains(p.assignments[i]));
    }
    lemma_filter_all(p.assignments, keep);
}

/// After a user was taken off a task, the user is not assigned to it, and
/// every other assignment is as it was.
pub proof fn law_unassign_removes(p: ProjectView, user_id: u64, task_id: u64)
    requires
        p.wf(),
    ensures
        !p.unassign(user_id, task_id).is_assigned(user_id, task_id),
        forall|u: u64, t: u64|
            (u != user_id || t != task_id) ==> (p.unassign(user_id, task_id).is_assigned(u, t)
                <==> p.is_assigned(u, t)),
{
    p.lemma_unassign(user_id, task_id);
}

/// The users assigned to a task are exactly the users of the project for
/// whom an assignment to that task exists. They come in the order of the
/// project's users, which is the order of their ids, and none comes twice.
pub proof fn law_assigned_users_exact(p: ProjectView, task_id: u64)
    requires
        p.wf(),
    ensures
        forall|u: UserView| #[trigger]
            p.assigned_users(task_id).contains(u) <==> p.users.contains(u) && p.is_assigned(
                u.id,
                task_id,
            ),
        forall|i: int, j: int|
            0 <= i < j < p.assigned_users(task_id).len() ==> (#[trigger] p.assigned_users(
                task_id,
            )[i]).id < (#[trigger] p.assigned_users(task_id)[j]).id,
        p.assigned_users(task_id).no_duplicates(),
        !p.has_task(task_id) ==> p.assigned_users(task_id).len() == 0,
{
    let picked = |u: UserView| p.is_assigned(u.id, task_id);
    let r = p.assigned_users(task_id);
    lemma_filter_members(p.users, picked);
    assert forall|i: int, j: int| 0 <= i < j < p.users.len() implies (|u: UserView| u.id as int)(
        #[trigger] p.users[i],
    ) < (|u: UserView| u.id as int)(#[trigger] p.users[j]) by {
        assert(user_ids(p.users)[i] < user_ids(p.users)[j]);
    }
    lemma_filter_increasing(p.users, picked, |u: UserView| u.id as int);
    if !p.has_task(task_id) && r.len() > 0 {
        assert(r.contains(r[0]));
        let a = Assignment { user_id: r[0].id, task_id };
        let k = choose|k: int| 0 <= k < p.assignments.len() && p.assignments[k] == a;
        assert(p.has_task(p.assignments[k].task_id));
    }
}

} // verus!
