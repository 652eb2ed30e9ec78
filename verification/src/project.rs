//! The project in memory, and the operations that change and query it.

use vstd::prelude::*;
use crate::error::PicoError;
use crate::model::{
    opt_str, task_views, user_ref_views, user_views, Assignment, Task, TaskView, User, UserView,
};
use crate::seq_facts::lemma_filter_take_next;
use crate::state::{law_assign_idempotent, task_ids, user_ids, ProjectView};

verus! {

/// All users, tasks and assignments of one repository. It owns them: nothing
/// outside refers to them but by id.
#[derive(Debug)]
pub struct Project {
    users: Vec<User>,
    tasks: Vec<Task>,
    assignments: Vec<Assignment>,
    next_user_id: u64,
    next_task_id: u64,
}

impl View for Project {
    type V = ProjectView;

    closed spec fn view(&self) -> ProjectView {
        ProjectView {
            users: user_views(self.users@),
            tasks: task_views(self.tasks@),
            assignments: self.assignments@,
            next_user_id: self.next_user_id as nat,
            next_task_id: self.next_task_id as nat,
        }
    }
}

impl Project {
    /// The invariant of a project; see [`ProjectView::wf`]. Every project
    /// that this crate hands out satisfies it.
    pub open spec fn wf(&self) -> bool {
        self@.wf()
    }

    /// A project with nothing in it.
    pub fn new() -> (p: Project)
        ensures
            p@ == ProjectView::empty(),
            p.wf(),
    {
        let p = Project {
            users: Vec::new(),
            tasks: Vec::new(),
            assignments: Vec::new(),
            next_user_id: 1,
            next_task_id: 1,
        };
        assert(p@.users =~= Seq::empty());
        assert(p@.tasks =~= Seq::empty());
        assert(user_ids(p@.users) =~= Seq::empty());
        assert(task_ids(p@.tasks) =~= Seq::empty());
        p
    }

    /// Whether one more user can be added: the ids are not used up.
    pub fn can_add_user(&self) -> (r: bool)
        ensures
            r == (self@.next_user_id < u64::MAX),
    {
        self.next_user_id < u64::MAX
    }

    /// Whether one more task can be added: the ids are not used up.
    pub fn can_add_task(&self) -> (r: bool)
        ensures
            r == (self@.next_task_id < u64::MAX),
    {
        self.next_task_id < u64::MAX
    }

    /// Adds a user at the end, under the next unused id, and returns a copy
    /// of it.
    pub fn add_user(&mut self, name: &str, git_email: Option<&str>) -> (user: User)
        requires
            old(self).wf(),
            old(self)@.next_user_id < u64::MAX,
        ensures
            final(self)@ == old(self)@.add_user(name@, opt_str(git_email)),
            user@ == old(self)@.new_user(name@, opt_str(git_email)),
            user.id == old(self)@.next_user_id,
            !old(self)@.has_user(user.id),
            final(self)@.has_user(user.id),
            final(self).wf(),
    {
        let email = match git_email {
            Some(e) => Some(e.to_owned()),
            None => None,
        };
        let user = User { id: self.next_user_id, name: name.to_owned(), git_email: email };
        let copy = user.clone();
        proof {
            old(self)@.lemma_add_user(name@, opt_str(git_email));
        }
        self.users.push(user);
        self.next_user_id = self.next_user_id + 1;
        assert(self@.users =~= old(self)@.users.push(copy@));
        copy
    }

    /// Adds a task at the end, under the next unused id, and returns a copy
    /// of it.
    pub fn add_task(&mut self, title: &str) -> (task: Task)
        requires
            old(self).wf(),
            old(self)@.next_task_id < u64::MAX,
        ensures
            final(self)@ == old(self)@.add_task(title@),
            task@ == old(self)@.new_task(title@),
            task.id == old(self)@.next_task_id,
            !old(self)@.has_task(task.id),
            final(self)@.has_task(task.id),
            final(self).wf(),
    {
        let task = Task { id: self.next_task_id, title: title.to_owned() };
        let copy = task.clone();
        proof {
            old(self)@.lemma_add_task(title@);
        }
        self.tasks.push(task);
        self.next_task_id = self.next_task_id + 1;
        assert(self@.tasks =~= old(self)@.tasks.push(copy@));
        copy
    }

    /// All users, in the order in which they were added.
    pub fn get_users(&self) -> (r: &Vec<User>)
        ensures
            user_views(r@) == self@.users,
    {
        &self.users
    }

    /// All tasks, in the order in which they were added.
    pub fn get_tasks(&self) -> (r: &Vec<Task>)
        ensures
            task_views(r@) == self@.tasks,
    {
        &self.tasks
    }

    /// The user with this id, if the project has one.
    pub fn get_user(&self, id: u64) -> (r: Option<&User>)
        ensures
            r is Some <==> self@.has_user(id),
            match r {
                Some(u) => u@.id == id && self@.users.contains(u@),
                None => !self@.has_user(id),
            },
    {
        let mut i: usize = 0;
        while i < self.users.len()
            invariant
                i <= self.users.len(),
                forall|k: int| 0 <= k < i ==> (#[trigger] self@.users[k]).id != id,
            decreases self.users.len() - i,
        {
            if self.users[i].id == id {
                proof {
                    assert(self@.users[i as int] == self.users[i as int]@);
                    self@.lemma_has_user(id);
                }
                return Some(&self.users[i]);
            }
            i = i + 1;
        }
        proof {
            self@.lemma_has_user(id);
        }
        None
    }

    /// The task with this id, if the project has one.
    pub fn get_task(&self, id: u64) -> (r: Option<&Task>)
        ensures
            r is Some <==> self@.has_task(id),
            match r {
                Some(t) => t@.id == id && self@.tasks.contains(t@),
                None => !self@.has_task(id),
            },
    {
        let mut i: usize = 0;
        while i < self.tasks.len()
            invariant
                i <= self.tasks.len(),
                forall|k: int| 0 <= k < i ==> (#[trigger] self@.tasks[k]).id != id,
            decreases self.tasks.len() - i,
        {
            if self.tasks[i].id == id {
                proof {
                    assert(self@.tasks[i as int] == self.tasks[i as int]@);
                    self@.lemma_has_task(id);
                }
                return Some(&self.tasks[i]);
            }
            i = i + 1;
        }
        proof {
            self@.lemma_has_task(id);
        }
        None
    }

    /// Whether the project has a user with this id.
    pub fn has_user(&self, id: u64) -> (r: bool)
        ensures
            r == self@.has_user(id),
    {
        self.get_user(id).is_some()
    }

    /// Whether the project has a task with this id.
    pub fn has_task(&self, id: u64) -> (r: bool)
        ensures
            r == self@.has_task(id),
    {
        self.get_task(id).is_some()
    }

    /// Whether the user is assigned to the task.
    pub fn is_assigned(&self, user_id: u64, task_id: u64) -> (r: bool)
        ensures
            r == self@.is_assigned(user_id, task_id),
    {
        let mut i: usize = 0;
        while i < self.assignments.len()
            invariant
                i <= self.assignments.len(),
                forall|k: int|
                    0 <= k < i ==> self.assignments@[k] != (Assignment { user_id, task_id }),
            decreases self.assignments.len() - i,
        {
            let a = self.assignments[i];
            if a.user_id == user_id && a.task_id == task_id {
                assert(self@.assignments[i as int] == (Assignment { user_id, task_id }));
                return true;
            }
            i = i + 1;
        }
        false
    }

    /// Assigns the user to the task. Assigning a pair that is assigned
    /// already changes nothing. Where the project has no such user, or has
    /// the user and no such task, it fails and changes nothing.
    pub fn assign_task(&mut self, user_id: u64, task_id: u64) -> (r: Result<(), PicoError>)
        requires
            old(self).wf(),
        ensures
            final(self).wf(),
            match r {
                Ok(()) => old(self)@.has_user(user_id) && old(self)@.has_task(task_id)
                    && final(self)@ == old(self)@.assign(user_id, task_id)
                    && final(self)@.is_assigned(user_id, task_id),
                Err(e) => final(self)@ == old(self)@ && if !old(self)@.has_user(user_id) {
                    e == PicoError::UnknownUser(user_id)
                } else {
                    !old(self)@.has_task(task_id) && e == PicoError::UnknownTask(task_id)
                },
            },
    {
        if !self.has_user(user_id) {
            return Err(PicoError::UnknownUser(user_id));
        }
        if !self.has_task(task_id) {
            return Err(PicoError::UnknownTask(task_id));
        }
        proof {
            old(self)@.lemma_assign(user_id, task_id);
            law_assign_idempotent(old(self)@, user_id, task_id);
        }
        if !self.is_assigned(user_id, task_id) {
            self.assignments.push(Assignment { user_id, task_id });
        }
        Ok(())
    }

    /// Takes the user off the task. Where the user is not assigned to it,
    /// nothing changes.
    pub fn unassign_task(&mut self, user_id: u64, task_id: u64)
        requires
            old(self).wf(),
        ensures
            final(self)@ == old(self)@.unassign(user_id, task_id),
            !final(self)@.is_assigned(user_id, task_id),
            final(self).wf(),
    {
        let ghost keep = |a: Assignment| a != (Assignment { user_id, task_id });
        let mut kept: Vec<Assignment> = Vec::new();
        let mut i: usize = 0;
        while i < self.assignments.len()
            invariant
                i <= self.assignments.len(),
                keep == |a: Assignment| a != (Assignment { user_id, task_id }),
                kept@ == self.assignments@.take(i as int).filter(keep),
            decreases self.assignments.len() - i,
        {
            let a = self.assignments[i];
            proof {
                lemma_filter_take_next(self.assignments@, keep, i as int);
            }
            if !(a.user_id == user_id && a.task_id == task_id) {
                kept.push(a);
            }
            i = i + 1;
        }
        proof {
            assert(self.assignments@.take(self.assignments.len() as int) =~= self.assignments@);
            old(self)@.lemma_unassign(user_id, task_id);
        }
        self.assignments = kept;
    }

    /// Removes the user with the id of `user`, and with it every assignment
    /// of that user. Where the project has no such user, nothing changes.
    pub fn remove_user(&mut self, user: &User)
        requires
            old(self).wf(),
        ensures
            final(self)@ == old(self)@.remove_user(user@.id),
            !final(self)@.has_user(user@.id),
            forall|task_id: u64| !final(self)@.is_assigned(user@.id, task_id),
            final(self).wf(),
    {
        let id = user.id;
        let ghost keep = |u: UserView| u.id != id;
        let ghost keep_a = |a: Assignment| a.user_id != id;
        let mut users: Vec<User> = Vec::new();
        let mut i: usize = 0;
        while i < self.users.len()
            invariant
                i <= self.users.len(),
                keep == |u: UserView| u.id != id,
                user_views(users@) == user_views(self.users@).take(i as int).filter(keep),
            decreases self.users.len() - i,
        {
            proof {
                lemma_filter_take_next(user_views(self.users@), keep, i as int);
            }
            if self.users[i].id != id {
                let copy = self.users[i].clone();
                assert(user_views(users@.push(copy)) =~= user_views(users@).push(copy@));
                users.push(copy);
            }
            i = i + 1;
        }
        let mut kept: Vec<Assignment> = Vec::new();
        let mut j: usize = 0;
        while j < self.assignments.len()
            invariant
                j <= self.assignments.len(),
                keep_a == |a: Assignment| a.user_id != id,
                kept@ == self.assignments@.take(j as int).filter(keep_a),
            decreases self.assignments.len() - j,
        {
            let a = self.assignments[j];
            proof {
                lemma_filter_take_next(self.assignments@, keep_a, j as int);
            }
            if a.user_id != id {
                kept.push(a);
            }
            j = j + 1;
        }
        proof {
            assert(user_views(self.users@).take(self.users.len() as int) =~= user_views(
                self.users@,
            ));
            assert(self.assignments@.take(self.assignments.len() as int) =~= self.assignments@);
            old(self)@.lemma_remove_user(id);
        }
        self.users = users;
        self.assignments = kept;
    }

    /// Removes the task with the id of `task`, and with it every assignment
    /// to that task. Where the project has no such task, nothing changes.
    pub fn remove_task(&mut self, task: &Task)
        requires
            old(self).wf(),
        ensures
            final(self)@ == old(self)@.remove_task(task@.id),
            !final(self)@.has_task(task@.id),
            forall|user_id: u64| !final(self)@.is_assigned(user_id, task@.id),
            final(self).wf(),
    {
        let id = task.id;
        let ghost keep = |t: TaskView| t.id != id;
        let ghost keep_a = |a: Assignment| a.task_id != id;
        let mut tasks: Vec<Task> = Vec::new();
        let mut i: usize = 0;
        while i < self.tasks.len()
            invariant
                i <= self.tasks.len(),
                keep == |t: TaskView| t.id != id,
                task_views(tasks@) == task_views(self.tasks@).take(i as int).filter(keep),
            decreases self.tasks.len() - i,
        {
            proof {
                lemma_filter_take_next(task_views(self.tasks@), keep, i as int);
            }
            if self.tasks[i].id != id {
                let copy = self.tasks[i].clone();
                assert(task_views(tasks@.push(copy)) =~= task_views(tasks@).push(copy@));
                tasks.push(copy);
            }
            i = i + 1;
        }
        let mut kept: Vec<Assignment> = Vec::new();
        let mut j: usize = 0;
        while j < self.assignments.len()
            invariant
                j <= self.assignments.len(),
                keep_a == |a: Assignment| a.task_id != id,
                kept@ == self.assignments@.take(j as int).filter(keep_a),
            decreases self.assignments.len() - j,
        {
            let a = self.assignments[j];
            proof {
                lemma_filter_take_next(self.assignments@, keep_a, j as int);
            }
            if a.task_id != id {
                kept.push(a);
            }
            j = j + 1;
        }
        proof {
            assert(task_views(self.tasks@).take(self.tasks.len() as int) =~= task_views(
                self.tasks@,
            ));
            assert(self.assignments@.take(self.assignments.len() as int) =~= self.assignments@);
            old(self)@.lemma_remove_task(id);
        }
        self.tasks = tasks;
        self.assignments = kept;
    }

    /// The users assigned to the task, in the order in which they were added
    /// to the project. Empty where the task has no users or is not there.
    pub fn get_assigned_users(&self, task_id: u64) -> (r: Vec<&User>)
        ensures
            user_ref_views(r@) == self@.assigned_users(task_id),
    {
        let ghost picked = |u: UserView| self@.is_assigned(u.id, task_id);
        let mut out: Vec<&User> = Vec::new();
        let mut i: usize = 0;
        while i < self.users.len()
            invariant
                i <= self.users.len(),
                picked == |u: UserView| self@.is_assigned(u.id, task_id),
                user_ref_views(out@) == user_views(self.users@).take(i as int).filter(picked),
            decreases self.users.len() - i,
        {
            proof {
                lemma_filter_take_next(user_views(self.users@), picked, i as int);
            }
            let u = &self.users[i];
            if self.is_assigned(u.id, task_id) {
                assert(user_ref_views(out@.push(u)) =~= user_ref_views(out@).push(u@));
                out.push(u);
            }
            i = i + 1;
        }
        assert(user_views(self.users@).take(self.users.len() as int) =~= user_views(self.users@));
        out
    }

    /// The assignments and the two id counters, as they are written to a
    /// record.
    pub(crate) fn bookkeeping(&self) -> (r: (Vec<Assignment>, u64, u64))
        ensures
            r.0@ == self@.assignments,
            r.1 == self@.next_user_id,
            r.2 == self@.next_task_id,
    {
        (self.assignments.clone(), self.next_user_id, self.next_task_id)
    }

    /// A project made of the given parts, which need not satisfy the
    /// invariant.
    pub(crate) fn from_parts(
        users: Vec<User>,
        tasks: Vec<Task>,
        assignments: Vec<Assignment>,
        next_user_id: u64,
        next_task_id: u64,
    ) -> (p: Project)
        ensures
            p@.users == user_views(users@),
            p@.tasks == task_views(tasks@),
            p@.assignments == assignments@,
            p@.next_user_id == next_user_id,
            p@.next_task_id == next_task_id,
    {
        Project { users, tasks, assignments, next_user_id, next_task_id }
    }

    /// Whether every assignment names a user and a task of the project.
    pub(crate) fn assignments_resolve(&self) -> (r: bool)
        ensures
            r == (forall|k: int|
                0 <= k < self@.assignments.len() ==> self@.has_user(
                    (#[trigger] self@.assignments[k]).user_id,
                ) && self@.has_task(self@.assignments[k].task_id)),
    {
        let mut k: usize = 0;
        while k < self.assignments.len()
            invariant
                k <= self.assignments.len(),
                forall|m: int|
                    0 <= m < k ==> self@.has_user((#[trigger] self@.assignments[m]).user_id)
                        && self@.has_task(self@.assignments[m].task_id),
            decreases self.assignments.len() - k,
        {
            let a = self.assignments[k];
            assert(a == self@.assignments[k as int]);
            if !self.has_user(a.user_id) || !self.has_task(a.task_id) {
                return false;
            }
            k = k + 1;
        }
        true
    }
}

} // verus!
