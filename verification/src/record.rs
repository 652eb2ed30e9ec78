//! The project as it is written to the store file: plain lists and the two
//! id counters. Turning a record into text and back is the caller's part;
//! deciding whether a record holds a project is done here.

use vstd::prelude::*;
use crate::error::PicoError;
use crate::model::{
    copy_tasks, copy_users, task_views, user_views, Assignment, Task, TaskView, User, UserView,
};
use crate::project::Project;
use crate::state::{ids_in_order, task_ids, user_ids, ProjectView};

verus! {

/// One document of the store file.
#[derive(Debug, PartialEq, Eq)]
pub struct ProjectRecord {
    pub users: Vec<User>,
    pub tasks: Vec<Task>,
    pub assignments: Vec<Assignment>,
    pub next_user_id: u64,
    pub next_task_id: u64,
}

/// What a [`ProjectRecord`] holds, as mathematical values. Unlike a
/// [`ProjectView`] it may hold anything: a record comes from a file.
pub struct RecordView {
    pub users: Seq<UserView>,
    pub tasks: Seq<TaskView>,
    pub assignments: Seq<Assignment>,
    pub next_user_id: u64,
    pub next_task_id: u64,
}

impl View for ProjectRecord {
    type V = RecordView;

    open spec fn view(&self) -> RecordView {
        RecordView {
            users: user_views(self.users@),
            tasks: task_views(self.tasks@),
            assignments: self.assignments@,
            next_user_id: self.next_user_id,
            next_task_id: self.next_task_id,
        }
    }
}

impl RecordView {
    /// The project that the record describes, whether or not it is one that
    /// can exist.
    pub open spec fn contents(self) -> ProjectView {
        ProjectView {
            users: self.users,
            tasks: self.tasks,
            assignments: self.assignments,
            next_user_id: self.next_user_id as nat,
            next_task_id: self.next_task_id as nat,
        }
    }

    /// The record describes a project that can exist.
    pub open spec fn valid(self) -> bool {
        self.contents().wf()
    }

    /// The project read from the record, or nothing where the record is not
    /// valid.
    pub open spec fn to_project(self) -> Option<ProjectView> {
        if self.valid() {
            Some(self.contents())
        } else {
            None
        }
    }
}

impl ProjectView {
    /// The record written for the project.
    pub open spec fn to_record(self) -> RecordView {
        RecordView {
            users: self.users,
            tasks: self.tasks,
            assignments: self.assignments,
            next_user_id: self.next_user_id as u64,
            next_task_id: self.next_task_id as u64,
        }
    }
}

/// Writing a project and reading it back gives the same project: the same
/// users and tasks in the same order, the same assignments, the same
/// counters.
pub proof fn law_record_round_trip(p: ProjectView)
    requires
        p.wf(),
    ensures
        p.to_record().valid(),
        p.to_record().to_project() == Some(p),
{
    assert(p.to_record().contents() == p);
}

/// Reading a valid record and writing the project back gives the same
/// record.
pub proof fn law_project_round_trip(r: RecordView)
    requires
        r.valid(),
    ensures
        r.to_project() is Some,
        r.to_project().unwrap().to_record() == r,
{
}

/// The first `upto` of `ids` are non-zero, strictly increasing and below
/// `next`.
spec fn prefix_in_order(ids: Seq<u64>, next: nat, upto: int) -> bool {
    &&& forall|i: int| 0 <= i < upto ==> 1 <= #[trigger] ids[i] < next
    &&& forall|i: int, j: int| 0 <= i < j < upto ==> #[trigger] ids[i] < #[trigger] ids[j]
}

fn user_ids_in_order(users: &Vec<User>, next: u64) -> (r: bool)
    ensures
        r == ids_in_order(user_ids(user_views(users@)), next as nat),
{
    let ghost ids = user_ids(user_views(users@));
    let mut i: usize = 0;
    let mut last: u64 = 0;
    while i < users.len()
        invariant
            i <= users.len(),
            ids == user_ids(user_views(users@)),
            ids.len() == users.len(),
            prefix_in_order(ids, next as nat, i as int),
            i > 0 ==> last == ids[i - 1],
            i == 0 ==> last == 0,
        decreases users.len() - i,
    {
        let id = users[i].id;
        assert(ids[i as int] == id);
        if id <= last || id >= next {
            proof {
                if i > 0 && id <= last {
                    assert(!(ids[i - 1] < ids[i as int]));
                }
            }
            return false;
        }
        last = id;
        i = i + 1;
    }
    true
}

fn task_ids_in_order(tasks: &Vec<Task>, next: u64) -> (r: bool)
    ensures
        r == ids_in_order(task_ids(task_views(tasks@)), next as nat),
{
    let ghost ids = task_ids(task_views(tasks@));
    let mut i: usize = 0;
    let mut last: u64 = 0;
    while i < tasks.len()
        invariant
            i <= tasks.len(),
            ids == task_ids(task_views(tasks@)),
            ids.len() == tasks.len(),
            prefix_in_order(ids, next as nat, i as int),
            i > 0 ==> last == ids[i - 1],
            i == 0 ==> last == 0,
        decreases tasks.len() - i,
    {
        let id = tasks[i].id;
        assert(ids[i as int] == id);
        if id <= last || id >= next {
            proof {
                if i > 0 && id <= last {
                    assert(!(ids[i - 1] < ids[i as int]));
                }
            }
            return false;
        }
        last = id;
        i = i + 1;
    }
    true
}

fn no_assignment_twice(assignments: &Vec<Assignment>) -> (r: bool)
    ensures
        r == assignments@.no_duplicates(),
{
    let mut k: usize = 0;
    while k < assignments.len()
        invariant
            k <= assignments.len(),
            forall|a: int, b: int| 0 <= a < b < k ==> assignments@[a] != assignments@[b],
        decreases assignments.len() - k,
    {
        let x = assignments[k];
        let mut m: usize = 0;
        while m < k
            invariant
                m <= k < assignments.len(),
                x == assignments@[k as int],
                forall|a: int| 0 <= a < m ==> assignments@[a] != x,
            decreases k - m,
        {
            let y = assignments[m];
            if y.user_id == x.user_id && y.task_id == x.task_id {
                assert(assignments@[m as int] == assignments@[k as int]);
                return false;
            }
            m = m + 1;
        }
        k = k + 1;
    }
    true
}

impl Project {
    /// The record to write for this project.
    pub fn to_record(&self) -> (r: ProjectRecord)
        requires
            self.wf(),
        ensures
            r@ == self@.to_record(),
            r@.to_project() == Some(self@),
    {
        let users = copy_users(self.get_users());
        let tasks = copy_tasks(self.get_tasks());
        let (assignments, next_user_id, next_task_id) = self.bookkeeping();
        proof {
            law_record_round_trip(self@);
        }
        ProjectRecord { users, tasks, assignments, next_user_id, next_task_id }
    }

    /// The project that a record holds. It fails with `CorruptData` exactly
    /// where the record is not valid: an id that is zero, out of order or
    /// not below its counter, an assignment that occurs twice, or one that
    /// names a user or a task that is not there.
    pub fn from_record(record: ProjectRecord) -> (r: Result<Project, PicoError>)
        ensures
            match r {
                Ok(p) => p.wf() && record@.to_project() == Some(p@),
                Err(e) => e == PicoError::CorruptData && record@.to_project() is None,
            },
    {
        let ghost v = record@;
        if record.next_user_id < 1 || record.next_task_id < 1 {
            return Err(PicoError::CorruptData);
        }
        if !user_ids_in_order(&record.users, record.next_user_id) {
            return Err(PicoError::CorruptData);
        }
        if !task_ids_in_order(&record.tasks, record.next_task_id) {
            return Err(PicoError::CorruptData);
        }
        if !no_assignment_twice(&record.assignments) {
            return Err(PicoError::CorruptData);
        }
        let p = Project::from_parts(
            record.users,
            record.tasks,
            record.assignments,
            record.next_user_id,
            record.next_task_id,
        );
        assert(p@ == v.contents());
        if !p.assignments_resolve() {
            return Err(PicoError::CorruptData);
        }
        Ok(p)
    }
}

} // verus!
