//! The entities of a project: users, tasks and the assignments between them.

use vstd::prelude::*;

verus! {

/// A person who can be assigned to tasks.
#[derive(Debug, PartialEq, Eq)]
pub struct User {
    pub id: u64,
    pub name: String,
    pub git_email: Option<String>,
}

/// What a [`User`] is, as mathematical values.
pub struct UserView {
    pub id: u64,
    pub name: Seq<char>,
    pub git_email: Option<Seq<char>>,
}

/// A unit of work.
#[derive(Debug, PartialEq, Eq)]
pub struct Task {
    pub id: u64,
    pub title: String,
}

/// What a [`Task`] is, as mathematical values.
pub struct TaskView {
    pub id: u64,
    pub title: Seq<char>,
}

/// One user assigned to one task. It has no identity beyond the pair.
#[derive(Debug, Clone, Copy, PartialEq, Eq, Structural)]
pub struct Assignment {
    pub user_id: u64,
    pub task_id: u64,
}

/// The view of an optional string.
pub open spec fn opt_text(s: Option<String>) -> Option<Seq<char>> {
    match s {
        Some(t) => Some(t@),
        None => None,
    }
}

/// The view of an optional string slice.
pub open spec fn opt_str(s: Option<&str>) -> Option<Seq<char>> {
    match s {
        Some(t) => Some(t@),
        None => None,
    }
}

impl View for User {
    type V = UserView;

    open spec fn view(&self) -> UserView {
        UserView { id: self.id, name: self.name@, git_email: opt_text(self.git_email) }
    }
}

impl View for Task {
    type V = TaskView;

    open spec fn view(&self) -> TaskView {
        TaskView { id: self.id, title: self.title@ }
    }
}

/// The views of a sequence of users, in the same order.
pub open spec fn user_views(s: Seq<User>) -> Seq<UserView> {
    s.map_values(|u: User| u@)
}

/// The views of a sequence of borrowed users, in the same order.
pub open spec fn user_ref_views(s: Seq<&User>) -> Seq<UserView> {
    s.map_values(|u: &User| u@)
}

/// The views of a sequence of tasks, in the same order.
pub open spec fn task_views(s: Seq<Task>) -> Seq<TaskView> {
    s.map_values(|t: Task| t@)
}

impl Clone for User {
    fn clone(&self) -> (r: Self)
        ensures
            r == *self,
    {
        let git_email = match &self.git_email {
            Some(e) => Some(e.clone()),
            None => None,
        };
        User { id: self.id, name: self.name.clone(), git_email }
    }
}

impl Clone for Task {
    fn clone(&self) -> (r: Self)
        ensures
            r == *self,
    {
        Task { id: self.id, title: self.title.clone() }
    }
}

impl User {
    /// The user's id.
    pub fn id(&self) -> (r: u64)
        ensures
            r == self@.id,
    {
        self.id
    }

    /// The user's name.
    pub fn name(&self) -> (r: &str)
        ensures
            r@ == self@.name,
    {
        self.name.as_str()
    }

    /// The user's e-mail address in version-control history, if one is known.
    pub fn git_email(&self) -> (r: Option<&str>)
        ensures
            opt_str(r) == self@.git_email,
    {
        match &self.git_email {
            Some(e) => Some(e.as_str()),
            None => None,
        }
    }
}

impl Task {
    /// The task's id.
    pub fn id(&self) -> (r: u64)
        ensures
            r == self@.id,
    {
        self.id
    }

    /// The task's title.
    pub fn title(&self) -> (r: &str)
        ensures
            r@ == self@.title,
    {
        self.title.as_str()
    }
}

/// Copies of the users, in the same order.
pub fn copy_users(users: &Vec<User>) -> (r: Vec<User>)
    ensures
        r@ == users@,
{
    let mut out: Vec<User> = Vec::new();
    let mut i: usize = 0;
    while i < users.len()
        invariant
            i <= users.len(),
            out@ == users@.take(i as int),
        decreases users.len() - i,
    {
        let copy = users[i].clone();
        assert(users@.take(i + 1) =~= users@.take(i as int).push(users@[i as int]));
        out.push(copy);
        i = i + 1;
    }
    assert(users@.take(users.len() as int) =~= users@);
    out
}

/// Copies of the tasks, in the same order.
pub fn copy_tasks(tasks: &Vec<Task>) -> (r: Vec<Task>)
    ensures
        r@ == tasks@,
{
    let mut out: Vec<Task> = Vec::new();
    let mut i: usize = 0;
    while i < tasks.len()
        invariant
            i <= tasks.len(),
            out@ == tasks@.take(i as int),
        decreases tasks.len() - i,
    {
        let copy = tasks[i].clone();
        assert(tasks@.take(i + 1) =~= tasks@.take(i as int).push(tasks@[i as int]));
        out.push(copy);
        i = i + 1;
    }
    assert(tasks@.take(tasks.len() as int) =~= tasks@);
    out
}

} // verus!
