//! The user commands: which users are offered for selection, and what is
//! done with those selected.

use vstd::prelude::*;
use crate::error::PicoError;
use crate::model::{copy_users, user_ref_views, user_views, User};
use crate::project::Project;
use crate::state::{NewUser, ProjectView};

verus! {

/// The ids of `users`, in order.
pub open spec fn ids_of(users: Seq<User>) -> Seq<u64> {
    users.map_values(|u: User| u.id)
}

impl ProjectView {
    /// Why assigning `user_ids` to the task, first to last, would fail: the
    /// failure of the first assignment that would, or nothing where all of
    /// them go through.
    pub open spec fn assign_failure(self, user_ids: Seq<u64>, task_id: u64) -> Option<PicoError>
        decreases user_ids.len(),
    {
        if user_ids.len() == 0 {
            None
        } else if !self.has_user(user_ids[0]) {
            Some(PicoError::UnknownUser(user_ids[0]))
        } else if !self.has_task(task_id) {
            Some(PicoError::UnknownTask(task_id))
        } else {
            self.assign_failure(user_ids.drop_first(), task_id)
        }
    }
}

/// The users offered for selection: a copy of each user of the project, in
/// the order in which they were added.
pub fn get_users_mod_list(p: &Project) -> (r: Vec<User>)
    ensures
        user_views(r@) == p@.users,
{
    copy_users(p.get_users())
}

/// The users offered for taking off a task: a copy of each user assigned to
/// it, in the order in which they were added to the project.
pub fn get_users_assigned_mod_list(p: &Project, task_id: u64) -> (r: Vec<User>)
    ensures
        user_views(r@) == p@.assigned_users(task_id),
{
    let assigned = p.get_assigned_users(task_id);
    let mut out: Vec<User> = Vec::new();
    let mut i: usize = 0;
    while i < assigned.len()
        invariant
            i <= assigned.len(),
            user_views(out@) == user_ref_views(assigned@).take(i as int),
        decreases assigned.len() - i,
    {
        let copy = assigned[i].clone();
        assert(user_views(out@.push(copy)) =~= user_views(out@).push(copy@));
        assert(user_ref_views(assigned@).take(i + 1) =~= user_ref_views(assigned@).take(
            i as int,
        ).push(assigned@[i as int]@));
        out.push(copy);
        i = i + 1;
    }
    assert(user_ref_views(assigned@).take(assigned.len() as int)
        =~= user_ref_views(assigned@));
    out
}

/// The e-mail address to show for a user: the address, or `No email`.
pub fn email_label(user: &User) -> (r: &str)
    ensures
        r@ == match user@.git_email {
            Some(e) => e,
            None => "No email"@,
        },
{
    match &user.git_email {
        Some(e) => e.as_str(),
        None => "No email",
    }
}

/// Assigns each of the selected users to the task, first to last. All of
/// them are assigned or none: where one assignment would fail, the project
/// stays as it was and the failure of the first such assignment is
/// returned.
pub fn assign_users(p: &mut Project, selected: &Vec<User>, task_id: u64) -> (r: Result<
    (),
    PicoError,
>)
    requires
        old(p).wf(),
    ensures
        final(p).wf(),
        match r {
            Ok(()) => old(p)@.assign_failure(ids_of(selected@), task_id) is None && final(p)@
                == old(p)@.assign_all(ids_of(selected@), task_id),
            Err(e) => old(p)@.assign_failure(ids_of(selected@), task_id) == Some(e) && final(p)@
                == old(p)@,
        },
{
    let ghost ids = ids_of(selected@);
    let mut i: usize = 0;
    assert(ids.skip(0) =~= ids);
    while i < selected.len()
        invariant
            i <= selected.len(),
            ids == ids_of(selected@),
            p@ == old(p)@,
            p.wf(),
            p@.assign_failure(ids, task_id) == p@.assign_failure(ids.skip(i as int), task_id),
            forall|k: int| 0 <= k < i ==> p@.has_user(#[trigger] ids[k]) && p@.has_task(task_id),
        decreases selected.len() - i,
    {
        let id = selected[i].id;
        assert(ids.skip(i as int)[0] == id);
        assert(ids.skip(i as int).drop_first() =~= ids.skip(i + 1));
        if !p.has_user(id) {
            return Err(PicoError::UnknownUser(id));
        }
        if !p.has_task(task_id) {
            return Err(PicoError::UnknownTask(task_id));
        }
        i = i + 1;
    }
    assert(ids.skip(selected.len() as int).len() == 0);
    let mut j: usize = 0;
    while j < selected.len()
        invariant
            j <= selected.len(),
            ids == ids_of(selected@),
            ids.len() == selected.len(),
            p.wf(),
            p@ == old(p)@.assign_all(ids.take(j as int), task_id),
            p@.users == old(p)@.users,
            p@.tasks == old(p)@.tasks,
            forall|k: int|
                0 <= k < ids.len() ==> old(p)@.has_user(#[trigger] ids[k]) && old(p)@.has_task(
                    task_id,
                ),
        decreases selected.len() - j,
    {
        let id = selected[j].id;
        assert(ids[j as int] == id);
        assert(ids.take(j + 1).drop_last() =~= ids.take(j as int));
        let done = p.assign_task(id, task_id);
        assert(done is Ok);
        j = j + 1;
    }
    assert(ids.take(selected.len() as int) =~= ids);
    Ok(())
}

/// Takes each of the selected users off the task, first to last. A user
/// who is not assigned to it is passed over.
pub fn unassign_users(p: &mut Project, selected: &Vec<User>, task_id: u64)
    requires
        old(p).wf(),
    ensures
        final(p).wf(),
        final(p)@ == old(p)@.unassign_all(ids_of(selected@), task_id),
{
    let ghost ids = ids_of(selected@);
    let mut j: usize = 0;
    while j < selected.len()
        invariant
            j <= selected.len(),
            ids == ids_of(selected@),
            p.wf(),
            p@ == old(p)@.unassign_all(ids.take(j as int), task_id),
        decreases selected.len() - j,
    {
        let id = selected[j].id;
        assert(ids[j as int] == id);
        assert(ids.take(j + 1).drop_last() =~= ids.take(j as int));
        p.unassign_task(id, task_id);
        j = j + 1;
    }
    assert(ids.take(selected.len() as int) =~= ids);
}

/// Removes each of the selected users, first to last, with their
/// assignments. A user who is not in the project is passed over.
pub fn remove_users(p: &mut Project, selected: &Vec<User>)
    requires
        old(p).wf(),
    ensures
        final(p).wf(),
        final(p)@ == old(p)@.remove_users(ids_of(selected@)),
{
    let ghost ids = ids_of(selected@);
    let mut j: usize = 0;
    while j < selected.len()
        invariant
            j <= selected.len(),
            ids == ids_of(selected@),
            p.wf(),
            p@ == old(p)@.remove_users(ids.take(j as int)),
        decreases selected.len() - j,
    {
        assert(ids[j as int] == selected[j as int].id);
        assert(ids.take(j + 1).drop_last() =~= ids.take(j as int));
        p.remove_user(&selected[j]);
        j = j + 1;
    }
    assert(ids.take(selected.len() as int) =~= ids);
}

/// A person found in version-control history, offered as a user to add.
#[derive(Debug, PartialEq, Eq)]
pub struct UserItem {
    pub name: String,
    pub git_email: String,
}

/// What a [`UserItem`] is, as mathematical values.
pub struct UserItemView {
    pub name: Seq<char>,
    pub git_email: Seq<char>,
}

impl View for UserItem {
    type V = UserItemView;

    open spec fn view(&self) -> UserItemView {
        UserItemView { name: self.name@, git_email: self.git_email@ }
    }
}

/// The views of a sequence of items, in the same order.
pub open spec fn item_views(s: Seq<UserItem>) -> Seq<UserItemView> {
    s.map_values(|i: UserItem| i@)
}

/// The users to add for the chosen items: each with its name and its
/// address.
pub open spec fn entries_of(items: Seq<UserItem>) -> Seq<NewUser> {
    items.map_values(|i: UserItem| (i.name@, Some(i.git_email@)))
}

/// Whether `count` more users can be added: the ids are not used up.
pub fn room_for_users(p: &Project, count: usize) -> (r: bool)
    ensures
        r == (p@.next_user_id + count <= u64::MAX),
{
    let (_, next, _) = p.bookkeeping();
    count as u64 <= u64::MAX - next
}

/// Adds each of the chosen items as a user, first to last, each under the
/// next unused id.
pub fn add_users(p: &mut Project, chosen: &Vec<UserItem>)
    requires
        old(p).wf(),
        old(p)@.next_user_id + chosen.len() <= u64::MAX,
    ensures
        final(p).wf(),
        final(p)@ == old(p)@.add_users(entries_of(chosen@)),
{
    let ghost entries = entries_of(chosen@);
    let mut j: usize = 0;
    while j < chosen.len()
        invariant
            j <= chosen.len(),
            entries == entries_of(chosen@),
            p.wf(),
            p@ == old(p)@.add_users(entries.take(j as int)),
            p@.next_user_id == old(p)@.next_user_id + j,
            old(p)@.next_user_id + chosen.len() <= u64::MAX,
        decreases chosen.len() - j,
    {
        let item = &chosen[j];
        assert(entries[j as int] == (item.name@, Some(item.git_email@)));
        assert(entries.take(j + 1).drop_last() =~= entries.take(j as int));
        let _ = p.add_user(item.name.as_str(), Some(item.git_email.as_str()));
        j = j + 1;
    }
    assert(entries.take(chosen.len() as int) =~= entries);
}

/// The separator ` | ` stands in `s` at position `i`.
pub open spec fn sep_at(s: Seq<char>, i: int) -> bool {
    &&& 0 <= i
    &&& i + 3 <= s.len()
    &&& s[i] == ' '
    &&& s[i + 1] == '|'
    &&& s[i + 2] == ' '
}

/// The position of the first separator in `s` at or after `from`, or the
/// length of `s` where there is none.
pub open spec fn next_sep(s: Seq<char>, from: int) -> int
    decreases s.len() - from,
{
    if from < 0 || from + 3 > s.len() {
        s.len() as int
    } else if sep_at(s, from) {
        from
    } else {
        next_sep(s, from + 1)
    }
}

/// What [`next_sep`] finds: a separator with none before it, or the end of
/// `s` with no separator at all.
pub proof fn lemma_next_sep(s: Seq<char>, from: int)
    requires
        0 <= from <= s.len(),
    ensures
        from <= next_sep(s, from) <= s.len(),
        next_sep(s, from) < s.len() ==> sep_at(s, next_sep(s, from)),
        forall|k: int| from <= k < next_sep(s, from) ==> !sep_at(s, k),
    decreases s.len() - from,
{
    if from + 3 <= s.len() && !sep_at(s, from) {
        lemma_next_sep(s, from + 1);
    }
}

/// The person that a line of history names. The line holds the name, a
/// separator and the address; what follows a second separator is not part
/// of the address. A line without a separator names nobody.
pub open spec fn author_of(line: Seq<char>) -> Option<UserItemView> {
    let first = next_sep(line, 0);
    if first >= line.len() {
        None
    } else {
        Some(
            UserItemView {
                name: line.subrange(0, first),
                git_email: line.subrange(first + 3, next_sep(line, first + 3)),
            },
        )
    }
}

/// The addresses of `items`, in order.
pub open spec fn emails_of(items: Seq<UserItemView>) -> Seq<Seq<char>> {
    items.map_values(|i: UserItemView| i.git_email)
}

/// `found` with `item` taken in: in the place of the item that has the
/// same address, or at the end where none has.
pub open spec fn upsert(found: Seq<UserItemView>, item: UserItemView) -> Seq<UserItemView> {
    match emails_of(found).index_of_first(item.git_email) {
        Some(k) => found.update(k, item),
        None => found.push(item),
    }
}

/// The people that the lines of history name, each address once: in the
/// order in which the addresses first occur, each with the name of the last
/// line that holds the address.
pub open spec fn candidates(lines: Seq<Seq<char>>) -> Seq<UserItemView>
    decreases lines.len(),
{
    if lines.len() == 0 {
        Seq::empty()
    } else {
        let before = candidates(lines.drop_last());
        match author_of(lines.last()) {
            Some(item) => upsert(before, item),
            None => before,
        }
    }
}

/// The views of a sequence of strings, in the same order.
pub open spec fn line_views(lines: Seq<String>) -> Seq<Seq<char>> {
    lines.map_values(|l: String| l@)
}

/// Taking an item in keeps the addresses free of duplicates.
pub proof fn lemma_upsert_distinct(found: Seq<UserItemView>, item: UserItemView)
    requires
        emails_of(found).no_duplicates(),
    ensures
        emails_of(upsert(found, item)).no_duplicates(),
        emails_of(upsert(found, item)).contains(item.git_email),
{
    let emails = emails_of(found);
    let after = emails_of(upsert(found, item));
    emails.index_of_first_ensures(item.git_email);
    match emails.index_of_first(item.git_email) {
        Some(k) => {
            assert(after =~= emails);
            assert(after[k] == item.git_email);
        },
        None => {
            assert(after =~= emails.push(item.git_email));
            assert(after[found.len() as int] == item.git_email);
        },
    }
}

/// No address occurs twice among the candidates.
pub proof fn law_candidates_distinct(lines: Seq<Seq<char>>)
    ensures
        emails_of(candidates(lines)).no_duplicates(),
    decreases lines.len(),
{
    if lines.len() > 0 {
        law_candidates_distinct(lines.drop_last());
        if let Some(item) = author_of(lines.last()) {
            lemma_upsert_distinct(candidates(lines.drop_last()), item);
        }
    }
}

/// The position of the first separator in `line` at or after `from`, or
/// `len` where there is none.
fn find_separator(line: &str, len: usize, from: usize) -> (r: usize)
    requires
        len == line@.len(),
        from <= len,
    ensures
        r == next_sep(line@, from as int),
        from <= r <= len,
{
    proof {
        lemma_next_sep(line@, from as int);
    }
    let mut i: usize = from;
    while len - i >= 3
        invariant
            from <= i <= len,
            len == line@.len(),
            next_sep(line@, from as int) == next_sep(line@, i as int),
        decreases len - i,
    {
        if line.get_char(i) == ' ' && line.get_char(i + 1) == '|' && line.get_char(i + 2) == ' ' {
            return i;
        }
        i = i + 1;
    }
    len
}

/// Reads one line of history; see [`author_of`].
pub fn parse_author_line(line: &str) -> (r: Option<UserItem>)
    ensures
        match r {
            Some(item) => author_of(line@) == Some(item@),
            None => author_of(line@) is None,
        },
{
    let len = line.unicode_len();
    let first = find_separator(line, len, 0);
    if first >= len {
        return None;
    }
    proof {
        lemma_next_sep(line@, 0);
    }
    let second = find_separator(line, len, first + 3);
    let name = line.substring_char(0, first).to_owned();
    let git_email = line.substring_char(first + 3, second).to_owned();
    Some(UserItem { name, git_email })
}

/// The people to offer for adding, read from the lines of history; see
/// [`candidates`]. No address is offered twice.
pub fn collect_candidates(lines: &Vec<String>) -> (r: Vec<UserItem>)
    ensures
        item_views(r@) == candidates(line_views(lines@)),
        emails_of(item_views(r@)).no_duplicates(),
{
    let ghost all = line_views(lines@);
    let mut out: Vec<UserItem> = Vec::new();
    let mut i: usize = 0;
    assert(all.take(0) =~= Seq::empty());
    assert(item_views(out@) =~= Seq::empty());
    while i < lines.len()
        invariant
            i <= lines.len(),
            all == line_views(lines@),
            item_views(out@) == candidates(all.take(i as int)),
        decreases lines.len() - i,
    {
        assert(all.take(i + 1).drop_last() =~= all.take(i as int));
        assert(all.take(i + 1).last() == lines@[i as int]@);
        match parse_author_line(lines[i].as_str()) {
            Some(item) => {
                let ghost before = item_views(out@);
                let ghost emails = emails_of(before);
                proof {
                    emails.index_of_first_ensures(item@.git_email);
                }
                let mut k: usize = 0;
                while k < out.len() && out[k].git_email != item.git_email
                    invariant
                        k <= out.len(),
                        before == item_views(out@),
                        emails == emails_of(before),
                        forall|j: int| 0 <= j < k ==> emails[j] != item@.git_email,
                    decreases out.len() - k,
                {
                    assert(emails[k as int] == out@[k as int].git_email@);
                    k = k + 1;
                }
                if k < out.len() {
                    assert(emails[k as int] == out@[k as int].git_email@);
                    assert(emails.index_of_first(item@.git_email) == Some(k as int));
                    assert(item_views(out@.update(k as int, item)) =~= before.update(
                        k as int,
                        item@,
                    ));
                    out.set(k, item);
                } else {
                    assert(!emails.contains(item@.git_email));
                    assert(item_views(out@.push(item)) =~= before.push(item@));
                    out.push(item);
                }
            },
            None => {},
        }
        i = i + 1;
    }
    assert(all.take(lines.len() as int) =~= all);
    proof {
        law_candidates_distinct(all);
    }
    out
}

/// What the user asked for.
#[derive(Debug, Clone, Copy, PartialEq, Eq, Structural)]
pub enum UserCommand {
    Add,
    Remove,
    Assign,
    Unassign,
    List,
    Print,
}

/// The command that a subcommand's name stands for.
pub open spec fn command_named(name: Seq<char>) -> Option<UserCommand> {
    if name == "add"@ {
        Some(UserCommand::Add)
    } else if name == "remove"@ {
        Some(UserCommand::Remove)
    } else if name == "assign"@ {
        Some(UserCommand::Assign)
    } else if name == "unassign"@ {
        Some(UserCommand::Unassign)
    } else if name == "list"@ {
        Some(UserCommand::List)
    } else if name == "print"@ {
        Some(UserCommand::Print)
    } else {
        None
    }
}

fn same_text(a: &str, b: &str) -> (r: bool)
    ensures
        r == (a@ == b@),
{
    a.to_owned() == b.to_owned()
}

/// Tells the subcommands apart by name. A name that is none of them gives
/// nothing.
pub fn user_command(name: &str) -> (r: Option<UserCommand>)
    ensures
        r == command_named(name@),
{
    if same_text(name, "add") {
        Some(UserCommand::Add)
    } else if same_text(name, "remove") {
        Some(UserCommand::Remove)
    } else if same_text(name, "assign") {
        Some(UserCommand::Assign)
    } else if same_text(name, "unassign") {
        Some(UserCommand::Unassign)
    } else if same_text(name, "list") {
        Some(UserCommand::List)
    } else if same_text(name, "print") {
        Some(UserCommand::Print)
    } else {
        None
    }
}

} // verus!
