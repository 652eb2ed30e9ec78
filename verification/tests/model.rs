use pico::error::PicoError;
use pico::model::{Assignment, Task, User};
use pico::project::Project;

fn names(users: &[&User]) -> Vec<String> {
    users.iter().map(|u| u.name.clone()).collect()
}

fn sample() -> Project {
    let mut p = Project::new();
    p.add_user("Alice", Some("a@x.com"));
    p.add_user("Bob", None);
    p.add_user("Carol", Some("c@x.com"));
    p.add_task("write");
    p.add_task("review");
    p
}

#[test]
fn new_project_is_empty() {
    let p = Project::new();
    assert!(p.get_users().is_empty());
    assert!(p.get_tasks().is_empty());
    assert!(p.get_user(1).is_none());
    assert!(p.get_task(1).is_none());
    assert!(p.get_assigned_users(1).is_empty());
    assert!(p.can_add_user());
    assert!(p.can_add_task());
}

#[test]
fn scenario_two_users_one_task() {
    let mut p = Project::new();
    let alice = p.add_user("Alice", Some("a@x.com"));
    assert_eq!(alice.id, 1);
    assert_eq!(alice.name, "Alice");
    assert_eq!(alice.git_email, Some("a@x.com".to_string()));
    let bob = p.add_user("Bob", None);
    assert_eq!(bob.id, 2);
    assert_eq!(bob.git_email, None);
    let task = p.add_task("ship it");
    assert_eq!(task.id, 1);
    assert_eq!(p.assign_task(1, 1), Ok(()));
    assert_eq!(p.assign_task(2, 1), Ok(()));
    let assigned = p.get_assigned_users(1);
    assert_eq!(names(&assigned), vec!["Alice".to_string(), "Bob".to_string()]);
    assert_eq!(assigned[0], &alice);
    assert_eq!(assigned[1], &bob);
}

#[test]
fn added_ids_strictly_increase() {
    let mut p = Project::new();
    let mut last = 0;
    for i in 0..20 {
        let u = p.add_user(&format!("user{}", i), None);
        assert!(u.id > last);
        assert_eq!(u.id, last + 1);
        last = u.id;
    }
    let ids: Vec<u64> = p.get_users().iter().map(|u| u.id).collect();
    assert_eq!(ids, (1..=20).collect::<Vec<u64>>());
}

#[test]
fn removed_id_is_not_handed_out_again() {
    let mut p = sample();
    let carol = p.get_user(3).unwrap().clone();
    p.remove_user(&carol);
    let dave = p.add_user("Dave", None);
    assert_eq!(dave.id, 4);
    let ids: Vec<u64> = p.get_users().iter().map(|u| u.id).collect();
    assert_eq!(ids, vec![1, 2, 4]);
}

#[test]
fn task_ids_are_their_own_sequence() {
    let mut p = sample();
    let t = p.add_task("third");
    assert_eq!(t.id, 3);
    assert_eq!(t.title, "third");
    let write = p.get_task(1).unwrap().clone();
    p.remove_task(&write);
    assert_eq!(p.add_task("fourth").id, 4);
    let ids: Vec<u64> = p.get_tasks().iter().map(|t| t.id).collect();
    assert_eq!(ids, vec![2, 3, 4]);
}

#[test]
fn get_users_keeps_insertion_order() {
    let p = sample();
    let got: Vec<&str> = p.get_users().iter().map(|u| u.name.as_str()).collect();
    assert_eq!(got, vec!["Alice", "Bob", "Carol"]);
}

#[test]
fn get_user_finds_by_id() {
    let p = sample();
    let bob = p.get_user(2).unwrap();
    assert_eq!(bob.name(), "Bob");
    assert_eq!(bob.id(), 2);
    assert_eq!(bob.git_email(), None);
    assert_eq!(p.get_user(1).unwrap().git_email(), Some("a@x.com"));
    assert!(p.get_user(0).is_none());
    assert!(p.get_user(4).is_none());
    assert!(p.has_user(3));
    assert!(!p.has_user(9));
}

#[test]
fn get_task_finds_by_id() {
    let p = sample();
    let t = p.get_task(2).unwrap();
    assert_eq!(t.title(), "review");
    assert_eq!(t.id(), 2);
    assert!(p.get_task(3).is_none());
    assert!(p.has_task(1));
    assert!(!p.has_task(0));
}

#[test]
fn remove_user_forgets_user_and_assignments() {
    let mut p = sample();
    p.assign_task(1, 1).unwrap();
    p.assign_task(2, 1).unwrap();
    p.assign_task(2, 2).unwrap();
    let bob = p.get_user(2).unwrap().clone();
    p.remove_user(&bob);
    assert!(p.get_user(2).is_none());
    assert!(!p.is_assigned(2, 1));
    assert!(!p.is_assigned(2, 2));
    assert!(p.is_assigned(1, 1));
    assert_eq!(names(&p.get_assigned_users(1)), vec!["Alice".to_string()]);
    assert!(p.get_assigned_users(2).is_empty());
    let record = p.to_record();
    assert_eq!(record.assignments, vec![Assignment { user_id: 1, task_id: 1 }]);
}

#[test]
fn remove_absent_user_changes_nothing() {
    let mut p = sample();
    p.assign_task(1, 1).unwrap();
    let before = p.to_record();
    let ghost = User { id: 77, name: "Nobody".to_string(), git_email: None };
    p.remove_user(&ghost);
    assert_eq!(p.to_record(), before);
}

#[test]
fn remove_task_forgets_task_and_assignments() {
    let mut p = sample();
    p.assign_task(1, 1).unwrap();
    p.assign_task(1, 2).unwrap();
    let write = p.get_task(1).unwrap().clone();
    p.remove_task(&write);
    assert!(p.get_task(1).is_none());
    assert!(!p.is_assigned(1, 1));
    assert!(p.is_assigned(1, 2));
    let absent = Task { id: 50, title: "none".to_string() };
    let before = p.to_record();
    p.remove_task(&absent);
    assert_eq!(p.to_record(), before);
}

#[test]
fn assign_twice_is_assign_once() {
    let mut p = sample();
    assert_eq!(p.assign_task(1, 1), Ok(()));
    let once = p.to_record();
    assert_eq!(p.assign_task(1, 1), Ok(()));
    assert_eq!(p.to_record(), once);
    assert_eq!(once.assignments, vec![Assignment { user_id: 1, task_id: 1 }]);
}

#[test]
fn assign_unknown_user_fails() {
    let mut p = sample();
    let before = p.to_record();
    assert_eq!(p.assign_task(9, 1), Err(PicoError::UnknownUser(9)));
    assert_eq!(p.to_record(), before);
}

#[test]
fn assign_unknown_task_fails() {
    let mut p = sample();
    let before = p.to_record();
    assert_eq!(p.assign_task(1, 9), Err(PicoError::UnknownTask(9)));
    assert_eq!(p.to_record(), before);
}

#[test]
fn assign_unknown_user_and_task_reports_the_user() {
    let mut p = sample();
    assert_eq!(p.assign_task(8, 9), Err(PicoError::UnknownUser(8)));
}

#[test]
fn unassign_removes_only_that_pair() {
    let mut p = sample();
    p.assign_task(1, 1).unwrap();
    p.assign_task(2, 1).unwrap();
    p.assign_task(1, 2).unwrap();
    p.unassign_task(1, 1);
    assert!(!p.is_assigned(1, 1));
    assert!(p.is_assigned(2, 1));
    assert!(p.is_assigned(1, 2));
}

#[test]
fn unassign_absent_pair_is_noop() {
    let mut p = sample();
    p.assign_task(1, 1).unwrap();
    let before = p.to_record();
    p.unassign_task(2, 1);
    p.unassign_task(1, 2);
    p.unassign_task(40, 50);
    assert_eq!(p.to_record(), before);
}

#[test]
fn assigned_users_come_in_user_order_without_duplicates() {
    let mut p = sample();
    p.assign_task(3, 1).unwrap();
    p.assign_task(1, 1).unwrap();
    p.assign_task(3, 1).unwrap();
    p.assign_task(2, 2).unwrap();
    assert_eq!(
        names(&p.get_assigned_users(1)),
        vec!["Alice".to_string(), "Carol".to_string()]
    );
    assert_eq!(names(&p.get_assigned_users(2)), vec!["Bob".to_string()]);
}

#[test]
fn assigned_users_of_missing_task_is_empty() {
    let mut p = sample();
    p.assign_task(1, 1).unwrap();
    assert!(p.get_assigned_users(99).is_empty());
    assert!(p.get_assigned_users(2).is_empty());
}
