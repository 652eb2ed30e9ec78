use pico::data_storage::{
    check_pico_dir, load_project, store_file_name, store_project, PicoPath, ReadOutcome,
};
use pico::error::PicoError;
use pico::model::{Assignment, Task, User};
use pico::project::Project;
use pico::record::ProjectRecord;

fn user(id: u64, name: &str) -> User {
    User { id, name: name.to_string(), git_email: None }
}

fn task(id: u64, title: &str) -> Task {
    Task { id, title: title.to_string() }
}

fn valid_record() -> ProjectRecord {
    ProjectRecord {
        users: vec![user(1, "Alice"), user(3, "Carol")],
        tasks: vec![task(2, "review")],
        assignments: vec![
            Assignment { user_id: 3, task_id: 2 },
            Assignment { user_id: 1, task_id: 2 },
        ],
        next_user_id: 4,
        next_task_id: 3,
    }
}

fn corrupt(record: ProjectRecord) {
    assert_eq!(Project::from_record(record).err(), Some(PicoError::CorruptData));
}

#[test]
fn store_file_is_dot_pico() {
    assert_eq!(store_file_name(), ".pico");
}

#[test]
fn check_pico_dir_tells_the_three_outcomes() {
    assert_eq!(
        check_pico_dir(Err("no git here".to_string()), false),
        PicoPath::NotFound("no git here".to_string())
    );
    assert_eq!(
        check_pico_dir(Err("no git here".to_string()), true),
        PicoPath::NotFound("no git here".to_string())
    );
    assert_eq!(
        check_pico_dir(Ok("/repo/.pico".to_string()), false),
        PicoPath::FoundNotInit("/repo/.pico".to_string())
    );
    assert_eq!(
        check_pico_dir(Ok("/repo/.pico".to_string()), true),
        PicoPath::Found("/repo/.pico".to_string())
    );
}

#[test]
fn scenario_root_without_store() {
    let pico = check_pico_dir(Ok("/repo/.pico".to_string()), false);
    assert_eq!(
        pico.load_target(),
        Err(PicoError::NotInitialized("/repo/.pico".to_string()))
    );
    let empty = Project::new();
    let (path, record) = store_project(&empty, &pico).unwrap();
    assert_eq!(path, "/repo/.pico");
    let pico = check_pico_dir(Ok("/repo/.pico".to_string()), true);
    assert_eq!(pico.load_target(), Ok("/repo/.pico".to_string()));
    let loaded = load_project(ReadOutcome::Parsed(record)).unwrap();
    assert_eq!(loaded.to_record(), empty.to_record());
    assert!(loaded.get_users().is_empty());
    assert!(loaded.get_tasks().is_empty());
}

#[test]
fn scenario_no_repository_root() {
    let pico = check_pico_dir(Err("not a git repository".to_string()), false);
    assert_eq!(
        pico.load_target(),
        Err(PicoError::DiscoveryFailed("not a git repository".to_string()))
    );
    assert_eq!(
        pico.store_target(),
        Err(PicoError::DiscoveryFailed("not a git repository".to_string()))
    );
    assert_eq!(
        store_project(&Project::new(), &pico).err(),
        Some(PicoError::DiscoveryFailed("not a git repository".to_string()))
    );
}

#[test]
fn store_target_accepts_both_found_outcomes() {
    assert_eq!(PicoPath::Found("a".to_string()).store_target(), Ok("a".to_string()));
    assert_eq!(PicoPath::FoundNotInit("b".to_string()).store_target(), Ok("b".to_string()));
}

#[test]
fn load_project_maps_read_failures() {
    assert_eq!(
        load_project(ReadOutcome::Unreadable("permission denied".to_string())).err(),
        Some(PicoError::Io("permission denied".to_string()))
    );
    assert_eq!(load_project(ReadOutcome::Malformed).err(), Some(PicoError::CorruptData));
    let mut bad = valid_record();
    bad.next_user_id = 3;
    assert_eq!(load_project(ReadOutcome::Parsed(bad)).err(), Some(PicoError::CorruptData));
}

#[test]
fn round_trip_keeps_everything() {
    let mut p = Project::new();
    p.add_user("Alice", Some("a@x.com"));
    p.add_user("Bob", None);
    p.add_user("Carol", None);
    p.add_task("write");
    p.add_task("review");
    p.assign_task(3, 2).unwrap();
    p.assign_task(1, 2).unwrap();
    p.assign_task(1, 1).unwrap();
    let bob = p.get_user(2).unwrap().clone();
    p.remove_user(&bob);
    let record = p.to_record();
    assert_eq!(record.next_user_id, 4);
    assert_eq!(record.next_task_id, 3);
    let back = Project::from_record(p.to_record()).unwrap();
    assert_eq!(back.to_record(), record);
    assert_eq!(back.get_users(), p.get_users());
    assert_eq!(back.get_tasks(), p.get_tasks());
    assert_eq!(back.get_assigned_users(2), p.get_assigned_users(2));
    let mut back = back;
    assert_eq!(back.add_user("Dave", None).id, 4);
}

#[test]
fn from_record_accepts_a_valid_record() {
    let p = Project::from_record(valid_record()).unwrap();
    assert_eq!(p.to_record(), valid_record());
    let assigned: Vec<u64> = p.get_assigned_users(2).iter().map(|u| u.id).collect();
    assert_eq!(assigned, vec![1, 3]);
}

#[test]
fn from_record_rejects_zero_id() {
    let mut r = valid_record();
    r.users = vec![user(0, "Zero"), user(3, "Carol")];
    r.assignments = vec![];
    corrupt(r);
}

#[test]
fn from_record_rejects_ids_out_of_order() {
    let mut r = valid_record();
    r.users = vec![user(3, "Carol"), user(1, "Alice")];
    corrupt(r);
    let mut r = valid_record();
    r.users = vec![user(1, "Alice"), user(1, "Again")];
    r.assignments = vec![];
    corrupt(r);
}

#[test]
fn from_record_rejects_id_not_below_counter() {
    let mut r = valid_record();
    r.next_user_id = 3;
    corrupt(r);
    let mut r = valid_record();
    r.next_task_id = 2;
    corrupt(r);
}

#[test]
fn from_record_rejects_zero_counter() {
    let r = ProjectRecord {
        users: vec![],
        tasks: vec![],
        assignments: vec![],
        next_user_id: 0,
        next_task_id: 1,
    };
    corrupt(r);
    let r = ProjectRecord {
        users: vec![],
        tasks: vec![],
        assignments: vec![],
        next_user_id: 1,
        next_task_id: 0,
    };
    corrupt(r);
}

#[test]
fn from_record_rejects_repeated_assignment() {
    let mut r = valid_record();
    r.assignments.push(Assignment { user_id: 3, task_id: 2 });
    corrupt(r);
}

#[test]
fn from_record_rejects_dangling_assignment() {
    let mut r = valid_record();
    r.assignments = vec![Assignment { user_id: 2, task_id: 2 }];
    corrupt(r);
    let mut r = valid_record();
    r.assignments = vec![Assignment { user_id: 1, task_id: 1 }];
    corrupt(r);
}
