use pico::commands::users::{
    add_users, assign_users, collect_candidates, email_label, get_users_assigned_mod_list,
    get_users_mod_list, parse_author_line, remove_users, room_for_users, unassign_users,
    user_command, UserCommand, UserItem,
};
use pico::error::PicoError;
use pico::model::User;
use pico::project::Project;

fn item(name: &str, email: &str) -> UserItem {
    UserItem { name: name.to_string(), git_email: email.to_string() }
}

fn stranger(id: u64) -> User {
    User { id, name: "Stranger".to_string(), git_email: None }
}

fn sample() -> Project {
    let mut p = Project::new();
    p.add_user("Alice", Some("a@x.com"));
    p.add_user("Bob", None);
    p.add_user("Carol", Some("c@x.com"));
    p.add_task("write");
    p.add_task("review");
    p
}

#[test]
fn mod_list_copies_all_users_in_order() {
    let p = sample();
    let list = get_users_mod_list(&p);
    assert_eq!(&list, p.get_users());
    assert_eq!(list.len(), 3);
    assert_eq!(list[2].name, "Carol");
    assert!(get_users_mod_list(&Project::new()).is_empty());
}

#[test]
fn assigned_mod_list_copies_assigned_users() {
    let mut p = sample();
    p.assign_task(3, 1).unwrap();
    p.assign_task(1, 1).unwrap();
    let list = get_users_assigned_mod_list(&p, 1);
    let ids: Vec<u64> = list.iter().map(|u| u.id).collect();
    assert_eq!(ids, vec![1, 3]);
    assert_eq!(list[0].git_email, Some("a@x.com".to_string()));
    assert!(get_users_assigned_mod_list(&p, 2).is_empty());
    assert!(get_users_assigned_mod_list(&p, 9).is_empty());
}

#[test]
fn email_label_shows_address_or_placeholder() {
    let p = sample();
    assert_eq!(email_label(p.get_user(1).unwrap()), "a@x.com");
    assert_eq!(email_label(p.get_user(2).unwrap()), "No email");
}

#[test]
fn assign_users_assigns_all_selected() {
    let mut p = sample();
    let selected = vec![p.get_user(3).unwrap().clone(), p.get_user(1).unwrap().clone()];
    assert_eq!(assign_users(&mut p, &selected, 2), Ok(()));
    assert!(p.is_assigned(1, 2));
    assert!(p.is_assigned(3, 2));
    assert!(!p.is_assigned(2, 2));
    let once = p.to_record();
    assert_eq!(assign_users(&mut p, &selected, 2), Ok(()));
    assert_eq!(p.to_record(), once);
}

#[test]
fn assign_users_is_all_or_nothing() {
    let mut p = sample();
    let before = p.to_record();
    let selected = vec![p.get_user(1).unwrap().clone(), stranger(9)];
    assert_eq!(assign_users(&mut p, &selected, 1), Err(PicoError::UnknownUser(9)));
    assert_eq!(p.to_record(), before);
    let selected = vec![p.get_user(1).unwrap().clone()];
    assert_eq!(assign_users(&mut p, &selected, 7), Err(PicoError::UnknownTask(7)));
    assert_eq!(p.to_record(), before);
    assert_eq!(assign_users(&mut p, &Vec::new(), 7), Ok(()));
    assert_eq!(p.to_record(), before);
}

#[test]
fn unassign_users_takes_selected_off() {
    let mut p = sample();
    p.assign_task(1, 1).unwrap();
    p.assign_task(2, 1).unwrap();
    p.assign_task(3, 1).unwrap();
    p.assign_task(1, 2).unwrap();
    let selected = vec![p.get_user(1).unwrap().clone(), p.get_user(3).unwrap().clone(), stranger(9)];
    unassign_users(&mut p, &selected, 1);
    assert!(!p.is_assigned(1, 1));
    assert!(p.is_assigned(2, 1));
    assert!(!p.is_assigned(3, 1));
    assert!(p.is_assigned(1, 2));
}

#[test]
fn remove_users_removes_selected() {
    let mut p = sample();
    p.assign_task(1, 1).unwrap();
    p.assign_task(2, 1).unwrap();
    let selected = vec![p.get_user(1).unwrap().clone(), stranger(9), p.get_user(3).unwrap().clone()];
    remove_users(&mut p, &selected);
    let ids: Vec<u64> = p.get_users().iter().map(|u| u.id).collect();
    assert_eq!(ids, vec![2]);
    assert!(!p.is_assigned(1, 1));
    assert!(p.is_assigned(2, 1));
}

#[test]
fn add_users_adds_each_with_its_address() {
    let mut p = sample();
    let chosen = vec![item("Dave", "d@x.com"), item("Eve", "e@x.com")];
    assert!(room_for_users(&p, chosen.len()));
    add_users(&mut p, &chosen);
    let dave = p.get_user(4).unwrap();
    assert_eq!(dave.name, "Dave");
    assert_eq!(dave.git_email, Some("d@x.com".to_string()));
    let eve = p.get_user(5).unwrap();
    assert_eq!(eve.name, "Eve");
    assert_eq!(eve.git_email, Some("e@x.com".to_string()));
    assert_eq!(p.get_users().len(), 5);
}

#[test]
fn parse_author_line_splits_name_and_address() {
    assert_eq!(parse_author_line("Alice | a@x.com"), Some(item("Alice", "a@x.com")));
    assert_eq!(
        parse_author_line("Ann Lee | ann@x.com | sort -u"),
        Some(item("Ann Lee", "ann@x.com"))
    );
    assert_eq!(parse_author_line(" | "), Some(item("", "")));
    assert_eq!(parse_author_line("a | "), Some(item("a", "")));
    assert_eq!(parse_author_line(" | b"), Some(item("", "b")));
    assert_eq!(parse_author_line("Zoë Müller | zoë@x.com"), Some(item("Zoë Müller", "zoë@x.com")));
}

#[test]
fn parse_author_line_needs_a_separator() {
    assert_eq!(parse_author_line(""), None);
    assert_eq!(parse_author_line("Alice"), None);
    assert_eq!(parse_author_line("Alice|a@x.com"), None);
    assert_eq!(parse_author_line("Alice |a@x.com"), None);
    assert_eq!(parse_author_line(" |"), None);
}

#[test]
fn collect_candidates_keeps_each_address_once() {
    let lines = vec![
        "Alice | a@x.com".to_string(),
        "Bob | b@x.com".to_string(),
        "no separator here".to_string(),
        "Alice Smith | a@x.com".to_string(),
        "Carol | c@x.com".to_string(),
        "Robert | b@x.com".to_string(),
    ];
    assert_eq!(
        collect_candidates(&lines),
        vec![item("Alice Smith", "a@x.com"), item("Robert", "b@x.com"), item("Carol", "c@x.com")]
    );
    assert!(collect_candidates(&Vec::new()).is_empty());
}

#[test]
fn user_command_knows_the_six_subcommands() {
    assert_eq!(user_command("add"), Some(UserCommand::Add));
    assert_eq!(user_command("remove"), Some(UserCommand::Remove));
    assert_eq!(user_command("assign"), Some(UserCommand::Assign));
    assert_eq!(user_command("unassign"), Some(UserCommand::Unassign));
    assert_eq!(user_command("list"), Some(UserCommand::List));
    assert_eq!(user_command("print"), Some(UserCommand::Print));
    assert_eq!(user_command(""), None);
    assert_eq!(user_command("Add"), None);
    assert_eq!(user_command("adds"), None);
}
