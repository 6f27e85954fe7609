use programs::todo_app::{
    create_profile, create_todo, delete_todo, toggle_todo, AppError, Profile, Todo,
    MAX_CONTENT_LEN, MAX_NAME_LEN,
};

const PROFILE_KEY: [u8; 32] = [7; 32];
const CREATOR: [u8; 32] = [9; 32];

fn profile_with(todo_count: u8) -> Profile {
    Profile { key: PROFILE_KEY, name: String::from("ada"), authority: CREATOR, todo_count }
}

#[test]
fn create_profile_records_the_name_and_the_creator() {
    let profile = create_profile(PROFILE_KEY, CREATOR, String::from("ada")).unwrap();
    assert_eq!(profile, profile_with(0));
}

#[test]
fn create_profile_takes_a_name_of_the_longest_length() {
    assert_eq!(MAX_NAME_LEN, 100);
    let name = "n".repeat(100);
    let profile = create_profile(PROFILE_KEY, CREATOR, name.clone()).unwrap();
    assert_eq!(profile.name, name);
    assert_eq!(create_profile(PROFILE_KEY, CREATOR, String::new()).unwrap().name, "");
}

#[test]
fn create_profile_refuses_a_longer_name() {
    assert_eq!(create_profile(PROFILE_KEY, CREATOR, "n".repeat(101)), Err(AppError::NameTooLong));
}

#[test]
fn names_are_measured_in_bytes() {
    // fifty letters of two bytes each fit, fifty-one do not
    assert!(create_profile(PROFILE_KEY, CREATOR, "é".repeat(50)).is_ok());
    assert_eq!(create_profile(PROFILE_KEY, CREATOR, "é".repeat(51)), Err(AppError::NameTooLong));
}

#[test]
fn create_todo_opens_an_item_and_counts_it() {
    let mut profile = profile_with(0);
    let todo = create_todo(&mut profile, String::from("water the plants")).unwrap();
    assert_eq!(
        todo,
        Todo { profile: PROFILE_KEY, content: String::from("water the plants"), completed: false }
    );
    assert_eq!(profile, profile_with(1));
    create_todo(&mut profile, String::new()).unwrap();
    assert_eq!(profile.todo_count, 2);
}

#[test]
fn create_todo_takes_a_text_of_the_longest_length() {
    assert_eq!(MAX_CONTENT_LEN, 200);
    let mut profile = profile_with(254);
    let todo = create_todo(&mut profile, "c".repeat(200)).unwrap();
    assert_eq!(todo.content.len(), 200);
    assert_eq!(profile.todo_count, 255);
}

#[test]
fn create_todo_refuses_a_longer_text() {
    let mut profile = profile_with(3);
    assert_eq!(create_todo(&mut profile, "c".repeat(201)), Err(AppError::ContentTooLong));
    assert_eq!(profile, profile_with(3));
    // a full count plays no part where the text is refused
    let mut profile = profile_with(255);
    assert_eq!(create_todo(&mut profile, "ü".repeat(101)), Err(AppError::ContentTooLong));
    assert_eq!(profile, profile_with(255));
}

#[test]
fn toggle_todo_flips_the_tick() {
    let mut todo = Todo { profile: PROFILE_KEY, content: String::from("read"), completed: false };
    toggle_todo(&mut todo);
    assert_eq!(todo, Todo { profile: PROFILE_KEY, content: String::from("read"), completed: true });
    toggle_todo(&mut todo);
    assert_eq!(
        todo,
        Todo { profile: PROFILE_KEY, content: String::from("read"), completed: false }
    );
}

#[test]
fn delete_todo_counts_down_and_stops_at_zero() {
    let mut profile = profile_with(2);
    delete_todo(&mut profile);
    assert_eq!(profile, profile_with(1));
    delete_todo(&mut profile);
    assert_eq!(profile, profile_with(0));
    delete_todo(&mut profile);
    assert_eq!(profile, profile_with(0));
}
