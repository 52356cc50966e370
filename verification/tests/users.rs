use confidant::text::comes_before;
use confidant::users::{
    create_user, create_user_with, default_language, delete_user,
    equal_ignoring_ascii_case, get_current_user, get_user_language, get_users, latest_chat,
    load_users, require_user, set_current_user, set_user_language, validate_credentials,
    verify_password, ChatSummary, Cleanup, CurrentUser, User, UserPublic,
};

fn user(id: &str, name: &str, hash: &str) -> User {
    User {
        id: id.to_string(),
        name: name.to_string(),
        password_hash: hash.to_string(),
        language: "en".to_string(),
        created_at: "2024-01-01T00:00:00+00:00".to_string(),
    }
}

fn chat(id: &str, updated_at: &str) -> ChatSummary {
    ChatSummary { id: id.to_string(), updated_at: updated_at.to_string() }
}

#[test]
fn default_language_is_english() {
    assert_eq!(default_language(), "en");
}

#[test]
fn credentials_are_checked_in_order() {
    assert_eq!(validate_credentials("  \t ", "x"), Err("User name cannot be empty".to_string()));
    let long = "n".repeat(51);
    assert_eq!(
        validate_credentials(&long, "x"),
        Err("User name is too long (max 50 characters)".to_string())
    );
    assert_eq!(
        validate_credentials("ann", "abc"),
        Err("Password must be at least 4 characters long".to_string())
    );
    assert_eq!(validate_credentials("  ann \n", "abcd"), Ok("ann"));
    assert_eq!(validate_credentials(&"n".repeat(50), "abcd"), Ok("n".repeat(50).as_str()));
}

#[test]
fn lengths_count_bytes() {
    let name = "\u{e9}".repeat(26);
    assert_eq!(
        validate_credentials(&name, "abcd"),
        Err("User name is too long (max 50 characters)".to_string())
    );
    assert_eq!(validate_credentials("ann", "\u{1F600}"), Ok("ann"));
}

#[test]
fn create_user_with_appends_the_profile() {
    let mut users = vec![user("1", "Bob", "h")];
    let created = create_user_with(
        &mut users,
        "  Ann ",
        "secret",
        "id-2".to_string(),
        Ok("hash-2".to_string()),
        "2024-02-02T00:00:00+00:00".to_string(),
    );
    let expected = UserPublic {
        id: "id-2".to_string(),
        name: "Ann".to_string(),
        created_at: "2024-02-02T00:00:00+00:00".to_string(),
    };
    assert_eq!(created, Ok(expected));
    assert_eq!(users.len(), 2);
    assert_eq!(
        users[1],
        User {
            id: "id-2".to_string(),
            name: "Ann".to_string(),
            password_hash: "hash-2".to_string(),
            language: "en".to_string(),
            created_at: "2024-02-02T00:00:00+00:00".to_string(),
        }
    );
}

#[test]
fn create_user_with_refuses_a_taken_name() {
    let mut users = vec![user("1", "Bob", "h")];
    let created = create_user_with(
        &mut users,
        "bOB",
        "secret",
        "id".to_string(),
        Ok("hash".to_string()),
        "now".to_string(),
    );
    assert_eq!(created, Err("A user with this name already exists".to_string()));
    assert_eq!(users.len(), 1);
}

#[test]
fn create_user_with_reports_a_failed_hash() {
    let mut users = Vec::new();
    let created = create_user_with(
        &mut users,
        "Ann",
        "secret",
        "id".to_string(),
        Err("Rand error: unavailable".to_string()),
        "now".to_string(),
    );
    assert_eq!(created, Err("Failed to hash password: Rand error: unavailable".to_string()));
    assert!(users.is_empty());
}

#[test]
fn create_user_hashes_and_stamps() {
    let mut users = Vec::new();
    let public = create_user(&mut users, " Ann ", "secret").unwrap();
    assert_eq!(users.len(), 1);
    let stored = &users[0];
    assert_eq!(stored.name, "Ann");
    assert_eq!(stored.language, "en");
    assert_eq!(public.id, stored.id);
    assert_eq!(public.name, "Ann");
    assert_eq!(public.created_at, stored.created_at);
    assert_eq!(stored.id.len(), 36);
    assert_ne!(stored.password_hash, "secret");
    assert!(stored.password_hash.starts_with("$2"));
    assert!(stored.created_at.contains('T'));
    assert_eq!(verify_password(&users, &stored.id, "secret"), Ok(true));
    assert_eq!(verify_password(&users, &stored.id, "Secret"), Ok(false));
    let again = create_user(&mut users, "ANN", "other-secret");
    assert_eq!(again, Err("A user with this name already exists".to_string()));
    let second = create_user(&mut users, "Ben", "secret").unwrap();
    assert_ne!(second.id, public.id);
    assert_ne!(users[0].password_hash, users[1].password_hash);
}

#[test]
fn create_user_refuses_before_hashing() {
    let mut users = Vec::new();
    assert_eq!(create_user(&mut users, " ", "secret"), Err("User name cannot be empty".to_string()));
    assert_eq!(
        create_user(&mut users, "Ann", "abc"),
        Err("Password must be at least 4 characters long".to_string())
    );
    assert!(users.is_empty());
}

#[test]
fn verify_password_needs_the_user_and_a_proper_hash() {
    let users = vec![user("1", "Bob", "not a hash")];
    assert_eq!(verify_password(&users, "2", "pw"), Err("User not found".to_string()));
    let expected = format!(
        "Failed to verify password: {}",
        bcrypt::verify("pw", "not a hash").unwrap_err()
    );
    assert_eq!(verify_password(&users, "1", "pw"), Err(expected));
}

#[test]
fn verify_password_checks_against_a_known_hash() {
    let hash = "$2y$05$bvIG6Nmid91Mu9RcmmWZfO5HJIMCT8riNW0hEp8f6/FuA2/mHZFpe";
    let users = vec![user("1", "Bob", hash)];
    assert_eq!(verify_password(&users, "1", "password"), Ok(bcrypt::verify("password", hash).unwrap()));
    assert_eq!(verify_password(&users, "1", "passwore"), Ok(bcrypt::verify("passwore", hash).unwrap()));
}

#[test]
fn load_users_drops_profiles_without_password() {
    let stored = vec![user("1", "a", "h1"), user("2", "b", ""), user("3", "c", "h3")];
    let (kept, cleanup) = load_users(stored);
    assert_eq!(kept, vec![user("1", "a", "h1"), user("3", "c", "h3")]);
    assert_eq!(cleanup, Cleanup::Rewrite);
    let (kept, cleanup) = load_users(vec![user("1", "a", ""), user("2", "b", "")]);
    assert!(kept.is_empty());
    assert_eq!(cleanup, Cleanup::Remove);
    let (kept, cleanup) = load_users(vec![user("1", "a", "h")]);
    assert_eq!(kept.len(), 1);
    assert_eq!(cleanup, Cleanup::Nothing);
    let (kept, cleanup) = load_users(Vec::new());
    assert!(kept.is_empty());
    assert_eq!(cleanup, Cleanup::Nothing);
}

#[test]
fn get_users_hides_the_hash() {
    let publics = get_users(&vec![user("1", "a", "h1"), user("2", "b", "h2")]);
    assert_eq!(
        publics,
        vec![
            UserPublic {
                id: "1".to_string(),
                name: "a".to_string(),
                created_at: "2024-01-01T00:00:00+00:00".to_string()
            },
            UserPublic {
                id: "2".to_string(),
                name: "b".to_string(),
                created_at: "2024-01-01T00:00:00+00:00".to_string()
            },
        ]
    );
}

#[test]
fn delete_user_removes_the_first_match_only() {
    let mut users = vec![user("1", "a", "h"), user("2", "b", "h"), user("1", "c", "h")];
    assert_eq!(delete_user(&mut users, "1"), Ok(()));
    assert_eq!(users, vec![user("2", "b", "h"), user("1", "c", "h")]);
    assert_eq!(delete_user(&mut users, "9"), Err("User not found".to_string()));
    assert_eq!(users.len(), 2);
}

#[test]
fn language_is_read_and_set_per_user() {
    let mut users = vec![user("1", "a", "h"), user("2", "b", "h")];
    assert_eq!(get_user_language(&users, "2"), Ok(Some("en".to_string())));
    assert_eq!(set_user_language(&mut users, "2", "fr".to_string()), Ok(()));
    assert_eq!(get_user_language(&users, "2"), Ok(Some("fr".to_string())));
    assert_eq!(get_user_language(&users, "1"), Ok(Some("en".to_string())));
    assert_eq!(users[1].name, "b");
    assert_eq!(users[1].password_hash, "h");
    assert_eq!(get_user_language(&users, "3"), Err("User not found".to_string()));
    assert_eq!(set_user_language(&mut users, "3", "de".to_string()), Err("User not found".to_string()));
}

#[test]
fn current_user_must_exist() {
    let users = vec![user("1", "a", "h")];
    assert_eq!(get_current_user(&users, None), CurrentUser::Nobody);
    assert_eq!(get_current_user(&users, Some("1".to_string())), CurrentUser::LoggedIn("1".to_string()));
    assert_eq!(get_current_user(&users, Some("2".to_string())), CurrentUser::Stale);
    assert_eq!(set_current_user(&users, None), Ok(None));
    assert_eq!(set_current_user(&users, Some("1".to_string())), Ok(Some("1".to_string())));
    assert_eq!(set_current_user(&users, Some("2".to_string())), Err("User not found".to_string()));
    assert_eq!(require_user(&users, "1"), Ok(()));
    assert_eq!(require_user(&users, "2"), Err("User not found".to_string()));
}

#[test]
fn ascii_case_is_ignored_like_std_does() {
    let samples = ["", "a", "A", "Bob", "bOB", "bob ", "\u{e9}", "\u{c9}", "k", "\u{212a}", "@", "`", "[", "{", "Z", "z"];
    for a in samples {
        for b in samples {
            assert_eq!(equal_ignoring_ascii_case(a, b), a.eq_ignore_ascii_case(b), "{:?} {:?}", a, b);
        }
    }
}

#[test]
fn texts_are_ordered_like_std_orders_them() {
    let samples = ["", "a", "ab", "b", "B", "2024-01-02", "2024-01-10", "\u{e9}", "z", "\u{1F600}", "\u{ffff}"];
    for a in samples {
        for b in samples {
            let left: Vec<char> = a.chars().collect();
            let right: Vec<char> = b.chars().collect();
            assert_eq!(comes_before(&left, &right), a < b, "{:?} {:?}", a, b);
        }
    }
}

#[test]
fn latest_chat_is_the_first_of_the_most_recent() {
    assert_eq!(latest_chat(&Vec::new()), Err("Empty chat list".to_string()));
    let chats = vec![
        chat("a", "2024-01-01T10:00:00Z"),
        chat("b", "2024-03-01T10:00:00Z"),
        chat("c", "2024-02-01T10:00:00Z"),
        chat("d", "2024-03-01T10:00:00Z"),
    ];
    assert_eq!(latest_chat(&chats), Ok(1));
    let mut sorted = chats.clone();
    sorted.sort_by(|x, y| y.updated_at.cmp(&x.updated_at));
    assert_eq!(sorted[0].id, chats[1].id);
    assert_eq!(latest_chat(&vec![chat("only", "")]), Ok(0));
}
