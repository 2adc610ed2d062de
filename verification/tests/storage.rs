use entity_store::entities::{Task, User, UserSearchTerms};
use entity_store::memory::{HashRepository, TrivialRepository};
use entity_store::relational::Rusqlite;
use entity_store::store::{Repository, SearchableRepository};
use entity_store::StoreError;

fn test_save_and_get<R: Repository<String>>(mut repo: R) {
    let input = "This is a cool string".to_string();
    let id = repo.save(&input).expect("Could not save");
    let output = repo
        .get(&id)
        .expect("Storage failure")
        .expect("Could not find what I just put in!");
    assert_eq!(input, output);
}

#[test]
fn hash_repo_works() {
    let hash_repo = HashRepository::new();
    test_save_and_get(hash_repo);
}

#[test]
fn vec_repo_works() {
    let vec_repo = TrivialRepository::new();
    test_save_and_get(vec_repo);
}

#[test]
fn test_get_all_done_via_id() {
    let mut one_done = Task::new("One");
    one_done.finish();
    let mut two_done = Task::new("Two");
    two_done.finish();
    let not_done = Task::new("Tre");

    let mut user: User = User::new("Someone");

    user.add_task(one_done.clone());
    user.add_task(not_done.clone());
    user.add_task(two_done.clone());

    let mut repo = HashRepository::new();
    let user_id = repo.save(&user).expect("Could not save");

    let found_done = entity_store::usecases::find_all_done_via_id(&repo, &user_id)
        .expect("Storage failure")
        .expect("No such user!");

    assert_eq!(found_done, vec![one_done, two_done]);
}

#[test]
fn test_searchable() {
    let mut repo = Rusqlite::in_memory().expect("Could not open Database");
    repo.setup::<User>().expect("Could not setup tables");
    repo.setup::<Task>().expect("Could not setup tables");

    let dummy_task = Task::new("Buy milk");

    let a = User::with_tasks("A", vec![dummy_task.clone()]);
    let b = User::with_tasks("B", vec![dummy_task.clone()]);
    let c = User::with_tasks("C", vec![dummy_task.clone()]);
    let d = User::with_tasks("D", vec![dummy_task.clone()]);

    repo.save(&a).expect("Could not save");
    repo.save(&b).expect("Could not save");
    repo.save(&c).expect("Could not save");
    repo.save(&d).expect("Could not save");

    let query_result: Vec<User> = repo
        .find(&[UserSearchTerms::Name("C".to_string())], Some(1))
        .expect("Could not search");
    assert_eq!(query_result, vec![c]);
}

#[test]
fn test_get_all_done() {
    let mut one_done = Task::new("One");
    one_done.finish();
    let mut two_done = Task::new("Two");
    two_done.finish();

    let not_done = Task::new("Tre");

    let mut user: User = User::new("Someone");

    user.add_task(one_done.clone());
    user.add_task(not_done.clone());
    user.add_task(two_done.clone());

    let found_done = entity_store::usecases::find_all_done(&user);

    assert_eq!(found_done, vec![one_done, two_done]);
}

fn relational_with_four_users() -> Rusqlite {
    let mut repo = Rusqlite::in_memory().expect("Could not open Database");
    repo.setup::<User>().expect("Could not setup tables");
    repo.setup::<Task>().expect("Could not setup tables");
    for name in ["A", "B", "C", "D"] {
        let u = User::new(name);
        repo.save(&u).expect("Could not save");
    }
    repo
}

#[test]
fn find_by_name_without_limit_returns_the_one_match() {
    let repo = relational_with_four_users();
    let found: Vec<User> = repo
        .find(&[UserSearchTerms::Name("C".to_string())], None)
        .expect("Could not search");
    assert_eq!(found, vec![User::new("C")]);
}

#[test]
fn find_conjunction_of_contradicting_credentials_is_empty() {
    let repo = relational_with_four_users();
    let found: Vec<User> = repo
        .find(
            &[
                UserSearchTerms::Name("C".to_string()),
                UserSearchTerms::Name("A".to_string()),
            ],
            None,
        )
        .expect("Could not search");
    assert_eq!(found, Vec::new());
}

#[test]
fn find_conjunction_of_agreeing_credentials_matches() {
    let repo = relational_with_four_users();
    let found: Vec<User> = repo
        .find(
            &[
                UserSearchTerms::Name("C".to_string()),
                UserSearchTerms::Name("C".to_string()),
            ],
            None,
        )
        .expect("Could not search");
    assert_eq!(found, vec![User::new("C")]);
}

#[test]
fn find_with_limit_caps_the_result() {
    let repo = relational_with_four_users();
    let found: Vec<User> = repo.find(&[], Some(2)).expect("Could not search");
    assert_eq!(found.len(), 2);
    // Truncation is deterministic: the first two in the backend's order.
    assert_eq!(found[0].name, "A");
    assert_eq!(found[1].name, "B");
}

#[test]
fn find_with_large_limit_returns_everything() {
    let repo = relational_with_four_users();
    let found: Vec<User> = repo.find(&[], Some(12)).expect("Could not search");
    assert_eq!(found.len(), 4);
}

#[test]
fn empty_credentials_behave_like_all() {
    let repo = relational_with_four_users();
    let found: Vec<User> = repo.find(&[], None).expect("Could not search");
    let all: Vec<User> = repo.all().expect("Could not enumerate");
    assert_eq!(found, all);
    assert_eq!(found.len(), 4);
}

#[test]
fn sequential_store_saves_the_same_value_twice() {
    let mut repo: TrivialRepository<Task> = TrivialRepository::new();
    let t = Task::new("same");
    let id0 = repo.save(&t).expect("Could not save");
    let id1 = repo.save(&t).expect("Could not save");
    assert_eq!(id0, 0);
    assert_eq!(id1, 1);
    let all = repo.all().expect("Could not enumerate");
    assert_eq!(all.len(), 2);
    assert_eq!(all[0], t);
    assert_eq!(all[1], t);
}

#[test]
fn absence_is_not_failure_sequential() {
    let repo: TrivialRepository<Task> = TrivialRepository::new();
    assert_eq!(repo.get(&7), Ok(None));
}

#[test]
fn absence_is_not_failure_hash() {
    let mut repo: HashRepository<Task> = HashRepository::new();
    let issued = repo.save(&Task::new("present")).expect("Could not save");
    let never_issued = issued.wrapping_add(1);
    assert_eq!(repo.get(&never_issued), Ok(None));
}

#[test]
fn absence_is_not_failure_relational() {
    let repo = relational_with_four_users();
    let missing: Option<User> = repo.get(&4711).expect("Storage failure");
    assert_eq!(missing, None);
}

#[test]
fn hash_store_identities_differ() {
    let mut repo: HashRepository<Task> = HashRepository::new();
    let t = Task::new("same");
    let id0 = repo.save(&t).expect("Could not save");
    let id1 = repo.save(&t).expect("Could not save");
    assert_ne!(id0, id1);
}

#[test]
fn relational_round_trip_keeps_tags_and_done() {
    let mut repo = Rusqlite::in_memory().expect("Could not open Database");
    repo.setup::<Task>().expect("Could not setup tables");
    let mut t = Task::new("tagged");
    t.tags = vec!["urgent".to_string(), "red".to_string()];
    t.finish();
    let id = repo.save(&t).expect("Could not save");
    let back: Task = repo.get(&id).expect("Storage failure").expect("No such task");
    assert_eq!(back, t);
}

#[test]
fn relational_round_trip_keeps_empty_tags() {
    let mut repo = Rusqlite::in_memory().expect("Could not open Database");
    repo.setup::<Task>().expect("Could not setup tables");
    let t = Task::new("plain");
    let id = repo.save(&t).expect("Could not save");
    let back: Task = repo.get(&id).expect("Storage failure").expect("No such task");
    assert_eq!(back, t);
}

#[test]
fn relational_round_trip_keeps_the_owned_collection() {
    let mut repo = Rusqlite::in_memory().expect("Could not open Database");
    repo.setup::<User>().expect("Could not setup tables");
    repo.setup::<Task>().expect("Could not setup tables");
    let mut first = Task::new("first");
    first.finish();
    let second = Task::new("second");
    let u = User::with_tasks("Owner", vec![first, second]);
    let id = repo.save(&u).expect("Could not save");
    let back: User = repo.get(&id).expect("Storage failure").expect("No such user");
    assert_eq!(back, u);
}

#[test]
fn relational_completed_tasks_keep_insertion_order() {
    let mut repo = Rusqlite::in_memory().expect("Could not open Database");
    repo.setup::<User>().expect("Could not setup tables");
    repo.setup::<Task>().expect("Could not setup tables");
    let mut one_done = Task::new("One");
    one_done.finish();
    let not_done = Task::new("Tre");
    let mut two_done = Task::new("Two");
    two_done.finish();
    let u = User::with_tasks(
        "Someone",
        vec![one_done.clone(), not_done, two_done.clone()],
    );
    let id = repo.save(&u).expect("Could not save");
    let found = entity_store::usecases::find_all_done_via_id(&repo, &id)
        .expect("Storage failure")
        .expect("No such user!");
    assert_eq!(found, vec![one_done, two_done]);
}

#[test]
fn setup_twice_fails_loudly_with_a_backend_error() {
    let repo = Rusqlite::in_memory().expect("Could not open Database");
    repo.setup::<User>().expect("Could not setup tables");
    match repo.setup::<User>() {
        Err(StoreError::Backend(_)) => {}
        other => panic!("expected a backend failure, got {:?}", other),
    }
}

#[test]
fn saving_without_setup_is_a_backend_error() {
    let mut repo = Rusqlite::in_memory().expect("Could not open Database");
    match repo.save(&Task::new("nowhere")) {
        Err(StoreError::Backend(_)) => {}
        other => panic!("expected a backend failure, got {:?}", other),
    }
}

#[test]
fn a_task_due_keeps_every_other_field() {
    let t = Task::new("dated").due(86400);
    assert_eq!(t.due, Some(86400));
    assert_eq!(t.desc, "dated");
    assert!(!t.is_done());
    assert_eq!(t.tags, Vec::<String>::new());
}

use entity_store::mapping::SQLable;
use entity_store::sql::{
    build_query_sql, join_commas_exec, split_commas_exec, QueryValue, RowData, SqlValue,
};

#[test]
fn builder_produces_the_exact_statement_text() {
    let creds = vec![
        QueryValue {
            field: "name",
            value: SqlValue::Text("x".to_string()),
        },
        QueryValue {
            field: "owner",
            value: SqlValue::Int(1),
        },
    ];
    let sql = build_query_sql("SELECT * FROM users", &creds, Some(3));
    assert_eq!(sql, "SELECT * FROM users WHERE name = (?) AND owner = (?) LIMIT 3");
    let bare = build_query_sql("SELECT * FROM users", &Vec::new(), None);
    assert_eq!(bare, "SELECT * FROM users");
    let capped = build_query_sql("SELECT * FROM users", &Vec::new(), Some(120));
    assert_eq!(capped, "SELECT * FROM users LIMIT 120");
}

#[test]
fn join_and_split_are_exact() {
    let tags = vec!["a".to_string(), "b".to_string()];
    assert_eq!(join_commas_exec(&tags), "a,b");
    assert_eq!(join_commas_exec(&Vec::new()), "");
    assert_eq!(split_commas_exec("a,b"), vec!["a".to_string(), "b".to_string()]);
    assert_eq!(split_commas_exec(""), vec!["".to_string()]);
    assert_eq!(
        split_commas_exec("a,,b"),
        vec!["a".to_string(), "".to_string(), "b".to_string()]
    );
}

#[test]
fn a_task_row_decodes_by_column_name() {
    let row = RowData {
        names: vec![
            "id".to_string(),
            "tags".to_string(),
            "done".to_string(),
            "desc".to_string(),
        ],
        values: vec![
            SqlValue::Int(9),
            SqlValue::Text("a,b".to_string()),
            SqlValue::Int(1),
            SqlValue::Text("shuffled".to_string()),
        ],
    };
    let t = Task::from_row(&row).expect("should decode");
    assert_eq!(t.desc, "shuffled");
    assert!(t.done);
    assert_eq!(t.tags, vec!["a".to_string(), "b".to_string()]);
    assert_eq!(t.due, None);
}

#[test]
fn a_row_without_the_required_column_is_a_mapping_failure() {
    let row = RowData {
        names: vec!["id".to_string()],
        values: vec![SqlValue::Int(9)],
    };
    assert_eq!(Task::from_row(&row), Err(StoreError::RowMapping));
}

#[test]
fn absent_optional_columns_fall_back_to_defaults() {
    let row = RowData {
        names: vec!["desc".to_string()],
        values: vec![SqlValue::Text("bare".to_string())],
    };
    let t = Task::from_row(&row).expect("should decode");
    assert_eq!(t.desc, "bare");
    assert!(!t.done);
    assert_eq!(t.tags, Vec::<String>::new());
    let null_tags = RowData {
        names: vec!["desc".to_string(), "tags".to_string()],
        values: vec![SqlValue::Text("bare".to_string()), SqlValue::Null],
    };
    let t2 = Task::from_row(&null_tags).expect("should decode");
    assert_eq!(t2.tags, Vec::<String>::new());
}

#[test]
fn a_repeated_token_is_refused_as_duplicate_identity() {
    let mut repo: HashRepository<Task> = HashRepository::new();
    let t = Task::new("kept");
    assert_eq!(repo.save_under(42, &t), Ok(42));
    let again = Task::new("rejected");
    assert_eq!(
        repo.save_under(42, &again),
        Err(StoreError::DuplicateIdentity)
    );
    // The record stored first is untouched.
    assert_eq!(repo.get(&42), Ok(Some(t)));
}
