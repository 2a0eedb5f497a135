use gear_git::keys::{ActorId, CodeId};
use gear_git::repo::InitRepoProgram;
use gear_git::user::{
    get_program_data, get_user_repos, CreateRepositoryInput, InitProgram, Program, Repository,
    UpdateUserDataInput, UserAction, UserActionRequest, UserActionResponse, UserError,
};

fn actor(n: u128) -> ActorId {
    ActorId { hi: 0, lo: n }
}

fn program(owner: ActorId) -> Program {
    Program::new(InitProgram {
        owner,
        first_name: "Ada".to_string(),
        last_name: "Lovelace".to_string(),
        username: "ada".to_string(),
        repo_code_id: CodeId { hi: 7, lo: 7 },
    })
}

fn repo(id: ActorId, name: &str, t: u64) -> Repository {
    Repository { id, name: name.to_string(), created_at: t, updated_at: t }
}

#[test]
fn user_update_data_by_owner() {
    let owner = actor(1);
    let mut p = program(owner);
    let input = UpdateUserDataInput {
        first_name: "A".to_string(),
        last_name: "L".to_string(),
        username: "al".to_string(),
    };
    let r = p.handle(owner, UserActionRequest::UpdateUserData(input));
    match r {
        Ok(UserAction::Reply(UserActionResponse::UpdateUserData { message })) => {
            assert_eq!(message, "successfully update data")
        }
        other => panic!("unexpected {:?}", other),
    }
    let p = get_program_data(p);
    assert_eq!(p.first_name, "A");
    assert_eq!(p.last_name, "L");
    assert_eq!(p.username, "al");
}

#[test]
fn user_update_data_returns_copy() {
    let owner = actor(1);
    let mut p = program(owner);
    p.create_repo(InitRepoProgram { owner, name: "r".to_string() }, actor(50), 9);
    let copy = p.update_data(UpdateUserDataInput {
        first_name: "B".to_string(),
        last_name: "C".to_string(),
        username: "bc".to_string(),
    });
    assert_eq!(copy.first_name, "B");
    assert_eq!(copy.owner, owner);
    assert_eq!(get_user_repos(copy), vec![repo(actor(50), "r", 9)]);
}

#[test]
fn user_refuses_strangers() {
    let owner = actor(1);
    let mut p = program(owner);
    let input = UpdateUserDataInput { first_name: "x".to_string(), last_name: "y".to_string(), username: "z".to_string() };
    assert!(matches!(p.handle(actor(2), UserActionRequest::UpdateUserData(input)), Err(UserError::AccessDenied)));
    let input = CreateRepositoryInput { name: "r".to_string() };
    assert!(matches!(p.handle(actor(2), UserActionRequest::CreateRepository(input)), Err(UserError::AccessDenied)));
    assert_eq!(p.first_name, "Ada");
}

#[test]
fn user_create_repository_in_two_steps() {
    let owner = actor(1);
    let mut p = program(owner);
    let r = p.handle(owner, UserActionRequest::CreateRepository(CreateRepositoryInput { name: "r".to_string() }));
    let payload = match r {
        Ok(UserAction::CreateRepoProgram { code_id, payload }) => {
            assert_eq!(code_id, CodeId { hi: 7, lo: 7 });
            assert_eq!(payload, InitRepoProgram { owner, name: "r".to_string() });
            payload
        }
        other => panic!("unexpected {:?}", other),
    };
    assert!(get_user_repos_len(&p) == 0);
    let reply = p.on_repo_program_created(payload, actor(100), 1234);
    assert_eq!(
        reply,
        UserActionResponse::CreateRepository { message: "Successfully create repository dapp".to_string() }
    );
    assert_eq!(p.get_repo(actor(100)), Some(repo(actor(100), "r", 1234)));
    assert_eq!(p.get_repo(actor(101)), None);
}

fn get_user_repos_len(p: &Program) -> usize {
    p.repos.len()
}

#[test]
fn user_get_repo_by_name_finds_first_in_id_order() {
    let owner = actor(1);
    let mut p = program(owner);
    p.create_repo(InitRepoProgram { owner, name: "same".to_string() }, actor(30), 1);
    p.create_repo(InitRepoProgram { owner, name: "same".to_string() }, actor(20), 2);
    p.create_repo(InitRepoProgram { owner, name: "other".to_string() }, actor(10), 3);
    assert_eq!(p.get_repo_by_name(&"same".to_string()), Some(repo(actor(20), "same", 2)));
    assert_eq!(p.get_repo_by_name(&"none".to_string()), None);
    let names: Vec<String> = get_user_repos(p).into_iter().map(|r| r.name).collect();
    assert_eq!(names, vec!["other".to_string(), "same".to_string(), "same".to_string()]);
}

#[test]
fn user_rename_repository_by_the_repository_program() {
    let owner = actor(1);
    let mut p = program(owner);
    p.create_repo(InitRepoProgram { owner, name: "a".to_string() }, actor(10), 5);
    p.create_repo(InitRepoProgram { owner, name: "b".to_string() }, actor(20), 6);
    // the name is taken by another repository
    let r = p.handle(actor(10), UserActionRequest::RenameRepository("b".to_string()));
    assert!(matches!(r, Err(UserError::RepositoryNameExists)));
    // a free name
    let r = p.handle(actor(10), UserActionRequest::RenameRepository("c".to_string()));
    assert!(matches!(r, Ok(UserAction::Reply(UserActionResponse::Success))));
    assert_eq!(p.get_repo(actor(10)), Some(repo(actor(10), "c", 5)));
    // a sender that is no repository: nothing changes
    let r = p.handle(actor(99), UserActionRequest::RenameRepository("d".to_string()));
    assert!(matches!(r, Ok(UserAction::Reply(UserActionResponse::Success))));
    assert_eq!(p.get_repo_by_name(&"d".to_string()), None);
}

#[test]
fn user_rename_repo_keeps_times() {
    let owner = actor(1);
    let mut p = program(owner);
    p.create_repo(InitRepoProgram { owner, name: "a".to_string() }, actor(10), 5);
    p.rename_repo(actor(10), "z".to_string());
    p.rename_repo(actor(11), "y".to_string());
    assert_eq!(get_user_repos(p), vec![repo(actor(10), "z", 5)]);
}
