use gear_git::keys::{ActorId, CodeId};
use gear_git::master_smart::{
    get_program_data, get_user, get_users, ActionRequest, ActionResponse, InitProgram, MasterAction, MasterError,
    Program, RegisterUserInput, UpdateUserDataInput, User,
};

fn actor(n: u128) -> ActorId {
    ActorId { hi: 0, lo: n }
}

fn input(name: &str) -> RegisterUserInput {
    RegisterUserInput {
        first_name: "F".to_string(),
        last_name: "L".to_string(),
        username: name.to_string(),
        repos_program_id: Some(actor(77)),
        branches_program_id: None,
    }
}

fn program() -> Program {
    Program::new(ActorId::zero(), InitProgram { repo_code_id: CodeId { hi: 0, lo: 10 }, branch_code_id: CodeId { hi: 0, lo: 20 } })
}

fn register(p: &mut Program, sender: ActorId, name: &str) {
    match p.handle(sender, ActionRequest::RegisterUser(input(name))) {
        Ok(MasterAction::CreateUserPrograms { user, repo_code_id, branch_code_id }) => {
            assert_eq!(repo_code_id, CodeId { hi: 0, lo: 10 });
            assert_eq!(branch_code_id, CodeId { hi: 0, lo: 20 });
            assert_eq!(user.owner, sender);
            assert_eq!(user.repos_program_id, None);
            let reply = p.register_user(sender, user, actor(500), actor(600));
            assert_eq!(reply, ActionResponse::RegisterUser { id: sender });
        }
        other => panic!("unexpected {:?}", other),
    }
}

#[test]
fn master_smart_new_has_zero_owner() {
    let p = program();
    assert_eq!(get_program_data(p).owner, ActorId::zero());
}

#[test]
fn master_smart_new_takes_given_owner() {
    let p = Program::new(actor(8), InitProgram { repo_code_id: CodeId::zero(), branch_code_id: CodeId::zero() });
    assert_eq!(p.owner, actor(8));
    assert!(!p.is_exist_user(actor(8)));
}

#[test]
fn master_smart_update_keeps_user_maps() {
    let mut p = program();
    register(&mut p, actor(4), "four");
    let upd = UpdateUserDataInput { first_name: "A".to_string(), last_name: "B".to_string(), username: "ab".to_string() };
    p.handle(actor(4), ActionRequest::UpdateUserData(upd)).unwrap();
    let u = get_user(p, actor(4)).unwrap();
    assert_eq!(u.repos.len(), 0);
    assert_eq!(u.repo_branches.len(), 0);
    assert_eq!(u.owner, actor(4));
}

#[test]
fn master_smart_register_and_update() {
    let mut p = program();
    register(&mut p, actor(4), "four");
    assert!(p.is_exist_user(actor(4)));
    assert!(matches!(
        p.handle(actor(4), ActionRequest::RegisterUser(input("x"))),
        Err(MasterError::UserAlreadyExists)
    ));
    let upd = UpdateUserDataInput { first_name: "A".to_string(), last_name: "B".to_string(), username: "ab".to_string() };
    match p.handle(actor(4), ActionRequest::UpdateUserData(upd)) {
        Ok(MasterAction::Reply(ActionResponse::UpdateUserData { id })) => assert_eq!(id, actor(4)),
        other => panic!("unexpected {:?}", other),
    }
    let u = get_user(p, actor(4)).unwrap();
    assert_eq!(u.first_name, "A");
    assert_eq!(u.username, "ab");
    assert_eq!(u.repos_program_id, Some(actor(500)));
    assert_eq!(u.branches_program_id, Some(actor(600)));
}

#[test]
fn master_smart_update_unknown_user() {
    let mut p = program();
    let upd = UpdateUserDataInput { first_name: "A".to_string(), last_name: "B".to_string(), username: "ab".to_string() };
    assert!(matches!(p.handle(actor(4), ActionRequest::UpdateUserData(upd)), Err(MasterError::UserNotFound)));
    let upd = UpdateUserDataInput { first_name: "A".to_string(), last_name: "B".to_string(), username: "ab".to_string() };
    assert_eq!(p.update_user_data(actor(4), upd), actor(4));
    assert!(!p.is_exist_user(actor(4)));
}

#[test]
fn master_smart_users_in_order() {
    let mut p = program();
    register(&mut p, actor(9), "nine");
    register(&mut p, actor(2), "two");
    let names: Vec<String> = get_users(p).into_iter().map(|u| u.username).collect();
    assert_eq!(names, vec!["two".to_string(), "nine".to_string()]);
}

#[test]
fn master_smart_user_new_and_init_programs() {
    let mut u = User::new(input("n"), actor(3));
    assert_eq!(u.owner, actor(3));
    assert_eq!(u.repos_program_id, None);
    u.init_programs(actor(10), actor(11));
    assert_eq!(u.repos_program_id, Some(actor(10)));
    assert_eq!(u.branches_program_id, Some(actor(11)));
    assert_eq!(u.repos.len(), 0);
}
