use gear_git::keys::{ActorId, CodeId};
use gear_git::master::{
    get_program_data, get_user, get_users, ActionRequest, ActionResponse, InitProgram, MasterError, Program,
    RegisterUserInput,
};

fn actor(n: u128) -> ActorId {
    ActorId { hi: 0, lo: n }
}

fn input() -> RegisterUserInput {
    RegisterUserInput {
        owner: None,
        first_name: "Grace".to_string(),
        last_name: "Hopper".to_string(),
        username: "grace".to_string(),
    }
}

fn program() -> Program {
    Program::new(actor(1), InitProgram { user_prog_code_id: CodeId { hi: 1, lo: 1 }, repo_prog_code_id: CodeId { hi: 2, lo: 2 } })
}

#[test]
fn master_register_user_once() {
    let mut p = program();
    let reg = p.handle(actor(5), ActionRequest::RegisterUser(input())).unwrap();
    assert_eq!(reg.code_id, CodeId { hi: 1, lo: 1 });
    assert_eq!(reg.payload.owner, actor(5));
    assert_eq!(reg.payload.repo_code_id, CodeId { hi: 2, lo: 2 });
    assert_eq!(reg.payload.username, "grace");
    assert_eq!(reg.response, ActionResponse::RegisterUser { id: actor(5) });
    assert!(p.is_exist_user(actor(5)));
    let again = p.handle(actor(5), ActionRequest::RegisterUser(input()));
    assert_eq!(again.err(), Some(MasterError::UserAlreadyExists));
}

#[test]
fn master_init_user_prog_payload() {
    let p = program();
    let mut i = input();
    i.owner = Some(actor(9));
    let (code, payload) = p.init_user_prog(i);
    assert_eq!(code, CodeId { hi: 1, lo: 1 });
    assert_eq!(payload.owner, actor(9));
    assert_eq!(payload.first_name, "Grace");
    assert_eq!(payload.last_name, "Hopper");
}

#[test]
fn master_users_listed_in_order() {
    let mut p = program();
    p.handle(actor(7), ActionRequest::RegisterUser(input())).unwrap();
    p.handle(actor(3), ActionRequest::RegisterUser(input())).unwrap();
    p.handle(ActorId { hi: 1, lo: 0 }, ActionRequest::RegisterUser(input())).unwrap();
    let p = get_program_data(p);
    assert_eq!(p.owner, actor(1));
    assert_eq!(get_users(p), vec![actor(3), actor(7), ActorId { hi: 1, lo: 0 }]);
}

#[test]
fn master_get_user() {
    let mut p = program();
    p.handle(actor(7), ActionRequest::RegisterUser(input())).unwrap();
    assert!(!p.is_exist_user(actor(8)));
    assert_eq!(get_user(p, actor(7)), Some(actor(7)));
}

#[test]
fn master_get_user_reads_the_stored_value() {
    let mut p = program();
    p.state.insert(actor(7), actor(8));
    assert_eq!(get_user(p, actor(7)), Some(actor(8)));
}
