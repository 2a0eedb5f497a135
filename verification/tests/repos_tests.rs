use gear_git::keys::ActorId;
use gear_git::repos::{
    get_program_data, get_repositories, get_repository, ActionRequest, ActionResponse,
    AddCollaboratorInput, Collaborator, DeleteCollaboratorInput, Program, Repository,
    RepositoryError, UpdateRepositoryInput,
};

fn actor(n: u128) -> ActorId {
    ActorId { hi: 0, lo: n }
}

fn repo(id: &str, name: &str) -> Repository {
    Repository { id: id.to_string(), name: name.to_string(), collaborators: vec![] }
}

fn created_id(r: Result<ActionResponse, RepositoryError>) -> String {
    match r {
        Ok(ActionResponse::CreateRepository { repo_id }) => repo_id,
        other => panic!("unexpected {:?}", other),
    }
}

#[test]
fn repository_new_draws_seven_alphanumeric_chars() {
    let r = Repository::new("demo".to_string()).expect("the system gives a seed");
    assert_eq!(r.name, "demo");
    assert_eq!(r.id.chars().count(), 7);
    assert!(r.id.chars().all(|c| c.is_ascii_alphanumeric()));
    assert!(r.collaborators.is_empty());
}

#[test]
fn repository_rename_keeps_id_and_collaborators() {
    let mut r = repo("abc", "old");
    r.add_collaborator(actor(1));
    let r = r.rename("new".to_string());
    assert_eq!(r.name, "new");
    assert_eq!(r.id, "abc");
    assert_eq!(r.collaborators, vec![Collaborator { id: actor(1) }]);
}

#[test]
fn repository_collaborators_add_check_delete() {
    let mut r = repo("abc", "n");
    assert!(!r.is_exist_collaborator(actor(1)));
    assert_eq!(r.add_collaborator(actor(1)), Collaborator { id: actor(1) });
    r.add_collaborator(actor(2));
    r.add_collaborator(actor(1));
    assert!(r.is_exist_collaborator(actor(1)));
    assert_eq!(r.delete_collaborator(actor(1)), actor(1));
    assert_eq!(r.collaborators, vec![Collaborator { id: actor(2) }]);
    assert_eq!(r.clear_collaborator(actor(2)), actor(2));
    assert!(r.collaborators.is_empty());
}

#[test]
fn repository_add_then_delete_restores_collaborators() {
    let mut r = repo("abc", "n");
    r.add_collaborator(actor(5));
    r.add_collaborator(actor(6));
    let before = r.collaborators.clone();
    r.add_collaborator(actor(7));
    r.delete_collaborator(actor(7));
    assert_eq!(r.collaborators, before);
}

#[test]
fn repository_clear_collaborators() {
    let mut r = repo("abc", "n");
    r.add_collaborator(actor(5));
    r.clear_collaborators();
    assert!(r.collaborators.is_empty());
}

#[test]
fn registry_refuses_strangers() {
    let mut p = Program::new(actor(1));
    let r = p.handle(actor(2), ActionRequest::CreateRepository("x".to_string()));
    assert_eq!(r, Err(RepositoryError::AccessDenied));
    let r = p.handle(actor(2), ActionRequest::DeleteRepository("x".to_string()));
    assert_eq!(r, Err(RepositoryError::AccessDenied));
    assert!(get_repositories(p).is_empty());
}

#[test]
fn registry_create_update_delete_repository() {
    let owner = actor(1);
    let mut p = Program::new(owner);
    let id = created_id(p.handle(owner, ActionRequest::CreateRepository("first".to_string())));
    assert_eq!(id.len(), 7);
    assert!(p.is_exist_repo(&id));
    assert!(p.is_exist_repo_by_name(&"first".to_string()));
    assert!(!p.is_exist_repo_by_name(&"second".to_string()));

    let r = p.handle(owner, ActionRequest::CreateRepository("first".to_string()));
    assert_eq!(r, Err(RepositoryError::RepositoryNameExists));

    let r = p.handle(
        owner,
        ActionRequest::UpdateRepository(UpdateRepositoryInput { id: id.clone(), name: "renamed".to_string() }),
    );
    assert_eq!(r, Ok(ActionResponse::UpdateRepository { repo_id: id.clone() }));
    assert!(p.is_exist_repo_by_name(&"renamed".to_string()));
    assert!(!p.is_exist_repo_by_name(&"first".to_string()));

    let r = p.handle(
        owner,
        ActionRequest::UpdateRepository(UpdateRepositoryInput { id: "missing".to_string(), name: "z".to_string() }),
    );
    assert_eq!(r, Err(RepositoryError::InvalidRepositoryId));

    let r = p.handle(owner, ActionRequest::DeleteRepository(id.clone()));
    assert_eq!(r, Ok(ActionResponse::DeleteRepository { repo_id: id.clone() }));
    assert!(!p.is_exist_repo(&id));
    let r = p.handle(owner, ActionRequest::DeleteRepository(id.clone()));
    assert_eq!(r, Err(RepositoryError::InvalidRepositoryId));
}

#[test]
fn registry_collaborators() {
    let owner = actor(1);
    let mut p = Program::new(owner);
    p.create_repository(owner, repo("r1", "one")).unwrap();
    let add = |id: u128, repo_id: &str| {
        ActionRequest::AddCollaborator(AddCollaboratorInput { id: actor(id), repo_id: repo_id.to_string() })
    };
    let del = |id: u128, repo_id: &str| {
        ActionRequest::DeleteCollaborator(DeleteCollaboratorInput { id: actor(id), repo_id: repo_id.to_string() })
    };
    assert_eq!(p.handle(owner, add(9, "r1")), Ok(ActionResponse::AddCollaborator { actor_id: actor(9) }));
    assert_eq!(p.handle(owner, add(9, "r1")), Err(RepositoryError::CollaboratorExists));
    assert_eq!(p.handle(owner, add(9, "nope")), Err(RepositoryError::InvalidRepositoryId));
    assert_eq!(p.handle(owner, del(8, "r1")), Err(RepositoryError::InvalidCollaboratorId));
    assert_eq!(p.handle(owner, del(9, "nope")), Err(RepositoryError::InvalidRepositoryId));
    assert_eq!(p.handle(actor(9), del(9, "r1")), Err(RepositoryError::AccessDenied));
    let r = get_repository(get_program_data(p), "r1".to_string()).unwrap();
    assert_eq!(r.collaborators, vec![Collaborator { id: actor(9) }]);
}

#[test]
fn registry_delete_collaborator() {
    let owner = actor(1);
    let mut p = Program::new(owner);
    p.create_repository(owner, repo("r1", "one")).unwrap();
    p.handle(owner, ActionRequest::AddCollaborator(AddCollaboratorInput { id: actor(4), repo_id: "r1".to_string() }))
        .unwrap();
    let r = p.handle(
        owner,
        ActionRequest::DeleteCollaborator(DeleteCollaboratorInput { id: actor(4), repo_id: "r1".to_string() }),
    );
    assert_eq!(r, Ok(ActionResponse::DeleteCollaborator { actor_id: actor(4) }));
    let r = get_repository(p, "r1".to_string()).unwrap();
    assert!(r.collaborators.is_empty());
}

#[test]
fn registry_create_repository_checks_and_replaces_same_id() {
    let owner = actor(1);
    let mut p = Program::new(owner);
    assert_eq!(p.create_repository(actor(2), repo("a", "x")), Err(RepositoryError::AccessDenied));
    assert_eq!(
        p.create_repository(owner, repo("a", "x")),
        Ok(ActionResponse::CreateRepository { repo_id: "a".to_string() })
    );
    assert_eq!(p.create_repository(owner, repo("b", "x")), Err(RepositoryError::RepositoryNameExists));
    p.create_repository(owner, repo("a", "y")).unwrap();
    let all = get_repositories(p);
    assert_eq!(all, vec![repo("a", "y")]);
}

#[test]
fn registry_lists_repositories_in_id_order() {
    let owner = actor(1);
    let mut p = Program::new(owner);
    p.create_repository(owner, repo("zz", "1")).unwrap();
    p.create_repository(owner, repo("Ab", "2")).unwrap();
    p.create_repository(owner, repo("ab", "3")).unwrap();
    let ids: Vec<String> = get_repositories(p).into_iter().map(|r| r.id).collect();
    assert_eq!(ids, vec!["Ab".to_string(), "ab".to_string(), "zz".to_string()]);
}

#[test]
fn registry_get_repository_missing() {
    let p = Program::new(actor(1));
    assert_eq!(get_repository(p, "x".to_string()), None);
}

#[test]
fn repository_clear_collaborator_same_as_delete() {
    let mut a = repo("abc", "n");
    a.add_collaborator(actor(1));
    a.add_collaborator(actor(2));
    a.add_collaborator(actor(1));
    let mut b = a.clone();
    assert_eq!(a.delete_collaborator(actor(1)), b.clear_collaborator(actor(1)));
    assert_eq!(a, b);
}
