//! The program of one user: profile data and the repository programs the user
//! created, and the handler of its requests.
use vstd::prelude::*;
use crate::keys::{ActorId, CodeId, Duplicate};
use crate::sorted_map::SortedMap;
use crate::repo::InitRepoProgram;

verus! {

/// A repository program created by the user.
#[derive(Clone, Debug, PartialEq, Eq)]
pub struct Repository {
    pub id: ActorId,
    pub name: String,
    pub created_at: u64,
    pub updated_at: u64,
}

impl Duplicate for Repository {
    fn duplicate(&self) -> (r: Repository) {
        Repository {
            id: self.id,
            name: self.name.clone(),
            created_at: self.created_at,
            updated_at: self.updated_at,
        }
    }
}

/// The message that creates a user's program.
#[derive(Clone, Debug, PartialEq, Eq)]
pub struct InitProgram {
    pub owner: ActorId,
    pub first_name: String,
    pub last_name: String,
    pub username: String,
    pub repo_code_id: CodeId,
}

/// The payload with which the registry creates a user's program.
pub type InitUserProgram = InitProgram;

#[derive(Clone, Debug, PartialEq, Eq)]
pub struct UpdateUserDataInput {
    pub first_name: String,
    pub last_name: String,
    pub username: String,
}

#[derive(Clone, Debug, PartialEq, Eq)]
pub struct CreateRepositoryInput {
    pub name: String,
}

#[derive(Clone, Debug, PartialEq, Eq)]
pub enum UserActionRequest {
    UpdateUserData(UpdateUserDataInput),
    CreateRepository(CreateRepositoryInput),
    RenameRepository(String),
}

#[derive(Clone, Debug, PartialEq, Eq)]
pub enum UserActionResponse {
    UpdateUserData { message: String },
    CreateRepository { message: String },
    RenameRepository { message: String },
    Success,
    Failure,
}

/// Why the user's program refuses a request.
#[derive(Clone, Copy, Debug, PartialEq, Eq, Structural)]
pub enum UserError {
    /// The sender is not the owner.
    AccessDenied,
    /// Another repository has that name.
    RepositoryNameExists,
}

/// What serving a request asks of the caller.
#[derive(Debug)]
pub enum UserAction {
    /// Reply with this response.
    Reply(UserActionResponse),
    /// Create a repository program from `code_id` with this payload, then
    /// report its id with `Program::on_repo_program_created`.
    CreateRepoProgram { code_id: CodeId, payload: InitRepoProgram },
}

pub open spec fn update_data_msg() -> Seq<char> {
    "successfully update data"@
}

pub open spec fn create_repository_msg() -> Seq<char> {
    "Successfully create repository dapp"@
}

/// Every repository is kept under its own id.
pub open spec fn keyed_by_id(m: Map<ActorId, Repository>) -> bool {
    forall|k: ActorId| #[trigger] m.contains_key(k) ==> m[k].id == k
}

/// The first of `repos` named `name`.
pub open spec fn first_named(repos: Seq<Repository>, name: Seq<char>) -> Option<Repository>
    decreases repos.len(),
{
    if repos.len() == 0 {
        None
    } else if repos[0].name@ == name {
        Some(repos[0])
    } else {
        first_named(repos.drop_first(), name)
    }
}

proof fn lemma_first_named_step(repos: Seq<Repository>, name: Seq<char>, i: int)
    requires
        0 <= i < repos.len(),
    ensures
        repos[i].name@ == name ==> first_named(repos.skip(i), name) == Some(repos[i]),
        repos[i].name@ != name ==> first_named(repos.skip(i), name) == first_named(
            repos.skip(i + 1),
            name,
        ),
{
    assert(repos.skip(i).drop_first() =~= repos.skip(i + 1));
    assert(repos.skip(i)[0] == repos[i]);
}

/// A user's program.
#[derive(Debug)]
pub struct Program {
    pub owner: ActorId,
    pub first_name: String,
    pub last_name: String,
    pub username: String,
    pub repos: SortedMap<ActorId, Repository>,
    pub repo_code_id: CodeId,
}

impl Program {
    pub open spec fn repo_map(self) -> Map<ActorId, Repository> {
        self.repos.map()
    }

    /// Well-formed: the map is ordered and every repository is kept under its id.
    pub open spec fn wf(self) -> bool {
        &&& self.repos.wf()
        &&& keyed_by_id(self.repo_map())
    }

    /// The program that `init_program` describes, with no repository.
    pub fn new(init_program: InitProgram) -> (p: Program)
        ensures
            p.wf(),
            p.owner == init_program.owner,
            p.first_name == init_program.first_name,
            p.last_name == init_program.last_name,
            p.username == init_program.username,
            p.repo_code_id == init_program.repo_code_id,
            p.repo_map() == Map::<ActorId, Repository>::empty(),
    {
        Program {
            owner: init_program.owner,
            first_name: init_program.first_name,
            last_name: init_program.last_name,
            username: init_program.username,
            repos: SortedMap::new(),
            repo_code_id: init_program.repo_code_id,
        }
    }

    /// Replaces the profile data, and returns a copy of the updated program.
    pub fn update_data(&mut self, update_input: UpdateUserDataInput) -> (r: Program)
        requires
            old(self).wf(),
        ensures
            final(self).wf(),
            final(self).first_name == update_input.first_name,
            final(self).last_name == update_input.last_name,
            final(self).username == update_input.username,
            final(self).owner == old(self).owner,
            final(self).repos == old(self).repos,
            final(self).repo_code_id == old(self).repo_code_id,
            r.owner == final(self).owner,
            r.first_name == final(self).first_name,
            r.last_name == final(self).last_name,
            r.username == final(self).username,
            r.repo_code_id == final(self).repo_code_id,
            r.repos.keys() == final(self).repos.keys(),
            r.repos.values() == final(self).repos.values(),
    {
        self.first_name = update_input.first_name;
        self.last_name = update_input.last_name;
        self.username = update_input.username;
        Program {
            owner: self.owner,
            first_name: self.first_name.clone(),
            last_name: self.last_name.clone(),
            username: self.username.clone(),
            repos: self.repos.duplicate(),
            repo_code_id: self.repo_code_id,
        }
    }

    /// Records the repository program `program_id`, created at time `now`
    /// from `create_repo`.
    pub fn create_repo(&mut self, create_repo: InitRepoProgram, program_id: ActorId, now: u64)
        requires
            old(self).wf(),
        ensures
            final(self).wf(),
            final(self).repo_map() == old(self).repo_map().insert(
                program_id,
                Repository {
                    id: program_id,
                    name: create_repo.name,
                    created_at: now,
                    updated_at: now,
                },
            ),
            final(self).owner == old(self).owner,
            final(self).first_name == old(self).first_name,
            final(self).last_name == old(self).last_name,
            final(self).username == old(self).username,
            final(self).repo_code_id == old(self).repo_code_id,
    {
        let ghost before = self.repo_map();
        self.repos.insert(
            program_id,
            Repository { id: program_id, name: create_repo.name, created_at: now, updated_at: now },
        );
        proof {
            assert forall|k: ActorId| #[trigger] self.repo_map().contains_key(k) implies self.repo_map()[k].id
                == k by {
                if k != program_id {
                    assert(before.contains_key(k));
                }
            }
        }
    }

    /// Renames the repository `repo_id`, where there is one; its times stay.
    pub fn rename_repo(&mut self, repo_id: ActorId, name: String)
        requires
            old(self).wf(),
        ensures
            final(self).wf(),
            old(self).repo_map().contains_key(repo_id) ==> {
                let before = old(self).repo_map()[repo_id];
                final(self).repo_map() == old(self).repo_map().insert(
                    repo_id,
                    Repository {
                        id: before.id,
                        name: name,
                        created_at: before.created_at,
                        updated_at: before.updated_at,
                    },
                )
            },
            !old(self).repo_map().contains_key(repo_id) ==> final(self).repo_map() == old(
                self,
            ).repo_map(),
            final(self).owner == old(self).owner,
            final(self).first_name == old(self).first_name,
            final(self).last_name == old(self).last_name,
            final(self).username == old(self).username,
            final(self).repo_code_id == old(self).repo_code_id,
    {
        let ghost before = self.repo_map();
        let taken = self.repos.remove(&repo_id);
        match taken {
            Some(mut repo) => {
                repo.name = name;
                self.repos.insert(repo_id, repo);
                proof {
                    assert(self.repo_map() =~= before.insert(repo_id, repo));
                    assert forall|k: ActorId| #[trigger] self.repo_map().contains_key(k) implies self.repo_map()[k].id
                        == k by {
                        if k != repo_id {
                            assert(before.contains_key(k));
                        }
                    }
                }
            },
            None => {
                proof {
                    assert(self.repo_map() =~= before);
                }
            },
        }
    }

    /// The repository `repo_id`, where there is one.
    pub fn get_repo(&self, repo_id: ActorId) -> (r: Option<Repository>)
        requires
            self.wf(),
        ensures
            r == self.repo_map().index_opt(repo_id),
    {
        match self.repos.get(&repo_id) {
            Some(repo) => Some(repo.duplicate()),
            None => None,
        }
    }

    /// The first repository, in order of ids, named `name`.
    pub fn get_repo_by_name(&self, name: &String) -> (r: Option<Repository>)
        requires
            self.wf(),
        ensures
            r == first_named(self.repos.values(), name@),
    {
        let ghost vals = self.repos.values();
        let n = self.repos.len();
        let mut i: usize = 0;
        assert(vals.skip(0) =~= vals);
        while i < n
            invariant
                self.wf(),
                vals == self.repos.values(),
                n == vals.len(),
                i <= n,
                first_named(vals, name@) == first_named(vals.skip(i as int), name@),
            decreases n - i,
        {
            let repo = self.repos.value_at(i);
            proof {
                lemma_first_named_step(vals, name@, i as int);
            }
            if repo.name == *name {
                return Some(repo.duplicate());
            }
            i = i + 1;
        }
        proof {
            assert(vals.skip(n as int).len() == 0);
        }
        None
    }

    /// Serves one request of `sender`. A refused request changes nothing.
    pub fn handle(&mut self, sender: ActorId, request: UserActionRequest) -> (r: Result<
        UserAction,
        UserError,
    >)
        requires
            old(self).wf(),
        ensures
            final(self).wf(),
            final(self).owner == old(self).owner,
            final(self).repo_code_id == old(self).repo_code_id,
            r is Err ==> *final(self) == *old(self),
            match request {
                UserActionRequest::UpdateUserData(input) => {
                    &&& sender != old(self).owner ==> r == Err::<UserAction, UserError>(
                        UserError::AccessDenied,
                    )
                    &&& sender == old(self).owner ==> {
                        &&& r matches Ok(
                            UserAction::Reply(UserActionResponse::UpdateUserData { message }),
                        ) && message@ == update_data_msg()
                        &&& final(self).first_name == input.first_name
                        &&& final(self).last_name == input.last_name
                        &&& final(self).username == input.username
                        &&& final(self).repos == old(self).repos
                    }
                },
                UserActionRequest::CreateRepository(input) => {
                    &&& sender != old(self).owner ==> r == Err::<UserAction, UserError>(
                        UserError::AccessDenied,
                    )
                    &&& sender == old(self).owner ==> {
                        &&& r matches Ok(UserAction::CreateRepoProgram { code_id, payload })
                            && code_id == old(self).repo_code_id && payload.owner == sender
                            && payload.name == input.name
                        &&& *final(self) == *old(self)
                    }
                },
                UserActionRequest::RenameRepository(name) => {
                    let first = first_named(old(self).repos.values(), name@);
                    &&& (first matches Some(x) && x.id != sender) ==> r == Err::<
                        UserAction,
                        UserError,
                    >(UserError::RepositoryNameExists)
                    &&& !(first matches Some(x) && x.id != sender) ==> {
                        &&& r matches Ok(UserAction::Reply(UserActionResponse::Success))
                        &&& old(self).repo_map().contains_key(sender) ==> {
                            let before = old(self).repo_map()[sender];
                            final(self).repo_map() == old(self).repo_map().insert(
                                sender,
                                Repository {
                                    id: before.id,
                                    name: name,
                                    created_at: before.created_at,
                                    updated_at: before.updated_at,
                                },
                            )
                        }
                        &&& !old(self).repo_map().contains_key(sender) ==> final(self).repo_map()
                            == old(self).repo_map()
                        &&& final(self).first_name == old(self).first_name
                        &&& final(self).last_name == old(self).last_name
                        &&& final(self).username == old(self).username
                    }
                },
            },
    {
        match request {
            UserActionRequest::UpdateUserData(update_input) => {
                if sender != self.owner {
                    return Err(UserError::AccessDenied);
                }
                let _ = self.update_data(update_input);
                Ok(
                    UserAction::Reply(
                        UserActionResponse::UpdateUserData {
                            message: String::from_str("successfully update data"),
                        },
                    ),
                )
            },
            UserActionRequest::CreateRepository(create_repo_input) => {
                if sender != self.owner {
                    return Err(UserError::AccessDenied);
                }
                Ok(
                    UserAction::CreateRepoProgram {
                        code_id: self.repo_code_id,
                        payload: InitRepoProgram { owner: sender, name: create_repo_input.name },
                    },
                )
            },
            UserActionRequest::RenameRepository(name) => {
                let repo_by_name = self.get_repo_by_name(&name);
                match repo_by_name {
                    Some(repo_by_name) => {
                        if repo_by_name.id != sender {
                            return Err(UserError::RepositoryNameExists);
                        }
                    },
                    None => {},
                }
                let repo = self.get_repo(sender);
                match repo {
                    Some(repo) => {
                        if repo.id == sender {
                            self.rename_repo(sender, name);
                        } else {
                            return Ok(UserAction::Reply(UserActionResponse::Failure));
                        }
                    },
                    None => {},
                }
                Ok(UserAction::Reply(UserActionResponse::Success))
            },
        }
    }

    /// Completes a creation request: records the repository program
    /// `program_id`, created at time `now` from `payload`, and gives the reply.
    pub fn on_repo_program_created(
        &mut self,
        payload: InitRepoProgram,
        program_id: ActorId,
        now: u64,
    ) -> (r: UserActionResponse)
        requires
            old(self).wf(),
        ensures
            final(self).wf(),
            final(self).repo_map() == old(self).repo_map().insert(
                program_id,
                Repository { id: program_id, name: payload.name, created_at: now, updated_at: now },
            ),
            final(self).owner == old(self).owner,
            final(self).first_name == old(self).first_name,
            final(self).last_name == old(self).last_name,
            final(self).username == old(self).username,
            final(self).repo_code_id == old(self).repo_code_id,
            r matches UserActionResponse::CreateRepository { message } && message@
                == create_repository_msg(),
    {
        self.create_repo(payload, program_id, now);
        UserActionResponse::CreateRepository {
            message: String::from_str("Successfully create repository dapp"),
        }
    }
}

/// The program's whole state.
pub fn get_program_data(state: Program) -> (r: Program)
    ensures
        r == state,
{
    state
}

/// The user's repositories, in increasing order of their ids.
pub fn get_user_repos(state: Program) -> (r: Vec<Repository>)
    requires
        state.repos.wf(),
    ensures
        r@ == state.repos.values(),
{
    state.repos.into_values()
}

} // verus!
