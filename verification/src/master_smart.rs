//! The registry that keeps each user's profile itself, together with the ids
//! of the repository and branch programs created for the user.
use vstd::prelude::*;
use crate::keys::{ActorId, CodeId};
use crate::sorted_map::SortedMap;

verus! {

#[derive(Clone, Debug, PartialEq, Eq)]
pub struct InitProgram {
    pub repo_code_id: CodeId,
    pub branch_code_id: CodeId,
}

#[derive(Clone, Debug, PartialEq, Eq)]
pub struct RegisterUserInput {
    pub first_name: String,
    pub last_name: String,
    pub username: String,
    pub repos_program_id: Option<ActorId>,
    pub branches_program_id: Option<ActorId>,
}

#[derive(Clone, Debug, PartialEq, Eq)]
pub struct UpdateUserDataInput {
    pub first_name: String,
    pub last_name: String,
    pub username: String,
}

#[derive(Clone, Debug, PartialEq, Eq)]
pub enum ActionRequest {
    RegisterUser(RegisterUserInput),
    UpdateUserData(UpdateUserDataInput),
}

#[derive(Clone, Debug, PartialEq, Eq)]
pub enum ActionResponse {
    RegisterUser { id: ActorId },
    UpdateUserData { id: ActorId },
}

/// A registered user.
#[derive(Debug)]
pub struct User {
    pub username: String,
    pub first_name: String,
    pub last_name: String,
    pub owner: ActorId,
    pub repos_program_id: Option<ActorId>,
    pub branches_program_id: Option<ActorId>,
    pub repos: SortedMap<String, String>,
    pub repo_branches: SortedMap<String, String>,
}

impl User {
    /// A user owned by `owner` (the sender of the registration) with the
    /// names of `register_user_input`, no programs yet and no repositories.
    pub fn new(register_user_input: RegisterUserInput, owner: ActorId) -> (u: User)
        ensures
            u.first_name == register_user_input.first_name,
            u.last_name == register_user_input.last_name,
            u.username == register_user_input.username,
            u.owner == owner,
            u.repos_program_id is None,
            u.branches_program_id is None,
            u.repos.wf(),
            u.repos.map() == Map::<Seq<char>, String>::empty(),
            u.repo_branches.wf(),
            u.repo_branches.map() == Map::<Seq<char>, String>::empty(),
    {
        User {
            first_name: register_user_input.first_name,
            last_name: register_user_input.last_name,
            username: register_user_input.username,
            repos_program_id: None,
            branches_program_id: None,
            owner,
            repos: SortedMap::new(),
            repo_branches: SortedMap::new(),
        }
    }

    /// Records the ids of the repository and branch programs created for the
    /// user.
    pub fn init_programs(&mut self, repos_program_id: ActorId, branches_program_id: ActorId)
        ensures
            final(self).repos_program_id == Some(repos_program_id),
            final(self).branches_program_id == Some(branches_program_id),
            final(self).username == old(self).username,
            final(self).first_name == old(self).first_name,
            final(self).last_name == old(self).last_name,
            final(self).owner == old(self).owner,
            final(self).repos == old(self).repos,
            final(self).repo_branches == old(self).repo_branches,
    {
        self.repos_program_id = Some(repos_program_id);
        self.branches_program_id = Some(branches_program_id);
    }
}

/// Why the registry refuses a request.
#[derive(Clone, Copy, Debug, PartialEq, Eq, Structural)]
pub enum MasterError {
    /// The sender is registered already.
    UserAlreadyExists,
    /// The sender is not registered.
    UserNotFound,
}

/// What serving a request asks of the caller.
#[derive(Debug)]
pub enum MasterAction {
    /// Reply with this response.
    Reply(ActionResponse),
    /// Create two programs, each with the user's owner as payload: one from
    /// `repo_code_id`, one from `branch_code_id`; then report their ids with
    /// `Program::register_user`.
    CreateUserPrograms { user: User, repo_code_id: CodeId, branch_code_id: CodeId },
}

/// The registry: owner, users by actor, and the codes of the programs it
/// creates for them.
#[derive(Debug)]
pub struct Program {
    pub owner: ActorId,
    pub state: SortedMap<ActorId, User>,
    pub repo_code_id: CodeId,
    pub branch_code_id: CodeId,
}

impl Program {
    pub open spec fn users(self) -> Map<ActorId, User> {
        self.state.map()
    }

    pub open spec fn wf(self) -> bool {
        self.state.wf()
    }

    /// A registry owned by `owner` with the codes of `init_program` and no
    /// user. (The program's initialisation passes the default, all-zero owner.)
    pub fn new(owner: ActorId, init_program: InitProgram) -> (p: Program)
        ensures
            p.wf(),
            p.owner == owner,
            p.repo_code_id == init_program.repo_code_id,
            p.branch_code_id == init_program.branch_code_id,
            p.users() == Map::<ActorId, User>::empty(),
    {
        Program {
            repo_code_id: init_program.repo_code_id,
            branch_code_id: init_program.branch_code_id,
            state: SortedMap::new(),
            owner,
        }
    }

    /// Whether `actor_id` is registered.
    pub fn is_exist_user(&self, actor_id: ActorId) -> (r: bool)
        requires
            self.wf(),
        ensures
            r == self.users().contains_key(actor_id),
    {
        self.state.contains_key(&actor_id)
    }

    /// Replaces the names of the user `actor_id`, where registered; returns
    /// `actor_id`.
    pub fn update_user_data(&mut self, actor_id: ActorId, update_user_data_input: UpdateUserDataInput) -> (r:
        ActorId)
        requires
            old(self).wf(),
        ensures
            r == actor_id,
            final(self).wf(),
            final(self).owner == old(self).owner,
            final(self).repo_code_id == old(self).repo_code_id,
            final(self).branch_code_id == old(self).branch_code_id,
            old(self).users().contains_key(actor_id) ==> {
                let before = old(self).users()[actor_id];
                let after = final(self).users()[actor_id];
                &&& final(self).users() == old(self).users().insert(actor_id, after)
                &&& after.first_name == update_user_data_input.first_name
                &&& after.last_name == update_user_data_input.last_name
                &&& after.username == update_user_data_input.username
                &&& after.owner == before.owner
                &&& after.repos_program_id == before.repos_program_id
                &&& after.branches_program_id == before.branches_program_id
                &&& after.repos == before.repos
                &&& after.repo_branches == before.repo_branches
            },
            !old(self).users().contains_key(actor_id) ==> final(self).users() == old(self).users(),
    {
        let ghost before = self.users();
        let taken = self.state.remove(&actor_id);
        match taken {
            Some(mut user) => {
                user.first_name = update_user_data_input.first_name;
                user.last_name = update_user_data_input.last_name;
                user.username = update_user_data_input.username;
                self.state.insert(actor_id, user);
                proof {
                    assert(self.users() =~= before.insert(actor_id, user));
                }
            },
            None => {
                proof {
                    assert(self.users() =~= before);
                }
            },
        }
        actor_id
    }

    /// Serves one request of `sender`. A refused request changes nothing; a
    /// registration changes nothing either until `register_user` completes it.
    pub fn handle(&mut self, sender: ActorId, request: ActionRequest) -> (r: Result<
        MasterAction,
        MasterError,
    >)
        requires
            old(self).wf(),
        ensures
            final(self).wf(),
            final(self).owner == old(self).owner,
            final(self).repo_code_id == old(self).repo_code_id,
            final(self).branch_code_id == old(self).branch_code_id,
            r is Err ==> *final(self) == *old(self),
            match request {
                ActionRequest::RegisterUser(input) => {
                    &&& old(self).users().contains_key(sender) ==> r == Err::<
                        MasterAction,
                        MasterError,
                    >(MasterError::UserAlreadyExists)
                    &&& !old(self).users().contains_key(sender) ==> {
                        &&& r matches Ok(
                            MasterAction::CreateUserPrograms { user, repo_code_id, branch_code_id },
                        ) && {
                            &&& repo_code_id == old(self).repo_code_id
                            &&& branch_code_id == old(self).branch_code_id
                            &&& user.owner == sender
                            &&& user.first_name == input.first_name
                            &&& user.last_name == input.last_name
                            &&& user.username == input.username
                            &&& user.repos_program_id is None
                            &&& user.branches_program_id is None
                            &&& user.repos.map() == Map::<Seq<char>, String>::empty()
                            &&& user.repo_branches.map() == Map::<Seq<char>, String>::empty()
                        }
                        &&& *final(self) == *old(self)
                    }
                },
                ActionRequest::UpdateUserData(input) => {
                    &&& !old(self).users().contains_key(sender) ==> r == Err::<
                        MasterAction,
                        MasterError,
                    >(MasterError::UserNotFound)
                    &&& old(self).users().contains_key(sender) ==> {
                        let before = old(self).users()[sender];
                        let after = final(self).users()[sender];
                        &&& r matches Ok(
                            MasterAction::Reply(ActionResponse::UpdateUserData { id }),
                        ) && id == sender
                        &&& final(self).users() == old(self).users().insert(sender, after)
                        &&& after.first_name == input.first_name
                        &&& after.last_name == input.last_name
                        &&& after.username == input.username
                        &&& after.owner == before.owner
                        &&& after.repos_program_id == before.repos_program_id
                        &&& after.branches_program_id == before.branches_program_id
                        &&& after.repos == before.repos
                        &&& after.repo_branches == before.repo_branches
                    }
                },
            },
    {
        match request {
            ActionRequest::RegisterUser(register_user_input) => {
                if self.is_exist_user(sender) {
                    return Err(MasterError::UserAlreadyExists);
                }
                let user = User::new(register_user_input, sender);
                Ok(
                    MasterAction::CreateUserPrograms {
                        user,
                        repo_code_id: self.repo_code_id,
                        branch_code_id: self.branch_code_id,
                    },
                )
            },
            ActionRequest::UpdateUserData(update_user_data_input) => {
                if !self.is_exist_user(sender) {
                    return Err(MasterError::UserNotFound);
                }
                let id = self.update_user_data(sender, update_user_data_input);
                Ok(MasterAction::Reply(ActionResponse::UpdateUserData { id }))
            },
        }
    }

    /// Completes a registration of `actor_id`: records the ids of the
    /// programs created for `user` and adds the user.
    pub fn register_user(
        &mut self,
        actor_id: ActorId,
        user: User,
        repos_program_id: ActorId,
        branches_program_id: ActorId,
    ) -> (r: ActionResponse)
        requires
            old(self).wf(),
        ensures
            final(self).wf(),
            r == (ActionResponse::RegisterUser { id: actor_id }),
            final(self).owner == old(self).owner,
            final(self).repo_code_id == old(self).repo_code_id,
            final(self).branch_code_id == old(self).branch_code_id,
            final(self).users() == old(self).users().insert(
                actor_id,
                User {
                    repos_program_id: Some(repos_program_id),
                    branches_program_id: Some(branches_program_id),
                    ..user
                },
            ),
    {
        let mut user = user;
        user.init_programs(repos_program_id, branches_program_id);
        self.state.insert(actor_id, user);
        ActionResponse::RegisterUser { id: actor_id }
    }
}

/// The registry's whole state.
pub fn get_program_data(state: Program) -> (r: Program)
    ensures
        r == state,
{
    state
}

/// All users, in increasing order of their actor ids.
pub fn get_users(state: Program) -> (r: Vec<User>)
    requires
        state.wf(),
    ensures
        r@ == state.state.values(),
{
    state.state.into_values()
}

/// The user `actor_id`, who must be registered.
pub fn get_user(state: Program, actor_id: ActorId) -> (r: Option<User>)
    requires
        state.wf(),
        state.users().contains_key(actor_id),
    ensures
        r == Some(state.users()[actor_id]),
{
    let mut users = state.state;
    users.remove(&actor_id)
}

} // verus!
