//! The registry of users: each registered actor gets a program of its own,
//! created from the user program's code.
use vstd::prelude::*;
use crate::keys::{ActorId, CodeId};
use crate::sorted_map::SortedMap;
use crate::repo::keyed_by_self;
use crate::user::InitUserProgram;

verus! {

#[derive(Clone, Debug, PartialEq, Eq)]
pub struct InitProgram {
    pub user_prog_code_id: CodeId,
    pub repo_prog_code_id: CodeId,
}

#[derive(Clone, Debug, PartialEq, Eq)]
pub struct RegisterUserInput {
    pub owner: Option<ActorId>,
    pub first_name: String,
    pub last_name: String,
    pub username: String,
}

#[derive(Clone, Debug, PartialEq, Eq)]
pub enum ActionRequest {
    RegisterUser(RegisterUserInput),
}

#[derive(Clone, Debug, PartialEq, Eq)]
pub enum ActionResponse {
    RegisterUser { id: ActorId },
}

/// Why the registry refuses a request.
#[derive(Clone, Copy, Debug, PartialEq, Eq, Structural)]
pub enum MasterError {
    /// The sender is registered already.
    UserAlreadyExists,
}

/// An accepted registration: create a program from `code_id` with `payload`,
/// then reply `response`.
#[derive(Debug)]
pub struct Registration {
    pub code_id: CodeId,
    pub payload: InitUserProgram,
    pub response: ActionResponse,
}

/// The registry: its owner, the registered users (each keyed by itself) and
/// the codes of the programs it creates.
#[derive(Debug)]
pub struct Program {
    pub owner: ActorId,
    pub state: SortedMap<ActorId, ActorId>,
    pub user_prog_code_id: CodeId,
    pub repo_prog_code_id: CodeId,
}

impl Program {
    pub open spec fn users(self) -> Map<ActorId, ActorId> {
        self.state.map()
    }

    /// Well-formed: the map is ordered and every user is keyed by itself.
    pub open spec fn wf(self) -> bool {
        &&& self.state.wf()
        &&& keyed_by_self(self.users())
    }

    /// A registration from `sender` is accepted: `sender` is not registered yet.
    pub open spec fn accepts_registration(self, sender: ActorId) -> bool {
        !self.users().contains_key(sender)
    }

    /// A registry owned by `owner` with the codes of `init_program` and no user.
    pub fn new(owner: ActorId, init_program: InitProgram) -> (p: Program)
        ensures
            p.wf(),
            p.owner == owner,
            p.user_prog_code_id == init_program.user_prog_code_id,
            p.repo_prog_code_id == init_program.repo_prog_code_id,
            p.users() == Map::<ActorId, ActorId>::empty(),
    {
        Program {
            user_prog_code_id: init_program.user_prog_code_id,
            repo_prog_code_id: init_program.repo_prog_code_id,
            state: SortedMap::new(),
            owner,
        }
    }

    /// Whether `actor_id` is registered.
    pub fn is_exist_user(&self, actor_id: ActorId) -> (r: bool)
        requires
            self.wf(),
        ensures
            r == self.users().contains_key(actor_id),
    {
        self.state.contains_key(&actor_id)
    }

    /// The program to create for a registering user: the user program's code
    /// and the payload that sets the user's data and the repository code.
    pub fn init_user_prog(&self, register_user_input: RegisterUserInput) -> (r: (
        CodeId,
        InitUserProgram,
    ))
        requires
            register_user_input.owner is Some,
        ensures
            r.0 == self.user_prog_code_id,
            r.1.owner == register_user_input.owner->0,
            r.1.repo_code_id == self.repo_prog_code_id,
            r.1.first_name == register_user_input.first_name,
            r.1.last_name == register_user_input.last_name,
            r.1.username == register_user_input.username,
    {
        let owner = match register_user_input.owner {
            Some(owner) => owner,
            None => ActorId::zero(),
        };
        let payload = InitUserProgram {
            owner,
            repo_code_id: self.repo_prog_code_id,
            first_name: register_user_input.first_name,
            last_name: register_user_input.last_name,
            username: register_user_input.username,
        };
        (self.user_prog_code_id, payload)
    }

    /// Serves one request of `sender`. A refused request changes nothing.
    pub fn handle(&mut self, sender: ActorId, request: ActionRequest) -> (r: Result<
        Registration,
        MasterError,
    >)
        requires
            old(self).wf(),
        ensures
            final(self).wf(),
            final(self).owner == old(self).owner,
            final(self).user_prog_code_id == old(self).user_prog_code_id,
            final(self).repo_prog_code_id == old(self).repo_prog_code_id,
            r is Err ==> *final(self) == *old(self),
            r is Ok <==> old(self).accepts_registration(sender),
            !old(self).accepts_registration(sender) ==> r == Err::<Registration, MasterError>(
                MasterError::UserAlreadyExists,
            ),
            match request {
                ActionRequest::RegisterUser(input) => old(self).accepts_registration(sender) ==> {
                    &&& r matches Ok(reg) && {
                        &&& reg.code_id == old(self).user_prog_code_id
                        &&& reg.payload.owner == sender
                        &&& reg.payload.repo_code_id == old(self).repo_prog_code_id
                        &&& reg.payload.first_name == input.first_name
                        &&& reg.payload.last_name == input.last_name
                        &&& reg.payload.username == input.username
                        &&& reg.response == ActionResponse::RegisterUser { id: sender }
                    }
                    &&& final(self).users() == old(self).users().insert(sender, sender)
                },
            },
    {
        match request {
            ActionRequest::RegisterUser(register_user_input) => {
                if self.is_exist_user(sender) {
                    return Err(MasterError::UserAlreadyExists);
                }
                let input_data = RegisterUserInput {
                    owner: Some(sender),
                    first_name: register_user_input.first_name,
                    last_name: register_user_input.last_name,
                    username: register_user_input.username,
                };
                let (code_id, payload) = self.init_user_prog(input_data);
                let ghost before = self.users();
                self.state.insert(sender, sender);
                proof {
                    assert forall|a: ActorId| #[trigger] self.users().contains_key(a) implies self.users()[a]
                        == a by {
                        if a != sender {
                            assert(before.contains_key(a));
                        }
                    }
                }
                Ok(Registration { code_id, payload, response: ActionResponse::RegisterUser { id: sender } })
            },
        }
    }
}

/// Any actor not yet registered, the registry's owner included, may register;
/// only a registered one is refused.
pub proof fn lemma_registration_open(p: Program, sender: ActorId)
    ensures
        p.accepts_registration(sender) <==> !p.users().contains_key(sender),
        !p.users().contains_key(p.owner) ==> p.accepts_registration(p.owner),
{
}

/// Once a registration of `sender` has been accepted, every later one from
/// `sender` is refused.
pub proof fn lemma_register_once(before: Program, after: Program, sender: ActorId)
    requires
        after.users() == before.users().insert(sender, sender),
    ensures
        !after.accepts_registration(sender),
{
}

/// The registry's whole state.
pub fn get_program_data(state: Program) -> (r: Program)
    ensures
        r == state,
{
    state
}

/// All registered users, in increasing order.
pub fn get_users(state: Program) -> (r: Vec<ActorId>)
    requires
        state.state.wf(),
    ensures
        r@ == state.state.values(),
{
    state.state.into_values()
}

/// The registered user `actor_id`, who must be registered.
pub fn get_user(state: Program, actor_id: ActorId) -> (r: Option<ActorId>)
    requires
        state.state.wf(),
        state.users().contains_key(actor_id),
    ensures
        r == Some(state.users()[actor_id]),
        keyed_by_self(state.users()) ==> r == Some(actor_id),
{
    let mut users = state.state;
    users.remove(&actor_id)
}

} // verus!
