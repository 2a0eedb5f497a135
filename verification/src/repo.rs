//! One repository: its collaborators, its branches and their commits, and the
//! handler of its requests.
use vstd::prelude::*;
use crate::keys::ActorId;
use crate::sorted_map::SortedMap;

verus! {

#[derive(Clone, Debug, PartialEq, Eq)]
pub struct Commit {
    pub id: u32,
    pub owner: ActorId,
    pub message: String,
    pub hash: String,
    pub description: String,
}

#[derive(Clone, Debug, PartialEq, Eq)]
pub struct Branch {
    pub id: u32,
    pub name: String,
    pub owner: ActorId,
    pub commits: Vec<Commit>,
}

#[derive(Clone, Debug, PartialEq, Eq)]
pub struct CreateBranchInput {
    pub owner: ActorId,
    pub id: u32,
    pub name: String,
}

#[derive(Clone, Debug, PartialEq, Eq)]
pub struct RenameBranchInput {
    pub id: u32,
    pub name: String,
}

#[derive(Clone, Debug, PartialEq, Eq)]
pub struct DeleteBranchInput {
    pub branch_id: u32,
}

#[derive(Clone, Debug, PartialEq, Eq)]
pub struct PushInput {
    pub branch_id: u32,
    pub message: String,
    pub hash: String,
    pub description: String,
}

/// The message that creates a repository program.
#[derive(Clone, Debug, PartialEq, Eq)]
pub struct InitProgram {
    pub owner: ActorId,
    pub name: String,
}

/// The payload with which a user's program creates a repository program.
pub type InitRepoProgram = InitProgram;

#[derive(Clone, Debug, PartialEq, Eq)]
pub enum RepoActionRequests {
    CreateBranch(String),
    RenameBranch(RenameBranchInput),
    DeleteBranch(DeleteBranchInput),
    Push(PushInput),
    AddCollaborator(ActorId),
    DeleteCollaborator(ActorId),
}

#[derive(Clone, Debug, PartialEq, Eq)]
pub enum RepoActionResponses {
    CreateBranch { msg: String },
    RenameBranch { msg: String },
    DeleteBranch { msg: String },
    Push { msg: String },
    AddCollaborator { msg: String },
}

/// Why the repository refuses a request.
#[derive(Clone, Copy, Debug, PartialEq, Eq, Structural)]
pub enum RepoError {
    /// The sender is not both the owner and a collaborator.
    AccessDenied,
    /// A branch of that name exists already.
    BranchNameExists,
    /// A branch of that id exists.
    InvalidBranchId,
}

impl Branch {
    /// A branch without commits, as `input` describes it.
    pub fn new(input: CreateBranchInput) -> (b: Branch)
        ensures
            b.id == input.id,
            b.name == input.name,
            b.owner == input.owner,
            b.commits@ == Seq::<Commit>::empty(),
    {
        Branch { id: input.id, name: input.name, owner: input.owner, commits: Vec::new() }
    }

    /// Renames the branch.
    pub fn rename(&mut self, name: String)
        ensures
            final(self).name == name,
            final(self).id == old(self).id,
            final(self).owner == old(self).owner,
            final(self).commits == old(self).commits,
    {
        self.name = name;
    }

    /// Appends `commit` to the branch's commits.
    pub fn add_commit(&mut self, commit: Commit)
        ensures
            final(self).commits@ == old(self).commits@.push(commit),
            final(self).id == old(self).id,
            final(self).name == old(self).name,
            final(self).owner == old(self).owner,
    {
        self.commits.push(commit);
    }
}

/// The seed that follows `seed` for the next id, wrapping past 255.
pub fn next_seed(seed: u8) -> (r: u8)
    ensures
        r == (seed + 1) % 256,
{
    seed.wrapping_add(1)
}

/// The id read from a random output: its first four bytes, big-endian.
pub fn id_from_random(random: [u8; 32]) -> (id: u32)
    ensures
        id == random@[0] * 0x100_0000 + random@[1] * 0x1_0000 + random@[2] * 0x100 + random@[3],
{
    let b0 = random[0] as u32;
    let b1 = random[1] as u32;
    let b2 = random[2] as u32;
    let b3 = random[3] as u32;
    b0 * 0x100_0000 + b1 * 0x1_0000 + b2 * 0x100 + b3
}

/// Every actor is mapped to itself.
pub open spec fn keyed_by_self(m: Map<ActorId, ActorId>) -> bool {
    forall|a: ActorId| #[trigger] m.contains_key(a) ==> m[a] == a
}

/// Every branch is kept under its own id.
pub open spec fn keyed_by_id(m: Map<u32, Branch>) -> bool {
    forall|k: u32| #[trigger] m.contains_key(k) ==> m[k].id == k
}

/// A repository program: owner, name, collaborators and branches by id.
#[derive(Debug)]
pub struct Program {
    pub owner: ActorId,
    pub name: String,
    pub collaborator: SortedMap<ActorId, ActorId>,
    pub branches: SortedMap<u32, Branch>,
}

/// The message of each successful response.
pub open spec fn create_branch_msg() -> Seq<char> {
    "Successfully create branch"@
}

pub open spec fn rename_branch_msg() -> Seq<char> {
    "Successfully rename branch"@
}

pub open spec fn delete_branch_msg() -> Seq<char> {
    "Successfully delete branch"@
}

pub open spec fn push_msg() -> Seq<char> {
    "Successfully commit"@
}

pub open spec fn add_collaborator_msg() -> Seq<char> {
    "Successfully add collaborator"@
}

pub open spec fn delete_collaborator_msg() -> Seq<char> {
    "Successfully delete collaborator"@
}

fn message(s: &str) -> (r: String)
    ensures
        r@ == s@,
{
    String::from_str(s)
}

impl Program {
    pub open spec fn collaborators(self) -> Map<ActorId, ActorId> {
        self.collaborator.map()
    }

    pub open spec fn branch_map(self) -> Map<u32, Branch> {
        self.branches.map()
    }

    /// Well-formed: both maps ordered, every collaborator keyed by itself,
    /// every branch kept under its own id.
    pub open spec fn wf(self) -> bool {
        &&& self.collaborator.wf()
        &&& self.branches.wf()
        &&& keyed_by_self(self.collaborators())
        &&& keyed_by_id(self.branch_map())
    }

    /// The rule by which a request of `sender` is served: the sender must be
    /// the owner and a collaborator as well.
    pub open spec fn accepts(self, sender: ActorId) -> bool {
        sender == self.owner && self.collaborators().contains_key(sender)
    }

    /// Some branch is named `name`.
    pub open spec fn has_branch_name(self, name: Seq<char>) -> bool {
        exists|k: u32| #[trigger] self.branch_map().contains_key(k) && self.branch_map()[k].name@ == name
    }

    /// A repository owned by `owner` and named `name`, with no collaborator
    /// and no branch.
    pub fn new(owner: ActorId, name: String) -> (p: Program)
        ensures
            p.wf(),
            p.owner == owner,
            p.name == name,
            p.collaborators() == Map::<ActorId, ActorId>::empty(),
            p.branch_map() == Map::<u32, Branch>::empty(),
    {
        Program { owner, name, collaborator: SortedMap::new(), branches: SortedMap::new() }
    }

    /// Whether some branch is named `name`.
    pub fn is_exist_branch_by_name(&self, name: &String) -> (r: bool)
        requires
            self.wf(),
        ensures
            r == self.has_branch_name(name@),
            r <==> exists|j: int|
                0 <= j < self.branches.values().len() && (#[trigger] self.branches.values()[j]).name@
                    == name@,
    {
        proof {
            self.branches.lemma_map_entries();
            lemma_branch_name_taken(*self, name@);
        }
        let n = self.branches.len();
        let mut i: usize = 0;
        while i < n
            invariant
                self.wf(),
                n == self.branches.keys().len(),
                i <= n,
                forall|j: int|
                    0 <= j < i ==> (#[trigger] self.branch_map()[self.branches.keys()[j]]).name@
                        != name@,
                forall|j: int|
                    0 <= j < n ==> self.branch_map().contains_key(#[trigger] self.branches.keys()[j])
                        && self.branch_map()[self.branches.keys()[j]] == self.branches.values()[j],
            decreases n - i,
        {
            let br = self.branches.value_at(i);
            if br.name == *name {
                proof {
                    assert(self.branch_map().contains_key(self.branches.keys()[i as int]));
                }
                return true;
            }
            i = i + 1;
        }
        proof {
            if self.has_branch_name(name@) {
                let k = choose|k: u32|
                    #[trigger] self.branch_map().contains_key(k) && self.branch_map()[k].name@
                        == name@;
                let j = choose|j: int|
                    0 <= j < self.branches.keys().len() && self.branches.keys()[j] == k;
                assert(self.branch_map()[self.branches.keys()[j]].name@ != name@);
            }
        }
        false
    }

    /// Whether some branch is named `name` (the same test as
    /// `is_exist_branch_by_name`).
    pub fn is_exits_branch_by_name(&self, name: &String) -> (r: bool)
        requires
            self.wf(),
        ensures
            r == self.has_branch_name(name@),
    {
        self.is_exist_branch_by_name(name)
    }

    /// Whether some branch has the id `id`.
    pub fn is_exist_branch(&self, id: u32) -> (r: bool)
        requires
            self.wf(),
        ensures
            r == (exists|k: u32| #[trigger] self.branch_map().contains_key(k) && self.branch_map()[k].id == id),
            r == self.branch_map().contains_key(id),
    {
        proof {
            self.branches.lemma_map_entries();
        }
        let n = self.branches.len();
        let mut i: usize = 0;
        while i < n
            invariant
                self.wf(),
                n == self.branches.keys().len(),
                i <= n,
                forall|j: int|
                    0 <= j < i ==> (#[trigger] self.branch_map()[self.branches.keys()[j]]).id != id,
                forall|j: int|
                    0 <= j < n ==> self.branch_map().contains_key(#[trigger] self.branches.keys()[j])
                        && self.branch_map()[self.branches.keys()[j]] == self.branches.values()[j],
            decreases n - i,
        {
            let br = self.branches.value_at(i);
            if br.id == id {
                proof {
                    assert(self.branch_map().contains_key(self.branches.keys()[i as int]));
                }
                return true;
            }
            i = i + 1;
        }
        proof {
            if exists|k: u32| #[trigger] self.branch_map().contains_key(k) && self.branch_map()[k].id == id {
                let k = choose|k: u32|
                    #[trigger] self.branch_map().contains_key(k) && self.branch_map()[k].id == id;
                let j = choose|j: int|
                    0 <= j < self.branches.keys().len() && self.branches.keys()[j] == k;
                assert(self.branch_map()[self.branches.keys()[j]].id != id);
            }
            if self.branch_map().contains_key(id) {
                assert(self.branch_map()[id].id == id);
            }
        }
        false
    }

    /// Whether `actor_id` is a collaborator.
    pub fn is_exist_collaborator(&self, actor_id: ActorId) -> (r: bool)
        requires
            self.wf(),
        ensures
            r == self.collaborators().contains_key(actor_id),
    {
        self.collaborator.contains_key(&actor_id)
    }

    /// Makes `actor_id` a collaborator.
    pub fn add_collaborator(&mut self, actor_id: ActorId)
        requires
            old(self).wf(),
        ensures
            final(self).wf(),
            final(self).collaborators() == old(self).collaborators().insert(actor_id, actor_id),
            final(self).owner == old(self).owner,
            final(self).name == old(self).name,
            final(self).branches == old(self).branches,
    {
        let ghost before = self.collaborators();
        self.collaborator.insert(actor_id, actor_id);
        proof {
            assert forall|a: ActorId| #[trigger] self.collaborators().contains_key(a) implies self.collaborators()[a]
                == a by {
                if a != actor_id {
                    assert(before.contains_key(a));
                }
            }
        }
    }

    /// Removes `actor_id` from the collaborators.
    pub fn delete_collaborator(&mut self, actor_id: ActorId)
        requires
            old(self).wf(),
        ensures
            final(self).wf(),
            final(self).collaborators() == old(self).collaborators().remove(actor_id),
            final(self).owner == old(self).owner,
            final(self).name == old(self).name,
            final(self).branches == old(self).branches,
    {
        let ghost before = self.collaborators();
        let _ = self.collaborator.remove(&actor_id);
        proof {
            assert forall|a: ActorId| #[trigger] self.collaborators().contains_key(a) implies self.collaborators()[a]
                == a by {
                assert(before.contains_key(a));
            }
        }
    }

    /// Adds the branch that `input` describes, under its id.
    pub fn add_branch(&mut self, input: CreateBranchInput)
        requires
            old(self).wf(),
        ensures
            final(self).wf(),
            final(self).branch_map() == old(self).branch_map().insert(
                input.id,
                Branch { id: input.id, name: input.name, owner: input.owner, commits: final(self).branch_map()[input.id].commits },
            ),
            final(self).branch_map()[input.id].commits@ == Seq::<Commit>::empty(),
            final(self).owner == old(self).owner,
            final(self).name == old(self).name,
            final(self).collaborator == old(self).collaborator,
    {
        let ghost before = self.branch_map();
        let id = input.id;
        let branch = Branch::new(input);
        self.branches.insert(id, branch);
        proof {
            assert forall|k: u32| #[trigger] self.branch_map().contains_key(k) implies self.branch_map()[k].id
                == k by {
                if k != id {
                    assert(before.contains_key(k));
                }
            }
        }
    }

    /// Renames the branch of id `input.id`, where there is one.
    pub fn rename_branch(&mut self, input: RenameBranchInput)
        requires
            old(self).wf(),
        ensures
            final(self).wf(),
            old(self).branch_map().contains_key(input.id) ==> {
                let before = old(self).branch_map()[input.id];
                final(self).branch_map() == old(self).branch_map().insert(
                    input.id,
                    Branch { id: before.id, name: input.name, owner: before.owner, commits: before.commits },
                )
            },
            !old(self).branch_map().contains_key(input.id) ==> final(self).branch_map() == old(
                self,
            ).branch_map(),
            final(self).owner == old(self).owner,
            final(self).name == old(self).name,
            final(self).collaborator == old(self).collaborator,
    {
        let ghost before = self.branch_map();
        let taken = self.branches.remove(&input.id);
        match taken {
            Some(mut branch) => {
                if branch.id == input.id {
                    branch.rename(input.name);
                }
                self.branches.insert(input.id, branch);
                proof {
                    assert(self.branch_map() =~= before.insert(input.id, branch));
                    assert forall|k: u32| #[trigger] self.branch_map().contains_key(k) implies self.branch_map()[k].id
                        == k by {
                        if k != input.id {
                            assert(before.contains_key(k));
                        }
                    }
                }
            },
            None => {
                proof {
                    assert(self.branch_map() =~= before);
                }
            },
        }
    }

    /// Removes the branch of id `input.branch_id`, where there is one.
    pub fn delete_branch(&mut self, input: DeleteBranchInput)
        requires
            old(self).wf(),
        ensures
            final(self).wf(),
            final(self).branch_map() == old(self).branch_map().remove(input.branch_id),
            final(self).owner == old(self).owner,
            final(self).name == old(self).name,
            final(self).collaborator == old(self).collaborator,
    {
        let ghost before = self.branch_map();
        let _ = self.branches.remove(&input.branch_id);
        proof {
            assert forall|k: u32| #[trigger] self.branch_map().contains_key(k) implies self.branch_map()[k].id
                == k by {
                assert(before.contains_key(k));
            }
        }
    }

    /// Appends `commit` to the branch of id `branch_id`, where there is one.
    pub fn push_commit(&mut self, branch_id: u32, commit: Commit)
        requires
            old(self).wf(),
        ensures
            final(self).wf(),
            old(self).branch_map().contains_key(branch_id) ==> {
                let before = old(self).branch_map()[branch_id];
                let after = final(self).branch_map()[branch_id];
                &&& final(self).branch_map() == old(self).branch_map().insert(branch_id, after)
                &&& after.id == before.id
                &&& after.name == before.name
                &&& after.owner == before.owner
                &&& after.commits@ == before.commits@.push(commit)
            },
            !old(self).branch_map().contains_key(branch_id) ==> final(self).branch_map() == old(
                self,
            ).branch_map(),
            final(self).owner == old(self).owner,
            final(self).name == old(self).name,
            final(self).collaborator == old(self).collaborator,
    {
        let ghost before = self.branch_map();
        let taken = self.branches.remove(&branch_id);
        match taken {
            Some(mut branch) => {
                branch.add_commit(commit);
                self.branches.insert(branch_id, branch);
                proof {
                    assert(self.branch_map() =~= before.insert(branch_id, branch));
                    assert forall|k: u32| #[trigger] self.branch_map().contains_key(k) implies self.branch_map()[k].id
                        == k by {
                        if k != branch_id {
                            assert(before.contains_key(k));
                        }
                    }
                }
            },
            None => {
                proof {
                    assert(self.branch_map() =~= before);
                }
            },
        }
    }

    /// Serves one request of `sender`; `new_id` is the id drawn for a new
    /// branch or commit (the requests that need one are those for which
    /// `needs_new_id` holds). A refused request changes nothing.
    pub fn handle(&mut self, sender: ActorId, request: RepoActionRequests, new_id: u32) -> (r: Result<
        RepoActionResponses,
        RepoError,
    >)
        requires
            old(self).wf(),
        ensures
            final(self).wf(),
            final(self).owner == old(self).owner,
            final(self).name == old(self).name,
            r is Err ==> *final(self) == *old(self),
            !old(self).accepts(sender) ==> r == Err::<RepoActionResponses, RepoError>(
                RepoError::AccessDenied,
            ),
            old(self).accepts(sender) ==> match request {
                RepoActionRequests::CreateBranch(name) => {
                    &&& old(self).has_branch_name(name@) ==> r == Err::<
                        RepoActionResponses,
                        RepoError,
                    >(RepoError::BranchNameExists)
                    &&& !old(self).has_branch_name(name@) ==> {
                        &&& r matches Ok(RepoActionResponses::CreateBranch { msg }) && msg@
                            == create_branch_msg()
                        &&& final(self).branch_map() == old(self).branch_map().insert(
                            new_id,
                            Branch {
                                id: new_id,
                                name: name,
                                owner: sender,
                                commits: final(self).branch_map()[new_id].commits,
                            },
                        )
                        &&& final(self).branch_map()[new_id].commits@.len() == 0
                        &&& final(self).collaborators() == old(self).collaborators()
                    }
                },
                RepoActionRequests::RenameBranch(input) => {
                    &&& old(self).branch_map().contains_key(input.id) ==> r == Err::<
                        RepoActionResponses,
                        RepoError,
                    >(RepoError::InvalidBranchId)
                    &&& !old(self).branch_map().contains_key(input.id) ==> {
                        &&& r matches Ok(RepoActionResponses::RenameBranch { msg }) && msg@
                            == rename_branch_msg()
                        &&& final(self).branch_map() == old(self).branch_map()
                        &&& final(self).collaborators() == old(self).collaborators()
                    }
                },
                RepoActionRequests::DeleteBranch(input) => {
                    &&& old(self).branch_map().contains_key(input.branch_id) ==> r == Err::<
                        RepoActionResponses,
                        RepoError,
                    >(RepoError::InvalidBranchId)
                    &&& !old(self).branch_map().contains_key(input.branch_id) ==> {
                        &&& r matches Ok(RepoActionResponses::DeleteBranch { msg }) && msg@
                            == delete_branch_msg()
                        &&& final(self).branch_map() == old(self).branch_map()
                        &&& final(self).collaborators() == old(self).collaborators()
                    }
                },
                RepoActionRequests::Push(input) => {
                    &&& old(self).branch_map().contains_key(input.branch_id) ==> r == Err::<
                        RepoActionResponses,
                        RepoError,
                    >(RepoError::InvalidBranchId)
                    &&& !old(self).branch_map().contains_key(input.branch_id) ==> {
                        &&& r matches Ok(RepoActionResponses::Push { msg }) && msg@ == push_msg()
                        &&& final(self).branch_map() == old(self).branch_map()
                        &&& final(self).collaborators() == old(self).collaborators()
                    }
                },
                RepoActionRequests::AddCollaborator(actor_id) => {
                    &&& r matches Ok(RepoActionResponses::AddCollaborator { msg }) && msg@
                        == add_collaborator_msg()
                    &&& final(self).collaborators() == old(self).collaborators().insert(
                        actor_id,
                        actor_id,
                    )
                    &&& final(self).branch_map() == old(self).branch_map()
                },
                RepoActionRequests::DeleteCollaborator(actor_id) => {
                    &&& r matches Ok(RepoActionResponses::AddCollaborator { msg }) && msg@
                        == delete_collaborator_msg()
                    &&& final(self).collaborators() == old(self).collaborators().remove(actor_id)
                    &&& final(self).branch_map() == old(self).branch_map()
                },
            },
    {
        if sender != self.owner || !self.is_exist_collaborator(sender) {
            return Err(RepoError::AccessDenied);
        }
        match request {
            RepoActionRequests::CreateBranch(name) => {
                if self.is_exist_branch_by_name(&name) {
                    return Err(RepoError::BranchNameExists);
                }
                let branch_input = CreateBranchInput { owner: sender, id: new_id, name };
                self.add_branch(branch_input);
                Ok(RepoActionResponses::CreateBranch { msg: message("Successfully create branch") })
            },
            RepoActionRequests::RenameBranch(input) => {
                if self.is_exist_branch(input.id) {
                    return Err(RepoError::InvalidBranchId);
                }
                self.rename_branch(input);
                Ok(RepoActionResponses::RenameBranch { msg: message("Successfully rename branch") })
            },
            RepoActionRequests::DeleteBranch(input) => {
                if self.is_exist_branch(input.branch_id) {
                    return Err(RepoError::InvalidBranchId);
                }
                self.delete_branch(input);
                Ok(RepoActionResponses::DeleteBranch { msg: message("Successfully delete branch") })
            },
            RepoActionRequests::Push(input) => {
                if self.is_exist_branch(input.branch_id) {
                    return Err(RepoError::InvalidBranchId);
                }
                let commit = Commit {
                    id: new_id,
                    owner: sender,
                    message: input.message,
                    hash: input.hash,
                    description: input.description,
                };
                self.push_commit(input.branch_id, commit);
                Ok(RepoActionResponses::Push { msg: message("Successfully commit") })
            },
            RepoActionRequests::AddCollaborator(actor_id) => {
                self.add_collaborator(actor_id);
                Ok(
                    RepoActionResponses::AddCollaborator {
                        msg: message("Successfully add collaborator"),
                    },
                )
            },
            RepoActionRequests::DeleteCollaborator(actor_id) => {
                self.delete_collaborator(actor_id);
                Ok(
                    RepoActionResponses::AddCollaborator {
                        msg: message("Successfully delete collaborator"),
                    },
                )
            },
        }
    }
}

impl RepoActionRequests {
    /// Whether serving the request draws a new id (for a branch or a commit).
    pub fn needs_new_id(&self) -> (r: bool)
        ensures
            r == (self is CreateBranch || self is Push),
    {
        match self {
            RepoActionRequests::CreateBranch(_) => true,
            RepoActionRequests::Push(_) => true,
            _ => false,
        }
    }
}

/// The branch of id `branch_id`, where there is one.
pub fn branch(state: Program, branch_id: u32) -> (r: Option<Branch>)
    requires
        state.branches.wf(),
    ensures
        r == state.branch_map().index_opt(branch_id),
{
    let mut branches = state.branches;
    branches.remove(&branch_id)
}

/// All branches, in increasing order of their ids.
pub fn branches(state: Program) -> (r: Vec<Branch>)
    requires
        state.branches.wf(),
    ensures
        r@ == state.branches.values(),
{
    state.branches.into_values()
}

/// All collaborators, in increasing order.
pub fn get_collaborators(state: Program) -> (r: Vec<ActorId>)
    requires
        state.collaborator.wf(),
    ensures
        r@ == state.collaborator.values(),
{
    state.collaborator.into_values()
}

/// A branch name counts as taken exactly when some branch carries it, under
/// whatever id and at whatever position of the listing.
pub proof fn lemma_branch_name_taken(p: Program, name: Seq<char>)
    requires
        p.branches.wf(),
    ensures
        p.has_branch_name(name) <==> exists|k: u32|
            p.branch_map().contains_key(k) && (#[trigger] p.branch_map()[k]).name@ == name,
        p.has_branch_name(name) <==> exists|j: int|
            0 <= j < p.branches.values().len() && (#[trigger] p.branches.values()[j]).name@ == name,
        forall|j: int|
            0 <= j < p.branches.values().len() && (#[trigger] p.branches.values()[j]).name@ == name
                ==> p.has_branch_name(name),
{
    p.branches.lemma_map_entries();
    if p.has_branch_name(name) {
        let k = choose|k: u32| #[trigger] p.branch_map().contains_key(k) && p.branch_map()[k].name@ == name;
        let j = choose|j: int| 0 <= j < p.branches.keys().len() && p.branches.keys()[j] == k;
        assert(p.branches.values()[j].name@ == name);
    }
    assert forall|j: int|
        0 <= j < p.branches.values().len() && (#[trigger] p.branches.values()[j]).name@ == name
            implies p.has_branch_name(name) by {
        assert(p.branch_map().contains_key(p.branches.keys()[j]));
    }
}

/// A repository program whose owner is no collaborator refuses every sender,
/// and since a refused request changes nothing, it stays so: a freshly
/// created repository serves no request at all.
pub proof fn lemma_locked_program_refuses_all(p: Program, sender: ActorId)
    requires
        !p.collaborators().contains_key(p.owner),
    ensures
        !p.accepts(sender),
{
}

} // verus!
