//! The repository registry of one user: repositories with random textual ids,
//! each with its list of collaborators, and the handler of the registry's
//! requests, of which only the owner's are served.
use vstd::prelude::*;
use rand::{Rng, SeedableRng};
use rand::distributions::Alphanumeric;
use rand::rngs::{OsRng, StdRng};
use crate::keys::ActorId;
use crate::sorted_map::SortedMap;

verus! {

/// Number of characters of a repository id.
pub const REPOSITORY_ID_LEN: usize = 7;

/// `c` is an ASCII digit or letter.
pub open spec fn is_alphanumeric(c: char) -> bool {
    (48 <= (c as int) <= 57) || (65 <= (c as int) <= 90) || (97 <= (c as int) <= 122)
}

/// What a freshly drawn repository id looks like.
pub open spec fn is_repository_id(id: Seq<char>) -> bool {
    &&& id.len() == REPOSITORY_ID_LEN
    &&& forall|i: int| 0 <= i < id.len() ==> is_alphanumeric(#[trigger] id[i])
}

/// `len` samples of rand's `Alphanumeric` distribution, drawn from a `StdRng`
/// that `SeedableRng::from_rng` seeds from the operating system's `OsRng`,
/// each byte made a `char` with `char::from`. `from_rng` returns an error,
/// here `None`, where the operating system gives no seed; sampling a seeded
/// `StdRng` does not fail. The distribution's charset is `A`-`Z`, `a`-`z`,
/// `0`-`9`; which characters come out rests on chance, so only their number
/// and range are stated.
#[verifier::external_body]
fn random_alphanumeric(len: usize) -> (s: Option<String>)
    ensures
        s matches Some(s) ==> s@.len() == len && forall|i: int|
            0 <= i < len ==> is_alphanumeric(#[trigger] s@[i]),
{
    match StdRng::from_rng(OsRng) {
        Ok(rng) => Some(rng.sample_iter(&Alphanumeric).take(len).map(char::from).collect()),
        Err(_) => None,
    }
}

#[derive(Clone, Copy, Debug, PartialEq, Eq, Structural)]
pub struct Collaborator {
    pub id: ActorId,
}

#[derive(Clone, Debug, PartialEq, Eq)]
pub struct Repository {
    pub id: String,
    pub name: String,
    pub collaborators: Vec<Collaborator>,
}

/// Some collaborator of `cs` has the id `id`.
pub open spec fn has_collaborator(cs: Seq<Collaborator>, id: ActorId) -> bool {
    exists|i: int| 0 <= i < cs.len() && (#[trigger] cs[i]).id == id
}

/// `cs` without the collaborators whose id is `id`, the others in their order.
pub open spec fn without_collaborator(cs: Seq<Collaborator>, id: ActorId) -> Seq<Collaborator> {
    cs.filter(|c: Collaborator| c.id != id)
}

proof fn lemma_filter_push<A>(s: Seq<A>, x: A, pred: spec_fn(A) -> bool)
    ensures
        s.push(x).filter(pred) == if pred(x) {
            s.filter(pred).push(x)
        } else {
            s.filter(pred)
        },
{
    reveal(Seq::filter);
    assert(s.push(x).drop_last() =~= s);
}

proof fn lemma_filter_all<A>(s: Seq<A>, pred: spec_fn(A) -> bool)
    requires
        forall|i: int| 0 <= i < s.len() ==> pred(#[trigger] s[i]),
    ensures
        s.filter(pred) == s,
    decreases s.len(),
{
    reveal(Seq::filter);
    if s.len() > 0 {
        lemma_filter_all(s.drop_last(), pred);
        assert(s.drop_last().push(s.last()) =~= s);
    }
}

/// Adding a collaborator who was not there and then deleting them gives back
/// the list that was there before.
pub proof fn lemma_add_then_delete_collaborator(cs: Seq<Collaborator>, id: ActorId)
    requires
        !has_collaborator(cs, id),
    ensures
        without_collaborator(cs.push(Collaborator { id }), id) == cs,
{
    let pred = |c: Collaborator| c.id != id;
    lemma_filter_push(cs, Collaborator { id }, pred);
    assert forall|i: int| 0 <= i < cs.len() implies pred(#[trigger] cs[i]) by {
        if !pred(cs[i]) {
            assert(cs[i].id == id);
        }
    }
    lemma_filter_all(cs, pred);
}

/// Deleting the collaborator `id` from `repo` is allowed (else it panics with
/// "Invalid collaborator id"): `id` is one of its collaborators.
pub open spec fn can_delete_collaborator(repo: Repository, id: ActorId) -> bool {
    has_collaborator(repo.collaborators@, id)
}

/// `after` is `before` with every collaborator of id `id` removed, the rest
/// unchanged.
pub open spec fn deleted_collaborator(before: Repository, after: Repository, id: ActorId) -> bool {
    &&& after.collaborators@ == without_collaborator(before.collaborators@, id)
    &&& after.id == before.id
    &&& after.name == before.name
}

/// `clear_collaborator` behaves exactly as `delete_collaborator`: both may be
/// called on the same repositories and ids, both return the id, and the
/// repositories they leave have the same id, name and collaborators.
pub proof fn lemma_clear_collaborator_is_delete_collaborator(
    before: Repository,
    id: ActorId,
    deleted: Repository,
    cleared: Repository,
)
    requires
        deleted_collaborator(before, deleted, id),
        deleted_collaborator(before, cleared, id),
    ensures
        deleted.id == cleared.id,
        deleted.name == cleared.name,
        deleted.collaborators@ == cleared.collaborators@,
{
}

impl Repository {
    /// A repository named `name`, with a freshly drawn random id and no
    /// collaborators; `None` where no random seed can be had.
    pub fn new(name: String) -> (r: Option<Repository>)
        ensures
            r matches Some(repo) ==> {
                &&& repo.name == name
                &&& is_repository_id(repo.id@)
                &&& repo.collaborators@ == Seq::<Collaborator>::empty()
            },
    {
        match random_alphanumeric(REPOSITORY_ID_LEN) {
            Some(id) => Some(Repository { id, name, collaborators: Vec::new() }),
            None => None,
        }
    }

    /// The repository under the name `new_name`.
    pub fn rename(self, new_name: String) -> (r: Repository)
        ensures
            r.name == new_name,
            r.id == self.id,
            r.collaborators == self.collaborators,
    {
        let mut repo = self;
        repo.name = new_name;
        repo
    }

    /// Whether `id` is among the collaborators.
    pub fn is_exist_collaborator(&self, id: ActorId) -> (r: bool)
        ensures
            r == has_collaborator(self.collaborators@, id),
            r <==> exists|i: int|
                0 <= i < self.collaborators@.len() && (#[trigger] self.collaborators@[i]).id == id,
    {
        let n = self.collaborators.len();
        let mut i: usize = 0;
        while i < n
            invariant
                n == self.collaborators@.len(),
                i <= n,
                forall|j: int| 0 <= j < i ==> (#[trigger] self.collaborators@[j]).id != id,
            decreases n - i,
        {
            if self.collaborators[i].id == id {
                return true;
            }
            i = i + 1;
        }
        false
    }

    /// Appends the collaborator `actor_id` and returns it.
    pub fn add_collaborator(&mut self, actor_id: ActorId) -> (c: Collaborator)
        ensures
            c == (Collaborator { id: actor_id }),
            final(self).collaborators@ == old(self).collaborators@.push(c),
            final(self).id == old(self).id,
            final(self).name == old(self).name,
    {
        let collaborator = Collaborator { id: actor_id };
        self.collaborators.push(collaborator);
        collaborator
    }

    fn remove_collaborators(&mut self, actor_id: ActorId)
        ensures
            final(self).collaborators@ == without_collaborator(old(self).collaborators@, actor_id),
            final(self).id == old(self).id,
            final(self).name == old(self).name,
    {
        let ghost all = self.collaborators@;
        let ghost pred = |c: Collaborator| c.id != actor_id;
        let n = self.collaborators.len();
        let mut kept: Vec<Collaborator> = Vec::new();
        let mut i: usize = 0;
        while i < n
            invariant
                all == self.collaborators@,
                n == all.len(),
                i <= n,
                pred == (|c: Collaborator| c.id != actor_id),
                kept@ == all.subrange(0, i as int).filter(pred),
            decreases n - i,
        {
            let c = self.collaborators[i];
            proof {
                assert(all.subrange(0, i + 1) =~= all.subrange(0, i as int).push(c));
                lemma_filter_push(all.subrange(0, i as int), c, pred);
                assert(pred(c) == (c.id != actor_id));
            }
            if c.id != actor_id {
                kept.push(c);
            }
            i = i + 1;
        }
        assert(all.subrange(0, n as int) =~= all);
        self.collaborators = kept;
    }

    /// Deletes every collaborator with the id `actor_id`, who must be one.
    pub fn delete_collaborator(&mut self, actor_id: ActorId) -> (r: ActorId)
        requires
            can_delete_collaborator(*old(self), actor_id),
        ensures
            r == actor_id,
            deleted_collaborator(*old(self), *final(self), actor_id),
    {
        self.remove_collaborators(actor_id);
        actor_id
    }

    /// Deletes every collaborator with the id `actor_id`, who must be one.
    pub fn clear_collaborator(&mut self, actor_id: ActorId) -> (r: ActorId)
        requires
            can_delete_collaborator(*old(self), actor_id),
        ensures
            r == actor_id,
            deleted_collaborator(*old(self), *final(self), actor_id),
    {
        self.remove_collaborators(actor_id);
        actor_id
    }

    /// Removes all collaborators.
    pub fn clear_collaborators(&mut self)
        ensures
            final(self).collaborators@ == Seq::<Collaborator>::empty(),
            final(self).id == old(self).id,
            final(self).name == old(self).name,
    {
        self.collaborators = Vec::new();
    }
}

#[derive(Clone, Debug, PartialEq, Eq)]
pub struct InitProgram {
    pub owner: ActorId,
}

#[derive(Clone, Debug, PartialEq, Eq)]
pub struct UpdateRepositoryInput {
    pub id: String,
    pub name: String,
}

#[derive(Clone, Debug, PartialEq, Eq)]
pub struct AddCollaboratorInput {
    pub id: ActorId,
    pub repo_id: String,
}

#[derive(Clone, Debug, PartialEq, Eq)]
pub struct DeleteCollaboratorInput {
    pub id: ActorId,
    pub repo_id: String,
}

#[derive(Clone, Debug, PartialEq, Eq)]
pub enum ActionRequest {
    CreateRepository(String),
    UpdateRepository(UpdateRepositoryInput),
    DeleteRepository(String),
    AddCollaborator(AddCollaboratorInput),
    DeleteCollaborator(DeleteCollaboratorInput),
}

#[derive(Clone, Debug, PartialEq, Eq)]
pub enum ActionResponse {
    CreateRepository { repo_id: String },
    UpdateRepository { repo_id: String },
    DeleteRepository { repo_id: String },
    AddCollaborator { actor_id: ActorId },
    DeleteCollaborator { actor_id: ActorId },
}

/// Why the registry refuses a request.
#[derive(Clone, Copy, Debug, PartialEq, Eq, Structural)]
pub enum RepositoryError {
    /// The sender is not the owner.
    AccessDenied,
    /// A repository of that name exists already.
    RepositoryNameExists,
    /// No repository has that id.
    InvalidRepositoryId,
    /// No random repository id could be drawn: the operating system gave no seed.
    RandomnessUnavailable,
    /// The user collaborates on the repository already.
    CollaboratorExists,
    /// The user is no collaborator of the repository.
    InvalidCollaboratorId,
}

/// The registry: its owner and the repositories by id.
#[derive(Debug)]
pub struct Program {
    pub owner: ActorId,
    pub state: SortedMap<String, Repository>,
}

impl Program {
    /// The repositories by id.
    pub open spec fn repos(self) -> Map<Seq<char>, Repository> {
        self.state.map()
    }

    /// Well-formed: the map is ordered and each repository is kept under its own id.
    pub open spec fn wf(self) -> bool {
        &&& self.state.wf()
        &&& forall|k: Seq<char>| #[trigger] self.repos().contains_key(k) ==> self.repos()[k].id@ == k
    }

    /// Some repository is named `name`.
    pub open spec fn has_name(self, name: Seq<char>) -> bool {
        exists|k: Seq<char>| #[trigger] self.repos().contains_key(k) && self.repos()[k].name@ == name
    }

    /// An empty registry owned by `owner`.
    pub fn new(owner: ActorId) -> (p: Program)
        ensures
            p.wf(),
            p.owner == owner,
            p.repos() == Map::<Seq<char>, Repository>::empty(),
    {
        Program { owner, state: SortedMap::new() }
    }

    /// Whether some repository is named `name`.
    pub fn is_exist_repo_by_name(&self, name: &String) -> (r: bool)
        requires
            self.wf(),
        ensures
            r == self.has_name(name@),
            r <==> exists|j: int|
                0 <= j < self.state.values().len() && (#[trigger] self.state.values()[j]).name@
                    == name@,
    {
        proof {
            self.state.lemma_map_entries();
            lemma_repository_name_taken(*self, name@);
        }
        let n = self.state.len();
        let mut i: usize = 0;
        while i < n
            invariant
                self.wf(),
                n == self.state.keys().len(),
                i <= n,
                forall|j: int|
                    0 <= j < i ==> (#[trigger] self.repos()[self.state.keys()[j]]).name@ != name@,
                forall|j: int|
                    0 <= j < n ==> self.repos().contains_key(#[trigger] self.state.keys()[j])
                        && self.repos()[self.state.keys()[j]] == self.state.values()[j],
            decreases n - i,
        {
            let repo = self.state.value_at(i);
            if repo.name == *name {
                proof {
                    assert(self.repos().contains_key(self.state.keys()[i as int]));
                }
                return true;
            }
            i = i + 1;
        }
        proof {
            if self.has_name(name@) {
                let k = choose|k: Seq<char>|
                    #[trigger] self.repos().contains_key(k) && self.repos()[k].name@ == name@;
                let j = choose|j: int| 0 <= j < self.state.keys().len() && self.state.keys()[j] == k;
                assert(self.repos()[self.state.keys()[j]].name@ != name@);
            }
        }
        false
    }

    /// Whether a repository has the id `id`.
    pub fn is_exist_repo(&self, id: &String) -> (r: bool)
        requires
            self.wf(),
        ensures
            r == self.repos().contains_key(id@),
    {
        self.state.contains_key(id)
    }

    /// Adds `repository`, drawn for a creation request from `sender`: refused
    /// where `sender` is not the owner or the name is taken; else the
    /// repository is stored under its id (replacing one of that id).
    pub fn create_repository(&mut self, sender: ActorId, repository: Repository) -> (r: Result<
        ActionResponse,
        RepositoryError,
    >)
        requires
            old(self).wf(),
        ensures
            final(self).wf(),
            sender != old(self).owner ==> r == Err::<ActionResponse, RepositoryError>(
                RepositoryError::AccessDenied,
            ) && *final(self) == *old(self),
            sender == old(self).owner && old(self).has_name(repository.name@) ==> r == Err::<
                ActionResponse,
                RepositoryError,
            >(RepositoryError::RepositoryNameExists) && *final(self) == *old(self),
            sender == old(self).owner && !old(self).has_name(repository.name@) ==> r == Ok::<
                ActionResponse,
                RepositoryError,
            >(ActionResponse::CreateRepository { repo_id: repository.id }) && final(self).owner
                == old(self).owner && final(self).repos() == old(self).repos().insert(
                repository.id@,
                repository,
            ),
    {
        if sender != self.owner {
            return Err(RepositoryError::AccessDenied);
        }
        if self.is_exist_repo_by_name(&repository.name) {
            return Err(RepositoryError::RepositoryNameExists);
        }
        let repo_id = repository.id.clone();
        let key = repository.id.clone();
        let ghost old_repos = self.repos();
        self.state.insert(key, repository);
        proof {
            assert forall|k: Seq<char>| #[trigger] self.repos().contains_key(k) implies self.repos()[k].id@
                == k by {
                if k != repository.id@ {
                    assert(old_repos.contains_key(k));
                }
            }
        }
        Ok(ActionResponse::CreateRepository { repo_id })
    }

    /// Serves one request of `sender`. A refused request changes nothing.
    pub fn handle(&mut self, sender: ActorId, request: ActionRequest) -> (r: Result<
        ActionResponse,
        RepositoryError,
    >)
        requires
            old(self).wf(),
        ensures
            final(self).wf(),
            final(self).owner == old(self).owner,
            r is Err ==> *final(self) == *old(self),
            sender != old(self).owner ==> r == Err::<ActionResponse, RepositoryError>(
                RepositoryError::AccessDenied,
            ),
            sender == old(self).owner ==> match request {
                ActionRequest::CreateRepository(name) => {
                    &&& old(self).has_name(name@) ==> r == Err::<ActionResponse, RepositoryError>(
                        RepositoryError::RepositoryNameExists,
                    )
                    &&& !old(self).has_name(name@) ==> r == Err::<ActionResponse, RepositoryError>(
                        RepositoryError::RandomnessUnavailable,
                    ) || exists|repo: Repository|
                        {
                            &&& repo.name == name
                            &&& is_repository_id(repo.id@)
                            &&& repo.collaborators@.len() == 0
                            &&& r == Ok::<ActionResponse, RepositoryError>(
                                ActionResponse::CreateRepository { repo_id: repo.id },
                            )
                            &&& final(self).repos() == old(self).repos().insert(repo.id@, repo)
                        }
                },
                ActionRequest::UpdateRepository(input) => {
                    &&& !old(self).repos().contains_key(input.id@) ==> r == Err::<
                        ActionResponse,
                        RepositoryError,
                    >(RepositoryError::InvalidRepositoryId)
                    &&& old(self).repos().contains_key(input.id@) ==> {
                        let before = old(self).repos()[input.id@];
                        &&& r == Ok::<ActionResponse, RepositoryError>(
                            ActionResponse::UpdateRepository { repo_id: input.id },
                        )
                        &&& final(self).repos() == old(self).repos().insert(
                            input.id@,
                            Repository {
                                id: before.id,
                                name: input.name,
                                collaborators: before.collaborators,
                            },
                        )
                    }
                },
                ActionRequest::DeleteRepository(id) => {
                    &&& !old(self).repos().contains_key(id@) ==> r == Err::<
                        ActionResponse,
                        RepositoryError,
                    >(RepositoryError::InvalidRepositoryId)
                    &&& old(self).repos().contains_key(id@) ==> r == Ok::<
                        ActionResponse,
                        RepositoryError,
                    >(ActionResponse::DeleteRepository { repo_id: id }) && final(self).repos()
                        == old(self).repos().remove(id@)
                },
                ActionRequest::AddCollaborator(input) => {
                    &&& !old(self).repos().contains_key(input.repo_id@) ==> r == Err::<
                        ActionResponse,
                        RepositoryError,
                    >(RepositoryError::InvalidRepositoryId)
                    &&& old(self).repos().contains_key(input.repo_id@) && has_collaborator(
                        old(self).repos()[input.repo_id@].collaborators@,
                        input.id,
                    ) ==> r == Err::<ActionResponse, RepositoryError>(
                        RepositoryError::CollaboratorExists,
                    )
                    &&& old(self).repos().contains_key(input.repo_id@) && !has_collaborator(
                        old(self).repos()[input.repo_id@].collaborators@,
                        input.id,
                    ) ==> {
                        let before = old(self).repos()[input.repo_id@];
                        let after = final(self).repos()[input.repo_id@];
                        &&& r == Ok::<ActionResponse, RepositoryError>(
                            ActionResponse::AddCollaborator { actor_id: input.id },
                        )
                        &&& final(self).repos() == old(self).repos().insert(input.repo_id@, after)
                        &&& after.id == before.id
                        &&& after.name == before.name
                        &&& after.collaborators@ == before.collaborators@.push(
                            Collaborator { id: input.id },
                        )
                    }
                },
                ActionRequest::DeleteCollaborator(input) => {
                    &&& !old(self).repos().contains_key(input.repo_id@) ==> r == Err::<
                        ActionResponse,
                        RepositoryError,
                    >(RepositoryError::InvalidRepositoryId)
                    &&& old(self).repos().contains_key(input.repo_id@) && !has_collaborator(
                        old(self).repos()[input.repo_id@].collaborators@,
                        input.id,
                    ) ==> r == Err::<ActionResponse, RepositoryError>(
                        RepositoryError::InvalidCollaboratorId,
                    )
                    &&& old(self).repos().contains_key(input.repo_id@) && has_collaborator(
                        old(self).repos()[input.repo_id@].collaborators@,
                        input.id,
                    ) ==> {
                        let before = old(self).repos()[input.repo_id@];
                        let after = final(self).repos()[input.repo_id@];
                        &&& r == Ok::<ActionResponse, RepositoryError>(
                            ActionResponse::DeleteCollaborator { actor_id: input.id },
                        )
                        &&& final(self).repos() == old(self).repos().insert(input.repo_id@, after)
                        &&& after.id == before.id
                        &&& after.name == before.name
                        &&& after.collaborators@ == without_collaborator(
                            before.collaborators@,
                            input.id,
                        )
                    }
                },
            },
    {
        if sender != self.owner {
            return Err(RepositoryError::AccessDenied);
        }
        match request {
            ActionRequest::CreateRepository(name) => {
                if self.is_exist_repo_by_name(&name) {
                    return Err(RepositoryError::RepositoryNameExists);
                }
                match Repository::new(name) {
                    Some(repository) => self.create_repository(sender, repository),
                    None => Err(RepositoryError::RandomnessUnavailable),
                }
            },
            ActionRequest::UpdateRepository(input) => {
                if !self.is_exist_repo(&input.id) {
                    return Err(RepositoryError::InvalidRepositoryId);
                }
                let ghost old_repos = self.repos();
                let repo_id = input.id.clone();
                let repo = self.state.remove(&input.id);
                match repo {
                    Some(repo) => {
                        let renamed = repo.rename(input.name);
                        self.state.insert(input.id, renamed);
                        proof {
                            assert(self.repos() =~= old_repos.insert(repo_id@, renamed));
                            assert forall|k: Seq<char>| #[trigger] self.repos().contains_key(
                                k,
                            ) implies self.repos()[k].id@ == k by {
                                if k != repo_id@ {
                                    assert(old_repos.contains_key(k));
                                }
                            }
                        }
                        Ok(ActionResponse::UpdateRepository { repo_id })
                    },
                    None => Err(RepositoryError::InvalidRepositoryId),
                }
            },
            ActionRequest::DeleteRepository(id) => {
                if !self.is_exist_repo(&id) {
                    return Err(RepositoryError::InvalidRepositoryId);
                }
                let ghost old_repos = self.repos();
                let _ = self.state.remove(&id);
                proof {
                    assert forall|k: Seq<char>| #[trigger] self.repos().contains_key(k) implies self.repos()[k].id@
                        == k by {
                        assert(old_repos.contains_key(k));
                    }
                }
                Ok(ActionResponse::DeleteRepository { repo_id: id })
            },
            ActionRequest::AddCollaborator(input) => {
                if !self.is_exist_repo(&input.repo_id) {
                    return Err(RepositoryError::InvalidRepositoryId);
                }
                let ghost old_self = *self;
                let ghost old_repos = self.repos();
                let repo = self.state.get(&input.repo_id);
                match repo {
                    Some(repo) => {
                        if repo.is_exist_collaborator(input.id) {
                            return Err(RepositoryError::CollaboratorExists);
                        }
                    },
                    None => {
                        return Err(RepositoryError::InvalidRepositoryId);
                    },
                }
                let taken = self.state.remove(&input.repo_id);
                match taken {
                    Some(mut repo) => {
                        let _ = repo.add_collaborator(input.id);
                        self.state.insert(input.repo_id, repo);
                        proof {
                            assert forall|k: Seq<char>| #[trigger] self.repos().contains_key(
                                k,
                            ) implies self.repos()[k].id@ == k by {
                                if k != repo.id@ {
                                    assert(old_repos.contains_key(k));
                                }
                            }
                            assert(self.repos() =~= old_repos.insert(repo.id@, repo));
                        }
                        Ok(ActionResponse::AddCollaborator { actor_id: input.id })
                    },
                    None => Err(RepositoryError::InvalidRepositoryId),
                }
            },
            ActionRequest::DeleteCollaborator(input) => {
                if !self.is_exist_repo(&input.repo_id) {
                    return Err(RepositoryError::InvalidRepositoryId);
                }
                let ghost old_repos = self.repos();
                let repo = self.state.get(&input.repo_id);
                match repo {
                    Some(repo) => {
                        if !repo.is_exist_collaborator(input.id) {
                            return Err(RepositoryError::InvalidCollaboratorId);
                        }
                    },
                    None => {
                        return Err(RepositoryError::InvalidRepositoryId);
                    },
                }
                let taken = self.state.remove(&input.repo_id);
                match taken {
                    Some(mut repo) => {
                        let _ = repo.delete_collaborator(input.id);
                        self.state.insert(input.repo_id, repo);
                        proof {
                            assert forall|k: Seq<char>| #[trigger] self.repos().contains_key(
                                k,
                            ) implies self.repos()[k].id@ == k by {
                                if k != repo.id@ {
                                    assert(old_repos.contains_key(k));
                                }
                            }
                            assert(self.repos() =~= old_repos.insert(repo.id@, repo));
                        }
                        Ok(ActionResponse::DeleteCollaborator { actor_id: input.id })
                    },
                    None => Err(RepositoryError::InvalidRepositoryId),
                }
            },
        }
    }
}

/// A repository name counts as taken exactly when some stored repository
/// carries it, under whatever id and at whatever position of the listing.
pub proof fn lemma_repository_name_taken(p: Program, name: Seq<char>)
    requires
        p.state.wf(),
    ensures
        p.has_name(name) <==> exists|k: Seq<char>|
            p.repos().contains_key(k) && (#[trigger] p.repos()[k]).name@ == name,
        p.has_name(name) <==> exists|j: int|
            0 <= j < p.state.values().len() && (#[trigger] p.state.values()[j]).name@ == name,
        forall|j: int|
            0 <= j < p.state.values().len() && (#[trigger] p.state.values()[j]).name@ == name
                ==> p.has_name(name),
{
    p.state.lemma_map_entries();
    if p.has_name(name) {
        let k = choose|k: Seq<char>| #[trigger] p.repos().contains_key(k) && p.repos()[k].name@ == name;
        let j = choose|j: int| 0 <= j < p.state.keys().len() && p.state.keys()[j] == k;
        assert(p.state.values()[j].name@ == name);
    }
    assert forall|j: int|
        0 <= j < p.state.values().len() && (#[trigger] p.state.values()[j]).name@ == name
            implies p.has_name(name) by {
        assert(p.repos().contains_key(p.state.keys()[j]));
    }
}

/// Membership of collaborators: no one collaborates on an empty list, and
/// appending `c` adds exactly `c.id` to those who do.
pub proof fn lemma_collaborator_membership(cs: Seq<Collaborator>, c: Collaborator, id: ActorId)
    ensures
        !has_collaborator(Seq::<Collaborator>::empty(), id),
        has_collaborator(cs.push(c), id) <==> (has_collaborator(cs, id) || c.id == id),
        has_collaborator(cs, id) <==> exists|i: int| 0 <= i < cs.len() && (#[trigger] cs[i]).id == id,
{
    let pushed = cs.push(c);
    if has_collaborator(pushed, id) {
        let i = choose|i: int| 0 <= i < pushed.len() && (#[trigger] pushed[i]).id == id;
        if i < cs.len() {
            assert(cs[i].id == id);
        }
    }
    if has_collaborator(cs, id) {
        let i = choose|i: int| 0 <= i < cs.len() && (#[trigger] cs[i]).id == id;
        assert(pushed[i].id == id);
    }
    if c.id == id {
        assert(pushed[cs.len() as int].id == id);
    }
}

/// The registry's whole state.
pub fn get_program_data(state: Program) -> (r: Program)
    ensures
        r == state,
{
    state
}

/// All repositories, in increasing order of their ids.
pub fn get_repositories(state: Program) -> (r: Vec<Repository>)
    requires
        state.state.wf(),
    ensures
        r@ == state.state.values(),
{
    state.state.into_values()
}

/// The repository of id `id`, where there is one.
pub fn get_repository(state: Program, id: String) -> (r: Option<Repository>)
    requires
        state.state.wf(),
    ensures
        r == state.repos().index_opt(id@),
{
    let mut repos = state.state;
    repos.remove(&id)
}

/// The collaborators query, which answers nothing: it consumes the state
/// and returns no value.
pub fn get_repository_colloborators(state: Program) {
    let _ = state;
}

} // verus!
