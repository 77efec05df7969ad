//! What the application persists: the registered repositories and the
//! authentication record. The decisions — which records stay, which give
//! way — are made and verified here; reading and writing the backing file
//! stays with the host.

use vstd::prelude::*;

use crate::github::GitHubUser;
use crate::models::repository::Repository;
use crate::strutil::str_eq;

verus! {

/// The repository records whose identifier differs from `id`, in order.
pub open spec fn without_repo_id(s: Seq<Repository>, id: Seq<char>) -> Seq<Repository>
    decreases s.len(),
{
    if s.len() == 0 {
        Seq::empty()
    } else if s.first().id@ == id {
        without_repo_id(s.drop_first(), id)
    } else {
        seq![s.first()] + without_repo_id(s.drop_first(), id)
    }
}

/// The pure half of the repository store: what the stored list becomes on a
/// save or a delete. Loading and writing the backing file is the host's.
pub struct RepositoryStore;

impl RepositoryStore {
    /// The stored list after saving a record: any record with the same
    /// identifier gives way, the saved record goes to the end.
    pub fn save_into(repositories: Vec<Repository>, repository: Repository) -> (r: Vec<
        Repository,
    >)
        ensures
            r@ == without_repo_id(repositories@, repository.id@).push(repository),
    {
        let mut kept = Self::delete_from(repositories, repository.id.as_str());
        kept.push(repository);
        kept
    }

    /// The stored list after deleting an identifier: every record with it is
    /// gone, the rest keep their order.
    pub fn delete_from(repositories: Vec<Repository>, id: &str) -> (r: Vec<Repository>)
        ensures
            r@ == without_repo_id(repositories@, id@),
    {
        let mut rest = repositories;
        let ghost all = rest@;
        let mut kept: Vec<Repository> = Vec::new();
        proof {
            assert(kept@ + without_repo_id(all, id@) =~= without_repo_id(all, id@));
        }
        while rest.len() > 0
            invariant
                without_repo_id(all, id@) == kept@ + without_repo_id(rest@, id@),
            decreases rest.len(),
        {
            let ghost prev = rest@;
            let e = rest.remove(0);
            proof {
                assert(prev.first() == e);
                assert(prev.drop_first() =~= rest@);
            }
            if !str_eq(e.id.as_str(), id) {
                proof {
                    assert(kept@.push(e) + without_repo_id(rest@, id@) =~= kept@ + (seq![e]
                        + without_repo_id(rest@, id@)));
                }
                kept.push(e);
            }
        }
        proof {
            assert(kept@ + without_repo_id(Seq::<Repository>::empty(), id@) =~= kept@);
        }
        kept
    }
}

/// An access token as it is stored, with its provenance.
#[derive(Debug)]
pub struct StoredAuth {
    pub access_token: String,
    pub token_type: String,
    pub scope: String,
    pub stored_at: String,
}

/// The authentication store's state: what is saved under its two keys. The
/// host mirrors every change to the backing file.
pub struct TokenStore {
    token: Option<StoredAuth>,
    user: Option<GitHubUser>,
}

impl TokenStore {
    pub closed spec fn spec_token(self) -> Option<StoredAuth> {
        self.token
    }

    pub closed spec fn spec_user(self) -> Option<GitHubUser> {
        self.user
    }

    /// An empty store: nobody is logged in.
    pub fn new() -> (r: TokenStore)
        ensures
            r.spec_token() is None,
            r.spec_user() is None,
    {
        TokenStore { token: None, user: None }
    }

    /// Saves the token; the stored user, if any, stays.
    pub fn save_token(&mut self, auth: StoredAuth)
        ensures
            final(self).spec_token() == Some(auth),
            final(self).spec_user() == old(self).spec_user(),
    {
        self.token = Some(auth);
    }

    /// The stored token, exactly as saved.
    pub fn load_token(&self) -> (r: Option<&StoredAuth>)
        ensures
            match r {
                Some(a) => self.spec_token() == Some(*a),
                None => self.spec_token() is None,
            },
    {
        match &self.token {
            Some(a) => Some(a),
            None => None,
        }
    }

    /// The stored token, demanded: callers that need authentication get
    /// the exact refusal when nobody is logged in.
    pub fn require_token(&self) -> (r: Result<&StoredAuth, String>)
        ensures
            match r {
                Ok(a) => self.spec_token() == Some(*a),
                Err(m) => self.spec_token() is None && m@ == "Not authenticated"@,
            },
    {
        match &self.token {
            Some(a) => Ok(a),
            None => Err("Not authenticated".to_owned()),
        }
    }

    /// Logs out: both the token and the user are gone.
    pub fn clear_token(&mut self)
        ensures
            final(self).spec_token() is None,
            final(self).spec_user() is None,
    {
        self.token = None;
        self.user = None;
    }

    /// Saves the user; the stored token, if any, stays.
    pub fn save_user(&mut self, user: GitHubUser)
        ensures
            final(self).spec_user() == Some(user),
            final(self).spec_token() == old(self).spec_token(),
    {
        self.user = Some(user);
    }

    /// The stored user, exactly as saved.
    pub fn load_user(&self) -> (r: Option<&GitHubUser>)
        ensures
            match r {
                Some(u) => self.spec_user() == Some(*u),
                None => self.spec_user() is None,
            },
    {
        match &self.user {
            Some(u) => Some(u),
            None => None,
        }
    }
}

} // verus!
