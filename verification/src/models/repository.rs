//! Repository records as the application stores them.

use vstd::prelude::*;

verus! {

/// A repository the user has registered, with where it lives on disk.
#[derive(Debug)]
pub struct Repository {
    pub id: String,
    pub owner: String,
    pub name: String,
    pub full_name: String,
    pub local_path: String,
    pub default_branch: String,
    pub is_private: bool,
    pub created_at: String,
    pub updated_at: String,
}

/// What a user fills in to register a repository.
#[derive(Debug)]
pub struct RepositoryFormData {
    pub owner: String,
    pub name: String,
    pub local_path: String,
}

} // verus!
