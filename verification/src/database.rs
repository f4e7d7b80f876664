//! The relational store's records as the gateway sees them, and the
//! access decision for a vault-initialization query.
//!
//! The store itself is a collaborator: the gateway consumes one idempotent
//! upsert and one lookup, both performed outside the library. The decision
//! of what a lookup's result means for the asking user is made here, with
//! an exact contract.

use vstd::prelude::*;

verus! {

/// A repository row of the relational store.
pub struct Repository {
    pub id: i64,
    pub name: String,
    pub owner_id: i64,
    pub bucket_addr: Option<String>,
    pub password: String,
}

/// The query of the single-repository check.
pub struct RepositoryQuery {
    pub repo_owner: String,
    pub repo_name: String,
    pub repo_id: u64,
}

/// What the single-repository check answers: whether a vault exists for
/// the repository, and what the asking user may do with it.
pub struct RepositoryResponse {
    pub vault_initialized: bool,
    pub read_access: bool,
    pub write_access: bool,
}

/// The row's owner is the asking user: the two identifiers denote the
/// same integer.
pub open spec fn owner_matches(owner_id: i64, user_id: u64) -> bool {
    owner_id as int == user_id as int
}

/// Decides the answer to a single-repository check from the looked-up row
/// (or its absence) and the asking user's identity. No row: no vault, no
/// access. A row owned by the user: full access. A row owned by someone
/// else: the vault exists but the user gets nothing.
pub fn repository_access(repository: &Option<Repository>, user_id: u64) -> (r: RepositoryResponse)
    ensures
        repository is None ==> !r.vault_initialized && !r.read_access && !r.write_access,
        repository matches Some(repo) ==> (r.vault_initialized && (r.read_access <==>
        owner_matches(repo.owner_id, user_id)) && (r.write_access <==> owner_matches(
            repo.owner_id,
            user_id,
        ))),
{
    match repository {
        Some(repo) => {
            if repo.owner_id >= 0 && repo.owner_id as u64 == user_id {
                RepositoryResponse { vault_initialized: true, read_access: true, write_access: true }
            } else {
                RepositoryResponse {
                    vault_initialized: true,
                    read_access: false,
                    write_access: false,
                }
            }
        },
        None => RepositoryResponse {
            vault_initialized: false,
            read_access: false,
            write_access: false,
        },
    }
}

} // verus!
