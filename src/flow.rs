//! The decisions of one comparison run.
//!
//! A run resolves the registry of the chosen network, then either stops
//! because there is nothing local to compare or asks the registry for the
//! local names; with the answer in hand, [`conclude`] says what differs.
//! The caller performs the query between the two steps.
use vstd::prelude::*;
use crate::catalog::Catalog;
use crate::diff::{diff, diff_spec, lemma_diff_empty_remote};
use crate::fetch::{catalog_of_records, fetch_keys, keys_for, remote_catalog, RemoteRecord};

verus! {

/// The account that hosts the component registry of a network.
pub open spec fn registry_of(network: Seq<char>) -> Option<Seq<char>> {
    if network == "mainnet"@ {
        Some("social.near"@)
    } else if network == "testnet"@ {
        Some("v1.social08.testnet"@)
    } else {
        None
    }
}

/// The account that hosts the component registry of `network`, if it has one.
pub fn registry_account(network: &str) -> (r: Option<String>)
    ensures
        match r {
            Some(a) => registry_of(network@) == Some(a@),
            None => registry_of(network@) == None::<Seq<char>>,
        },
{
    let n = network.to_owned();
    if n == "mainnet".to_owned() {
        Some("social.near".to_owned())
    } else if n == "testnet".to_owned() {
        Some("v1.social08.testnet".to_owned())
    } else {
        None
    }
}

/// Why a run could not produce a comparison.
pub enum DiffError {
    /// The network has no component registry.
    NoRegistry { network: String },
    /// The registry query failed; nothing is compared from a failed query.
    Fetch { reason: String },
}

/// What to do once the local catalog is known.
pub enum Plan {
    /// There is no local component: nothing to compare, no query to make.
    NothingToCompare,
    /// Ask `registry` for these keys, one per local component.
    Fetch { registry: String, keys: Vec<String> },
}

/// The first decision of a run: fail on a network without registry, stop
/// when there is no local component, and otherwise ask for every local one.
pub fn plan(network: &str, owner: &str, local: &Catalog) -> (r: Result<Plan, DiffError>)
    requires
        local.wf(),
    ensures
        match registry_of(network@) {
            None => r matches Err(DiffError::NoRegistry { network: n }) && n@ == network@,
            Some(reg) => if local@ == Map::<Seq<char>, Seq<char>>::empty() {
                r matches Ok(Plan::NothingToCompare)
            } else {
                r matches Ok(Plan::Fetch { registry, keys }) && registry@ == reg && keys_for(
                    owner@,
                    local@,
                    keys@,
                )
            },
        },
{
    match registry_account(network) {
        None => Err(DiffError::NoRegistry { network: network.to_owned() }),
        Some(registry) => {
            if local.is_empty() {
                Ok(Plan::NothingToCompare)
            } else {
                let keys = fetch_keys(owner, local);
                Ok(Plan::Fetch { registry, keys })
            }
        },
    }
}

/// How a comparison came out.
pub enum Outcome {
    /// The registry holds none of the local components: all are new.
    AllNew(Catalog),
    /// Every local component is published with the same content.
    NoDifferences,
    /// These local components are new or modified.
    Changed(Catalog),
}

/// `o` is the outcome of comparing `local` with `remote`.
pub open spec fn outcome_of(
    local: Map<Seq<char>, Seq<char>>,
    remote: Map<Seq<char>, Seq<char>>,
    o: Outcome,
) -> bool {
    match o {
        Outcome::AllNew(c) => remote == Map::<Seq<char>, Seq<char>>::empty() && c.wf() && c@ == local,
        Outcome::NoDifferences => remote != Map::<Seq<char>, Seq<char>>::empty() && diff_spec(
            local,
            remote,
        ) == Map::<Seq<char>, Seq<char>>::empty(),
        Outcome::Changed(c) => remote != Map::<Seq<char>, Seq<char>>::empty() && diff_spec(
            local,
            remote,
        ) != Map::<Seq<char>, Seq<char>>::empty() && c.wf() && c@ == diff_spec(local, remote),
    }
}

/// The last decision of a run, from the answer to the registry query made
/// for the components of `local` published by `owner`.
pub fn conclude(owner: &str, local: &Catalog, fetched: Result<Vec<RemoteRecord>, String>) -> (r:
    Result<Outcome, DiffError>)
    requires
        local.wf(),
    ensures
        match fetched {
            Err(reason) => r matches Err(DiffError::Fetch { reason: m }) && m@ == reason@,
            Ok(recs) => r matches Ok(o) && outcome_of(
                local@,
                catalog_of_records(owner@, local@, recs@.map_values(|x: RemoteRecord| x@)),
                o,
            ),
        },
{
    match fetched {
        Err(reason) => Err(DiffError::Fetch { reason }),
        Ok(recs) => {
            let remote = remote_catalog(owner, local, &recs);
            let changed = diff(local, &remote);
            if remote.is_empty() {
                proof {
                    lemma_diff_empty_remote(local@);
                }
                Ok(Outcome::AllNew(changed))
            } else if changed.is_empty() {
                Ok(Outcome::NoDifferences)
            } else {
                Ok(Outcome::Changed(changed))
            }
        },
    }
}

} // verus!
