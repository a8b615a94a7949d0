//! The registry query for a set of components, and the catalog made of its answer.
//!
//! The registry stores each account's components under keys of the form
//! `<account>/widget/<name>`. One query asks for all local names at once;
//! the answer is handed back as a flat list of records, and only the records
//! of the owner for names that were asked for become the remote catalog. A
//! name that the registry does not hold is simply absent.
use vstd::prelude::*;
use vstd::string::*;
use crate::catalog::Catalog;

verus! {

/// The registry key of the component `name` published by `owner`.
pub open spec fn key_of(owner: Seq<char>, name: Seq<char>) -> Seq<char> {
    owner + "/widget/"@ + name
}

/// `s` is the registry key of some component of `local`.
pub open spec fn is_key_in(owner: Seq<char>, local: Map<Seq<char>, Seq<char>>, s: Seq<char>) -> bool {
    exists|k: Seq<char>| local.contains_key(k) && s == key_of(owner, k)
}

/// `keys` holds one registry key per component of `local`.
pub open spec fn keys_for(owner: Seq<char>, local: Map<Seq<char>, Seq<char>>, keys: Seq<String>) -> bool {
    &&& keys.len() == local.len()
    &&& forall|i: int| 0 <= i < keys.len() ==> is_key_in(owner, local, #[trigger] keys[i]@)
    &&& forall|k: Seq<char>|
        local.contains_key(k) ==> exists|i: int| 0 <= i < keys.len() && #[trigger] keys[i]@ == key_of(owner, k)
}

/// One published component as the registry reported it.
pub struct RemoteRecord {
    pub account: String,
    pub name: String,
    pub content: String,
}

impl View for RemoteRecord {
    type V = (Seq<char>, Seq<char>, Seq<char>);

    open spec fn view(&self) -> (Seq<char>, Seq<char>, Seq<char>) {
        (self.account@, self.name@, self.content@)
    }
}

/// The remote catalog that a list of records gives: the records of `owner`
/// whose names are in `asked`, a later record replacing an earlier one.
pub open spec fn catalog_of_records(
    owner: Seq<char>,
    asked: Map<Seq<char>, Seq<char>>,
    recs: Seq<(Seq<char>, Seq<char>, Seq<char>)>,
) -> Map<Seq<char>, Seq<char>>
    decreases recs.len(),
{
    if recs.len() == 0 {
        Map::empty()
    } else {
        let prev = catalog_of_records(owner, asked, recs.drop_last());
        let r = recs.last();
        if r.0 == owner && asked.contains_key(r.1) {
            prev.insert(r.1, r.2)
        } else {
            prev
        }
    }
}

/// The registry key of one component.
pub fn registry_key(owner: &str, name: &str) -> (r: String)
    ensures
        r@ == key_of(owner@, name@),
{
    let mut k = owner.to_owned();
    k.append("/widget/");
    k.append(name);
    k
}

/// The keys to ask the registry for: one per component of `local`.
pub fn fetch_keys(owner: &str, local: &Catalog) -> (r: Vec<String>)
    requires
        local.wf(),
    ensures
        keys_for(owner@, local@, r@),
{
    let names = local.names();
    let mut keys: Vec<String> = Vec::new();
    let mut i: usize = 0;
    while i < names.len()
        invariant
            i <= names@.len(),
            keys@.len() == i,
            names@.len() == local@.len(),
            forall|j: int| 0 <= j < names@.len() ==> local@.contains_key(#[trigger] names@[j]@),
            forall|k: Seq<char>|
                local@.contains_key(k) ==> exists|j: int| 0 <= j < names@.len() && names@[j]@ == k,
            forall|j: int| 0 <= j < i ==> #[trigger] keys@[j]@ == key_of(owner@, names@[j]@),
        decreases names@.len() - i,
    {
        keys.push(registry_key(owner, names[i].as_str()));
        i = i + 1;
    }
    proof {
        assert forall|j: int| 0 <= j < keys@.len() implies is_key_in(owner@, local@, #[trigger] keys@[j]@) by {
            let k = names@[j]@;
            assert(local@.contains_key(k));
            assert(keys@[j]@ == key_of(owner@, k));
        }
        assert forall|k: Seq<char>| local@.contains_key(k) implies exists|j: int|
            0 <= j < keys@.len() && #[trigger] keys@[j]@ == key_of(owner@, k) by {
            let j = choose|j: int| 0 <= j < names@.len() && names@[j]@ == k;
            assert(keys@[j]@ == key_of(owner@, k));
        }
    }
    keys
}

/// The remote catalog of `owner`, from the records the registry answered
/// to a query for the components of `asked`.
pub fn remote_catalog(owner: &str, asked: &Catalog, records: &Vec<RemoteRecord>) -> (r: Catalog)
    requires
        asked.wf(),
    ensures
        r.wf(),
        r@ == catalog_of_records(owner@, asked@, records@.map_values(|x: RemoteRecord| x@)),
{
    let ghost rs = records@.map_values(|x: RemoteRecord| x@);
    let who = owner.to_owned();
    let mut cat = Catalog::new();
    let mut i: usize = 0;
    while i < records.len()
        invariant
            rs == records@.map_values(|x: RemoteRecord| x@),
            who@ == owner@,
            asked.wf(),
            i <= records@.len(),
            cat.wf(),
            cat@ == catalog_of_records(owner@, asked@, rs.subrange(0, i as int)),
        decreases records@.len() - i,
    {
        let rec = &records[i];
        if rec.account == who && asked.get(rec.name.as_str()).is_some() {
            cat.insert(rec.name.clone(), rec.content.clone());
        }
        assert(rs.subrange(0, i as int + 1).drop_last() =~= rs.subrange(0, i as int));
        i = i + 1;
    }
    assert(rs.subrange(0, records@.len() as int) =~= rs);
    cat
}

} // verus!
