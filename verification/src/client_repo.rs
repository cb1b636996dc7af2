//! Client persistence: create with a fresh random identifier, list,
//! look up by identifier, update, and delete. Deleting a client does
//! not touch invoices — each invoice keeps the client identifier that
//! was valid when it was created.

use vstd::prelude::*;
use vstd::string::StringExecFns;

use crate::external::{new_uuid, now_rfc3339};
use crate::models::{address_is_empty, client_eqv, Address, Client};
use crate::store::{
    client_exists, db_wf, lemma_find_client_is, spec_client_exists, spec_find_client,
    spec_get_client, Database, StoreError,
};
use crate::text::str_eq;

verus! {

/// Whether the stored optional string is the one that was supplied.
pub open spec fn opt_str_matches(a: Option<String>, b: Option<&str>) -> bool {
    match (a, b) {
        (Option::None, Option::None) => true,
        (Option::Some(x), Option::Some(y)) => x@ == y@,
        _ => false,
    }
}

/// The updated client keeps its identity and untouched fields, and
/// carries the supplied name, email and company; only the update
/// timestamp is left open.
pub open spec fn client_with_fields(
    a: Client,
    b: Client,
    name: Seq<char>,
    email: Option<&str>,
    company: Option<&str>,
) -> bool {
    &&& a.id == b.id
    &&& a.name@ == name
    &&& opt_str_matches(a.email, email)
    &&& a.phone == b.phone
    &&& opt_str_matches(a.company, company)
    &&& a.address == b.address
    &&& a.notes == b.notes
    &&& a.created_at == b.created_at
}

/// Clones an optional borrowed string.
fn owned_opt(s: Option<&str>) -> (r: Option<String>)
    ensures
        opt_str_matches(r, s),
{
    match s {
        Option::Some(x) => Option::Some(x.to_owned()),
        Option::None => Option::None,
    }
}

/// Stores clients.
pub struct ClientRepository;

impl ClientRepository {
    /// A handle on client storage.
    pub fn new() -> (r: Self) {
        ClientRepository
    }

    /// Appends a new client under the given identifier and hands it
    /// back: `Conflict` exactly when the identifier is already taken,
    /// and then the store is left untouched.
    pub fn create_with_id(
        &self,
        db: &mut Database,
        id: String,
        name: &str,
        email: Option<&str>,
        company: Option<&str>,
        created_at: String,
    ) -> (r: Result<Client, StoreError>)
        requires
            db_wf(*old(db)),
        ensures
            db_wf(*final(db)),
            match r {
                Result::Ok(c) => ({
                    &&& !spec_client_exists(old(db).clients@, id@)
                    &&& final(db).clients@.len() == old(db).clients@.len() + 1
                    &&& forall|j: int|
                        0 <= j < old(db).clients@.len() ==> final(db).clients@[j] == old(
                            db,
                        ).clients@[j]
                    &&& client_eqv(final(db).clients@[old(db).clients@.len() as int], c)
                    &&& c.id == id
                    &&& c.name@ == name@
                    &&& opt_str_matches(c.email, email)
                    &&& c.phone is None
                    &&& opt_str_matches(c.company, company)
                    &&& address_is_empty(c.address)
                    &&& c.notes is None
                    &&& c.created_at == created_at
                    &&& c.updated_at@ == created_at@
                    &&& final(db).invoices@ == old(db).invoices@
                    &&& final(db).profiles@ == old(db).profiles@
                }),
                Result::Err(e) => ({
                    &&& e == StoreError::Conflict
                    &&& spec_client_exists(old(db).clients@, id@)
                    &&& *final(db) == *old(db)
                }),
            },
    {
        if client_exists(&db.clients, id.as_str()) {
            return Result::Err(StoreError::Conflict);
        }
        let updated_at = created_at.clone();
        let c = Client {
            id,
            name: name.to_owned(),
            email: owned_opt(email),
            phone: Option::None,
            company: owned_opt(company),
            address: Address::default(),
            notes: Option::None,
            created_at,
            updated_at,
        };
        db.clients.push(c.clone());
        proof {
            let cs = old(db).clients@;
            let after = db.clients@;
            assert forall|a: int, b: int| 0 <= a < b < after.len() implies (
            #[trigger] after[a]).id@ != (#[trigger] after[b]).id@ by {
                if b == cs.len() {
                    assert(after[a] == cs[a]);
                    if cs[a].id@ == after[b].id@ {
                        assert(spec_client_exists(cs, c.id@));
                    }
                } else {
                    assert(after[a] == cs[a] && after[b] == cs[b]);
                }
            }
        }
        Result::Ok(c)
    }

    /// Appends a new client under a fresh random identifier and hands
    /// it back. In the (random) event that the drawn identifier is
    /// already taken, the store is left untouched.
    pub fn create(
        &self,
        db: &mut Database,
        name: &str,
        email: Option<&str>,
        company: Option<&str>,
    ) -> (r: Result<Client, StoreError>)
        requires
            db_wf(*old(db)),
        ensures
            db_wf(*final(db)),
            match r {
                Result::Ok(c) => ({
                    &&& final(db).clients@.len() == old(db).clients@.len() + 1
                    &&& forall|j: int|
                        0 <= j < old(db).clients@.len() ==> final(db).clients@[j] == old(
                            db,
                        ).clients@[j]
                    &&& client_eqv(final(db).clients@[old(db).clients@.len() as int], c)
                    &&& c.name@ == name@
                    &&& opt_str_matches(c.email, email)
                    &&& c.phone is None
                    &&& opt_str_matches(c.company, company)
                    &&& address_is_empty(c.address)
                    &&& c.notes is None
                    &&& c.created_at@ == c.updated_at@
                    &&& c.id@.len() == 36
                    &&& !spec_client_exists(old(db).clients@, c.id@)
                    &&& final(db).invoices@ == old(db).invoices@
                    &&& final(db).profiles@ == old(db).profiles@
                }),
                Result::Err(e) => e == StoreError::Conflict && *final(db) == *old(db),
            },
    {
        let id = new_uuid();
        let now = now_rfc3339();
        self.create_with_id(db, id, name, email, company, now)
    }

    /// Copies of every stored client, in stored order (the core needs
    /// only lookup by identifier).
    pub fn list_all(&self, db: &Database) -> (r: Vec<Client>)
        ensures
            r@.len() == db.clients@.len(),
            forall|k: int| 0 <= k < r@.len() ==> client_eqv(#[trigger] r@[k], db.clients@[k]),
    {
        let n = db.clients.len();
        let mut out: Vec<Client> = Vec::new();
        let mut i: usize = 0;
        while i < n
            invariant
                i <= n,
                n == db.clients@.len(),
                out@.len() == i,
                forall|k: int| 0 <= k < i ==> client_eqv(#[trigger] out@[k], db.clients@[k]),
            decreases n - i,
        {
            out.push(db.clients[i].clone());
            i = i + 1;
        }
        out
    }

    /// The client with this identifier, or nothing.
    pub fn get_by_id(&self, db: &Database, id: &str) -> (r: Option<Client>)
        ensures
            match (r, spec_get_client(db.clients@, id@)) {
                (Option::Some(c), Option::Some(stored)) => client_eqv(c, stored),
                (Option::None, Option::None) => true,
                _ => false,
            },
    {
        let n = db.clients.len();
        let mut i: usize = 0;
        while i < n
            invariant
                i <= n,
                n == db.clients@.len(),
                forall|j: int| 0 <= j < i ==> (#[trigger] db.clients@[j]).id@ != id@,
            decreases n - i,
        {
            if str_eq(db.clients[i].id.as_str(), id) {
                proof {
                    lemma_find_client_is(db.clients@, id@, i as int);
                }
                return Option::Some(db.clients[i].clone());
            }
            i = i + 1;
        }
        proof {
            lemma_find_client_is(db.clients@, id@, n as int);
        }
        Option::None
    }

    /// Removes the client with this identifier; removing an absent
    /// identifier is not an error. Stored invoices are untouched.
    #[verifier::loop_isolation(false)]
    pub fn delete(&self, db: &mut Database, id: &str) -> (r: Result<(), StoreError>)
        requires
            db_wf(*old(db)),
        ensures
            db_wf(*final(db)),
            r is Ok,
            match spec_find_client(old(db).clients@, id@) {
                Option::Some(i) => final(db).clients@ == old(db).clients@.remove(i),
                Option::None => *final(db) == *old(db),
            },
            final(db).invoices@ == old(db).invoices@,
            final(db).profiles@ == old(db).profiles@,
    {
        let n = db.clients.len();
        let mut i: usize = 0;
        while i < n
            invariant
                i <= n,
                n == db.clients@.len(),
                *db == *old(db),
                forall|j: int| 0 <= j < i ==> (#[trigger] db.clients@[j]).id@ != id@,
            decreases n - i,
        {
            if str_eq(db.clients[i].id.as_str(), id) {
                proof {
                    lemma_find_client_is(db.clients@, id@, i as int);
                }
                let ghost before = db.clients@;
                db.clients.remove(i);
                proof {
                    assert forall|a: int, b: int|
                        0 <= a < b < db.clients@.len() implies (#[trigger] db.clients@[a]).id@
                        != (#[trigger] db.clients@[b]).id@ by {
                        let a0 = if a < i {
                            a
                        } else {
                            a + 1
                        };
                        let b0 = if b < i {
                            b
                        } else {
                            b + 1
                        };
                        assert(db.clients@[a] == before[a0] && db.clients@[b] == before[b0]);
                    }
                }
                return Result::Ok(());
            }
            i = i + 1;
        }
        proof {
            lemma_find_client_is(db.clients@, id@, n as int);
        }
        Result::Ok(())
    }

    /// Rewrites the name, email and company of the client with this
    /// identifier, refreshing its update timestamp; `NotFound` when no
    /// client carries it.
    #[verifier::loop_isolation(false)]
    pub fn update(
        &self,
        db: &mut Database,
        id: &str,
        name: &str,
        email: Option<&str>,
        company: Option<&str>,
    ) -> (r: Result<(), StoreError>)
        requires
            db_wf(*old(db)),
        ensures
            db_wf(*final(db)),
            match r {
                Result::Ok(()) => ({
                    let i = spec_find_client(old(db).clients@, id@).unwrap();
                    &&& spec_find_client(old(db).clients@, id@) is Some
                    &&& final(db).clients@.len() == old(db).clients@.len()
                    &&& forall|j: int|
                        0 <= j < old(db).clients@.len() && j != i ==> final(db).clients@[j]
                            == old(db).clients@[j]
                    &&& client_with_fields(
                        final(db).clients@[i],
                        old(db).clients@[i],
                        name@,
                        email,
                        company,
                    )
                    &&& final(db).invoices@ == old(db).invoices@
                    &&& final(db).profiles@ == old(db).profiles@
                }),
                Result::Err(e) => ({
                    &&& e == StoreError::NotFound
                    &&& spec_find_client(old(db).clients@, id@) is None
                    &&& *final(db) == *old(db)
                }),
            },
    {
        let n = db.clients.len();
        let mut i: usize = 0;
        while i < n
            invariant
                i <= n,
                n == db.clients@.len(),
                *db == *old(db),
                forall|j: int| 0 <= j < i ==> (#[trigger] db.clients@[j]).id@ != id@,
            decreases n - i,
        {
            if str_eq(db.clients[i].id.as_str(), id) {
                proof {
                    lemma_find_client_is(db.clients@, id@, i as int);
                }
                let ghost before = db.clients@;
                let mut c = db.clients.remove(i);
                c.name = name.to_owned();
                c.email = owned_opt(email);
                c.company = owned_opt(company);
                c.updated_at = now_rfc3339();
                db.clients.insert(i, c);
                proof {
                    let after = db.clients@;
                    assert(after =~= before.update(i as int, after[i as int]));
                    assert forall|a: int, b: int|
                        0 <= a < b < after.len() implies (#[trigger] after[a]).id@
                        != (#[trigger] after[b]).id@ by {
                        assert(before[a].id@ != before[b].id@);
                        assert(after[a].id@ == before[a].id@ && after[b].id@ == before[b].id@);
                    }
                }
                return Result::Ok(());
            }
            i = i + 1;
        }
        proof {
            lemma_find_client_is(db.clients@, id@, n as int);
        }
        Result::Err(StoreError::NotFound)
    }
}

} // verus!
