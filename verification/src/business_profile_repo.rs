//! Business-profile persistence: the store keeps one issuing profile,
//! created with sensible defaults on first use and rewritten in place
//! on update.

use vstd::prelude::*;
use vstd::string::StringExecFns;

use crate::external::{new_uuid, now_rfc3339};
use crate::models::{
    address_eqv, address_is_empty, opt_str_eqv, profile_eqv, Address, BusinessProfile,
};
use crate::store::{db_wf, lemma_find_profile_is, spec_find_profile, Database, StoreError};
use crate::text::str_eq;
use crate::types::{currency_eqv, terms_eqv, Currency, PaymentTerms};

verus! {

/// The rewritten profile carries every supplied field; its stored
/// creation timestamp is kept and only the update timestamp is left
/// open.
pub open spec fn profile_rewritten(a: BusinessProfile, given: BusinessProfile, kept: BusinessProfile) -> bool {
    &&& a.id@ == given.id@
    &&& a.name@ == given.name@
    &&& opt_str_eqv(a.email, given.email)
    &&& opt_str_eqv(a.phone, given.phone)
    &&& address_eqv(a.address, given.address)
    &&& opt_str_eqv(a.tax_id, given.tax_id)
    &&& opt_str_eqv(a.logo_path, given.logo_path)
    &&& currency_eqv(a.default_currency, given.default_currency)
    &&& terms_eqv(a.default_payment_terms, given.default_payment_terms)
    &&& a.theme_preference@ == given.theme_preference@
    &&& opt_str_eqv(a.pdf_export_dir, given.pdf_export_dir)
    &&& a.created_at == kept.created_at
}

/// Stores the business profile.
pub struct BusinessProfileRepository;

impl BusinessProfileRepository {
    /// A handle on profile storage.
    pub fn new() -> (r: Self) {
        BusinessProfileRepository
    }

    /// The stored business profile; on first use, a default profile
    /// (named `My Company`, USD, Net30) is created and stored.
    pub fn get_profile(&self, db: &mut Database) -> (r: Result<BusinessProfile, StoreError>)
        requires
            db_wf(*old(db)),
        ensures
            db_wf(*final(db)),
            r is Ok,
            old(db).profiles@.len() > 0 ==> *final(db) == *old(db) && profile_eqv(
                r.unwrap(),
                old(db).profiles@[0],
            ),
            old(db).profiles@.len() == 0 ==> ({
                let p = r.unwrap();
                &&& final(db).profiles@.len() == 1
                &&& profile_eqv(final(db).profiles@[0], p)
                &&& p.name@ == "My Company"@
                &&& p.email is None
                &&& p.phone is None
                &&& address_is_empty(p.address)
                &&& p.tax_id is None
                &&& p.logo_path is None
                &&& p.default_currency is USD
                &&& p.default_payment_terms is Net30
                &&& p.theme_preference@ == "system"@
                &&& p.pdf_export_dir is None
                &&& p.created_at@ == p.updated_at@
                &&& p.id@.len() == 36
                &&& final(db).clients@ == old(db).clients@
                &&& final(db).invoices@ == old(db).invoices@
            }),
    {
        if db.profiles.len() > 0 {
            return Result::Ok(db.profiles[0].clone());
        }
        let id = new_uuid();
        let now = now_rfc3339();
        let p = BusinessProfile {
            id,
            name: "My Company".to_owned(),
            email: Option::None,
            phone: Option::None,
            address: Address::default(),
            tax_id: Option::None,
            logo_path: Option::None,
            default_currency: Currency::USD,
            default_payment_terms: PaymentTerms::Net30,
            theme_preference: "system".to_owned(),
            pdf_export_dir: Option::None,
            created_at: now.clone(),
            updated_at: now,
        };
        db.profiles.push(p.clone());
        Result::Ok(p)
    }

    /// Rewrites the profile with the given identifier from the
    /// supplied value, keeping its creation timestamp and refreshing
    /// its update timestamp; `NotFound` when no profile carries it.
    #[verifier::loop_isolation(false)]
    pub fn update_profile(&self, db: &mut Database, profile: &BusinessProfile) -> (r: Result<
        (),
        StoreError,
    >)
        requires
            db_wf(*old(db)),
        ensures
            db_wf(*final(db)),
            match r {
                Result::Ok(()) => ({
                    let i = spec_find_profile(old(db).profiles@, profile.id@).unwrap();
                    &&& spec_find_profile(old(db).profiles@, profile.id@) is Some
                    &&& final(db).profiles@.len() == old(db).profiles@.len()
                    &&& forall|j: int|
                        0 <= j < old(db).profiles@.len() && j != i ==> final(db).profiles@[j]
                            == old(db).profiles@[j]
                    &&& profile_rewritten(
                        final(db).profiles@[i],
                        *profile,
                        old(db).profiles@[i],
                    )
                    &&& final(db).clients@ == old(db).clients@
                    &&& final(db).invoices@ == old(db).invoices@
                }),
                Result::Err(e) => ({
                    &&& e == StoreError::NotFound
                    &&& spec_find_profile(old(db).profiles@, profile.id@) is None
                    &&& *final(db) == *old(db)
                }),
            },
    {
        let n = db.profiles.len();
        let mut i: usize = 0;
        while i < n
            invariant
                i <= n,
                n == db.profiles@.len(),
                *db == *old(db),
                forall|j: int| 0 <= j < i ==> (#[trigger] db.profiles@[j]).id@ != profile.id@,
            decreases n - i,
        {
            if str_eq(db.profiles[i].id.as_str(), profile.id.as_str()) {
                proof {
                    lemma_find_profile_is(db.profiles@, profile.id@, i as int);
                }
                let ghost before = db.profiles@;
                let kept = db.profiles.remove(i);
                let mut np = profile.clone();
                np.created_at = kept.created_at;
                np.updated_at = now_rfc3339();
                db.profiles.insert(i, np);
                proof {
                    let after = db.profiles@;
                    assert(after =~= before.update(i as int, after[i as int]));
                    assert forall|a: int, b: int|
                        0 <= a < b < after.len() implies (#[trigger] after[a]).id@
                        != (#[trigger] after[b]).id@ by {
                        assert(before[a].id@ != before[b].id@);
                        assert(after[a].id@ == before[a].id@ && after[b].id@ == before[b].id@);
                    }
                }
                return Result::Ok(());
            }
            i = i + 1;
        }
        proof {
            lemma_find_profile_is(db.profiles@, profile.id@, n as int);
        }
        Result::Err(StoreError::NotFound)
    }
}

} // verus!
