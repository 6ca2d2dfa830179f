//! Scripted outcomes of external calls.
//!
//! A caller that stands in for the token contract decides ahead of time
//! whether the call of a given name succeeds. A call that nothing was
//! scripted for succeeds.

use vstd::prelude::*;
use crate::id_map::{lemma_upsert, lookup, upsert, IdMap, Pairs};

verus! {

/// The scripted outcomes, by the name of the call.
pub struct TestDataStorage {
    outcomes: IdMap<bool>,
}

impl TestDataStorage {
    /// The scripted outcomes as pairs of a name and an outcome.
    pub closed spec fn view(&self) -> Pairs<bool> {
        self.outcomes@
    }

}

/// The outcome scripted for `name` in `outcomes`: success where there is none.
pub open spec fn scripted_success(outcomes: Pairs<bool>, name: Seq<char>) -> bool {
    match lookup(outcomes, name) {
        Some(success) => success,
        None => true,
    }
}

/// A storage in which nothing is scripted.
pub fn data() -> (storage: TestDataStorage)
    ensures
        storage@ == Pairs::<bool>::empty(),
{
    TestDataStorage { outcomes: IdMap::new() }
}

/// Scripts the outcome of the call `name`, in place of an earlier one.
pub fn set_test_future_success(storage: &mut TestDataStorage, name: &str, success: bool)
    ensures
        final(storage)@ == upsert(old(storage)@, name@, success),
        scripted_success(final(storage)@, name@) == success,
        forall|other: Seq<char>| other != name@ ==> #[trigger] scripted_success(final(storage)@, other)
            == scripted_success(old(storage)@, other),
{
    proof {
        use_type_invariant(&storage.outcomes);
        lemma_upsert(storage@, name@, success);
    }
    storage.outcomes.insert(name.to_owned(), success);
}

/// Tells whether the call `name` is to succeed.
pub fn get_test_future_success(storage: &TestDataStorage, name: &str) -> (success: bool)
    ensures
        success == scripted_success(storage@, name@),
{
    let key = name.to_owned();
    match storage.outcomes.get(&key) {
        Some(value) => *value,
        None => true,
    }
}

} // verus!
