//! Lists of records that are gathered one by one.

use crate::error::ErrorKind;
use crate::page::materialized;
use vstd::prelude::*;

verus! {

/// Whether every outcome before position `k` is a success.
pub open spec fn all_ok_before<T>(outcomes: Seq<Result<Option<T>, ErrorKind>>, k: int) -> bool {
    forall|j: int| 0 <= j < k ==> (#[trigger] outcomes[j]) is Ok
}

/// What the successes among `outcomes` found, each a record or nothing.
pub open spec fn found<T>(outcomes: Seq<Result<Option<T>, ErrorKind>>) -> Seq<Option<T>> {
    Seq::new(
        outcomes.len(),
        |i: int|
            match outcomes[i] {
                Ok(record) => record,
                Err(_) => None,
            },
    )
}

/// Gathers the records of a list of lookups, in the order of the lookups.
///
/// The first lookup that failed decides: its error is the result. Where
/// none failed the result holds the records that were found; a lookup that
/// found nothing adds nothing.
pub fn collect_records<T>(outcomes: Vec<Result<Option<T>, ErrorKind>>) -> (r: Result<
    Vec<T>,
    ErrorKind,
>)
    ensures
        match r {
            Ok(records) => all_ok_before(outcomes@, outcomes@.len() as int) && records@
                == materialized(found(outcomes@)),
            Err(e) => exists|k: int|
                0 <= k < outcomes@.len() && all_ok_before(outcomes@, k) && #[trigger] outcomes@[k]
                    == Err::<Option<T>, ErrorKind>(e),
        },
{
    let mut records: Vec<T> = Vec::new();
    for outcome in it: outcomes
        invariant
            it.seq() == outcomes@,
            all_ok_before(outcomes@, it.index() as int),
            records@ == materialized(found(outcomes@).take(it.index() as int)),
    {
        proof {
            let k = it.index() as int;
            assert(found(outcomes@).take(k + 1).drop_last() =~= found(outcomes@).take(k));
        }
        match outcome {
            Ok(Some(record)) => {
                records.push(record);
            },
            Ok(None) => {},
            Err(e) => {
                assert(outcomes@[it.index() as int] == Err::<Option<T>, ErrorKind>(e));
                return Err(e);
            },
        }
    }
    assert(found(outcomes@).take(outcomes@.len() as int) =~= found(outcomes@));
    Ok(records)
}

/// What a legacy endpoint gives for one item: the item where its legacy
/// form could be built, else `DeprecatedV0Err` with the name of the
/// endpoint.
pub fn deprecated_unless<T, E>(built: Result<T, E>, endpoint: &str) -> (r: Result<
    Option<T>,
    ErrorKind,
>)
    ensures
        match r {
            Ok(Some(item)) => built == Ok::<T, E>(item),
            Ok(None) => false,
            Err(ErrorKind::DeprecatedV0Err(name)) => built is Err && name@ == endpoint@,
            Err(_) => false,
        },
{
    match built {
        Ok(item) => Ok(Some(item)),
        Err(_) => Err(ErrorKind::DeprecatedV0Err(endpoint.to_owned())),
    }
}

} // verus!
