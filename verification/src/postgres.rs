//! The query patterns: traits that let a struct opt into full-text search,
//! autocomplete lookup and fetch-by-primary-key, and the generic operations
//! that fold the rows a database client returned into typed results.
//!
//! Each operation is a single request/response cycle: the caller sends the
//! type's static query text to its client and hands the outcome — either
//! the returned rows, in the client's order, or the client's error message —
//! to the matching operation here. The operations hold no state of their
//! own, impose no ordering of their own, and perform no recovery: a client
//! failure is surfaced unchanged as `QueryError::Execution`.

use vstd::prelude::*;
use vstd::pervasive::arbitrary;

verus! {

/// The errors a query operation can surface. `Execution` carries a failure
/// of the client itself (connection, syntax, timeout); `NotFound` is the
/// distinct condition that a by-key lookup matched no row, so that callers
/// can tell "no such record" from "the query broke".
#[derive(Debug)]
pub enum QueryError {
    Execution(String),
    NotFound(String),
}

/// The fulltext trait makes it easy to perform fulltext searches: a type
/// declares the static query text for a full-text search against its
/// backing table, and how one returned row maps to an instance of itself.
///
/// `Row` is the client's opaque row type; row mapping is pure, so its
/// mathematical value is fixed by `fulltext_row_spec`.
pub trait FullText: Sized {
    type Row;

    /// The mathematical value of the query text; a verifying
    /// implementor overrides this with the text it returns.
    open spec fn fulltext_query_spec() -> Seq<char> {
        arbitrary()
    }

    /// The entity one row maps to; a verifying implementor
    /// overrides this with its row mapping.
    open spec fn fulltext_row_spec(row: Self::Row) -> Self {
        arbitrary()
    }

    /// The static query text for a full-text search.
    fn query_fulltext() -> (q: &'static str)
        ensures
            q@ == Self::fulltext_query_spec(),
    ;

    /// Map one returned row into an instance of the type.
    fn rowfunc_fulltext(row: &Self::Row) -> (t: Self)
        ensures
            t == Self::fulltext_row_spec(*row),
    ;
}

/// Fold the outcome of a full-text query into typed hits: every returned
/// row is mapped through the type's row function, in the client's row
/// order — rows are never reordered, dropped or invented — and a client
/// failure is passed through as an execution error. A phrase that matched
/// zero rows therefore yields `Ok` of an empty vector, not an error.
pub fn exec_fulltext<T: FullText>(outcome: Result<Vec<T::Row>, String>) -> (r: Result<
    Vec<T>,
    QueryError,
>)
    ensures
        outcome matches Ok(rows) ==> r matches Ok(hits) && hits@ == rows@.map_values(
            |row: T::Row| T::fulltext_row_spec(row),
        ),
        outcome matches Err(m) ==> r matches Err(QueryError::Execution(e)) && e == m,
{
    match outcome {
        Ok(rows) => {
            let mut hits: Vec<T> = Vec::new();
            let mut i: usize = 0;
            while i < rows.len()
                invariant
                    i <= rows.len(),
                    hits@ == rows@.subrange(0, i as int).map_values(
                        |row: T::Row| T::fulltext_row_spec(row),
                    ),
                decreases rows.len() - i,
            {
                let hit = T::rowfunc_fulltext(&rows[i]);
                hits.push(hit);
                proof {
                    assert(rows@.subrange(0, i + 1 as int) =~= rows@.subrange(0, i as int).push(
                        rows@[i as int],
                    ));
                    assert(hits@ =~= rows@.subrange(0, i + 1 as int).map_values(
                        |row: T::Row| T::fulltext_row_spec(row),
                    ));
                }
                i = i + 1;
            }
            proof {
                assert(rows@.subrange(0, rows@.len() as int) =~= rows@);
            }
            Ok(hits)
        },
        Err(m) => Err(QueryError::Execution(m)),
    }
}

/// The 'who, what, where' of one item of a given type: a lightweight
/// reference — type tag, primary key and display name — returned by the
/// autocomplete pattern instead of a fully hydrated entity. `PKT` is the
/// key-shape type, so heterogeneous entity types can be mixed in calling
/// code that is itself generic over key shape.
pub struct WhoWhatWhere<PKT> {
    pub data_type: &'static str,
    pub pk: PKT,
    pub name: String,
}

/// The autocomp trait makes it easy to return a vec of `WhoWhatWhere`
/// referencing a given type: a type declares the static query text of its
/// autocomplete search, and how one returned row maps to the lightweight
/// projection. The mapper may select a narrower column set than the
/// full-text one, which is why this is a pattern of its own.
pub trait AutoComp<PKT>: Sized {
    type Row;

    /// The mathematical value of the query text; a verifying
    /// implementor overrides this with the text it returns.
    open spec fn autocomp_query_spec() -> Seq<char> {
        arbitrary()
    }

    /// The projection one row maps to; a verifying implementor
    /// overrides this with its row mapping.
    open spec fn autocomp_row_spec(row: Self::Row) -> WhoWhatWhere<PKT> {
        arbitrary()
    }

    /// The static query text for an autocomplete search.
    fn query_autocomp() -> (q: &'static str)
        ensures
            q@ == Self::autocomp_query_spec(),
    ;

    /// Map one returned row into the lightweight projection.
    fn rowfunc_autocomp(row: &Self::Row) -> (w: WhoWhatWhere<PKT>)
        ensures
            w == Self::autocomp_row_spec(*row),
    ;
}

/// Fold the outcome of an autocomplete query into `WhoWhatWhere` hits:
/// same single request, same row order and same error policy as
/// `exec_fulltext`, but every row maps to the lightweight projection.
pub fn exec_autocomp<PKT, T: AutoComp<PKT>>(outcome: Result<Vec<T::Row>, String>) -> (r: Result<
    Vec<WhoWhatWhere<PKT>>,
    QueryError,
>)
    ensures
        outcome matches Ok(rows) ==> r matches Ok(hits) && hits@ == rows@.map_values(
            |row: T::Row| T::autocomp_row_spec(row),
        ),
        outcome matches Err(m) ==> r matches Err(QueryError::Execution(e)) && e == m,
{
    match outcome {
        Ok(rows) => {
            let mut hits: Vec<WhoWhatWhere<PKT>> = Vec::new();
            let mut i: usize = 0;
            while i < rows.len()
                invariant
                    i <= rows.len(),
                    hits@ == rows@.subrange(0, i as int).map_values(
                        |row: T::Row| T::autocomp_row_spec(row),
                    ),
                decreases rows.len() - i,
            {
                let hit = T::rowfunc_autocomp(&rows[i]);
                hits.push(hit);
                proof {
                    assert(rows@.subrange(0, i + 1 as int) =~= rows@.subrange(0, i as int).push(
                        rows@[i as int],
                    ));
                    assert(hits@ =~= rows@.subrange(0, i + 1 as int).map_values(
                        |row: T::Row| T::autocomp_row_spec(row),
                    ));
                }
                i = i + 1;
            }
            proof {
                assert(rows@.subrange(0, rows@.len() as int) =~= rows@);
            }
            Ok(hits)
        },
        Err(m) => Err(QueryError::Execution(m)),
    }
}

/// The get by PK trait makes it easy to return an instance of a struct
/// given its primary key: a type declares the static query text of its
/// by-key lookup, and how the one returned row maps to an instance.
pub trait GetByPK: Sized {
    type Row;

    /// The mathematical value of the query text; a verifying
    /// implementor overrides this with the text it returns.
    open spec fn get_by_pk_query_spec() -> Seq<char> {
        arbitrary()
    }

    /// The entity one row maps to; a verifying implementor
    /// overrides this with its row mapping.
    open spec fn get_by_pk_row_spec(row: Self::Row) -> Self {
        arbitrary()
    }

    /// The static query text for a by-key lookup.
    fn query_get_by_pk() -> (q: &'static str)
        ensures
            q@ == Self::get_by_pk_query_spec(),
    ;

    /// Map one returned row into an instance of the type.
    fn rowfunc_get_by_pk(row: &Self::Row) -> (t: Self)
        ensures
            t == Self::get_by_pk_row_spec(*row),
    ;
}

/// Resolve the outcome of a by-key lookup: exactly one instance on
/// success, mapped from the first row in the client's returned order
/// (rows beyond the first are silently ignored); zero rows is the
/// distinct `NotFound` condition, never a success and never confused
/// with a client failure, which is passed through as `Execution`.
pub fn get_by_pk<T: GetByPK>(outcome: Result<Vec<T::Row>, String>) -> (r: Result<T, QueryError>)
    ensures
        outcome matches Ok(rows) ==> ((rows@.len() == 0 ==> (r matches Err(
            QueryError::NotFound(m),
        ) && m@ == "could not get by PK"@)) && (rows@.len() > 0 ==> (r matches Ok(t) && t
            == T::get_by_pk_row_spec(rows@[0])))),
        outcome matches Err(m) ==> r matches Err(QueryError::Execution(e)) && e == m,
{
    match outcome {
        Ok(rows) => {
            if rows.len() == 0 {
                Err(QueryError::NotFound(String::from_str("could not get by PK")))
            } else {
                let t = T::rowfunc_get_by_pk(&rows[0]);
                Ok(t)
            }
        },
        Err(m) => Err(QueryError::Execution(m)),
    }
}

/// Law: a full-text or autocomplete search returns one hit per returned
/// row, in the client's row order — the i-th hit is mapped from the i-th
/// row, so the operation never reorders, drops or invents rows. In
/// particular, a phrase that matched zero rows yields an empty result.
pub proof fn lemma_search_preserves_order<R, H>(rows: Seq<R>, hits: Seq<H>, f: spec_fn(R) -> H)
    requires
        hits == rows.map_values(f),
    ensures
        hits.len() == rows.len(),
        forall|i: int| 0 <= i < rows.len() ==> hits[i] == f(rows[i]),
        rows.len() == 0 ==> hits.len() == 0,
{
}

/// Law: repeated identical searches against an unchanged backing data set
/// — the client returns the same rows in the same order — yield identical
/// ordered results.
pub proof fn lemma_search_idempotent<R, H>(
    rows: Seq<R>,
    first: Seq<H>,
    second: Seq<H>,
    f: spec_fn(R) -> H,
)
    requires
        first == rows.map_values(f),
        second == rows.map_values(f),
    ensures
        first == second,
{
}

/// Law: repeated identical by-key lookups against an unchanged backing
/// data set yield the same instance: the result is fixed by the first
/// returned row alone.
pub proof fn lemma_get_by_pk_idempotent<T: GetByPK>(rows: Seq<T::Row>, first: T, second: T)
    requires
        rows.len() > 0,
        first == T::get_by_pk_row_spec(rows[0]),
        second == T::get_by_pk_row_spec(rows[0]),
    ensures
        first == second,
{
}

} // verus!
