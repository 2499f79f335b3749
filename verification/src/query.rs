//! The read path: the record of one user, for whoever asks.

use vstd::prelude::*;
use crate::model::{UserRecord, UserRecordView};
use crate::store::{
    ItemOutput,
    StoreError,
    StoreErrorView,
    fetched_record,
    get_user_record,
    reply_view,
};
use crate::tree::TreeView;

verus! {

/// Why a query has no record to show.
#[derive(Debug, PartialEq)]
pub enum QueryError {
    /// The store holds nothing for the user: there is no such user.
    NotFound,
    /// The store failed.
    Store(StoreError),
}

/// The value of a [`QueryError`].
pub enum QueryErrorView {
    NotFound,
    Store(StoreErrorView),
}

impl View for QueryError {
    type V = QueryErrorView;

    open spec fn view(&self) -> QueryErrorView {
        match self {
            QueryError::NotFound => QueryErrorView::NotFound,
            QueryError::Store(error) => QueryErrorView::Store(error@),
        }
    }
}

/// The answer to a query, from the reply to the fetch of the user's item.
pub open spec fn query_answer(reply: Result<Option<TreeView>, StoreErrorView>) -> Result<
    UserRecordView,
    QueryErrorView,
> {
    match fetched_record(reply) {
        Err(error) => Err(QueryErrorView::Store(error)),
        Ok(None) => Err(QueryErrorView::NotFound),
        Ok(Some(record)) => Ok(record),
    }
}

/// The services of a user, from the reply to the fetch of that user's item.
///
/// The record that the store holds; `NotFound` where it holds none, which on
/// this path is a failure and is not answered with an empty record; `Store`
/// where the fetch failed or the item is not the tree of a record.
pub fn get_user_services(reply: Result<ItemOutput, StoreError>) -> (answer: Result<
    UserRecord,
    QueryError,
>)
    ensures
        match answer {
            Ok(record) => query_answer(reply_view(reply)) == Ok::<UserRecordView, QueryErrorView>(
                record@,
            ),
            Err(error) => query_answer(reply_view(reply)) == Err::<UserRecordView, QueryErrorView>(
                error@,
            ),
        },
{
    match get_user_record(reply) {
        Err(error) => Err(QueryError::Store(error)),
        Ok(None) => Err(QueryError::NotFound),
        Ok(Some(record)) => Ok(record),
    }
}

} // verus!
