//! What comes back from the record store, and what the library makes of it.
//!
//! The store itself is outside the library: a caller fetches the item of a
//! user and writes it back. Here stands what a fetch can come back with, how a
//! failure of the store is told, and the step from the item that was fetched
//! to the record in it.

use vstd::prelude::*;
use crate::codec::{DecodeError, DecodeErrorView, decode, tree_record};
use crate::model::{UserRecord, UserRecordView};
use crate::tree::{AttributeTree, TreeView};

verus! {

/// What a fetch from the store came back with: the item of the key asked for,
/// or nothing where the store holds no such item.
#[derive(Debug, PartialEq)]
pub struct ItemOutput {
    pub item: Option<AttributeTree>,
}

impl View for ItemOutput {
    type V = Option<TreeView>;

    open spec fn view(&self) -> Option<TreeView> {
        match self.item {
            Some(tree) => Some(tree@),
            None => None,
        }
    }
}

/// A read or a write of the store that failed.
#[derive(Debug, PartialEq)]
pub enum StoreError {
    /// The store did not carry the request out. The text is its own account.
    Unavailable(String),
    /// The store holds an item for the key that is not the tree of a record.
    Corrupt(DecodeError),
}

/// The value of a [`StoreError`].
pub enum StoreErrorView {
    Unavailable(Seq<char>),
    Corrupt(DecodeErrorView),
}

impl View for StoreError {
    type V = StoreErrorView;

    open spec fn view(&self) -> StoreErrorView {
        match self {
            StoreError::Unavailable(account) => StoreErrorView::Unavailable(account@),
            StoreError::Corrupt(error) => StoreErrorView::Corrupt(error@),
        }
    }
}

/// The record in what a fetch came back with: none where there is no item.
pub open spec fn output_record(output: Option<TreeView>) -> Result<
    Option<UserRecordView>,
    DecodeErrorView,
> {
    match output {
        None => Ok(None),
        Some(tree) => match tree_record(tree) {
            Ok(record) => Ok(Some(record)),
            Err(error) => Err(error),
        },
    }
}

/// The record that the store holds for a user, from the reply to a fetch: the
/// store's failure stays what it is, and an item that holds no record is a
/// failure of the store too.
pub open spec fn fetched_record(reply: Result<Option<TreeView>, StoreErrorView>) -> Result<
    Option<UserRecordView>,
    StoreErrorView,
> {
    match reply {
        Err(error) => Err(error),
        Ok(output) => match output_record(output) {
            Ok(found) => Ok(found),
            Err(error) => Err(StoreErrorView::Corrupt(error)),
        },
    }
}

/// The value of an optional record.
pub open spec fn found_view(found: Option<UserRecord>) -> Option<UserRecordView> {
    match found {
        Some(record) => Some(record@),
        None => None,
    }
}

/// A value that may hold a stored record.
pub trait ToUserRecord {
    /// The record that `self` holds, if any, or why what it holds is none.
    spec fn user_record(&self) -> Result<Option<UserRecordView>, DecodeErrorView>;

    fn to_user_record(&self) -> (record: Result<Option<UserRecord>, DecodeError>)
        ensures
            match record {
                Ok(found) => self.user_record() == Ok::<Option<UserRecordView>, DecodeErrorView>(
                    found_view(found),
                ),
                Err(error) => self.user_record() == Err::<
                    Option<UserRecordView>,
                    DecodeErrorView,
                >(error@),
            },
    ;
}

impl ToUserRecord for ItemOutput {
    open spec fn user_record(&self) -> Result<Option<UserRecordView>, DecodeErrorView> {
        output_record(self@)
    }

    /// The record that was fetched: `None` where the store held no item, and
    /// the reason where the item it held is not the tree of a record. No
    /// record is made up where there was none.
    fn to_user_record(&self) -> (record: Result<Option<UserRecord>, DecodeError>) {
        match &self.item {
            None => Ok(None),
            Some(tree) => match decode(tree) {
                Ok(found) => Ok(Some(found)),
                Err(error) => Err(error),
            },
        }
    }
}

/// The record that the store holds for a user, from the reply to the fetch of
/// that user's item.
///
/// `Ok(None)` where the store answered and holds no item; the store's own
/// failure as it came; `Corrupt` with the reason where the item that it holds
/// is not the tree of a record.
pub fn get_user_record(reply: Result<ItemOutput, StoreError>) -> (record: Result<
    Option<UserRecord>,
    StoreError,
>)
    ensures
        match record {
            Ok(found) => fetched_record(reply_view(reply)) == Ok::<
                Option<UserRecordView>,
                StoreErrorView,
            >(found_view(found)),
            Err(error) => fetched_record(reply_view(reply)) == Err::<
                Option<UserRecordView>,
                StoreErrorView,
            >(error@),
        },
{
    match reply {
        Err(error) => Err(error),
        Ok(output) => match output.to_user_record() {
            Ok(found) => Ok(found),
            Err(error) => Err(StoreError::Corrupt(error)),
        },
    }
}

/// The value of the reply to a fetch.
pub open spec fn reply_view(reply: Result<ItemOutput, StoreError>) -> Result<
    Option<TreeView>,
    StoreErrorView,
> {
    match reply {
        Ok(output) => Ok(output@),
        Err(error) => Err(error@),
    }
}

/// The value of the reply to a write.
pub open spec fn written_view(reply: Result<(), StoreError>) -> Result<(), StoreErrorView> {
    match reply {
        Ok(_) => Ok(()),
        Err(error) => Err(error@),
    }
}

} // verus!
