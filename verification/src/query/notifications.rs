//! The notifications that are not read, as they are shown.

use vstd::prelude::*;

use crate::query::sql::query_view;
use crate::query::sql;
use crate::sql::Statement;

verus! {

/// The view of the notifications that are not read.
pub const UNREAD_VIEW: &'static str = "v_unread_notifications";

/// To mark notifications as read is not implemented.
#[derive(Clone, Copy, PartialEq, Eq, Structural, Debug)]
pub struct NotImplemented;

/// The query for the notifications that are not read. They cannot be marked as read.
pub fn query(mark_read: bool) -> (r: Result<Statement, NotImplemented>)
    ensures
        match r {
            Ok(s) => !mark_read && s.deep_view() == sql::whole_view(UNREAD_VIEW@),
            Err(_) => mark_read,
        },
{
    if mark_read {
        Err(NotImplemented)
    } else {
        Ok(query_view(UNREAD_VIEW))
    }
}

} // verus!
