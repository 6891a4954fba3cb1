//! Session records, persisted rows, and the decisions that each store
//! operation makes on what the backing table answers.
use vstd::prelude::*;
use crate::error::RormStoreError;
use crate::ids::{id_from_text, id_parse, id_text};

verus! {

/// A session as the session layer holds it: identifier, expiry instant in
/// nanoseconds since the Unix epoch, and the payload as JSON text.
pub struct SessionRecord {
    pub id: i128,
    pub expiry: i128,
    pub data: String,
}

/// A persisted row: the identifier's text as primary key, the expiry instant
/// and the serialized payload.
pub struct Row {
    pub id: String,
    pub expires_at: i128,
    pub data: String,
}

/// What a row holds, as values.
pub struct RowView {
    pub id: Seq<char>,
    pub expires_at: i128,
    pub data: Seq<char>,
}

impl View for Row {
    type V = RowView;

    open spec fn view(&self) -> RowView {
        RowView { id: self.id@, expires_at: self.expires_at, data: self.data@ }
    }
}

/// The row that stores the record `r`.
pub open spec fn row_of(r: SessionRecord) -> RowView {
    RowView { id: id_text(r.id), expires_at: r.expiry, data: r.data@ }
}

/// A row is visible to reads while its expiry lies strictly after `now`.
pub open spec fn live_at(expires_at: i128, now: i128) -> bool {
    expires_at > now
}

/// A row is purged once its expiry lies strictly before `now`.
pub open spec fn expired_at(expires_at: i128, now: i128) -> bool {
    expires_at < now
}

/// Whether a row with expiry `expires_at` is visible at the instant `now`.
pub fn is_live(expires_at: i128, now: i128) -> (r: bool)
    ensures
        r == live_at(expires_at, now),
{
    expires_at > now
}

/// Whether a row with expiry `expires_at` is to be purged at the instant `now`.
pub fn is_expired(expires_at: i128, now: i128) -> (r: bool)
    ensures
        r == expired_at(expires_at, now),
{
    expires_at < now
}

/// What `create` does after looking up the record's identifier.
#[derive(PartialEq, Eq, Structural, Debug, Clone, Copy)]
pub enum CreateAction {
    /// No row holds the identifier: insert the record.
    Insert,
    /// A row holds the identifier already: draw a new one and look again.
    Regenerate,
}

/// What `save` does after looking up the record's identifier.
#[derive(PartialEq, Eq, Structural, Debug, Clone, Copy)]
pub enum SaveAction {
    /// A row holds the identifier: overwrite its expiry and payload.
    Update,
    /// No row holds the identifier: insert the whole record.
    Insert,
}

/// The step of `create` once the lookup of the identifier has answered
/// whether a row holds it.
pub fn create_action(existing: bool) -> (a: CreateAction)
    ensures
        a == (if existing { CreateAction::Regenerate } else { CreateAction::Insert }),
{
    if existing {
        CreateAction::Regenerate
    } else {
        CreateAction::Insert
    }
}

/// The step of `save` once the lookup of the identifier has answered whether
/// a row holds it.
pub fn save_action(existing: bool) -> (a: SaveAction)
    ensures
        a == (if existing { SaveAction::Update } else { SaveAction::Insert }),
{
    if existing {
        SaveAction::Update
    } else {
        SaveAction::Insert
    }
}

/// Reads a stored identifier back; fails exactly when the text is no session
/// identifier.
pub fn decode_id(id: &str) -> (r: Result<i128, RormStoreError>)
    ensures
        match r {
            Ok(v) => id_parse(id@) == Some(v),
            Err(e) => id_parse(id@).is_none() && e is DecodingFailed,
        },
{
    match id_from_text(id) {
        Ok(v) => Ok(v),
        Err(e) => Err(RormStoreError::DecodingFailed(e)),
    }
}

/// Turns a stored row's columns back into a session record; fails exactly
/// when the stored identifier does not read back as a session identifier.
pub fn record_from_row(id: &str, expires_at: i128, data: String) -> (r: Result<
    SessionRecord,
    RormStoreError,
>)
    ensures
        match r {
            Ok(rec) => id_parse(id@) == Some(rec.id) && rec.expiry == expires_at && rec.data
                == data,
            Err(e) => id_parse(id@).is_none() && e is DecodingFailed,
        },
{
    match decode_id(id) {
        Ok(v) => Ok(SessionRecord { id: v, expiry: expires_at, data }),
        Err(e) => Err(e),
    }
}

} // verus!
