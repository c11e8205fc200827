//! Value shapes of the share-listing collaborator, and the decode rule for
//! its union-typed identifiers, which may arrive as text or as a number.

use vstd::prelude::*;

use crate::text;

verus! {

/// What a share link resolves to: the share's identifiers, the listed file
/// identifiers and names, and the session token scraped alongside.
#[derive(Debug, Clone)]
pub struct ShareFileInfo {
    pub shareid: String,
    pub uk: String,
    pub fs_ids: Vec<u64>,
    pub bdstoken: String,
    pub filenames: Vec<String>,
}

/// One file of a share listing.
#[derive(Debug)]
pub struct FileItem {
    pub fs_id: u64,
    pub server_filename: String,
}

impl FileItem {
    /// The file's remote identifier.
    pub fn get_fsid(&self) -> (r: u64)
        ensures
            r == self.fs_id,
    {
        self.fs_id
    }
}

/// An identifier as the backend serialized it: either decimal text or a
/// number.
#[derive(Debug)]
pub enum IdValue {
    Text(String),
    Number(u64),
}

/// Identifier decode failure.
#[derive(Debug, PartialEq, Eq, Structural)]
pub enum IdParseError {
    /// The textual form is not an unsigned decimal number.
    NotANumber,
}

/// Decodes a union-typed identifier: a number stands as is; text must
/// parse as an unsigned decimal number, and fails otherwise.
pub fn fsid_from_value(v: &IdValue) -> (r: Result<u64, IdParseError>)
    ensures
        match v {
            IdValue::Number(n) => r == Ok::<u64, IdParseError>(*n),
            IdValue::Text(s) => match text::spec_parse_u64(s@) {
                Option::Some(n) => r == Ok::<u64, IdParseError>(n),
                Option::None => r == Err::<u64, IdParseError>(IdParseError::NotANumber),
            },
        },
{
    match v {
        IdValue::Number(n) => Ok(*n),
        IdValue::Text(s) => match text::parse_u64_dec(s.as_str()) {
            Some(n) => Ok(n),
            None => Err(IdParseError::NotANumber),
        },
    }
}

} // verus!
