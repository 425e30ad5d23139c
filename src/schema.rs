//! Table definitions and the schema script of the user table.
use vstd::prelude::*;
use crate::text::{occurs_in, str_contains};

verus! {

#[derive(Clone, Debug, PartialEq, Eq)]
pub struct FieldDefinition {
    pub name: String,
    pub field_type: String,
    pub required: bool,
}

#[derive(Clone, Debug, PartialEq, Eq)]
pub struct IndexDefinition {
    pub name: String,
    pub fields: Vec<String>,
    pub unique: bool,
}

#[derive(Clone, Debug, PartialEq, Eq)]
pub struct TableDefinition {
    pub name: String,
    pub fields: Vec<FieldDefinition>,
    pub indexes: Vec<IndexDefinition>,
}

/// The statements that define the user table.
pub const USER_TABLE_DEFINITION: &'static str = "
    DEFINE TABLE user SCHEMAFULL;

    DEFINE FIELD id ON user TYPE string;
    DEFINE FIELD email ON user TYPE string;
    DEFINE FIELD name ON user TYPE string;
    DEFINE FIELD password_hash ON user TYPE string;
    DEFINE FIELD role ON user TYPE string;
    DEFINE FIELD created_at ON user TYPE datetime;
    DEFINE FIELD updated_at ON user TYPE datetime;

    DEFINE INDEX user_email ON user FIELDS email UNIQUE;
    ";

/// The part of a database error message that marks an already defined table.
pub const ALREADY_EXISTS: &'static str = "already exists";

/// Whether a failed table definition, reported with `message`, only met a table that
/// already exists, so schema set-up may go on.
pub fn is_already_exists_error(message: &str) -> (r: bool)
    ensures
        r == occurs_in(message@, ALREADY_EXISTS@),
{
    str_contains(message, ALREADY_EXISTS)
}

} // verus!
