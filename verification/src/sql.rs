//! SQL commands and rows as plain values.
//!
//! The library decides which commands run and what rows mean; a driver hands the commands to the
//! database and the rows back.
use vstd::prelude::*;
use vstd::string::*;

use crate::text::clone_opt;

verus! {

/// A value that goes into a command or comes out of a row.
#[derive(Debug, PartialEq, Eq)]
pub enum SqlValue {
    Null,
    Integer(i64),
    Text(String),
    /// A value of a type that no column of the schema has.
    Other,
}

/// What a value is, as a mathematical value.
pub enum SqlView {
    Null,
    Integer(i64),
    Text(Seq<char>),
    Other,
}

impl View for SqlValue {
    type V = SqlView;

    open spec fn view(&self) -> SqlView {
        match self {
            SqlValue::Null => SqlView::Null,
            SqlValue::Integer(n) => SqlView::Integer(*n),
            SqlValue::Text(s) => SqlView::Text(s@),
            SqlValue::Other => SqlView::Other,
        }
    }
}

/// The views of a row.
pub open spec fn row_view(row: Seq<SqlValue>) -> Seq<SqlView> {
    row.map_values(|v: SqlValue| v@)
}

/// The views of a list of rows.
pub open spec fn rows_view(rows: Seq<Vec<SqlValue>>) -> Seq<Seq<SqlView>> {
    rows.map_values(|r: Vec<SqlValue>| row_view(r@))
}

/// Why a storage operation failed.
#[derive(Debug, PartialEq, Eq)]
pub enum StorageError {
    /// A flow breaks a rule.
    InvalidFlow(String),
    /// A counter cannot be stored, or what is stored is not a counter.
    InvalidCounter(String),
    /// The schema is newer than this version knows.
    UnsupportedSchema(String),
    /// A column is missing or has an unexpected type.
    Column,
    /// The database reported an error.
    Database(String),
}

/// What an error is, as a mathematical value.
pub enum ErrorView {
    InvalidFlow(Seq<char>),
    InvalidCounter(Seq<char>),
    UnsupportedSchema(Seq<char>),
    Column,
    Database(Seq<char>),
}

impl View for StorageError {
    type V = ErrorView;

    open spec fn view(&self) -> ErrorView {
        match self {
            StorageError::InvalidFlow(s) => ErrorView::InvalidFlow(s@),
            StorageError::InvalidCounter(s) => ErrorView::InvalidCounter(s@),
            StorageError::UnsupportedSchema(s) => ErrorView::UnsupportedSchema(s@),
            StorageError::Column => ErrorView::Column,
            StorageError::Database(s) => ErrorView::Database(s@),
        }
    }
}

impl StorageError {
    /// The text that describes the error.
    pub open spec fn text(self) -> Seq<char> {
        match self {
            StorageError::InvalidFlow(s) => s@,
            StorageError::InvalidCounter(s) => s@,
            StorageError::UnsupportedSchema(s) => s@,
            StorageError::Column => "unexpected column"@,
            StorageError::Database(s) => s@,
        }
    }

    /// Describes the error.
    pub fn message(&self) -> (r: String)
        ensures
            r@ == self.text(),
    {
        match self {
            StorageError::InvalidFlow(s) => s.clone(),
            StorageError::InvalidCounter(s) => s.clone(),
            StorageError::UnsupportedSchema(s) => s.clone(),
            StorageError::Column => "unexpected column".to_owned(),
            StorageError::Database(s) => s.clone(),
        }
    }
}

/// One SQL command with its parameters.
#[derive(Debug, PartialEq, Eq)]
pub struct Command {
    pub sql: String,
    pub params: Vec<SqlValue>,
    /// Where this is present, the command must change exactly one row, and this describes the
    /// failure when it does not.
    pub one_row: Option<String>,
}

/// What a command is, as a mathematical value.
#[verifier::ext_equal]
pub struct CommandView {
    pub sql: Seq<char>,
    pub params: Seq<SqlView>,
    pub one_row: Option<Seq<char>>,
}

impl View for Command {
    type V = CommandView;

    open spec fn view(&self) -> CommandView {
        CommandView {
            sql: self.sql@,
            params: row_view(self.params@),
            one_row: crate::text::opt_view(self.one_row),
        }
    }
}

/// The views of a list of commands.
pub open spec fn commands_view(s: Seq<Command>) -> Seq<CommandView> {
    s.map_values(|c: Command| c@)
}

impl Command {
    /// A command that may change any number of rows.
    pub fn new(sql: &str, params: Vec<SqlValue>) -> (r: Self)
        ensures
            r@ == (CommandView { sql: sql@, params: row_view(params@), one_row: None }),
    {
        Command { sql: sql.to_owned(), params, one_row: None }
    }

    /// Decides whether the command succeeded, by the number of rows that it changed.
    pub fn check(&self, changed: usize) -> (r: Result<(), StorageError>)
        ensures
            match r {
                Ok(_) => self@.one_row is None || changed == 1,
                Err(e) => self@.one_row is Some && changed != 1 && e@
                    == ErrorView::InvalidCounter(self@.one_row->0),
            },
    {
        match &self.one_row {
            Some(message) => if changed == 1 {
                Ok(())
            } else {
                Err(StorageError::InvalidCounter(message.clone()))
            },
            None => Ok(()),
        }
    }
}

/// The text in a column.
pub open spec fn text_column(row: Seq<SqlView>, i: int) -> Option<Seq<char>> {
    if 0 <= i < row.len() {
        match row[i] {
            SqlView::Text(s) => Some(s),
            _ => None,
        }
    } else {
        None
    }
}

/// The integer in a column.
pub open spec fn int_column(row: Seq<SqlView>, i: int) -> Option<i64> {
    if 0 <= i < row.len() {
        match row[i] {
            SqlView::Integer(n) => Some(n),
            _ => None,
        }
    } else {
        None
    }
}

/// The text in a column that may be null.
pub open spec fn opt_text_column(row: Seq<SqlView>, i: int) -> Option<Option<Seq<char>>> {
    if 0 <= i < row.len() {
        match row[i] {
            SqlView::Text(s) => Some(Some(s)),
            SqlView::Null => Some(None),
            _ => None,
        }
    } else {
        None
    }
}

/// The integer in a column that may be null.
pub open spec fn opt_int_column(row: Seq<SqlView>, i: int) -> Option<Option<i64>> {
    if 0 <= i < row.len() {
        match row[i] {
            SqlView::Integer(n) => Some(Some(n)),
            SqlView::Null => Some(None),
            _ => None,
        }
    } else {
        None
    }
}

/// Reads a text column.
pub fn text_at(row: &Vec<SqlValue>, i: usize) -> (r: Result<String, StorageError>)
    ensures
        match r {
            Ok(s) => text_column(row_view(row@), i as int) == Some(s@),
            Err(e) => text_column(row_view(row@), i as int) is None && e@ == ErrorView::Column,
        },
{
    if i < row.len() {
        proof {
            assert(row_view(row@)[i as int] == row@[i as int]@);
        }
        match &row[i] {
            SqlValue::Text(s) => Ok(s.clone()),
            _ => Err(StorageError::Column),
        }
    } else {
        Err(StorageError::Column)
    }
}

/// Reads an integer column.
pub fn int_at(row: &Vec<SqlValue>, i: usize) -> (r: Result<i64, StorageError>)
    ensures
        match r {
            Ok(n) => int_column(row_view(row@), i as int) == Some(n),
            Err(e) => int_column(row_view(row@), i as int) is None && e@ == ErrorView::Column,
        },
{
    if i < row.len() {
        proof {
            assert(row_view(row@)[i as int] == row@[i as int]@);
        }
        match &row[i] {
            SqlValue::Integer(n) => Ok(*n),
            _ => Err(StorageError::Column),
        }
    } else {
        Err(StorageError::Column)
    }
}

/// Reads a text column that may be null.
pub fn opt_text_at(row: &Vec<SqlValue>, i: usize) -> (r: Result<Option<String>, StorageError>)
    ensures
        match r {
            Ok(s) => opt_text_column(row_view(row@), i as int) == Some(crate::text::opt_view(s)),
            Err(e) => opt_text_column(row_view(row@), i as int) is None && e@ == ErrorView::Column,
        },
{
    if i < row.len() {
        proof {
            assert(row_view(row@)[i as int] == row@[i as int]@);
        }
        match &row[i] {
            SqlValue::Text(s) => Ok(Some(s.clone())),
            SqlValue::Null => Ok(None),
            _ => Err(StorageError::Column),
        }
    } else {
        Err(StorageError::Column)
    }
}

/// Reads an integer column that may be null.
pub fn opt_int_at(row: &Vec<SqlValue>, i: usize) -> (r: Result<Option<i64>, StorageError>)
    ensures
        match r {
            Ok(n) => opt_int_column(row_view(row@), i as int) == Some(n),
            Err(e) => opt_int_column(row_view(row@), i as int) is None && e@ == ErrorView::Column,
        },
{
    if i < row.len() {
        proof {
            assert(row_view(row@)[i as int] == row@[i as int]@);
        }
        match &row[i] {
            SqlValue::Integer(n) => Ok(Some(*n)),
            SqlValue::Null => Ok(None),
            _ => Err(StorageError::Column),
        }
    } else {
        Err(StorageError::Column)
    }
}

/// A text parameter.
pub open spec fn text_param(s: Seq<char>) -> SqlView {
    SqlView::Text(s)
}

/// A text parameter that may be null.
pub open spec fn opt_text_param(s: Option<Seq<char>>) -> SqlView {
    match s {
        Some(v) => SqlView::Text(v),
        None => SqlView::Null,
    }
}

/// An integer parameter that may be null.
pub open spec fn opt_int_param(n: Option<i64>) -> SqlView {
    match n {
        Some(v) => SqlView::Integer(v),
        None => SqlView::Null,
    }
}

/// A port parameter that may be null.
pub open spec fn opt_port_param(n: Option<u16>) -> SqlView {
    match n {
        Some(v) => SqlView::Integer(v as i64),
        None => SqlView::Null,
    }
}

/// Makes a text parameter.
pub fn text_value(s: &str) -> (r: SqlValue)
    ensures
        r@ == text_param(s@),
{
    SqlValue::Text(s.to_owned())
}

/// Makes a text parameter that may be null.
pub fn opt_text_value(s: &Option<String>) -> (r: SqlValue)
    ensures
        r@ == opt_text_param(crate::text::opt_view(*s)),
{
    match clone_opt(s) {
        Some(v) => SqlValue::Text(v),
        None => SqlValue::Null,
    }
}

/// Makes an integer parameter that may be null.
pub fn opt_int_value(n: Option<i64>) -> (r: SqlValue)
    ensures
        r@ == opt_int_param(n),
{
    match n {
        Some(v) => SqlValue::Integer(v),
        None => SqlValue::Null,
    }
}

/// Makes a port parameter that may be null.
pub fn opt_port_value(n: Option<u16>) -> (r: SqlValue)
    ensures
        r@ == opt_port_param(n),
{
    match n {
        Some(v) => SqlValue::Integer(v as i64),
        None => SqlValue::Null,
    }
}

} // verus!
