//! A session with a database: every question and every command goes through it, and it keeps a
//! record of the commands and of the questions on which they rest.
use vstd::prelude::*;

use crate::sql::{Command, SqlValue, StorageError};

verus! {

/// The rows that a query yields.
pub type Rows = Vec<Vec<SqlValue>>;

/// Starts a transaction.
pub const BEGIN: &'static str = "BEGIN DEFERRED";

/// Makes the changes of a transaction last.
pub const COMMIT: &'static str = "COMMIT";

/// Undoes the changes of a transaction.
pub const ROLLBACK: &'static str = "ROLLBACK";

/// Hands commands to a database and its answers back.
pub trait SqlDriver {
    /// Runs a query and reads all its rows.
    fn query(&self, command: &Command) -> Result<Rows, StorageError>;

    /// Runs a command and tells how many rows it changed.
    fn execute(&mut self, command: &Command) -> Result<usize, StorageError>;

    /// Runs a list of commands that have no parameters.
    fn batch(&mut self, sql: &str) -> Result<(), StorageError>;
}

/// What was asked of a database, with its answer.
#[verifier::ext_equal]
pub enum Event {
    /// A question, and the rows that it yielded.
    Query(crate::sql::CommandView, Result<Seq<Seq<crate::sql::SqlView>>, crate::sql::ErrorView>),
    /// A command, and how many rows it changed.
    Execute(crate::sql::CommandView, Result<usize, crate::sql::ErrorView>),
    /// A list of commands that have no parameters.
    Batch(Seq<char>, Result<(), crate::sql::ErrorView>),
    /// The start of a transaction.
    Begin(Result<(), crate::sql::ErrorView>),
    /// The end of a transaction whose changes are to last.
    Commit(Result<(), crate::sql::ErrorView>),
    /// The end of a transaction whose changes are to be undone.
    Rollback(Result<(), crate::sql::ErrorView>),
}

/// The answer to a question, as a mathematical value.
pub open spec fn rows_answer(r: Result<Rows, StorageError>) -> Result<
    Seq<Seq<crate::sql::SqlView>>,
    crate::sql::ErrorView,
> {
    match r {
        Ok(rows) => Ok(crate::sql::rows_view(rows@)),
        Err(e) => Err(e@),
    }
}

/// The answer to a command, as a mathematical value.
pub open spec fn answer<T>(r: Result<T, StorageError>) -> Result<T, crate::sql::ErrorView> {
    match r {
        Ok(value) => Ok(value),
        Err(e) => Err(e@),
    }
}

/// Asked for `c`, the database answered `r`.
pub open spec fn answered<D: SqlDriver>(
    d: D,
    c: crate::sql::CommandView,
    r: Result<Rows, StorageError>,
) -> bool {
    exists|command: Command| #[trigger]
        call_ensures(D::query, (&d, &command), r) && command@ == c
}

/// A session with a database, and the record of what was asked of it.
pub struct Session<D: SqlDriver> {
    driver: D,
    log: Ghost<Seq<Event>>,
}

impl<D: SqlDriver> Session<D> {
    /// The database as it is reached.
    pub closed spec fn driver(self) -> D {
        self.driver
    }

    /// Everything that was asked of the database, in order, but for questions that were asked
    /// without the right to change anything.
    pub closed spec fn asked(self) -> Seq<Event> {
        self.log@
    }

    /// Starts a session. Nothing was asked yet.
    pub fn new(driver: D) -> (r: Self)
        ensures
            r.driver() == driver,
            r.asked() == Seq::<Event>::empty(),
    {
        Session { driver, log: Ghost(Seq::empty()) }
    }

    /// Asks a question without the right to change anything.
    pub fn read(&self, command: &Command) -> (r: Result<Rows, StorageError>)
        ensures
            answered(self.driver(), command@, r),
    {
        self.driver.query(command)
    }

    /// Asks a question on which a change will rest.
    pub fn query(&mut self, command: &Command) -> (r: Result<Rows, StorageError>)
        ensures
            answered(old(self).driver(), command@, r),
            final(self).driver() == old(self).driver(),
            final(self).asked() == old(self).asked().push(Event::Query(command@, rows_answer(r))),
    {
        let r = self.driver.query(command);
        self.log = Ghost(self.log@.push(Event::Query(command@, rows_answer(r))));
        r
    }

    /// Hands a command to the database.
    pub fn execute(&mut self, command: &Command) -> (r: Result<usize, StorageError>)
        ensures
            exists|asked: &mut D| #[trigger]
                call_ensures(D::execute, (asked, command), r) && *asked == old(self).driver() && (
                *final(asked)) == final(self).driver(),
            final(self).asked() == old(self).asked().push(Event::Execute(command@, answer(r))),
    {
        let r = self.driver.execute(command);
        self.log = Ghost(self.log@.push(Event::Execute(command@, answer(r))));
        r
    }

    /// Hands a list of commands to the database.
    pub fn batch(&mut self, sql: &str) -> (r: Result<(), StorageError>)
        ensures
            exists|asked: &mut D| #[trigger]
                call_ensures(D::batch, (asked, sql), r) && *asked == old(self).driver() && (
                *final(asked)) == final(self).driver(),
            final(self).asked() == old(self).asked().push(Event::Batch(sql@, answer(r))),
    {
        let r = self.driver.batch(sql);
        self.log = Ghost(self.log@.push(Event::Batch(sql@, answer(r))));
        r
    }

    /// Starts a transaction.
    pub fn begin(&mut self) -> (r: Result<(), StorageError>)
        ensures
            exists|asked: &mut D| #[trigger]
                call_ensures(D::batch, (asked, BEGIN), r) && *asked == old(self).driver() && (
                *final(asked)) == final(self).driver(),
            final(self).asked() == old(self).asked().push(Event::Begin(answer(r))),
    {
        let r = self.driver.batch(BEGIN);
        self.log = Ghost(self.log@.push(Event::Begin(answer(r))));
        r
    }

    /// Ends a transaction whose changes are to last.
    pub fn commit(&mut self) -> (r: Result<(), StorageError>)
        ensures
            exists|asked: &mut D| #[trigger]
                call_ensures(D::batch, (asked, COMMIT), r) && *asked == old(self).driver() && (
                *final(asked)) == final(self).driver(),
            final(self).asked() == old(self).asked().push(Event::Commit(answer(r))),
    {
        let r = self.driver.batch(COMMIT);
        self.log = Ghost(self.log@.push(Event::Commit(answer(r))));
        r
    }

    /// Ends a transaction whose changes are to be undone.
    pub fn rollback(&mut self) -> (r: Result<(), StorageError>)
        ensures
            exists|asked: &mut D| #[trigger]
                call_ensures(D::batch, (asked, ROLLBACK), r) && *asked == old(self).driver() && (
                *final(asked)) == final(self).driver(),
            final(self).asked() == old(self).asked().push(Event::Rollback(answer(r))),
    {
        let r = self.driver.batch(ROLLBACK);
        self.log = Ghost(self.log@.push(Event::Rollback(answer(r))));
        r
    }
}

} // verus!
