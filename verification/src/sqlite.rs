//! The calls into the `sqlite3` crate.
//!
//! Nothing in this file is proved. What a database answers depends on what
//! it holds, so the functions here promise nothing of an answer, and the
//! callers are verified for every answer. The one claim made is of `open`,
//! for a location that the crate refuses before it reaches the database.
use vstd::prelude::*;
use crate::error::BackendFault;
use crate::statement::oversize;

verus! {

/// `sqlite3::Connection`, an open database. Opaque to the proofs.
#[verifier::external_type_specification]
#[verifier::external_body]
pub struct ExConnection(sqlite3::Connection);

/// `sqlite3::Statement`, a prepared statement of one connection. Opaque to
/// the proofs.
#[verifier::external_type_specification]
#[verifier::external_body]
pub struct ExStatement<'l>(sqlite3::Statement<'l>);

/// `sqlite3::Error`. Opaque to the proofs; `fault_of` copies its fields out.
#[verifier::external_type_specification]
#[verifier::external_body]
pub struct ExError(sqlite3::Error);

/// Where a statement stands after it was advanced.
#[derive(Debug, Clone, Copy, PartialEq, Eq, Structural)]
pub enum Progress {
    /// A row can be read.
    Row,
    /// The statement has run to its end.
    Done,
}

/// `sqlite3::open`: opens the database at `location`, creating it if it is
/// not there. The crate first turns the location into a C string and gives
/// up, before it reaches the database, when the location holds a NUL
/// character: that much is claimed here. Of any other location nothing is
/// claimed.
#[verifier::external_body]
pub(crate) fn open(location: &str) -> (opened: Result<sqlite3::Connection, sqlite3::Error>)
    ensures
        location@.contains('\0') ==> opened is Err,
{
    sqlite3::open(location)
}

/// `sqlite3::Connection::prepare`: compiles `text` on `connection`. Nothing
/// is claimed of the outcome.
#[verifier::external_body]
pub(crate) fn prepare<'c>(connection: &'c sqlite3::Connection, text: &str) -> Result<
    sqlite3::Statement<'c>,
    sqlite3::Error,
> {
    connection.prepare(text)
}

/// `sqlite3::Statement::bind` with a text value: binds `value` to the
/// placeholder at `position`, counted from one. Position zero is left out
/// because the crate asserts against it. An oversize value is left out
/// because the crate hands its length on as a signed 32-bit number, and
/// with a length that does not fit the text would be read past its end.
/// Nothing is claimed of the outcome.
#[verifier::external_body]
pub(crate) fn bind(statement: &mut sqlite3::Statement<'_>, position: usize, value: &str) -> Result<
    (),
    sqlite3::Error,
>
    requires
        0 < position,
        !oversize(value@),
{
    statement.bind(position, value)
}

/// `sqlite3::Statement::next`: advances the statement by one step. The
/// crate's two states are handed on as they are; nothing is claimed of which
/// one comes.
#[verifier::external_body]
pub(crate) fn advance(statement: &mut sqlite3::Statement<'_>) -> Result<Progress, sqlite3::Error> {
    match statement.next() {
        Ok(sqlite3::State::Row) => Ok(Progress::Row),
        Ok(sqlite3::State::Done) => Ok(Progress::Done),
        Err(error) => Err(error),
    }
}

/// `sqlite3::Statement::read` for `String`: reads the column at `column`,
/// counted from zero, of the current row as text. Nothing is claimed of the
/// outcome.
#[verifier::external_body]
pub(crate) fn read_text(statement: &sqlite3::Statement<'_>, column: usize) -> Result<
    String,
    sqlite3::Error,
> {
    statement.read::<String>(column)
}

/// Moves the two public fields of a `sqlite3::Error` into a `BackendFault`.
#[verifier::external_body]
pub(crate) fn fault_of(error: sqlite3::Error) -> BackendFault {
    BackendFault { code: error.code, message: error.message }
}

} // verus!
