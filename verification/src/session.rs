//! One session with a database: open it, prepare a statement, bind its
//! values, run it, and read the rows it answers with.
//!
//! The database decides what comes back. The functions here are verified for
//! whatever that is: they never panic, they hand the database exactly the
//! text and the values of the request, and every failure they report names
//! the request that failed. A request whose link cannot be bound is refused
//! here, before anything is handed over.
use vstd::prelude::*;
use vstd::string::*;
use crate::decimal::{decimal_digits, lemma_decimal_text_is_short};
use crate::error::{BackendFault, Failure, Fault, StoreError};
use crate::record::{row_to_links, Links};
use crate::sqlite::{advance, bind, fault_of, open, prepare, read_text, Progress};
use crate::statement::{oversize, Request};

verus! {

/// The message of the fault reported for a row whose first column is not
/// the decimal text of an unsigned 64-bit number.
pub open spec fn undecodable_message() -> Seq<char> {
    "stored user_id is not an unsigned 64-bit integer"@
}

/// The message of the fault reported when a query answers with more rows
/// than a vector can hold.
pub open spec fn overfull_message() -> Seq<char> {
    "more rows than can be held"@
}

/// The message of the fault reported for a link that cannot be bound.
pub open spec fn unbindable_message() -> Seq<char> {
    "link holds a NUL character or is longer than 2147483647 bytes"@
}

/// A fault that the store itself raises, with no backend code.
pub open spec fn own_fault(message: Seq<char>) -> Fault {
    Fault { code: None, message: Some(message) }
}

/// The failure of `request` for a backend that is out of reach.
pub open spec fn unavailable(request: Request, fault: Fault) -> Failure {
    Failure::BackendUnavailable {
        intent: request.spec_intent(),
        user_id: request.spec_user_id(),
        fault,
    }
}

/// The failure of `request` for a statement that was refused.
pub open spec fn refused(request: Request, fault: Fault) -> Failure {
    Failure::StatementError {
        intent: request.spec_intent(),
        user_id: request.spec_user_id(),
        fault,
    }
}

/// The report of `request` for a backend that could not be reached and
/// said `fault`.
pub fn unavailable_error(request: Request, fault: BackendFault) -> (report: StoreError)
    ensures
        report@ == unavailable(request, fault@),
{
    StoreError::BackendUnavailable { intent: request.intent(), user_id: request.user_id(), fault }
}

/// The report of `request` for a statement that was refused with `fault`.
pub fn refused_error(request: Request, fault: BackendFault) -> (report: StoreError)
    ensures
        report@ == refused(request, fault@),
{
    StoreError::StatementError { intent: request.intent(), user_id: request.user_id(), fault }
}

/// The report of `request` for a link that cannot be bound.
pub fn unbindable_error(request: Request) -> (report: StoreError)
    ensures
        report@ == refused(request, own_fault(unbindable_message())),
{
    refused_error(
        request,
        BackendFault {
            code: None,
            message: Some(
                String::from_str("link holds a NUL character or is longer than 2147483647 bytes"),
            ),
        },
    )
}

/// Decodes one row that a query for `request` answered with. The first
/// column must be the decimal text of the owner; the link is kept as it is.
pub fn decode_row(request: Request, user_text: &str, link: String) -> (row: Result<
    Links,
    StoreError,
>)
    ensures
        match row {
            Ok(links) => {
                &&& user_text@ == decimal_digits(links.user_id as nat)
                &&& links.link@ == link@
            },
            Err(error) => {
                &&& forall|n: u64| user_text@ != #[trigger] decimal_digits(n as nat)
                &&& error@ == refused(request, own_fault(undecodable_message()))
            },
        },
{
    match row_to_links(user_text, link) {
        Some(links) => Ok(links),
        None => Err(
            refused_error(
                request,
                BackendFault {
                    code: None,
                    message: Some(
                        String::from_str("stored user_id is not an unsigned 64-bit integer"),
                    ),
                },
            ),
        ),
    }
}

/// Opens a session with the database at `location` on behalf of `request`.
pub(crate) fn connect(location: &str, request: Request) -> (session: Result<
    sqlite3::Connection,
    StoreError,
>)
    ensures
        location@.contains('\0') ==> session is Err,
        session matches Err(error) ==> exists|fault: Fault| error@ == unavailable(request, fault),
{
    match open(location) {
        Ok(connection) => Ok(connection),
        Err(error) => Err(unavailable_error(request, fault_of(error))),
    }
}

/// The report of `request` refused by the database with `error`.
fn refusal(request: Request, error: sqlite3::Error) -> (report: StoreError)
    ensures
        exists|fault: Fault| report@ == refused(request, fault),
{
    refused_error(request, fault_of(error))
}

/// Prepares the statement of `request` on `connection` and binds the
/// request's values to its placeholders, the first value to placeholder one.
pub(crate) fn prepare_bound<'c>(connection: &'c sqlite3::Connection, request: Request) -> (bound:
    Result<sqlite3::Statement<'c>, StoreError>)
    ensures
        !request.spec_is_bindable() ==> bound is Err && bound->Err_0@ == refused(
            request,
            own_fault(unbindable_message()),
        ),
        bound matches Err(error) ==> exists|fault: Fault| error@ == refused(request, fault),
{
    if !request.is_bindable() {
        return Err(unbindable_error(request));
    }
    let mut statement = match prepare(connection, request.text()) {
        Ok(statement) => statement,
        Err(error) => {
            return Err(refusal(request, error));
        },
    };
    let values = request.values();
    proof {
        let texts = values@.map_values(|text: String| text@);
        assert forall|j: int| 0 <= j < values@.len() implies !oversize(
            #[trigger] values@[j]@,
        ) by {
            assert(texts[j] == values@[j]@);
            assert(texts[j] == request.spec_values()[j]);
            match request.spec_user_id() {
                Some(user_id) => {
                    lemma_decimal_text_is_short(user_id);
                    assert(request.spec_values()[0] == decimal_digits(user_id as nat));
                    match request.spec_link() {
                        Some(link) => {
                            assert(request.spec_values() =~= seq![
                                decimal_digits(user_id as nat),
                                link,
                            ]);
                        },
                        None => {
                            assert(request.spec_values() =~= seq![decimal_digits(user_id as nat)]);
                        },
                    }
                },
                None => {
                    assert(request.spec_link() is None);
                },
            }
        }
    }
    let mut i: usize = 0;
    while i < values.len()
        invariant
            i <= values.len(),
            request.spec_is_bindable(),
            forall|j: int| 0 <= j < values@.len() ==> !oversize(#[trigger] values@[j]@),
        decreases values.len() - i,
    {
        match bind(&mut statement, i + 1, values[i].as_str()) {
            Ok(()) => {},
            Err(error) => {
                return Err(refusal(request, error));
            },
        }
        i = i + 1;
    }
    Ok(statement)
}

/// Runs a statement that answers with no rows: prepares it, binds its
/// values and advances it once.
pub(crate) fn perform_on(connection: &sqlite3::Connection, request: Request) -> (done: Result<
    (),
    StoreError,
>)
    ensures
        !request.spec_is_bindable() ==> done is Err && done->Err_0@ == refused(
            request,
            own_fault(unbindable_message()),
        ),
        done matches Err(error) ==> exists|fault: Fault| error@ == refused(request, fault),
{
    let mut statement = match prepare_bound(connection, request) {
        Ok(statement) => statement,
        Err(error) => {
            return Err(error);
        },
    };
    match advance(&mut statement) {
        Ok(_) => Ok(()),
        Err(error) => Err(refusal(request, error)),
    }
}

/// Opens a session at `location` and runs there a statement that answers
/// with no rows.
pub fn perform(location: &str, request: Request) -> (done: Result<(), StoreError>)
    ensures
        !request.spec_is_bindable() ==> done is Err && done->Err_0@ == refused(
            request,
            own_fault(unbindable_message()),
        ),
        request.spec_is_bindable() && location@.contains('\0') ==> done is Err && exists|
            fault: Fault,
        | done->Err_0@ == unavailable(request, fault),
        done matches Err(error) ==> exists|fault: Fault|
            error@ == unavailable(request, fault) || error@ == refused(request, fault),
        done matches Err(error) ==> error@.is_failure_of(
            request.spec_intent(),
            request.spec_user_id(),
        ),
{
    if !request.is_bindable() {
        return Err(unbindable_error(request));
    }
    let connection = match connect(location, request) {
        Ok(connection) => connection,
        Err(error) => {
            return Err(error);
        },
    };
    perform_on(&connection, request)
}

/// Advances `statement` to its end and appends to `vec` the record of each
/// row that it answers with, in the order in which the rows come. Stops at
/// the first row that cannot be read or decoded.
pub(crate) fn add_to_vec_from_database(
    mut statement: sqlite3::Statement<'_>,
    vec: &mut Vec<Links>,
    request: Request,
) -> (done: Result<(), StoreError>)
    ensures
        old(vec)@.len() <= final(vec)@.len(),
        final(vec)@.take(old(vec)@.len() as int) == old(vec)@,
        old(vec)@.len() == usize::MAX ==> final(vec)@ == old(vec)@ && done is Err
            && done->Err_0@ == refused(request, own_fault(overfull_message())),
        done matches Err(error) ==> exists|fault: Fault| error@ == refused(request, fault),
{
    let ghost before = vec@;
    while vec.len() < usize::MAX
        invariant
            before == old(vec)@,
            before.len() <= vec@.len(),
            vec@.take(before.len() as int) == before,
        decreases usize::MAX - vec.len(),
    {
        match advance(&mut statement) {
            Err(error) => {
                return Err(refusal(request, error));
            },
            Ok(Progress::Done) => {
                return Ok(());
            },
            Ok(Progress::Row) => {},
        }
        let user_text = match read_text(&statement, 0) {
            Ok(text) => text,
            Err(error) => {
                return Err(refusal(request, error));
            },
        };
        let link = match read_text(&statement, 1) {
            Ok(text) => text,
            Err(error) => {
                return Err(refusal(request, error));
            },
        };
        match decode_row(request, user_text.as_str(), link) {
            Ok(row) => {
                let ghost held = vec@;
                vec.push(row);
                assert(vec@.take(before.len() as int) =~= held.take(before.len() as int));
            },
            Err(error) => {
                return Err(error);
            },
        }
    }
    Err(
        refused_error(
            request,
            BackendFault {
                code: None,
                message: Some(String::from_str("more rows than can be held")),
            },
        ),
    )
}

/// Opens a session at `location`, runs the query of `request` there and
/// collects the records it answers with.
pub fn fetch(location: &str, request: Request) -> (rows: Result<Vec<Links>, StoreError>)
    ensures
        !request.spec_is_bindable() ==> rows is Err && rows->Err_0@ == refused(
            request,
            own_fault(unbindable_message()),
        ),
        request.spec_is_bindable() && location@.contains('\0') ==> rows is Err && exists|
            fault: Fault,
        | rows->Err_0@ == unavailable(request, fault),
        rows matches Err(error) ==> exists|fault: Fault|
            error@ == unavailable(request, fault) || error@ == refused(request, fault),
        rows matches Err(error) ==> error@.is_failure_of(
            request.spec_intent(),
            request.spec_user_id(),
        ),
{
    if !request.is_bindable() {
        return Err(unbindable_error(request));
    }
    let connection = match connect(location, request) {
        Ok(connection) => connection,
        Err(error) => {
            return Err(error);
        },
    };
    let statement = match prepare_bound(&connection, request) {
        Ok(statement) => statement,
        Err(error) => {
            return Err(error);
        },
    };
    let mut vec: Vec<Links> = Vec::new();
    match add_to_vec_from_database(statement, &mut vec, request) {
        Ok(()) => Ok(vec),
        Err(error) => Err(error),
    }
}

} // verus!
