use link_store::error::{batch_failure, BackendFault, StoreError};
use link_store::record::{row_to_links, Links};
use link_store::relation::{copy_rows, remove_matching, row_concerns, select_matching};
use link_store::session::{
    decode_row, fetch, perform, refused_error, unavailable_error, unbindable_error,
};
use link_store::statement::{Intent, Request};

fn row(user_id: u64, link: &str) -> Links {
    Links { user_id, link: link.to_string() }
}

fn fault(message: &str) -> BackendFault {
    BackendFault { code: Some(19), message: Some(message.to_string()) }
}

#[test]
fn row_concerns_user_and_link() {
    let r = row(1, "a");
    assert!(row_concerns(&r, 1, &None));
    assert!(row_concerns(&r, 1, &Some("a".to_string())));
    assert!(!row_concerns(&r, 1, &Some("A".to_string())));
    assert!(!row_concerns(&r, 2, &None));
    assert!(!row_concerns(&r, 2, &Some("a".to_string())));
}

#[test]
fn select_matching_keeps_order() {
    let rows = vec![row(1, "a"), row(2, "a"), row(1, "b"), row(1, "a")];
    assert_eq!(select_matching(&rows, 1, &None), vec![row(1, "a"), row(1, "b"), row(1, "a")]);
    assert_eq!(
        select_matching(&rows, 1, &Some("a".to_string())),
        vec![row(1, "a"), row(1, "a")]
    );
    assert_eq!(select_matching(&rows, 3, &None), vec![]);
    assert_eq!(select_matching(&vec![], 1, &None), vec![]);
}

#[test]
fn remove_matching_keeps_the_others() {
    let mut rows = vec![row(1, "a"), row(2, "a"), row(1, "b"), row(1, "a")];
    remove_matching(&mut rows, 1, &Some("a".to_string()));
    assert_eq!(rows, vec![row(2, "a"), row(1, "b")]);
    remove_matching(&mut rows, 1, &None);
    assert_eq!(rows, vec![row(2, "a")]);
    remove_matching(&mut rows, 1, &None);
    assert_eq!(rows, vec![row(2, "a")]);
    remove_matching(&mut rows, 2, &None);
    assert_eq!(rows, vec![]);
}

#[test]
fn copy_rows_copies_all() {
    let rows = vec![row(1, "a"), row(2, "b")];
    assert_eq!(copy_rows(&rows), rows);
    assert_eq!(rows[1].duplicate(), row(2, "b"));
}

#[test]
fn row_to_links_maps_exact_integers() {
    assert_eq!(row_to_links("654352", "Ggg".to_string()), Some(row(654352, "Ggg")));
    assert_eq!(row_to_links("0", String::new()), Some(row(0, "")));
    assert_eq!(row_to_links("654352.0", "Ggg".to_string()), None);
    assert_eq!(row_to_links("", "Ggg".to_string()), None);
    assert_eq!(row_to_links("18446744073709551616", "Ggg".to_string()), None);
}

#[test]
fn decode_row_names_the_request() {
    let request = Request::Select { user_id: 3, link: None };
    assert_eq!(decode_row(request, "3", "x".to_string()), Ok(row(3, "x")));
    assert_eq!(
        decode_row(request, "three", "x".to_string()),
        Err(StoreError::StatementError {
            intent: Intent::SelectByUser,
            user_id: Some(3),
            fault: BackendFault {
                code: None,
                message: Some("stored user_id is not an unsigned 64-bit integer".to_string()),
            },
        })
    );
}

#[test]
fn batch_failure_at_the_first_link() {
    assert_eq!(
        batch_failure(4, &vec!["a", "b"], 0, fault("no")),
        StoreError::StatementError {
            intent: Intent::DeleteByUserAndLink,
            user_id: Some(4),
            fault: fault("no"),
        }
    );
}

#[test]
fn batch_failure_after_some_links() {
    assert_eq!(
        batch_failure(4, &vec!["a", "b", "c"], 1, fault("no")),
        StoreError::PartialBatchFailure {
            user_id: 4,
            pending: vec!["b".to_string(), "c".to_string()],
            fault: fault("no"),
        }
    );
    assert_eq!(
        batch_failure(4, &vec!["a", "b", "c"], 2, fault("no")),
        StoreError::PartialBatchFailure {
            user_id: 4,
            pending: vec!["c".to_string()],
            fault: fault("no"),
        }
    );
}

#[test]
fn perform_and_fetch_run_requests() {
    let location = "/tmp/link_store_perform_and_fetch.db";
    let connection = sqlite3::open(location).unwrap();
    connection.execute("DROP TABLE IF EXISTS links").unwrap();
    connection.execute("CREATE TABLE links (user_id INTEGER, link TEXT)").unwrap();
    assert_eq!(perform(location, Request::Insert { user_id: 1, link: "a" }), Ok(()));
    assert_eq!(perform(location, Request::Insert { user_id: 2, link: "b" }), Ok(()));
    assert_eq!(fetch(location, Request::SelectAll), Ok(vec![row(1, "a"), row(2, "b")]));
    assert_eq!(fetch(location, Request::Select { user_id: 2, link: None }), Ok(vec![row(2, "b")]));
    assert_eq!(perform(location, Request::Delete { user_id: 1, link: "a" }), Ok(()));
    assert_eq!(perform(location, Request::Clear { user_id: 5 }), Ok(()));
    assert_eq!(fetch(location, Request::SelectAll), Ok(vec![row(2, "b")]));
}

#[test]
fn reports_name_the_request() {
    assert_eq!(
        unavailable_error(Request::Select { user_id: 3, link: Some("a") }, fault("gone")),
        StoreError::BackendUnavailable {
            intent: Intent::SelectByUserAndLink,
            user_id: Some(3),
            fault: fault("gone"),
        }
    );
    assert_eq!(
        refused_error(Request::SelectAll, fault("no")),
        StoreError::StatementError { intent: Intent::SelectAll, user_id: None, fault: fault("no") }
    );
    assert_eq!(
        refused_error(Request::Clear { user_id: 9 }, fault("no")),
        StoreError::StatementError {
            intent: Intent::DeleteByUser,
            user_id: Some(9),
            fault: fault("no"),
        }
    );
}

#[test]
fn location_with_nul_is_never_opened() {
    let location = "/tmp/link_store_\0_nul.db";
    match perform(location, Request::Insert { user_id: 1, link: "a" }) {
        Err(StoreError::BackendUnavailable { intent, user_id, fault }) => {
            assert_eq!(intent, Intent::Insert);
            assert_eq!(user_id, Some(1));
            assert_eq!(fault.code, None);
            assert_eq!(fault.message.unwrap(), "failed to process a path");
        }
        other => panic!("unexpected outcome: {:?}", other),
    }
    assert!(matches!(
        fetch(location, Request::SelectAll),
        Err(StoreError::BackendUnavailable { intent: Intent::SelectAll, user_id: None, .. })
    ));
    assert!(matches!(
        fetch("\0", Request::Select { user_id: 2, link: None }),
        Err(StoreError::BackendUnavailable {
            intent: Intent::SelectByUser,
            user_id: Some(2),
            ..
        })
    ));
}

#[test]
fn unbindable_link_is_refused_before_the_database() {
    let expected = StoreError::StatementError {
        intent: Intent::Insert,
        user_id: Some(1),
        fault: BackendFault {
            code: None,
            message: Some(
                "link holds a NUL character or is longer than 2147483647 bytes".to_string(),
            ),
        },
    };
    let request = Request::Insert { user_id: 1, link: "a\0b" };
    assert_eq!(unbindable_error(request), expected);
    assert_eq!(perform("/link_store_no_such_directory/links.db", request), Err(expected.clone()));
    assert_eq!(perform("\0", request), Err(expected));
    assert!(matches!(
        fetch("\0", Request::Select { user_id: 2, link: Some("\0") }),
        Err(StoreError::StatementError {
            intent: Intent::SelectByUserAndLink,
            user_id: Some(2),
            ..
        })
    ));
}
