use simple_tables::error::{TableError, TableErrorKind};

#[test]
fn error_display() {
    let error: TableError = TableError {
        kind: TableErrorKind::CouldNotRemove,
        message: "This is the error message".to_string(),
    };

    assert_eq!(error.message.clone(), error.to_string())
}

#[test]
fn error_dbg() {
    let error: TableError = TableError {
        kind: TableErrorKind::CouldNotRemove,
        message: "This is the error message".to_string(),
    };

    assert_eq!("CouldNotRemove: This is the error message", error.debug_string())
}

#[test]
fn dbg() {
    let err = TableErrorKind::CouldNotRemove;
    assert_eq!("CouldNotRemove", format!("{:?}", err).as_str());
}

#[test]
fn display() {
    let err = TableErrorKind::CouldNotRemove;
    assert_eq!("CouldNotRemove", err.to_string().as_str());
}

#[test]
fn to_string() {
    let err = TableErrorKind::CouldNotRemove;
    assert_eq!("CouldNotRemove", err.to_string().as_str());
}
