use sqlited::savepoint::{unique_savepoint_name, Savepoint, SavepointError, SavepointStatus};

#[test]
fn savepoint_statements() {
    let mut sp = Savepoint::new("sp1");
    assert_eq!(sp.begin_statement(), "SAVEPOINT sp1");
    assert_eq!(sp.commit_statements().unwrap(), vec!["RELEASE sp1".to_string()]);
    assert_eq!(
        sp.rollback_statements().unwrap(),
        vec!["ROLLBACK TO sp1".to_string(), "RELEASE sp1".to_string()]
    );
    assert_eq!(sp.drop_statements().len(), 2);
    assert!(sp.accepts_statements());
    sp.mark_committed();
    assert!(sp.status() == SavepointStatus::Committed);
    assert!(!sp.accepts_statements());
    assert!(sp.drop_statements().is_empty());
    match sp.commit_statements() {
        Err(e) => assert_eq!(e.to_string(), "Savepoint already finished"),
        Ok(_) => panic!("finished savepoint committed again"),
    }
    sp.mark_rolled_back();
    assert!(sp.status() == SavepointStatus::Committed);
    assert!(matches!(sp.rollback_statements(), Err(SavepointError::SavepointAlreadyFinished)));
}

#[test]
fn unique_names() {
    let b: [u8; 16] = [0x67, 0xe5, 0x50, 0x44, 0x10, 0xb1, 0x42, 0x6f, 0x92, 0x47, 0xbb, 0x68, 0x0e, 0x5f, 0xe0, 0xc8];
    assert_eq!(unique_savepoint_name(b), "sp_67e55044_10b1_426f_9247_bb680e5fe0c8");
    let a = Savepoint::new_unique();
    let c = Savepoint::new_unique();
    assert!(a.name().starts_with("sp_"));
    assert_eq!(a.name().len(), 39);
    assert!(!a.name().contains('-'));
    assert_ne!(a.name(), c.name());
}

#[test]
fn database_paths() {
    assert_eq!(sqlited::database::shared_memory_path("db1"), "file:db1?mode=memory&cache=shared");
    let f = sqlited::database::temp_database_file_name();
    assert!(f.starts_with("sqlited_") && f.ends_with(".db"));
    assert_eq!(f.len(), 8 + 36 + 3);
}
