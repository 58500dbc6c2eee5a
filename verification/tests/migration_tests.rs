use sqlited::apply::{ApplyAction, ApplyPhase, MigrationRun};
use sqlited::migrations::{MigrateStep, Migration, MigrationError, Migrator, RollbackPlan};
use sqlited::statements::{get_all_table_migrations, get_statement_key, migration_units, split_sql_statements};

#[test]
fn statements_split_on_semicolons() {
    let s = split_sql_statements("  CREATE TABLE a (x INT);\n\n ; INSERT INTO a VALUES (1) ;  ");
    assert_eq!(s, vec!["CREATE TABLE a (x INT)".to_string(), "INSERT INTO a VALUES (1)".to_string()]);
    assert!(split_sql_statements(" ; ;\n").is_empty());
}

#[test]
fn create_table_keys_use_the_table_name() {
    assert_eq!(get_statement_key("CREATE TABLE users (id INT)"), "create_table:users");
    assert_eq!(get_statement_key("  create table IF NOT EXISTS \"Posts\" (id INT)"), "create_table:posts");
    assert_eq!(get_statement_key("CREATE TABLE `t`"), "create_table:t");
}

#[test]
fn other_statements_keyed_by_digest() {
    assert_eq!(get_statement_key("ABC"), "sql:900150983cd24fb0d6963f7d28e17f72");
    assert_eq!(get_statement_key("   "), "sql:d41d8cd98f00b204e9800998ecf8427e");
    assert_eq!(get_statement_key("SELECT 1"), format!("sql:{:x}", md5::compute("select 1")));
    assert_eq!(get_statement_key("  SELECT 1 "), get_statement_key("select 1"));
    assert!(get_statement_key("DROP TABLE x").starts_with("sql:"));
    assert_eq!(get_statement_key("DROP TABLE x").len(), 4 + 32);
}

#[test]
fn units_of_table_migrations_and_scripts() {
    let tm = vec![
        ("migration_user_add".to_string(), "ALTER TABLE user ADD COLUMN a INT; UPDATE user SET a = 0".to_string(), None),
        ("error".to_string(), "-- bad".to_string(), None),
    ];
    let scripts = vec!["CREATE TABLE t (x INT); CREATE TABLE u (y INT)".to_string()];
    let units = migration_units(&tm, &scripts);
    assert_eq!(units.len(), 3);
    assert_eq!(units[0].key, "migration_user_add");
    assert_eq!(units[0].statements.len(), 2);
    assert_eq!(units[1].key, "create_table:t");
    assert_eq!(units[1].statements, vec!["CREATE TABLE t (x INT)".to_string()]);
    assert_eq!(units[2].key, "create_table:u");
}

#[test]
fn run_skips_applied_units_and_commits() {
    let tm = vec![("m1".to_string(), "A; B".to_string(), None), ("m2".to_string(), "C".to_string(), None)];
    let mut run = MigrationRun::new(migration_units(&tm, &[]));
    match run.next_action() {
        ApplyAction::Check(k) => assert_eq!(k, "m1"),
        _ => panic!("check first"),
    }
    run.report(true); // m1 was applied before
    match run.next_action() {
        ApplyAction::Check(k) => assert_eq!(k, "m2"),
        _ => panic!("then check m2"),
    }
    run.report(false);
    match run.next_action() {
        ApplyAction::Execute(s) => assert_eq!(s, "C"),
        _ => panic!("run C"),
    }
    run.report(true);
    match run.next_action() {
        ApplyAction::Record(k) => assert_eq!(k, "m2"),
        _ => panic!("record m2"),
    }
    run.report(true);
    assert!(matches!(run.next_action(), ApplyAction::Commit));
}

#[test]
fn run_aborts_on_failure() {
    let tm = vec![("m1".to_string(), "A; B".to_string(), None)];
    let mut run = MigrationRun::new(migration_units(&tm, &[]));
    run.report(false);
    run.report(true);
    run.report(false);
    assert!(matches!(run.next_action(), ApplyAction::Abort));
    run.report(true);
    assert!(matches!(run.next_action(), ApplyAction::Abort));
    assert!(ApplyPhase::Failed == ApplyPhase::Failed);
}

#[test]
fn migrator_refuses_a_version_twice() {
    let mut m = Migrator::new();
    assert!(m.add_migration(Migration::new(1, "a", "CREATE TABLE a (x INT)", None)).is_ok());
    match m.add_migration(Migration::new(1, "b", "SELECT 1", None)) {
        Err(e) => {
            assert!(matches!(e, MigrationError::VersionAlreadyExists(1)));
            assert_eq!(e.to_string(), "Migration version 1 already exists");
        }
        Ok(_) => panic!("duplicate accepted"),
    }
    assert_eq!(m.get(1).unwrap().name, "a");
}

#[test]
fn pending_versions_sorted() {
    let mut m = Migrator::new();
    for v in [5i64, 1, 3, 2] {
        assert!(m.add_migration(Migration::new(v, "m", "SELECT 1", Some("SELECT 2"))).is_ok());
    }
    assert_eq!(m.pending_versions(&[2]), vec![1, 3, 5]);
    assert_eq!(m.pending_versions(&[]), vec![1, 2, 3, 5]);
}

#[test]
fn rollback_plans() {
    let mut m = Migrator::new();
    assert!(m.add_migration(Migration::new(1, "a", "UP", Some("DOWN"))).is_ok());
    assert!(m.add_migration(Migration::new(2, "b", "UP2", None)).is_ok());
    assert!(matches!(m.rollback_plan(&[]), RollbackPlan::Nothing));
    match m.rollback_plan(&[1]) {
        RollbackPlan::Run(v, d) => {
            assert_eq!(v, 1);
            assert_eq!(d, "DOWN");
        }
        _ => panic!("rolls back 1"),
    }
    match m.rollback_plan(&[1, 2]) {
        RollbackPlan::Refuse(e) => assert_eq!(e.to_string(), "Failed to apply migration 2: No down migration provided"),
        _ => panic!("2 has no down"),
    }
    assert!(matches!(m.rollback_plan(&[7]), RollbackPlan::Nothing));
    assert_eq!(MigrationError::SqliteError("x".to_string()).to_string(), "SQLite error: x");
}

#[test]
fn run_with_everything_recorded_only_checks_then_commits() {
    let tm = vec![("m1".to_string(), "A; B".to_string(), None), ("m2".to_string(), "C".to_string(), None)];
    let scripts = vec!["CREATE TABLE t (x INT)".to_string()];
    let mut run = MigrationRun::new(migration_units(&tm, &scripts));
    let mut checks = 0;
    loop {
        match run.next_action() {
            ApplyAction::Check(_) => {
                checks += 1;
                run.report(true);
            }
            ApplyAction::Commit => break,
            _ => panic!("only checks are asked"),
        }
    }
    assert_eq!(checks, 3);
}

#[test]
fn error_named_table_migrations_change_nothing() {
    let with = vec![
        ("m1".to_string(), "A".to_string(), None),
        ("error_reading".to_string(), "DROP TABLE x".to_string(), None),
        ("m2".to_string(), "B".to_string(), None),
    ];
    let without = vec![with[0].clone(), with[2].clone()];
    let a = migration_units(&with, &[]);
    let b = migration_units(&without, &[]);
    assert_eq!(a.len(), b.len());
    for (x, y) in a.iter().zip(b.iter()) {
        assert_eq!(x.key, y.key);
        assert_eq!(x.statements, y.statements);
    }
}

#[test]
fn migrate_run_stops_at_the_first_failure() {
    let mut m = Migrator::new();
    for v in [3i64, 1, 2] {
        let _ = m.add_migration(Migration::new(v, "m", "SQL", None));
    }
    let mut run = m.start_migrate(&[1]);
    assert!(matches!(run.next_step(), MigrateStep::Apply(2)));
    run.report(Ok(()));
    assert!(matches!(run.next_step(), MigrateStep::Apply(3)));
    run.report(Err("boom".to_string()));
    match run.next_step() {
        MigrateStep::Finished(Err(MigrationError::MigrationFailed(3, msg))) => assert_eq!(msg, "boom"),
        _ => panic!("stopped at 3"),
    }
    run.report(Ok(()));
    assert!(matches!(run.next_step(), MigrateStep::Finished(Err(_))));
    let mut all = m.start_migrate(&[]);
    all.report(Ok(()));
    all.report(Ok(()));
    all.report(Ok(()));
    match all.next_step() {
        MigrateStep::Finished(Ok(vs)) => assert_eq!(vs, vec![1, 2, 3]),
        _ => panic!("all applied"),
    }
}

#[test]
fn statements_trim_exactly_unicode_whitespace() {
    for u in 0u32..0x3100 {
        if let Some(c) = char::from_u32(u) {
            if c == ';' {
                continue;
            }
            let text = format!("{c}x{c}");
            let parts = split_sql_statements(&text);
            if c.is_whitespace() {
                assert_eq!(parts, vec!["x".to_string()], "{u:x}");
            } else {
                assert_eq!(parts, vec![text.clone()], "{u:x}");
            }
        }
    }
}

#[test]
fn table_migrations_joined_in_order() {
    let t1 = vec![("a".to_string(), "A".to_string(), None)];
    let t3 = vec![("b".to_string(), "B".to_string(), Some("b down".to_string())), ("c".to_string(), "C".to_string(), None)];
    let all = get_all_table_migrations(vec![Some(t1), None, Some(t3), Some(vec![])]);
    let names: Vec<&str> = all.iter().map(|m| m.0.as_str()).collect();
    assert_eq!(names, vec!["a", "b", "c"]);
    assert_eq!(all[1].2, Some("b down".to_string()));
    assert!(get_all_table_migrations(vec![]).is_empty());
}

#[test]
fn migrating_again_finds_nothing_and_rollback_takes_the_largest() {
    let mut m = Migrator::new();
    for v in [5i64, 2, 9] {
        let _ = m.add_migration(Migration::new(v, "m", "SQL", Some("UNDO")));
    }
    let mut run = m.start_migrate(&[]);
    let mut applied = Vec::new();
    while let MigrateStep::Apply(v) = run.next_step() {
        applied.push(v);
        run.report(Ok(()));
    }
    assert_eq!(applied, vec![2, 5, 9]);
    let again = m.start_migrate(&applied);
    assert!(matches!(again.next_step(), MigrateStep::Finished(Ok(v)) if v.is_empty()));
    match m.rollback_plan(&applied) {
        RollbackPlan::Run(v, d) => {
            assert_eq!(v, 9);
            assert_eq!(d, "UNDO");
        }
        _ => panic!("roll back 9"),
    }
}
