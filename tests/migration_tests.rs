use omnipro_db::{
    Direction, Migration, MigrationError, MigrationManager, MigrationRun, RunAction, StepOutcome,
};

fn migration(version: i32, name: &str, up: &str, down: &str) -> Migration {
    Migration {
        version,
        name: name.to_string(),
        description: format!("{} description", name),
        up: up.to_string(),
        down: down.to_string(),
        applied_at: None,
    }
}

fn setup_test_migration() -> MigrationManager {
    let mut manager = MigrationManager::new();
    manager
        .add_migration(migration(1, "test_migration", "CREATE TABLE test_table", "DROP TABLE test_table"))
        .unwrap();
    manager
}

fn two_step_registry() -> MigrationManager {
    let mut manager = MigrationManager::new();
    manager.add_migration(migration(1, "create table", "DEFINE TABLE t", "REMOVE TABLE t")).unwrap();
    manager.add_migration(migration(2, "add column", "DEFINE FIELD c ON t", "REMOVE FIELD c ON t")).unwrap();
    manager
}

/// Drives `run` against an in-memory record table, failing the script whose text is
/// `failing_script`. Returns the scripts run, in order, and the final result.
fn drive(
    run: &mut MigrationRun,
    table: &mut Vec<i32>,
    failing_script: Option<&str>,
) -> (Vec<String>, Result<(), MigrationError>) {
    let mut scripts = Vec::new();
    loop {
        match run.next_action() {
            RunAction::RunScript { script, .. } => {
                let outcome = if Some(script.as_str()) == failing_script {
                    StepOutcome::Failed("rejected".to_string())
                } else {
                    StepOutcome::Succeeded
                };
                scripts.push(script);
                run.record_outcome(outcome);
            }
            RunAction::WriteRecord { version, .. } => {
                table.push(version);
                run.record_outcome(StepOutcome::Succeeded);
            }
            RunAction::DeleteRecord { version } => {
                table.retain(|v| *v != version);
                run.record_outcome(StepOutcome::Succeeded);
            }
            RunAction::Finished(result) => return (scripts, result),
        }
    }
}

#[test]
fn test_migration_up() {
    let manager = setup_test_migration();
    let mut table = Vec::new();
    let mut run = manager.run_pending_migrations(table.clone());
    let (scripts, result) = drive(&mut run, &mut table, None);
    assert!(result.is_ok());
    assert_eq!(scripts, vec!["CREATE TABLE test_table".to_string()]);
}

#[test]
fn test_migration_down() {
    let manager = setup_test_migration();
    let mut table = vec![1];
    let mut run = manager.rollback(table.clone(), 0);
    let (scripts, result) = drive(&mut run, &mut table, None);
    assert!(result.is_ok());
    assert_eq!(scripts, vec!["DROP TABLE test_table".to_string()]);
    assert!(table.is_empty());
}

#[test]
fn test_migration_version_tracking() {
    let manager = setup_test_migration();
    let mut table = Vec::new();
    let mut run = manager.run_pending_migrations(table.clone());
    drive(&mut run, &mut table, None).1.unwrap();
    let version = MigrationManager::get_current_version(&table);
    assert_eq!(version, 1);
    assert_eq!(run.current_version(), 1);
}

#[test]
fn apply_then_roll_back_two_migrations() {
    let manager = two_step_registry();
    let mut table = Vec::new();
    let mut run = manager.run_pending_migrations(table.clone());
    let (scripts, result) = drive(&mut run, &mut table, None);
    assert_eq!(result, Ok(()));
    assert_eq!(scripts, vec!["DEFINE TABLE t".to_string(), "DEFINE FIELD c ON t".to_string()]);
    assert_eq!(table, vec![1, 2]);
    assert_eq!(MigrationManager::get_current_version(&table), 2);

    let mut back = manager.rollback(table.clone(), 0);
    assert_eq!(back.direction(), Direction::Backward);
    let (scripts, result) = drive(&mut back, &mut table, None);
    assert_eq!(result, Ok(()));
    assert_eq!(scripts, vec!["REMOVE FIELD c ON t".to_string(), "REMOVE TABLE t".to_string()]);
    assert!(table.is_empty());
    assert_eq!(back.applied_versions(), &Vec::<i32>::new());
    assert_eq!(MigrationManager::get_current_version(&table), 0);
}

#[test]
fn duplicate_version_is_rejected() {
    let mut manager = two_step_registry();
    let before: Vec<i32> = manager.migrations().iter().map(|m| m.version).collect();
    let result = manager.add_migration(migration(2, "again", "X", "Y"));
    assert_eq!(result, Err(MigrationError::DuplicateVersion(2)));
    let after: Vec<i32> = manager.migrations().iter().map(|m| m.version).collect();
    assert_eq!(before, after);
    assert_eq!(manager.migrations()[1].name, "add column");
}

#[test]
fn non_positive_version_is_rejected() {
    let mut manager = MigrationManager::new();
    assert_eq!(
        manager.add_migration(migration(0, "zero", "X", "Y")),
        Err(MigrationError::InvalidVersion(0))
    );
    assert_eq!(
        manager.add_migration(migration(-3, "negative", "X", "Y")),
        Err(MigrationError::InvalidVersion(-3))
    );
    assert!(manager.migrations().is_empty());
}

#[test]
fn registry_orders_out_of_order_additions() {
    let mut manager = MigrationManager::new();
    for v in [7, 2, 5, 10] {
        manager.add_migration(migration(v, "m", "u", "d")).unwrap();
    }
    let versions: Vec<i32> = manager.migrations().iter().map(|m| m.version).collect();
    assert_eq!(versions, vec![2, 5, 7, 10]);
}

#[test]
fn pending_forward_is_newer_and_ascending() {
    let mut manager = MigrationManager::new();
    for v in [3, 1, 8, 5] {
        manager.add_migration(migration(v, "m", "u", "d")).unwrap();
    }
    let versions = |ms: Vec<Migration>| ms.iter().map(|m| m.version).collect::<Vec<i32>>();
    assert_eq!(versions(manager.pending_forward(0)), vec![1, 3, 5, 8]);
    assert_eq!(versions(manager.pending_forward(3)), vec![5, 8]);
    assert_eq!(versions(manager.pending_forward(4)), vec![5, 8]);
    assert!(manager.pending_forward(8).is_empty());
    assert!(manager.pending_forward(100).is_empty());
    assert!(MigrationManager::new().pending_forward(-5).is_empty());
}

#[test]
fn pending_backward_is_newer_and_descending() {
    let mut manager = MigrationManager::new();
    for v in [3, 1, 8, 5] {
        manager.add_migration(migration(v, "m", "u", "d")).unwrap();
    }
    let versions = |ms: Vec<Migration>| ms.iter().map(|m| m.version).collect::<Vec<i32>>();
    assert_eq!(versions(manager.pending_backward(0)), vec![8, 5, 3, 1]);
    assert_eq!(versions(manager.pending_backward(3)), vec![8, 5]);
    assert!(manager.pending_backward(8).is_empty());
}

#[test]
fn second_run_executes_no_script() {
    let manager = two_step_registry();
    let mut table = Vec::new();
    let mut first = manager.run_pending_migrations(table.clone());
    let (scripts, _) = drive(&mut first, &mut table, None);
    assert_eq!(scripts.len(), 2);
    let mut second = manager.run_pending_migrations(table.clone());
    assert!(second.work_list().is_empty());
    assert_eq!(second.next_action(), RunAction::Finished(Ok(())));
    let (scripts, result) = drive(&mut second, &mut table, None);
    assert!(scripts.is_empty());
    assert_eq!(result, Ok(()));
    assert_eq!(table, vec![1, 2]);
}

#[test]
fn current_version_rises_on_apply_and_falls_on_rollback() {
    let mut manager = MigrationManager::new();
    for v in [1, 2, 3] {
        manager.add_migration(migration(v, "m", &format!("up{}", v), &format!("down{}", v))).unwrap();
    }
    let mut table = vec![1];
    let mut run = manager.run_pending_migrations(table.clone());
    let mut seen = vec![run.current_version()];
    while !run.is_finished() {
        match run.next_action() {
            RunAction::WriteRecord { version, .. } => table.push(version),
            _ => {}
        }
        run.record_outcome(StepOutcome::Succeeded);
        seen.push(run.current_version());
    }
    assert!(seen.windows(2).all(|w| w[0] <= w[1]));
    assert_eq!(run.current_version(), 3);

    let mut back = manager.rollback(table.clone(), 1);
    let mut seen = vec![back.current_version()];
    while !back.is_finished() {
        back.record_outcome(StepOutcome::Succeeded);
        seen.push(back.current_version());
    }
    assert!(seen.windows(2).all(|w| w[0] >= w[1]));
    assert_eq!(back.current_version(), 1);
    assert!(seen.iter().all(|v| *v >= 0));
}

#[test]
fn failing_script_stops_the_run() {
    let mut manager = MigrationManager::new();
    for v in 1..=7 {
        manager.add_migration(migration(v, &format!("m{}", v), &format!("up{}", v), &format!("down{}", v))).unwrap();
    }
    let mut table = vec![1, 2, 3, 4];
    let mut run = manager.run_pending_migrations(table.clone());
    let (scripts, result) = drive(&mut run, &mut table, Some("up5"));
    assert_eq!(scripts, vec!["up5".to_string()]);
    assert_eq!(
        result,
        Err(MigrationError::MigrationFailed {
            version: 5,
            name: "m5".to_string(),
            message: "rejected".to_string(),
        })
    );
    assert_eq!(table, vec![1, 2, 3, 4]);
    assert_eq!(run.current_version(), 4);
    // A finished run ignores further outcomes and keeps reporting its error.
    run.record_outcome(StepOutcome::Succeeded);
    assert_eq!(run.completed(), 0);
    assert!(matches!(run.next_action(), RunAction::Finished(Err(_))));
}

#[test]
fn failing_record_write_is_a_database_error() {
    let manager = two_step_registry();
    let mut run = manager.run_pending_migrations(Vec::new());
    assert!(matches!(run.next_action(), RunAction::RunScript { version: 1, .. }));
    run.record_outcome(StepOutcome::Succeeded);
    assert_eq!(
        run.next_action(),
        RunAction::WriteRecord {
            version: 1,
            name: "create table".to_string(),
            description: "create table description".to_string(),
        }
    );
    run.record_outcome(StepOutcome::Failed("connection lost".to_string()));
    assert_eq!(
        run.next_action(),
        RunAction::Finished(Err(MigrationError::DatabaseError("connection lost".to_string())))
    );
    assert!(run.applied_versions().is_empty());
    assert_eq!(run.current_version(), 0);
}

#[test]
fn rollback_skips_migrations_never_applied() {
    let mut manager = MigrationManager::new();
    for v in [1, 2, 3] {
        manager.add_migration(migration(v, "m", &format!("up{}", v), &format!("down{}", v))).unwrap();
    }
    let mut table = vec![1, 2];
    let mut run = manager.rollback(table.clone(), 0);
    let (scripts, result) = drive(&mut run, &mut table, None);
    assert_eq!(result, Ok(()));
    assert_eq!(scripts, vec!["down2".to_string(), "down1".to_string()]);
}

#[test]
fn current_version_is_largest_record_or_zero() {
    assert_eq!(MigrationManager::get_current_version(&vec![]), 0);
    assert_eq!(MigrationManager::get_current_version(&vec![3, 9, 4]), 9);
    assert_eq!(MigrationManager::get_current_version(&vec![-2]), 0);
}

#[test]
fn script_action_carries_migration_details() {
    let manager = two_step_registry();
    let run = manager.run_pending_migrations(vec![1]);
    assert_eq!(
        run.next_action(),
        RunAction::RunScript {
            direction: Direction::Forward,
            version: 2,
            name: "add column".to_string(),
            script: "DEFINE FIELD c ON t".to_string(),
        }
    );
    let back = manager.rollback(vec![1, 2], 1);
    assert_eq!(
        back.next_action(),
        RunAction::RunScript {
            direction: Direction::Backward,
            version: 2,
            name: "add column".to_string(),
            script: "REMOVE FIELD c ON t".to_string(),
        }
    );
}
