use nginx_pool::engine::{
    conclude, diagnose, rewrite, Action, CommandOutcome, Event, Mutation, MutationError, Outcome,
    Request,
};

const POOL: &str = "upstream backend {\n    server 10.0.0.1:80 weight=100 max_conns=2\n    # SERVERS -- END\n}\n";

/// The pool file and its backup, and how each piece of outside work ends.
struct World {
    primary: Vec<u8>,
    backup: Vec<u8>,
    lock_fails: bool,
    backup_fails: bool,
    write_fails: bool,
    reload_fails: bool,
    restore_fails: bool,
    locked: bool,
    log: Vec<&'static str>,
}

fn world(primary: &str) -> World {
    World {
        primary: primary.as_bytes().to_vec(),
        backup: b"stale".to_vec(),
        lock_fails: false,
        backup_fails: false,
        write_fails: false,
        reload_fails: false,
        restore_fails: false,
        locked: false,
        log: Vec::new(),
    }
}

fn ended(fails: bool, stderr: &str) -> CommandOutcome {
    CommandOutcome::Exited { success: !fails, stderr: stderr.to_string() }
}

/// Carries a mutation out against the world, as a caller of the machine does.
fn carry_out(world: &mut World, begun: (Mutation, Action)) -> Result<Outcome, MutationError> {
    let (mut state, mut action) = begun;
    loop {
        let event = match action {
            Action::AcquireLock => {
                world.log.push("lock");
                if world.lock_fails {
                    Event::LockFailed("busy".to_string())
                } else {
                    world.locked = true;
                    Event::LockAcquired
                }
            }
            Action::CopyToBackup => {
                world.log.push("backup");
                assert!(world.locked);
                if !world.backup_fails {
                    world.backup = world.primary.clone();
                }
                Event::BackupFinished(ended(world.backup_fails, "cp: no space"))
            }
            Action::ReadPrimary => {
                world.log.push("read");
                assert!(world.locked);
                Event::PrimaryRead(world.primary.clone())
            }
            Action::WritePrimary(text) => {
                world.log.push("write");
                assert!(world.locked);
                if world.write_fails {
                    Event::WriteFailed("read-only".to_string())
                } else {
                    world.primary = text;
                    Event::PrimaryWritten
                }
            }
            Action::Reload => {
                world.log.push("reload");
                assert!(world.locked);
                Event::ReloadFinished(ended(world.reload_fails, "nginx: bad config"))
            }
            Action::RestoreFromBackup => {
                world.log.push("restore");
                assert!(world.locked);
                if !world.restore_fails {
                    world.primary = world.backup.clone();
                }
                Event::RestoreFinished(ended(world.restore_fails, "mv: denied"))
            }
            Action::Finish { release_lock, result } => {
                world.log.push("finish");
                assert_eq!(release_lock, world.locked);
                world.locked = false;
                return result;
            }
        };
        let (next_state, next_action) = state.step(event).unwrap();
        state = next_state;
        action = next_action;
    }
}

fn add(address: &str, weight: u64, max_connections: u64) -> Request {
    Request::Add { address: address.to_string(), weight, max_connections }
}

fn remove(address: &str) -> Request {
    Request::Remove { address: address.to_string() }
}

#[test]
fn a_mutation_begins_by_asking_for_the_lock() {
    assert_eq!(
        Mutation::start(remove("10.0.0.1:80")),
        (Mutation::Idle(remove("10.0.0.1:80")), Action::AcquireLock)
    );
}

#[test]
fn add_goes_through() {
    let mut w = world(POOL);
    let result = carry_out(&mut w, Mutation::start(add("10.0.0.2:80", 2048, 4)));
    assert_eq!(
        result,
        Ok(Outcome::Added {
            address: "10.0.0.2:80".to_string(),
            weight: 2048,
            max_connections: 4,
            inserted: true
        })
    );
    assert_eq!(
        String::from_utf8(w.primary).unwrap(),
        "upstream backend {\n    server 10.0.0.1:80 weight=100 max_conns=2\nserver 10.0.0.2:80 weight=2048 max_conns=4\n    # SERVERS -- END\n}\n"
    );
    assert_eq!(w.backup, POOL.as_bytes().to_vec());
    assert_eq!(w.log, vec!["lock", "backup", "read", "write", "reload", "finish"]);
}

#[test]
fn add_without_marker_reports_that_nothing_was_inserted() {
    let mut w = world("upstream backend {\n}\n");
    let result = carry_out(&mut w, Mutation::start(add("10.0.0.2:80", 2048, 4)));
    assert_eq!(
        result,
        Ok(Outcome::Added {
            address: "10.0.0.2:80".to_string(),
            weight: 2048,
            max_connections: 4,
            inserted: false
        })
    );
    assert_eq!(w.primary, b"upstream backend {\n}\n".to_vec());
}

#[test]
fn remove_goes_through() {
    let mut w = world(POOL);
    let result = carry_out(&mut w, Mutation::start(remove("10.0.0.1:80")));
    assert_eq!(result, Ok(Outcome::Removed { removed: true }));
    assert_eq!(
        String::from_utf8(w.primary).unwrap(),
        "upstream backend {\n    # SERVERS -- END\n}\n"
    );
    assert_eq!(w.log, vec!["lock", "backup", "read", "write", "reload", "finish"]);
}

#[test]
fn removing_an_absent_address_changes_no_byte() {
    let mut w = world(POOL);
    let result = carry_out(&mut w, Mutation::start(remove("10.0.0.9:80")));
    assert_eq!(result, Ok(Outcome::Removed { removed: false }));
    assert_eq!(w.primary, POOL.as_bytes().to_vec());
}

#[test]
fn adding_then_removing_restores_the_file() {
    let mut w = world(POOL);
    carry_out(&mut w, Mutation::start(add("10.0.0.2:80", 2048, 4))).unwrap();
    assert_ne!(w.primary, POOL.as_bytes().to_vec());
    let result = carry_out(&mut w, Mutation::start(remove("10.0.0.2:80")));
    assert_eq!(result, Ok(Outcome::Removed { removed: true }));
    assert_eq!(w.primary, POOL.as_bytes().to_vec());
}

#[test]
fn two_adds_one_after_the_other_leave_both_entries() {
    let mut w = world(POOL);
    carry_out(&mut w, Mutation::start(add("10.0.0.2:80", 10, 1))).unwrap();
    carry_out(&mut w, Mutation::start(add("10.0.0.3:80", 20, 2))).unwrap();
    let text = String::from_utf8(w.primary).unwrap();
    assert!(text.contains("server 10.0.0.2:80 weight=10 max_conns=1\n"));
    assert!(text.contains("server 10.0.0.3:80 weight=20 max_conns=2\n"));
    assert!(text.contains("    server 10.0.0.1:80 weight=100 max_conns=2\n"));
    assert_eq!(text.lines().count(), 6);
}

#[test]
fn failed_reload_restores_the_file() {
    let mut w = world(POOL);
    w.reload_fails = true;
    let result = carry_out(&mut w, Mutation::start(add("10.0.0.2:80", 2048, 4)));
    assert_eq!(result, Err(MutationError::ReloadFailed("nginx: bad config".to_string())));
    assert_eq!(w.primary, POOL.as_bytes().to_vec());
    assert_eq!(w.log, vec!["lock", "backup", "read", "write", "reload", "restore", "finish"]);
}

#[test]
fn failed_reload_fails_a_remove_too() {
    let mut w = world(POOL);
    w.reload_fails = true;
    let result = carry_out(&mut w, Mutation::start(remove("10.0.0.1:80")));
    assert_eq!(result, Err(MutationError::ReloadFailed("nginx: bad config".to_string())));
    assert_eq!(w.primary, POOL.as_bytes().to_vec());
}

#[test]
fn failed_restore_is_reported_as_such() {
    let mut w = world(POOL);
    w.reload_fails = true;
    w.restore_fails = true;
    let result = carry_out(&mut w, Mutation::start(remove("10.0.0.1:80")));
    assert_eq!(result, Err(MutationError::RestoreFailed("mv: denied".to_string())));
    assert_eq!(w.log, vec!["lock", "backup", "read", "write", "reload", "restore", "finish"]);
}

#[test]
fn failed_lock_ends_the_mutation_at_once() {
    let mut w = world(POOL);
    w.lock_fails = true;
    let result = carry_out(&mut w, Mutation::start(remove("10.0.0.1:80")));
    assert_eq!(result, Err(MutationError::LockError("busy".to_string())));
    assert_eq!(w.primary, POOL.as_bytes().to_vec());
    assert_eq!(w.backup, b"stale".to_vec());
    assert_eq!(w.log, vec!["lock", "finish"]);
}

#[test]
fn failed_backup_ends_the_mutation_before_it_reads() {
    let mut w = world(POOL);
    w.backup_fails = true;
    let result = carry_out(&mut w, Mutation::start(remove("10.0.0.1:80")));
    assert_eq!(result, Err(MutationError::BackupFailed("cp: no space".to_string())));
    assert_eq!(w.primary, POOL.as_bytes().to_vec());
    assert_eq!(w.log, vec!["lock", "backup", "finish"]);
}

#[test]
fn failed_write_ends_the_mutation_before_it_reloads() {
    let mut w = world(POOL);
    w.write_fails = true;
    let result = carry_out(&mut w, Mutation::start(remove("10.0.0.1:80")));
    assert_eq!(result, Err(MutationError::WriteFailed("read-only".to_string())));
    assert_eq!(w.log, vec!["lock", "backup", "read", "write", "finish"]);
}

#[test]
fn a_command_that_cannot_start_has_failed() {
    assert_eq!(
        Mutation::Locked(remove("a")).step(Event::BackupFinished(CommandOutcome::NotLaunched {
            reason: "cp: not found".to_string()
        })),
        Some((
            Mutation::Aborted,
            Action::Finish {
                release_lock: true,
                result: Err(MutationError::BackupFailed("cp: not found".to_string()))
            }
        ))
    );
    assert_eq!(
        diagnose(CommandOutcome::NotLaunched { reason: "gone".to_string() }),
        Some("gone".to_string())
    );
    assert_eq!(diagnose(ended(false, "warning")), None);
    assert_eq!(diagnose(ended(true, "fatal")), Some("fatal".to_string()));
}

#[test]
fn an_event_that_is_not_waited_for_is_refused() {
    assert_eq!(Mutation::Idle(remove("a")).step(Event::PrimaryWritten), None);
    assert_eq!(Mutation::Idle(remove("a")).step(Event::PrimaryRead(Vec::new())), None);
    assert_eq!(Mutation::Locked(remove("a")).step(Event::LockAcquired), None);
    assert_eq!(Mutation::BackedUp(remove("a")).step(Event::PrimaryWritten), None);
    assert_eq!(
        Mutation::Rewriting(remove("a"), true).step(Event::ReloadFinished(ended(false, ""))),
        None
    );
    assert_eq!(
        Mutation::Rewritten(remove("a"), true).step(Event::RestoreFinished(ended(false, ""))),
        None
    );
    assert_eq!(Mutation::Restoring("d".to_string()).step(Event::PrimaryWritten), None);
}

#[test]
fn a_mutation_that_is_over_takes_no_event() {
    assert_eq!(Mutation::Reloaded.step(Event::LockAcquired), None);
    assert_eq!(Mutation::RolledBack.step(Event::LockAcquired), None);
    assert_eq!(Mutation::Unrecoverable.step(Event::PrimaryWritten), None);
    assert_eq!(Mutation::Aborted.step(Event::LockAcquired), None);
}

#[test]
fn rewrite_follows_the_request() {
    assert_eq!(
        rewrite(&add("1.2.3.4:5", 6, 7), b"# SERVERS -- END\n"),
        (b"server 1.2.3.4:5 weight=6 max_conns=7\n# SERVERS -- END\n".to_vec(), true)
    );
    assert_eq!(
        rewrite(&remove("1.2.3.4:5"), b"server 1.2.3.4:5 weight=6 max_conns=7\n# SERVERS -- END\n"),
        (b"# SERVERS -- END\n".to_vec(), true)
    );
    assert_eq!(rewrite(&remove("1.2.3.4:5"), b"x\n"), (b"x\n".to_vec(), false));
}

#[test]
fn outcome_follows_the_request() {
    assert_eq!(
        conclude(add("1.2.3.4:5", 6, 7), false),
        Outcome::Added {
            address: "1.2.3.4:5".to_string(),
            weight: 6,
            max_connections: 7,
            inserted: false
        }
    );
    assert_eq!(conclude(remove("1.2.3.4:5"), true), Outcome::Removed { removed: true });
}

#[test]
fn removing_an_absent_address_keeps_line_ends_and_a_missing_final_line_feed() {
    for file in ["a\r\nb", "a\r\n", "x", "\r\r\n# SERVERS -- END"] {
        let mut w = world(file);
        let result = carry_out(&mut w, Mutation::start(remove("10.0.0.9:80")));
        assert_eq!(result, Ok(Outcome::Removed { removed: false }));
        assert_eq!(w.primary, file.as_bytes().to_vec());
    }
}

#[test]
fn a_mutation_pair_restores_a_file_with_odd_line_ends() {
    let file = "\r\r\n# SERVERS -- END\n";
    let mut w = world(file);
    let added = carry_out(&mut w, Mutation::start(add("192.0.2.1:80", 2048, 4)));
    assert_eq!(
        added,
        Ok(Outcome::Added {
            address: "192.0.2.1:80".to_string(),
            weight: 2048,
            max_connections: 4,
            inserted: true
        })
    );
    assert_eq!(
        w.primary,
        b"\r\r\nserver 192.0.2.1:80 weight=2048 max_conns=4\n# SERVERS -- END\n".to_vec()
    );
    let removed = carry_out(&mut w, Mutation::start(remove("192.0.2.1:80")));
    assert_eq!(removed, Ok(Outcome::Removed { removed: true }));
    assert_eq!(w.primary, file.as_bytes().to_vec());
}
