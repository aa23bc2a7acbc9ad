use sftp_tube::bootstrap::{BootAction, Bootstrap};
use sftp_tube::config::Config;
use std::collections::BTreeSet;

fn sample() -> Config {
    Config {
        ip_and_port: "192.168.1.10:22".to_string(),
        root_folder_name: "srv".to_string(),
        temp_folder_name: "tmp".to_string(),
        temp_file_name: "clip.txt".to_string(),
    }
}

// Bootstraps against a server that holds `dirs`, creates what it lacks and
// refuses what it has. Returns the answers of the server and the folder.
fn bootstrap(dirs: &mut BTreeSet<String>, user: &str) -> (Vec<bool>, String) {
    let mut answers = Vec::new();
    let (mut boot, mut action) = Bootstrap::start(&sample(), user);
    loop {
        match action {
            BootAction::Mkdir { path, mode } => {
                assert_eq!(mode, 0o777);
                let created = dirs.insert(path);
                answers.push(created);
                (boot, action) = boot.step(created);
            }
            BootAction::Done { folder } => return (answers, folder),
        }
    }
}

#[test]
fn bootstrap_asks_for_the_shared_folder_and_then_for_the_users() {
    let (boot, action) = Bootstrap::start(&sample(), "alice");
    assert_eq!(action, BootAction::Mkdir { path: "srv/tmp/".to_string(), mode: 0o777 });
    let (boot, action) = boot.step(true);
    assert_eq!(action, BootAction::Mkdir { path: "srv/tmp/alice".to_string(), mode: 0o777 });
    let (_, action) = boot.step(true);
    assert_eq!(action, BootAction::Done { folder: "srv/tmp/alice".to_string() });
}

#[test]
fn bootstrap_goes_on_whatever_the_server_answers() {
    for first in [false, true] {
        for second in [false, true] {
            let (boot, _) = Bootstrap::start(&sample(), "bob");
            let (boot, action) = boot.step(first);
            assert_eq!(action, BootAction::Mkdir { path: "srv/tmp/bob".to_string(), mode: 0o777 });
            let (boot, action) = boot.step(second);
            assert_eq!(action, BootAction::Done { folder: "srv/tmp/bob".to_string() });
            let (_, action) = boot.step(first);
            assert_eq!(action, BootAction::Done { folder: "srv/tmp/bob".to_string() });
        }
    }
}

#[test]
fn bootstrap_twice_is_the_same_as_once() {
    let mut dirs: BTreeSet<String> = BTreeSet::new();
    dirs.insert("srv".to_string());
    let (answers, folder) = bootstrap(&mut dirs, "alice");
    assert_eq!(answers, vec![true, true]);
    assert_eq!(folder, "srv/tmp/alice");
    let once = dirs.clone();
    assert_eq!(once.len(), 3);
    assert!(once.contains("srv/tmp/"));
    assert!(once.contains("srv/tmp/alice"));

    let (answers, folder) = bootstrap(&mut dirs, "alice");
    assert_eq!(answers, vec![false, false]);
    assert_eq!(folder, "srv/tmp/alice");
    assert_eq!(dirs, once);
}

#[test]
fn bootstrap_of_a_second_user_shares_the_scratch_folder() {
    let mut dirs: BTreeSet<String> = BTreeSet::new();
    bootstrap(&mut dirs, "alice");
    let (answers, folder) = bootstrap(&mut dirs, "bob");
    assert_eq!(answers, vec![false, true]);
    assert_eq!(folder, "srv/tmp/bob");
    assert_eq!(dirs.len(), 3);
}
