use std::collections::BTreeMap;

use shroudforge::transaction::{abort, check_records, directory, publication_order, recover, valid_name, PublishRecord, RecoveryAction, StageEntry};

type Directory = BTreeMap<String, Vec<u8>>;

fn fixture() -> Directory {
    let mut game = Directory::new();
    game.insert("game.kfc".to_string(), b"old-index".to_vec());
    game.insert("game.kfc_resources".to_string(), b"old-data".to_vec());
    game
}

// The caller's side of `prepare`: journal each staged name in publication order and
// keep a copy of every file it replaces.
fn prepare(game: &Directory, stage: &Directory) -> (Vec<PublishRecord>, Directory) {
    let entries: Vec<StageEntry> = stage.keys().map(|name| StageEntry { name: name.clone(), is_file: true }).collect();
    let order = publication_order("game", &entries).unwrap();
    let mut rollback = Directory::new();
    let mut records = Vec::new();
    for name in order {
        let existed = game.contains_key(&name);
        if existed {
            rollback.insert(name.clone(), game[&name].clone());
        }
        records.push(PublishRecord { name, existed });
    }
    (records, rollback)
}

fn apply(game: &mut Directory, rollback: &Directory, actions: Vec<RecoveryAction>) {
    for action in actions {
        match action {
            RecoveryAction::Restore { name } => {
                game.insert(name.clone(), rollback[&name].clone());
            }
            RecoveryAction::Remove { name } => {
                game.remove(&name);
            }
        }
    }
}

#[test]
fn interrupted_publish_restores_previous_set() {
    let mut game = fixture();
    let mut stage = Directory::new();
    stage.insert("game.kfc".to_string(), b"new-index".to_vec());
    stage.insert("game.kfc_resources".to_string(), b"new-data".to_vec());
    stage.insert("game_123.dat".to_string(), b"new-content".to_vec());
    let (records, rollback) = prepare(&game, &stage);
    game.insert("game.kfc_resources".to_string(), stage["game.kfc_resources"].clone());
    game.insert("game_123.dat".to_string(), stage["game_123.dat"].clone());
    assert!(check_records("game", &records).is_ok());
    apply(&mut game, &rollback, recover(&records));
    assert_eq!(game["game.kfc"], b"old-index".to_vec());
    assert_eq!(game["game.kfc_resources"], b"old-data".to_vec());
    assert!(!game.contains_key("game_123.dat"));
}

#[test]
fn commit_publishes_complete_set() {
    let mut game = fixture();
    let mut stage = Directory::new();
    stage.insert("game.kfc".to_string(), b"new-index".to_vec());
    stage.insert("game.kfc_resources".to_string(), b"new-data".to_vec());
    let (records, _rollback) = prepare(&game, &stage);
    for record in &records {
        let bytes = stage.remove(&record.name).unwrap();
        game.insert(record.name.clone(), bytes);
    }
    assert_eq!(game["game.kfc"], b"new-index".to_vec());
    assert_eq!(game["game.kfc_resources"], b"new-data".to_vec());
    assert!(stage.is_empty());
}

#[test]
fn the_index_is_published_last() {
    let entries = vec![
        StageEntry { name: "game.kfc".to_string(), is_file: true },
        StageEntry { name: "game_20.dat".to_string(), is_file: true },
        StageEntry { name: "game.kfc_resources".to_string(), is_file: true },
        StageEntry { name: "game_3.dat".to_string(), is_file: true },
    ];
    assert_eq!(
        publication_order("game", &entries).unwrap(),
        vec!["game.kfc_resources".to_string(), "game_20.dat".to_string(), "game_3.dat".to_string(), "game.kfc".to_string()]
    );
}

#[test]
fn foreign_names_invalidate_a_transaction() {
    assert!(valid_name("game", "game.kfc"));
    assert!(valid_name("game", "game.kfc_resources"));
    assert!(valid_name("game", "game_0042.dat"));
    assert!(!valid_name("game", "game_.dat"));
    assert!(!valid_name("game", "game_12a.dat"));
    assert!(!valid_name("game", "other.kfc"));
    assert!(!valid_name("game", "game.kfc.rollback"));
    let entries = vec![StageEntry { name: "pending.json".to_string(), is_file: true }];
    assert!(publication_order("game", &entries).is_err());
    let directory_entry = vec![StageEntry { name: "game.kfc".to_string(), is_file: false }];
    assert!(publication_order("game", &directory_entry).is_err());
    assert!(check_records("game", &vec![PublishRecord { name: "../game.kfc".to_string(), existed: true }]).is_err());
}

#[test]
fn abort_is_recovery_and_the_stage_is_hidden() {
    let records = vec![
        PublishRecord { name: "game_1.dat".to_string(), existed: false },
        PublishRecord { name: "game.kfc".to_string(), existed: true },
    ];
    let actions = abort(&records);
    assert!(matches!(&actions[0], RecoveryAction::Remove { name } if name == "game_1.dat"));
    assert!(matches!(&actions[1], RecoveryAction::Restore { name } if name == "game.kfc"));
    assert_eq!(directory("/game", "enshrouded"), "/game/.enshrouded.shroudforge-stage");
}

#[test]
fn recovering_twice_changes_nothing_more() {
    let mut game = fixture();
    let mut stage = Directory::new();
    stage.insert("game.kfc".to_string(), b"new-index".to_vec());
    stage.insert("game_7.dat".to_string(), b"new-content".to_vec());
    let (records, rollback) = prepare(&game, &stage);
    game.insert("game_7.dat".to_string(), stage["game_7.dat"].clone());
    apply(&mut game, &rollback, recover(&records));
    let once = game.clone();
    apply(&mut game, &rollback, recover(&records));
    assert_eq!(game, once);
    assert_eq!(game, fixture());
    apply(&mut game, &rollback, recover(&Vec::new()));
    assert_eq!(game, once);
}
