use mrpack_sync::errors::FileError;
use mrpack_sync::mod_manager::{prune_root, Action, Event, ModManager, SyncState, PRUNE_ROOTS};
use mrpack_sync::mrpack::{DependencyId, Environment, FileHashes, MRFile, MRIndex, Requirement};
use mrpack_sync::overrides::{find_index_entry, override_target, read_overrides, ArchiveEntry, OverrideSet};
use mrpack_sync::verify::{content_is_valid, digests_match};
use std::collections::HashMap;

const HELLO_SHA1: &str = "aaf4c61ddcc5e8a2dabede0f3b482cd9aea9434d";
const HELLO_SHA512: &str = "9b71d224bd62f3785d96d46ad3ea3d73319bfbc2890caadae2dff72519673ca72323c3d99ba5c11d7c7acc6e14b8c5da0c4663475c2e5c3adef46f73bcdec043";
const WORLD_SHA512: &str = "11853df40f4b2b919d3815f64792e58d08663767a494bcbb38c0b2389d9140bbb170281b4a847be7757bde12c9cd0054ce3652d0ad3a1a0c92babb69798246ee";

fn hello_hashes() -> FileHashes {
    FileHashes {
        sha1: hex::decode(HELLO_SHA1).unwrap().try_into().unwrap(),
        sha512: hex::decode(HELLO_SHA512).unwrap().try_into().unwrap(),
        other_hashes: HashMap::new(),
    }
}

fn declared(path: &str, urls: &[&str], env: Option<Environment>) -> MRFile {
    MRFile {
        path: path.to_string(),
        hashes: hello_hashes(),
        env,
        downloads: urls.iter().map(|u| u.to_string()).collect(),
        file_size: 5,
    }
}

fn index_of(files: Vec<MRFile>) -> MRIndex {
    MRIndex {
        game: "minecraft".to_string(),
        format_version: 1,
        version_id: "1.0.0".to_string(),
        name: "pack".to_string(),
        files,
        dependencies: HashMap::new(),
    }
}

fn manager(files: Vec<MRFile>, overrides: OverrideSet, prune: bool) -> ModManager {
    ModManager::new(index_of(files), overrides, prune)
}

/// Feeds the outcomes in order and collects the actions issued.
fn drive(m: &ModManager, events: Vec<Event>) -> Vec<Action> {
    let mut state = SyncState::Start;
    let mut actions = Vec::new();
    for e in events {
        let (next, action) = m.step(state, e);
        state = next;
        actions.push(action);
    }
    actions
}

#[test]
fn hello_sync_then_no_op() {
    let m = manager(vec![declared("mods/a.jar", &["https://a.example/a.jar"], None)], OverrideSet::new(), false);
    let first = drive(&m, vec![Event::Succeeded, Event::Missing, Event::Succeeded, Event::Succeeded]);
    assert_eq!(
        first,
        vec![
            Action::ReadLocal { file: 0 },
            Action::CreateParent { file: 0 },
            Action::Fetch { file: 0, mirror: 0 },
            Action::Done,
        ]
    );
    let second = drive(&m, vec![Event::Succeeded, Event::Contents(b"hello".to_vec())]);
    assert_eq!(second, vec![Action::ReadLocal { file: 0 }, Action::Done]);
}

#[test]
fn valid_files_are_only_read() {
    let files = vec![
        declared("mods/a.jar", &["https://a.example/a"], None),
        declared("mods/b.jar", &["https://a.example/b"], None),
    ];
    let m = manager(files, OverrideSet::new(), false);
    let actions = drive(
        &m,
        vec![Event::Succeeded, Event::Contents(b"hello".to_vec()), Event::Contents(b"hello".to_vec())],
    );
    assert_eq!(actions, vec![Action::ReadLocal { file: 0 }, Action::ReadLocal { file: 1 }, Action::Done]);
}

#[test]
fn one_digest_is_not_enough() {
    let h = hello_hashes();
    let world512 = hex::decode(WORLD_SHA512).unwrap();
    assert!(!digests_match(&h.sha1, &world512, &h.sha1, &h.sha512));
    assert!(!digests_match(&h.sha512[..20], &h.sha512, &h.sha1, &h.sha512));
    assert!(digests_match(&h.sha1, &h.sha512, &h.sha1, &h.sha512));
}

#[test]
fn content_check_digests_the_bytes() {
    let h = hello_hashes();
    assert!(content_is_valid(b"hello", &h.sha1, &h.sha512));
    assert!(!content_is_valid(b"world", &h.sha1, &h.sha512));
    assert!(!content_is_valid(b"", &h.sha1, &h.sha512));
    let f = declared("mods/a.jar", &["u"], None);
    assert!(f.is_valid_content(b"hello"));
    assert!(!f.is_valid_content(b"hell"));
}

#[test]
fn corrupt_file_is_deleted_and_fetched() {
    let m = manager(vec![declared("mods/a.jar", &["https://a.example/a"], None)], OverrideSet::new(), false);
    let actions = drive(
        &m,
        vec![
            Event::Succeeded,
            Event::Contents(b"garbage".to_vec()),
            Event::Succeeded,
            Event::Succeeded,
            Event::Succeeded,
        ],
    );
    assert_eq!(
        actions,
        vec![
            Action::ReadLocal { file: 0 },
            Action::DeleteLocal { file: 0 },
            Action::CreateParent { file: 0 },
            Action::Fetch { file: 0, mirror: 0 },
            Action::Done,
        ]
    );
}

#[test]
fn third_mirror_succeeds() {
    let m = manager(vec![declared("mods/a.jar", &["u1", "u2", "u3"], None)], OverrideSet::new(), false);
    let actions = drive(
        &m,
        vec![
            Event::Succeeded,
            Event::Missing,
            Event::Succeeded,
            Event::Failed,
            Event::Succeeded,
            Event::Failed,
            Event::Succeeded,
            Event::Succeeded,
        ],
    );
    assert_eq!(
        actions,
        vec![
            Action::ReadLocal { file: 0 },
            Action::CreateParent { file: 0 },
            Action::Fetch { file: 0, mirror: 0 },
            Action::Discard { file: 0 },
            Action::Fetch { file: 0, mirror: 1 },
            Action::Discard { file: 0 },
            Action::Fetch { file: 0, mirror: 2 },
            Action::Done,
        ]
    );
    assert_eq!(m.file(0).downloads[2], "u3");
}

#[test]
fn all_mirrors_fail() {
    let m = manager(
        vec![declared("mods/a.jar", &["u1", "u2"], None), declared("mods/b.jar", &["u3"], None)],
        OverrideSet::new(),
        false,
    );
    let actions = drive(
        &m,
        vec![
            Event::Succeeded,
            Event::Missing,
            Event::Succeeded,
            Event::Failed,
            Event::Succeeded,
            Event::Failed,
            Event::Succeeded,
            Event::Succeeded,
        ],
    );
    assert_eq!(
        actions,
        vec![
            Action::ReadLocal { file: 0 },
            Action::CreateParent { file: 0 },
            Action::Fetch { file: 0, mirror: 0 },
            Action::Discard { file: 0 },
            Action::Fetch { file: 0, mirror: 1 },
            Action::Discard { file: 0 },
            Action::Fail { error: FileError::AllDownloadsFailed },
            Action::Fail { error: FileError::AllDownloadsFailed },
        ]
    );
}

#[test]
fn failures_map_to_error_kinds() {
    let m = manager(vec![declared("mods/a.jar", &["u1"], None)], OverrideSet::new(), false);
    let read = drive(&m, vec![Event::Succeeded, Event::Failed]);
    assert_eq!(read[1], Action::Fail { error: FileError::IOError });
    let delete = drive(&m, vec![Event::Succeeded, Event::Contents(vec![1]), Event::Failed]);
    assert_eq!(delete[2], Action::Fail { error: FileError::DeleteFailed });
    let mkdir = drive(&m, vec![Event::Succeeded, Event::Missing, Event::Failed]);
    assert_eq!(mkdir[2], Action::Fail { error: FileError::IOError });
    let discard = drive(&m, vec![Event::Succeeded, Event::Missing, Event::Succeeded, Event::Failed, Event::Failed]);
    assert_eq!(discard[4], Action::Fail { error: FileError::DeleteFailed });
}

#[test]
fn unsupported_server_files_are_left_out() {
    let server_off = Some(Environment { client: Requirement::Required, server: Requirement::Unsupported });
    let server_opt = Some(Environment { client: Requirement::Unsupported, server: Requirement::Optional });
    let files = vec![
        declared("mods/client.jar", &["u1"], server_off),
        declared("mods/both.jar", &["u2"], None),
        declared("mods/server.jar", &["u3"], server_opt),
    ];
    let m = manager(files, OverrideSet::new(), true);
    assert_eq!(m.file_count(), 2);
    assert_eq!(m.file(0).path, "mods/both.jar");
    assert_eq!(m.file(1).path, "mods/server.jar");
    assert!(!m.is_known_path(0, &"mods/client.jar".to_string()));
    assert!(m.is_known_path(0, &"mods/both.jar".to_string()));
}

#[test]
fn prune_removes_only_unknown_paths() {
    let mut ov = OverrideSet::new();
    ov.insert("config/keep.toml".to_string(), b"x".to_vec());
    let m = manager(vec![declared("mods/a.jar", &["u1"], None)], ov, true);
    assert_eq!(PRUNE_ROOTS, 3);
    assert_eq!(prune_root(0), "mods");
    assert_eq!(prune_root(1), "resourcepacks");
    assert_eq!(prune_root(2), "config");
    let mods = vec!["mods/a.jar".to_string(), "mods/old.jar".to_string(), "mods/a.jar.bak".to_string()];
    let config = vec!["config/keep.toml".to_string(), "config/stale.toml".to_string()];
    let actions = drive(
        &m,
        vec![
            Event::Succeeded,
            // the declared file is on disk but corrupt: it is repaired, never pruned
            Event::Contents(b"corrupt".to_vec()),
            Event::Succeeded,
            Event::Succeeded,
            Event::Succeeded,
            Event::Succeeded,
            Event::Listing(mods),
            Event::Succeeded,
            Event::Succeeded,
            Event::Listing(vec![]),
            Event::Listing(config),
            Event::Succeeded,
        ],
    );
    assert_eq!(
        actions,
        vec![
            Action::ReadLocal { file: 0 },
            Action::DeleteLocal { file: 0 },
            Action::CreateParent { file: 0 },
            Action::Fetch { file: 0, mirror: 0 },
            Action::WriteOverride { entry: 0 },
            Action::ListTree { root: 0 },
            Action::PruneFile { entry: 1 },
            Action::PruneFile { entry: 2 },
            Action::ListTree { root: 1 },
            Action::ListTree { root: 2 },
            Action::PruneFile { entry: 1 },
            Action::Done,
        ]
    );
}

#[test]
fn prune_delete_failure_is_reported() {
    let m = manager(vec![], OverrideSet::new(), true);
    let actions = drive(&m, vec![Event::Succeeded, Event::Listing(vec!["mods/x.jar".to_string()]), Event::Failed]);
    assert_eq!(
        actions,
        vec![Action::ListTree { root: 0 }, Action::PruneFile { entry: 0 }, Action::Fail { error: FileError::DeleteFailed }]
    );
}

#[test]
fn without_prune_run_ends_after_overrides() {
    let mut ov = OverrideSet::new();
    ov.insert("config/a.toml".to_string(), b"a".to_vec());
    let m = manager(vec![], ov, false);
    let actions = drive(&m, vec![Event::Succeeded, Event::Succeeded]);
    assert_eq!(actions, vec![Action::WriteOverride { entry: 0 }, Action::Done]);
    let failed = drive(&m, vec![Event::Succeeded, Event::Failed]);
    assert_eq!(failed[1], Action::Fail { error: FileError::IOError });
}

fn entry(name: &str, content: &[u8]) -> ArchiveEntry {
    ArchiveEntry { name: name.to_string(), is_dir: false, content: content.to_vec() }
}

#[test]
fn server_overrides_win() {
    let entries = vec![
        entry("server-overrides/config/a.toml", b"server"),
        entry("overrides/config/a.toml", b"generic"),
        entry("overrides/config/b.toml", b"only generic"),
        entry("modrinth.index.json", b"{}"),
        ArchiveEntry { name: "overrides/config/".to_string(), is_dir: true, content: vec![] },
        entry("overrides/", b""),
    ];
    let set = read_overrides(&entries);
    assert_eq!(set.len(), 2);
    let mut found = HashMap::new();
    for i in 0..set.len() {
        let f = set.get(i);
        found.insert(f.path.clone(), f.content.clone());
    }
    assert_eq!(found["config/a.toml"], b"server".to_vec());
    assert_eq!(found["config/b.toml"], b"only generic".to_vec());
    assert!(set.contains(&"config/a.toml".to_string()));
    assert!(!set.contains(&"config/".to_string()));
}

#[test]
fn later_override_replaces_earlier() {
    let mut set = OverrideSet::new();
    set.insert("a".to_string(), vec![1]);
    set.insert("b".to_string(), vec![2]);
    set.insert("a".to_string(), vec![3]);
    assert_eq!(set.len(), 2);
    assert_eq!(set.get(0).content, vec![3]);
    assert_eq!(set.get(1).content, vec![2]);
}

#[test]
fn override_target_strips_prefix() {
    assert_eq!(override_target("overrides/config/x.toml", "overrides/", false), Some("config/x.toml".to_string()));
    assert_eq!(override_target("overrides/config", "overrides/", true), None);
    assert_eq!(override_target("overrides/", "overrides/", false), None);
    assert_eq!(override_target("server-overrides/x", "overrides/", false), None);
    assert_eq!(override_target("überrides/x", "overrides/", false), None);
}

#[test]
fn index_entry_is_found() {
    let entries = vec![entry("overrides/a", b"a"), entry("modrinth.index.json", b"{}"), entry("modrinth.index.json", b"[]")];
    assert_eq!(find_index_entry(&entries), Some(1));
    assert_eq!(find_index_entry(&entries[..1].to_vec()), None);
}

#[test]
fn labels_and_messages() {
    assert_eq!(FileError::IOError.message(), "IO Error");
    assert_eq!(FileError::AllDownloadsFailed.message(), "All Downloads Failed");
    assert_eq!(FileError::DownloadFailed.message(), "Download Failed");
    assert_eq!(FileError::DeleteFailed.message(), "Delete Failed");
    assert_eq!(DependencyId::Minecraft.label(), "Minecraft");
    assert_eq!(DependencyId::Forge.label(), "Forge");
    assert_eq!(DependencyId::Neoforge.label(), "NeoForge");
    assert_eq!(DependencyId::FabricLoader.label(), "Fabric");
    assert_eq!(DependencyId::QuiltLoader.label(), "Quilt");
    assert_eq!(DependencyId::Other("iris".to_string()).label(), "iris");
}
