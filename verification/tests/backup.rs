use lettuce_core::json::{Json, JsonNumber};
use lettuce_core::storage::backup_plan::{
    archive_path, assemble_backup_plan, character_core_bytes, collect_attachment_storage_paths,
    database_size, group_media_flags, image_file_candidates, is_audio, is_image, media_wanted,
    parse_character_ids, resolve_scope, storage_path_target, tts_archive_name,
    tts_files_for_character, tts_owners, unassigned_tts_files, BackupArchiveFile,
    BackupCharacterSelection, BackupSelection, BackupSelectionMode, CharacterInventory, FileSet,
    MediaKind, TtsClip,
};

fn strings(items: &[&str]) -> Vec<String> {
    items.iter().map(|s| s.to_string()).collect()
}

fn sorted(mut v: Vec<String>) -> Vec<String> {
    v.sort();
    v
}

fn file(name: &str, source: &str, size: u64) -> BackupArchiveFile {
    BackupArchiveFile {
        source_path: source.to_string(),
        archive_name: name.to_string(),
        size_bytes: size,
    }
}

fn chosen(id: &str, audio: bool, images: bool) -> BackupCharacterSelection {
    BackupCharacterSelection {
        character_id: id.to_string(),
        include_audio: audio,
        include_images: images,
    }
}

#[test]
fn character_id_lists_are_read_as_sets() {
    assert_eq!(
        sorted(parse_character_ids("[\"a\",\"b\",\"a\"]")),
        strings(&["a", "b"])
    );
    assert!(parse_character_ids("not json").is_empty());
    assert!(parse_character_ids("[1]").is_empty());
}

#[test]
fn custom_scope_covers_only_known_characters_and_whole_groups() {
    let selection = BackupSelection {
        mode: BackupSelectionMode::Custom,
        characters: vec![chosen("c1", true, true), chosen("c9", true, true)],
        include_unassigned_audio: false,
    };
    let all = strings(&["c1", "c2"]);
    let sessions = vec![
        ("s1".to_string(), "c1".to_string()),
        ("s2".to_string(), "c2".to_string()),
    ];
    let group_sessions = vec![
        ("g1".to_string(), Some("gc1".to_string()), "[\"c1\"]".to_string()),
        ("g2".to_string(), None, "[\"c1\",\"c2\"]".to_string()),
        ("g3".to_string(), Some("gc3".to_string()), "[]".to_string()),
    ];
    let group_characters = vec![
        ("gc2".to_string(), "[\"c1\"]".to_string()),
        ("gc4".to_string(), "bad".to_string()),
    ];
    let scope = resolve_scope(&selection, &all, &sessions, &group_sessions, &group_characters);
    assert_eq!(scope.selected_character_ids, strings(&["c1"]));
    assert_eq!(scope.selected_session_ids, strings(&["s1"]));
    assert_eq!(scope.selected_group_session_ids, strings(&["g1"]));
    assert_eq!(
        sorted(scope.selected_group_character_ids.clone()),
        strings(&["gc1", "gc2"])
    );
    assert!(scope.includes_session("s1"));
    assert!(!scope.includes_session("s2"));
    assert!(!scope.includes_character("c2"));
    assert!(scope.includes_group_character("gc2"));
}

#[test]
fn full_scope_includes_everything() {
    let selection = BackupSelection::default();
    let scope = resolve_scope(&selection, &strings(&["c1"]), &vec![], &vec![], &vec![]);
    assert!(scope.is_full());
    assert!(scope.includes_character("anything"));
    assert!(scope.includes_group_session("g"));
    assert_eq!(scope.selected_character_ids, strings(&["c1"]));
}

#[test]
fn media_kinds_follow_the_extension() {
    assert!(is_image("avatars/c1/B.PNG"));
    assert!(is_image("x.webp"));
    assert!(!is_image(".png"));
    assert!(!is_image("dir.png/file"));
    assert!(is_audio("sessions/c1/clip.M4A"));
    assert!(!is_audio("clip.mp4"));
}

#[test]
fn archive_paths_use_forward_slashes() {
    assert_eq!(archive_path("avatars/c1", "sub\\a.png"), "avatars/c1/sub/a.png");
    assert_eq!(tts_archive_name("k.mp3"), "tts_audio/k.mp3");
}

#[test]
fn image_ids_name_candidate_files() {
    assert_eq!(
        image_file_candidates(" img1 "),
        strings(&["img1.jpg", "img1.jpeg", "img1.png", "img1.gif", "img1.webp"])
    );
    assert!(image_file_candidates("data:image/png;base64,AA").is_empty());
    assert!(image_file_candidates("a/b").is_empty());
    assert!(image_file_candidates("   ").is_empty());
}

#[test]
fn storage_paths_stay_inside_storage() {
    let generated = storage_path_target("generated_images/x.png").expect("image");
    assert!(generated.in_generated_images);
    assert_eq!(generated.relative, "x.png");
    assert_eq!(generated.archive_name, "generated_images/x.png");
    assert_eq!(generated.kind, MediaKind::Image);
    let audio = storage_path_target("sessions\\c1\\a.wav").expect("audio");
    assert!(!audio.in_generated_images);
    assert_eq!(audio.archive_name, "sessions/c1/a.wav");
    assert_eq!(audio.kind, MediaKind::Audio);
    assert!(storage_path_target("../x.png").is_none());
    assert!(storage_path_target("a/../x.png").is_none());
    assert!(storage_path_target("/abs.png").is_none());
    assert!(storage_path_target("notes.txt").is_none());
    assert!(storage_path_target("a..b/x.png").is_some());
}

#[test]
fn attachment_documents_yield_every_storage_path() {
    let doc = Json::Array(vec![
        Json::Object(vec![
            ("storagePath".to_string(), Json::Str("a\\b.png".to_string())),
            (
                "nested".to_string(),
                Json::Object(vec![(
                    "storage_path".to_string(),
                    Json::Str("c.wav".to_string()),
                )]),
            ),
        ]),
        Json::Object(vec![(
            "storagePath".to_string(),
            Json::Number(JsonNumber::PosInt(5)),
        )]),
        Json::Object(vec![("storagePath".to_string(), Json::Str("a/b.png".to_string()))]),
    ]);
    let mut paths = Vec::new();
    collect_attachment_storage_paths(&doc, &mut paths);
    assert_eq!(sorted(paths), strings(&["a/b.png", "c.wav"]));
}

#[test]
fn file_sets_keep_first_or_replace_by_name() {
    let mut set = FileSet::new();
    set.add_if_absent(file("images/a.png", "/first", 1));
    set.add_if_absent(file("images/a.png", "/second", 2));
    assert_eq!(set.len(), 1);
    assert_eq!(set.files()[0].source_path, "/first");
    set.add_replacing(file("images/a.png", "/third", 3));
    assert_eq!(set.files()[0].source_path, "/third");
    let mut other = FileSet::new();
    other.add_if_absent(file("audio/z.wav", "/z", 7));
    other.add_if_absent(file("images/a.png", "/fourth", 4));
    set.extend(&other);
    assert_eq!(set.len(), 2);
    assert_eq!(set.total_bytes(), 11);
    let names: Vec<String> = set.into_sorted().into_iter().map(|f| f.archive_name).collect();
    assert_eq!(names, strings(&["audio/z.wav", "images/a.png"]));
}

#[test]
fn cached_clips_go_to_their_owners_or_stay_unassigned() {
    let references = vec![
        ("k1".to_string(), "c1".to_string()),
        ("k1".to_string(), "c2".to_string()),
        ("k1".to_string(), "ghost".to_string()),
        ("k2".to_string(), "c2".to_string()),
    ];
    let all = strings(&["c1", "c2"]);
    assert_eq!(sorted(tts_owners(&references, &all, "k1")), strings(&["c1", "c2"]));
    assert!(tts_owners(&references, &all, "k3").is_empty());
    let clips = vec![
        TtsClip {
            file: file("tts_audio/k1.mp3", "/k1", 10),
            owners: strings(&["c1", "c2"]),
        },
        TtsClip {
            file: file("tts_audio/k3.mp3", "/k3", 5),
            owners: vec![],
        },
    ];
    assert_eq!(tts_files_for_character(&clips, "c1").len(), 1);
    assert_eq!(tts_files_for_character(&clips, "c3").len(), 0);
    let unassigned = unassigned_tts_files(&clips);
    assert_eq!(unassigned.len(), 1);
    assert_eq!(unassigned.files()[0].archive_name, "tts_audio/k3.mp3");
}

#[test]
fn sizes_clamp_and_saturate() {
    assert_eq!(character_core_bytes(-5, 10), 8202);
    assert_eq!(character_core_bytes(i64::MAX, i64::MAX), u64::MAX);
    assert_eq!(database_size(10, 4096), 40960);
    assert_eq!(database_size(-1, 4096), 0);
    assert_eq!(database_size(i64::MAX, i64::MAX), u64::MAX);
}

#[test]
fn group_media_follow_any_member_selection() {
    let selection = BackupSelection {
        mode: BackupSelectionMode::Custom,
        characters: vec![chosen("c1", false, true), chosen("c2", true, false), chosen("c1", false, false)],
        include_unassigned_audio: true,
    };
    assert_eq!(group_media_flags(&selection, "[\"c1\"]"), (false, false));
    assert_eq!(group_media_flags(&selection, "[\"c1\",\"c2\"]"), (false, true));
    assert_eq!(group_media_flags(&selection, "oops"), (false, false));
}

fn inventory(id: &str, core: u64, images: Vec<BackupArchiveFile>, audio: Vec<BackupArchiveFile>) -> CharacterInventory {
    let mut image_set = FileSet::new();
    for f in images {
        image_set.add_if_absent(f);
    }
    let mut audio_set = FileSet::new();
    for f in audio {
        audio_set.add_if_absent(f);
    }
    CharacterInventory {
        id: id.to_string(),
        name: format!("Name {id}"),
        avatar_path: None,
        core_bytes: core,
        images: image_set,
        audio: audio_set,
    }
}

#[test]
fn custom_plan_archives_selected_media_in_name_order() {
    let selection = BackupSelection {
        mode: BackupSelectionMode::Custom,
        characters: vec![chosen("c1", false, true)],
        include_unassigned_audio: true,
    };
    let all = strings(&["c1", "c2"]);
    let scope = resolve_scope(&selection, &all, &vec![], &vec![], &vec![]);
    let characters = vec![
        inventory(
            "c1",
            100,
            vec![file("images/z.png", "/z", 3), file("avatars/c1/a.png", "/a", 4)],
            vec![file("sessions/c1/v.wav", "/v", 50)],
        ),
        inventory("c2", 200, vec![file("images/q.png", "/q", 9)], vec![]),
    ];
    let mut unassigned = FileSet::new();
    unassigned.add_if_absent(file("tts_audio/u.mp3", "/u", 6));
    let plan = assemble_backup_plan(
        selection,
        scope,
        characters,
        999,
        FileSet::new(),
        unassigned,
        FileSet::new(),
    );
    let names: Vec<&str> = plan.files.iter().map(|f| f.archive_name.as_str()).collect();
    assert_eq!(names, vec!["avatars/c1/a.png", "images/z.png", "tts_audio/u.mp3"]);
    assert_eq!(plan.estimate.data_bytes, 100 + 262144);
    assert_eq!(plan.estimate.resource_bytes, 13);
    assert_eq!(plan.estimate.unassigned_audio_bytes, 6);
    assert_eq!(plan.estimate.total_bytes, 100 + 262144 + 13);
    assert_eq!(plan.estimate.total_files, 3);
    assert_eq!(plan.estimate.characters.len(), 2);
    assert_eq!(plan.estimate.characters[0].image_bytes, 7);
    assert_eq!(plan.estimate.characters[0].audio_bytes, 50);
    assert_eq!(plan.estimate.characters[0].total_bytes, 157);
    assert_eq!(plan.estimate.characters[1].core_bytes, 200);
}

#[test]
fn full_plan_takes_every_resource_and_the_database() {
    let selection = BackupSelection::default();
    let scope = resolve_scope(&selection, &strings(&["c1"]), &vec![], &vec![], &vec![]);
    let mut full = FileSet::new();
    full.add_if_absent(file("sessions/x.png", "/x", 1));
    full.add_if_absent(file("images/y.png", "/y", 2));
    let plan = assemble_backup_plan(
        selection,
        scope,
        vec![inventory("c1", 5, vec![], vec![])],
        4096,
        full,
        FileSet::new(),
        FileSet::new(),
    );
    let names: Vec<&str> = plan.files.iter().map(|f| f.archive_name.as_str()).collect();
    assert_eq!(names, vec!["images/y.png", "sessions/x.png"]);
    assert_eq!(plan.estimate.data_bytes, 4096);
    assert_eq!(plan.estimate.total_bytes, 4099);
}

#[test]
fn group_files_follow_their_media_kind() {
    assert!(media_wanted(MediaKind::Image, true, false));
    assert!(!media_wanted(MediaKind::Audio, true, false));
    assert!(media_wanted(MediaKind::Audio, false, true));
    assert!(!media_wanted(MediaKind::Image, false, true));
}
