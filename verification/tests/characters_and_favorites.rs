use mascot_render::character::{
    candidate_index_from_seed, character_skin_candidates, components,
    configured_character_name_for_status, normalize_character_name, path_search_tokens,
    resolve_character_skin_from_entries, resolve_character_skin_with_seed, searchable_path_text,
    trim_extension, zip_matches_character, CharacterError, PsdEntry, ZipEntry,
};
use mascot_render::favorite_shuffle::{
    seed_from_elapsed,
    build_playlist, current_config_key, favorite_entry_from_file, favorite_indices_for_key,
    favorites_path_for, sanitize_favorites, suppress_rotation_for_activity_text, FavoriteEntry,
    FavoriteKey, FavoriteShuffleState, PlaylistRng, ShuffleGate, FAVORITE_SHUFFLE_INTERVAL_MS,
};

fn psd(path: &str, png: Option<&str>) -> PsdEntry {
    PsdEntry { path: path.to_string(), rendered_png_path: png.map(|p| p.to_string()) }
}

fn zips() -> Vec<ZipEntry> {
    vec![
        ZipEntry {
            zip_path: "/assets/ずんだもん立ち絵.zip".to_string(),
            extracted_dir: "/cache/z1".to_string(),
            psds: vec![
                psd("/cache/z1/ずんだもん/基本.psd", Some("/cache/z1/a.png")),
                psd("/cache/z1/ずんだもん/表情.psd", None),
                psd("/cache/z1/other/四国めたん.psd", Some("/cache/z1/b.png")),
            ],
        },
        ZipEntry {
            zip_path: "/assets/めたん.zip".to_string(),
            extracted_dir: "/cache/z2".to_string(),
            psds: vec![psd("/cache/z2/ずんだもん.psd", Some("/cache/z2/c.png"))],
        },
    ]
}

#[test]
fn character_names_are_trimmed_and_must_not_be_empty() {
    assert_eq!(normalize_character_name("  ずんだもん ").ok(), Some("ずんだもん".to_string()));
    let error = normalize_character_name(" \t ").err().unwrap();
    assert!(matches!(error, CharacterError::EmptyName));
    assert_eq!(error.message(), "character_name must not be empty");
}

#[test]
fn candidates_need_the_name_in_zip_and_psd_and_a_rendered_png() {
    assert!(zip_matches_character("/assets/ずんだもん立ち絵.zip", "ずんだもん"));
    assert!(!zip_matches_character("/assets/めたん.zip", "ずんだもん"));
    let candidates = character_skin_candidates(&zips(), "ずんだもん");
    assert_eq!(candidates.len(), 1);
    assert_eq!(candidates[0].zip_path, "/assets/ずんだもん立ち絵.zip");
    assert_eq!(candidates[0].psd_path_in_zip, "ずんだもん/基本.psd");
    assert_eq!(candidates[0].png_path, "/cache/z1/a.png");
}

#[test]
fn seeds_pick_candidates_deterministically() {
    assert_eq!(candidate_index_from_seed(3, 1), 1);
    assert_eq!(candidate_index_from_seed(5, 1), 0);
    assert_eq!(candidate_index_from_seed(7, 0), 5);
    assert_eq!(candidate_index_from_seed(10, 12345), 4);
    assert_eq!(candidate_index_from_seed(4, u64::MAX), 0);
    assert_eq!(candidate_index_from_seed(1, 99), 0);
}

#[test]
fn resolution_picks_a_candidate_or_reports_none() {
    let resolved = resolve_character_skin_from_entries(&zips(), "ずんだもん", 9, "ctx").ok().unwrap();
    assert_eq!(resolved.character_name, "ずんだもん");
    assert_eq!(resolved.psd_path_in_zip, "ずんだもん/基本.psd");
    assert_eq!(resolved.png_path, "/cache/z1/a.png");
    assert_eq!(resolved.candidate_count, 1);
    assert_eq!(resolved.display_diff_path, None);

    let error = resolve_character_skin_from_entries(&zips(), "春日部つむぎ", 9, "ctx").err().unwrap();
    assert_eq!(
        error.message(),
        "no matching character skin candidates were found: requested_character=春日部つむぎ candidate_count=0 cache_context=ctx zip_entry_count=2"
    );
    let trimmed = resolve_character_skin_with_seed(&zips(), " ずんだもん ", 3, "ctx").ok().unwrap();
    assert_eq!(trimmed.character_name, "ずんだもん");
    assert!(matches!(
        resolve_character_skin_with_seed(&zips(), "  ", 3, "ctx").err().unwrap(),
        CharacterError::EmptyName
    ));
}

#[test]
fn status_names_come_from_psd_tokens_found_in_the_zip() {
    assert_eq!(components("/a//b/c.psd"), vec!["/", "a", "b", "c.psd"]);
    assert_eq!(trim_extension("body.v2.psd"), "body.v2");
    assert_eq!(trim_extension("noext"), "noext");
    assert_eq!(path_search_tokens("chars/ずんだもん.psd"), vec!["chars", "ずんだもん"]);
    assert_eq!(searchable_path_text("/a/ずんだもん.zip"), "/a/ずんだもん.zip ずんだもん.zip");
    assert_eq!(
        configured_character_name_for_status("/a/ずんだもん立ち絵.zip", "x/ずんだもん.psd"),
        Some("ずんだもん".to_string())
    );
    assert_eq!(configured_character_name_for_status("/a/z.zip", "q/r.psd"), None);
}

fn fav(zip: &str, psd: &str) -> FavoriteEntry {
    FavoriteEntry {
        zip_path: zip.to_string(),
        psd_path_in_zip: psd.to_string(),
        psd_file_name: String::new(),
        mascot_scale_bits: None,
    }
}

fn names(list: &[FavoriteEntry]) -> Vec<String> {
    list.iter().map(|f| f.zip_path.clone()).collect()
}

#[test]
fn playlist_rng_sequence() {
    let mut rng = PlaylistRng::new(1);
    assert_eq!(rng.next_u64(), 5180492295206395165);
    assert_eq!(rng.next_u64(), 12380297144915551517);
    assert_eq!(rng.next_u64(), 13389498078930870103);
    let mut zero = PlaylistRng::new(0);
    assert_eq!(zero.next_u64(), 5180492295206395165);
}

#[test]
fn playlists_are_shuffled_and_avoid_the_current_favorite_first() {
    let favorites = vec![fav("a", "p"), fav("b", "p"), fav("c", "p"), fav("d", "p")];
    assert_eq!(names(&build_playlist(&favorites, None, 7)), vec!["b", "a", "d", "c"]);
    assert_eq!(names(&build_playlist(&favorites, None, 8)), vec!["a", "b", "d", "c"]);
    assert_eq!(names(&build_playlist(&favorites, None, 3)), vec!["c", "a", "b", "d"]);
    let current = FavoriteKey { zip_path: "c".to_string(), psd_path_in_zip: "p".to_string() };
    assert_eq!(names(&build_playlist(&favorites, Some(&current), 3)), vec!["a", "c", "b", "d"]);
}

#[test]
fn shuffle_state_rotates_through_every_favorite() {
    let favorites = vec![fav("a", "p"), fav("b", "p"), fav("c", "p")];
    let mut state = FavoriteShuffleState::new_with_seed(1_000, 5);
    assert!(!state.is_due(1_000 + FAVORITE_SHUFFLE_INTERVAL_MS - 1));
    assert!(state.is_due(1_000 + FAVORITE_SHUFFLE_INTERVAL_MS));
    let current = FavoriteKey { zip_path: "a".to_string(), psd_path_in_zip: "p".to_string() };
    state.prepare_rotation(favorites.clone(), Some(&current));
    assert_eq!(state.shuffle_seed, 6);
    let mut seen = Vec::new();
    while let Some(next) = state.pop_next_candidate(Some(&current)) {
        seen.push(next.zip_path.clone());
    }
    seen.sort();
    assert_eq!(seen, vec!["b", "c"]);
    state.finish_rotation(2_000, Some(current.clone()));
    assert_eq!(state.next_rotation_at_ms, 2_000 + FAVORITE_SHUFFLE_INTERVAL_MS);
}

#[test]
fn shuffle_gate_decisions() {
    let key = || Some(FavoriteKey { zip_path: "a".to_string(), psd_path_in_zip: "p".to_string() });
    let mut state = FavoriteShuffleState::new_with_seed(0, 1);
    assert_eq!(state.begin_update(false, false, key(), 10), ShuffleGate::Idle);
    assert_eq!(state.begin_update(true, false, key(), 10), ShuffleGate::Idle);
    assert_eq!(state.next_rotation_at_ms, 10 + FAVORITE_SHUFFLE_INTERVAL_MS);
    let due = 10 + FAVORITE_SHUFFLE_INTERVAL_MS;
    assert_eq!(state.begin_update(false, true, key(), due), ShuffleGate::PausedForDisplayDiff);
    let due = due + FAVORITE_SHUFFLE_INTERVAL_MS;
    assert_eq!(state.begin_update(false, false, key(), due), ShuffleGate::Proceed);
}

#[test]
fn heartbeat_pauses_only_recent_activity() {
    assert!(suppress_rotation_for_activity_text(Some(" 100\n"), 103));
    assert!(suppress_rotation_for_activity_text(Some("100"), 105));
    assert!(!suppress_rotation_for_activity_text(Some("100"), 106));
    assert!(!suppress_rotation_for_activity_text(Some("110"), 105));
    assert!(!suppress_rotation_for_activity_text(Some("  "), 105));
    assert!(!suppress_rotation_for_activity_text(Some("soon"), 105));
    assert!(!suppress_rotation_for_activity_text(None, 105));
}

#[test]
fn favorites_are_read_and_deduplicated() {
    let entry = favorite_entry_from_file(
        "a.zip".to_string(),
        "dir/body.psd".to_string(),
        String::new(),
        Some(1.5f32.to_bits()),
    );
    assert_eq!(entry.psd_file_name, "body.psd");
    assert_eq!(entry.mascot_scale_bits, Some(1.5f32.to_bits()));
    let bad_scale = favorite_entry_from_file("a".to_string(), "b".to_string(), "n".to_string(), Some((-1.0f32).to_bits()));
    assert_eq!(bad_scale.mascot_scale_bits, None);
    assert_eq!(bad_scale.psd_file_name, "n");
    let nan = favorite_entry_from_file("a".to_string(), "b".to_string(), "n".to_string(), Some(f32::NAN.to_bits()));
    assert_eq!(nan.mascot_scale_bits, None);

    let kept = sanitize_favorites(vec![fav("a", "p"), fav("", "p"), fav("a", "p"), fav("b", "p"), fav("b", "")]);
    assert_eq!(names(&kept), vec!["a", "b"]);
}

#[test]
fn favorite_keys_and_paths() {
    assert!(current_config_key("", "p").is_none());
    assert!(current_config_key("z", "").is_none());
    let key = current_config_key("z", "p").unwrap();
    assert_eq!((key.zip_path.as_str(), key.psd_path_in_zip.as_str()), ("z", "p"));
    assert_eq!(favorites_path_for("/data"), "/data/favorites/favorites.toml");
    let keys = vec![
        FavoriteKey { zip_path: "z".to_string(), psd_path_in_zip: "p".to_string() },
        FavoriteKey { zip_path: "y".to_string(), psd_path_in_zip: "p".to_string() },
        FavoriteKey { zip_path: "z".to_string(), psd_path_in_zip: "p".to_string() },
    ];
    assert_eq!(favorite_indices_for_key(&keys, &key), vec![0, 2]);
}

#[test]
fn clock_reading_becomes_shuffle_seed() {
    assert_eq!(seed_from_elapsed(Some(42)), 42);
    assert_eq!(seed_from_elapsed(Some((1u128 << 64) + 7)), 7);
    assert_eq!(seed_from_elapsed(None), 0);
}

#[test]
fn components_of_windows_path() {
    assert_eq!(components("C:\\w\\a.psd"), vec!["C:", "\\", "w", "a.psd"]);
    assert_eq!(components("a\\b/c.psd"), vec!["a", "b", "c.psd"]);
    assert_eq!(path_search_tokens("dir\\ずんだもん.psd"), vec!["dir", "ずんだもん"]);
}
