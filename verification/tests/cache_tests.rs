use crunchyroll_stats::cache::{AppCache, CacheEntry, HISTORY_TTL, PROFILE_TTL};
use crunchyroll_stats::models::{HistoryEntry, Image, Profile};

fn entry(id: &str, title: &str) -> HistoryEntry {
    HistoryEntry {
        id: id.to_string(),
        media_type: "episode".to_string(),
        content_id: Some("E1".to_string()),
        series_id: Some("S1".to_string()),
        movie_listing_id: None,
        title: title.to_string(),
        episode_title: Some("Pilot".to_string()),
        watched_at: Some("2024-01-01T00:00:00+00:00".to_string()),
        playhead: Some(12),
        duration_ms: Some(1_440_000),
        images: vec![Image { source: "https://img/1.jpg".to_string(), width: 640 }],
        genres: vec!["Action".to_string()],
    }
}

fn profile(name: &str) -> Profile {
    Profile {
        profile_id: "P1".to_string(),
        username: "user".to_string(),
        profile_name: name.to_string(),
        avatar: "avatar.png".to_string(),
        maturity_rating: "M3".to_string(),
        is_primary: true,
    }
}

#[test]
fn cache_key_is_hex_sha256_of_the_identifier() {
    assert_eq!(
        AppCache::cache_key("abc"),
        "ba7816bf8f01cfea414140de5dae2223b00361a396177a9cb410ff61f20015ad"
    );
    assert_eq!(
        AppCache::cache_key("user@example.com"),
        "b4c9a289323b21a01c3e940f150eb9b8c542587f1abfd8f0e1cc1ffc5e475514"
    );
    assert_eq!(
        AppCache::cache_key(""),
        "e3b0c44298fc1c149afbf4c8996fb92427ae41e4649b934ca495991b7852b855"
    );
}

#[test]
fn cache_key_hashes_utf8_bytes() {
    assert_eq!(
        AppCache::cache_key("héllo@example.com"),
        "b2fb354d17f5658518d94e0a6fa7ad9b8dac1a60f453ec26f436e432765ecdfb"
    );
}

#[test]
fn cache_key_is_deterministic_and_separates_identifiers() {
    let a = AppCache::cache_key("user@example.com");
    let b = AppCache::cache_key("user@example.com");
    let c = AppCache::cache_key("other@example.com");
    assert_eq!(a, b);
    assert_ne!(a, c);
    assert_eq!(c, "5b71ed5f946240dc76f3b7c24bdcbbc3528284ec5f4519249fb702686f0df5b8");
    assert_eq!(a.len(), 64);
    assert!(!a.contains("user"));
}

#[test]
fn entry_expires_only_after_its_ttl() {
    let e = CacheEntry { data: 7u8, inserted_at: 1_000, ttl: 50 };
    assert!(!e.is_expired(1_000));
    assert!(!e.is_expired(1_049));
    assert!(!e.is_expired(1_050));
    assert!(e.is_expired(1_051));
    assert!(!e.is_expired(10));
}

#[test]
fn ttl_constants() {
    assert_eq!(HISTORY_TTL, 600_000_000_000);
    assert_eq!(PROFILE_TTL, 1_800_000_000_000);
}

#[test]
fn history_is_served_until_the_ttl_boundary() {
    let mut cache = AppCache::new();
    let key = AppCache::cache_key("user@example.com");
    cache.set_history_at(key.clone(), vec![entry("item-0", "Show")], 1_000);

    let just_before = cache.get_history_at(&key, 1_000 + HISTORY_TTL - 1).unwrap();
    assert_eq!(just_before.len(), 1);
    assert_eq!(just_before[0].title, "Show");
    assert_eq!(just_before[0].id, "item-0");
    assert_eq!(just_before[0].images[0].width, 640);
    assert_eq!(just_before[0].genres, vec!["Action".to_string()]);

    assert!(cache.get_history_at(&key, 1_000 + HISTORY_TTL).is_some());
    assert!(cache.get_history_at(&key, 1_000 + HISTORY_TTL + 1).is_none());
    assert!(cache.get_history_at(&key, 0).is_some());
}

#[test]
fn expired_history_is_not_removed_by_reading() {
    let mut cache = AppCache::new();
    cache.set_history_at("k".to_string(), vec![entry("item-0", "Show")], 5);
    assert!(cache.get_history_at("k", 5 + HISTORY_TTL + 1).is_none());
    assert!(cache.get_history_at("k", 5 + HISTORY_TTL).is_some());
}

#[test]
fn absent_key_gives_none() {
    let cache = AppCache::new();
    assert!(cache.get_history_at("missing", 0).is_none());
    assert!(cache.get_profile_at("missing", 0).is_none());
    assert!(cache.get_history("missing").is_none());
    assert!(cache.get_profile("missing").is_none());
}

#[test]
fn set_history_overwrites_and_restarts_the_clock() {
    let mut cache = AppCache::new();
    cache.set_history_at("k".to_string(), vec![entry("item-0", "Old")], 0);
    cache.set_history_at("k".to_string(), vec![entry("item-0", "New"), entry("item-1", "Newer")], HISTORY_TTL);
    let got = cache.get_history_at("k", HISTORY_TTL + 10).unwrap();
    assert_eq!(got.len(), 2);
    assert_eq!(got[0].title, "New");
    assert_eq!(got[1].title, "Newer");
    assert!(cache.get_history_at("k", 2 * HISTORY_TTL + 1).is_none());
}

#[test]
fn profile_is_served_until_the_ttl_boundary() {
    let mut cache = AppCache::new();
    cache.set_profile_at("k".to_string(), profile("Main"), 100);
    let got = cache.get_profile_at("k", 100 + PROFILE_TTL).unwrap();
    assert_eq!(got.profile_name, "Main");
    assert_eq!(got.profile_id, "P1");
    assert!(got.is_primary);
    assert!(cache.get_profile_at("k", 100 + PROFILE_TTL + 1).is_none());
}

#[test]
fn history_and_profiles_are_separate_tables() {
    let mut cache = AppCache::new();
    cache.set_history_at("k".to_string(), vec![entry("item-0", "Show")], 0);
    assert!(cache.get_profile_at("k", 0).is_none());
    cache.set_profile_at("p".to_string(), profile("Main"), 0);
    assert!(cache.get_history_at("p", 0).is_none());
    assert!(cache.get_history_at("k", 0).is_some());
    assert!(cache.get_history_at("k", HISTORY_TTL + 1).is_none());
    assert!(cache.get_profile_at("p", HISTORY_TTL + 1).is_some());
}

#[test]
fn live_clock_serves_what_was_just_stored() {
    let mut cache = AppCache::new();
    cache.set_history("k".to_string(), vec![entry("item-0", "Show")]);
    cache.set_profile("k".to_string(), profile("Main"));
    assert_eq!(cache.get_history("k").unwrap()[0].title, "Show");
    assert_eq!(cache.get_profile("k").unwrap().profile_name, "Main");
}

#[test]
fn clones_keep_every_field() {
    let e = entry("item-3", "Show");
    let c = e.clone();
    assert_eq!(c.id, "item-3");
    assert_eq!(c.media_type, "episode");
    assert_eq!(c.content_id, Some("E1".to_string()));
    assert_eq!(c.series_id, Some("S1".to_string()));
    assert_eq!(c.movie_listing_id, None);
    assert_eq!(c.title, "Show");
    assert_eq!(c.episode_title, Some("Pilot".to_string()));
    assert_eq!(c.watched_at, Some("2024-01-01T00:00:00+00:00".to_string()));
    assert_eq!(c.playhead, Some(12));
    assert_eq!(c.duration_ms, Some(1_440_000));
    assert_eq!(c.images.len(), 1);
    assert_eq!(c.images[0].source, "https://img/1.jpg");
    assert_eq!(c.genres, vec!["Action".to_string()]);
    let p = profile("Main").clone();
    assert_eq!(p.username, "user");
    assert_eq!(p.avatar, "avatar.png");
    assert_eq!(p.maturity_rating, "M3");
}

#[test]
fn thumbnail_is_the_widest_image() {
    let mut e = entry("item-0", "Show");
    assert_eq!(e.thumbnail(), Some("https://img/1.jpg".to_string()));
    e.images = vec![
        Image { source: "a".to_string(), width: 100 },
        Image { source: "b".to_string(), width: 300 },
        Image { source: "c".to_string(), width: 200 },
        Image { source: "d".to_string(), width: 300 },
        Image { source: "e".to_string(), width: 10 },
    ];
    assert_eq!(e.thumbnail(), Some("d".to_string()));
    e.images = Vec::new();
    assert_eq!(e.thumbnail(), None);
}
