use anonpaste::cache::{cache_policy, CachePolicy};
use anonpaste::error::Error;
use anonpaste::limiter::AdmissionController;
use anonpaste::paste::{CreatePaste, Paste, PasteStore, UpdatePaste};

#[test]
fn fetch_paste() {
    let mut store = PasteStore::new();
    Paste::create(
        &mut store,
        CreatePaste {
            id: "test-id".to_string(),
            content: "Hello".to_string(),
            expiry_time: None,
            expiry_views: None,
        },
    )
    .unwrap();

    let paste = Paste::view(&mut store, "test-id".to_string(), 0).unwrap();
    assert_eq!(
        paste,
        Paste {
            id: "test-id".to_string(),
            content: "Hello".to_string(),
            expiry_time: None,
            expiry_views: None,
        }
    );
}

#[test]
fn fetch_paste_not_found() {
    let mut store = PasteStore::new();
    let err = Paste::view(&mut store, "test-id".to_string(), 0).unwrap_err();
    assert_eq!(err, Error::NotFound);
    assert_eq!(err.status_code(), 404);
}

#[test]
fn fetch_paste_expiry_views() {
    let mut store = PasteStore::new();
    Paste::create(
        &mut store,
        CreatePaste {
            id: "test-id".to_string(),
            content: "Hello".to_string(),
            expiry_time: None,
            expiry_views: Some(1),
        },
    )
    .unwrap();

    let paste = Paste::view(&mut store, "test-id".to_string(), 0).unwrap();
    assert_eq!(
        paste,
        Paste {
            id: "test-id".to_string(),
            content: "Hello".to_string(),
            expiry_time: None,
            expiry_views: Some(1),
        }
    );

    let err = Paste::view(&mut store, "test-id".to_string(), 0).unwrap_err();
    assert_eq!(err, Error::NotFound);
}

#[test]
fn create_paste() {
    let mut store = PasteStore::new();
    let mut limiter = AdmissionController::new(4, 2);

    assert!(limiter.try_admit(&"127.0.0.1".to_string(), 0));
    Paste::create(
        &mut store,
        CreatePaste {
            id: "test-id".to_string(),
            content: "Wow".to_string(),
            expiry_time: None,
            expiry_views: None,
        },
    )
    .unwrap();

    let paste = Paste::view(&mut store, "test-id".to_string(), 0).unwrap();
    assert_eq!(
        paste,
        Paste {
            id: "test-id".to_string(),
            content: "Wow".to_string(),
            expiry_time: None,
            expiry_views: None,
        }
    );
}

#[test]
fn repeated_views_without_budget_never_mutate() {
    let mut store = PasteStore::new();
    Paste::create(
        &mut store,
        CreatePaste {
            id: "p".to_string(),
            content: "stable".to_string(),
            expiry_time: None,
            expiry_views: None,
        },
    )
    .unwrap();

    for _ in 0..10 {
        let paste = Paste::view(&mut store, "p".to_string(), 123).unwrap();
        assert_eq!(paste.content, "stable".to_string());
        assert_eq!(paste.expiry_views, None);
    }
}

#[test]
fn view_budget_counts_down_then_not_found() {
    let mut store = PasteStore::new();
    Paste::create(
        &mut store,
        CreatePaste {
            id: "p".to_string(),
            content: "burn".to_string(),
            expiry_time: None,
            expiry_views: Some(3),
        },
    )
    .unwrap();

    for remaining in [3i64, 2, 1] {
        let paste = Paste::view(&mut store, "p".to_string(), 0).unwrap();
        assert_eq!(paste.expiry_views, Some(remaining));
        assert_eq!(paste.content, "burn".to_string());
    }
    let err = Paste::view(&mut store, "p".to_string(), 0).unwrap_err();
    assert_eq!(err, Error::NotFound);
}

#[test]
fn exhausted_budget_reads_as_absent() {
    let mut store = PasteStore::new();
    Paste::create(
        &mut store,
        CreatePaste {
            id: "p".to_string(),
            content: "gone".to_string(),
            expiry_time: None,
            expiry_views: Some(0),
        },
    )
    .unwrap();
    let err = Paste::view(&mut store, "p".to_string(), 0).unwrap_err();
    assert_eq!(err, Error::NotFound);
}

#[test]
fn past_deadline_hides_whatever_the_budget() {
    let mut store = PasteStore::new();
    Paste::create(
        &mut store,
        CreatePaste {
            id: "p".to_string(),
            content: "late".to_string(),
            expiry_time: Some(100),
            expiry_views: Some(5),
        },
    )
    .unwrap();
    let err = Paste::view(&mut store, "p".to_string(), 200).unwrap_err();
    assert_eq!(err, Error::NotFound);

    let mut store2 = PasteStore::new();
    Paste::create(
        &mut store2,
        CreatePaste {
            id: "p".to_string(),
            content: "late".to_string(),
            expiry_time: Some(100),
            expiry_views: None,
        },
    )
    .unwrap();
    let err2 = Paste::view(&mut store2, "p".to_string(), 200).unwrap_err();
    assert_eq!(err2, Error::NotFound);
}

#[test]
fn the_view_that_strikes_the_deadline_still_consumes_the_budget() {
    let mut store = PasteStore::new();
    Paste::create(
        &mut store,
        CreatePaste {
            id: "p".to_string(),
            content: "x".to_string(),
            expiry_time: Some(100),
            expiry_views: Some(1),
        },
    )
    .unwrap();
    // Time-expired: the attempt reads as absent, yet the budget is spent.
    assert_eq!(
        Paste::view(&mut store, "p".to_string(), 200).unwrap_err(),
        Error::NotFound
    );
    // Even at a time before the deadline the paste is now exhausted.
    assert_eq!(
        Paste::view(&mut store, "p".to_string(), 50).unwrap_err(),
        Error::NotFound
    );
}

#[test]
fn duplicate_id_conflicts_and_keeps_original() {
    let mut store = PasteStore::new();
    Paste::create(
        &mut store,
        CreatePaste {
            id: "dup".to_string(),
            content: "first".to_string(),
            expiry_time: None,
            expiry_views: None,
        },
    )
    .unwrap();

    let err = Paste::create(
        &mut store,
        CreatePaste {
            id: "dup".to_string(),
            content: "second".to_string(),
            expiry_time: Some(1),
            expiry_views: Some(1),
        },
    )
    .unwrap_err();
    assert_eq!(err, Error::Conflict);
    assert_eq!(err.status_code(), 409);

    let paste = Paste::view(&mut store, "dup".to_string(), 0).unwrap();
    assert_eq!(paste.content, "first".to_string());
    assert_eq!(paste.expiry_time, None);
    assert_eq!(paste.expiry_views, None);
}

#[test]
fn update_of_missing_id_is_not_an_error() {
    let mut store = PasteStore::new();
    Paste::update(
        &mut store,
        "missing".to_string(),
        UpdatePaste {
            content: "new".to_string(),
            expiry_time: None,
            expiry_views: None,
        },
    )
    .unwrap();
    assert_eq!(
        Paste::view(&mut store, "missing".to_string(), 0).unwrap_err(),
        Error::NotFound
    );
}

#[test]
fn delete_of_missing_id_is_not_an_error() {
    let mut store = PasteStore::new();
    Paste::delete(&mut store, "missing".to_string()).unwrap();
}

#[test]
fn update_replaces_the_mutable_fields() {
    let mut store = PasteStore::new();
    Paste::create(
        &mut store,
        CreatePaste {
            id: "p".to_string(),
            content: "old".to_string(),
            expiry_time: None,
            expiry_views: None,
        },
    )
    .unwrap();
    Paste::update(
        &mut store,
        "p".to_string(),
        UpdatePaste {
            content: "new".to_string(),
            expiry_time: Some(1000),
            expiry_views: Some(2),
        },
    )
    .unwrap();
    let paste = Paste::view(&mut store, "p".to_string(), 500).unwrap();
    assert_eq!(paste.content, "new".to_string());
    assert_eq!(paste.expiry_time, Some(1000));
    assert_eq!(paste.expiry_views, Some(2));
}

#[test]
fn delete_removes_the_row() {
    let mut store = PasteStore::new();
    Paste::create(
        &mut store,
        CreatePaste {
            id: "p".to_string(),
            content: "x".to_string(),
            expiry_time: None,
            expiry_views: None,
        },
    )
    .unwrap();
    Paste::delete(&mut store, "p".to_string()).unwrap();
    assert_eq!(
        Paste::view(&mut store, "p".to_string(), 0).unwrap_err(),
        Error::NotFound
    );
}

#[test]
fn burn_after_reading_example() {
    let mut store = PasteStore::new();
    Paste::create(
        &mut store,
        CreatePaste {
            id: "t1".to_string(),
            content: "Hello".to_string(),
            expiry_time: None,
            expiry_views: Some(1),
        },
    )
    .unwrap();

    let paste = Paste::view(&mut store, "t1".to_string(), 0).unwrap();
    assert_eq!(
        paste,
        Paste {
            id: "t1".to_string(),
            content: "Hello".to_string(),
            expiry_time: None,
            expiry_views: Some(1),
        }
    );
    assert_eq!(cache_policy(&paste, 0), CachePolicy::NoCache);

    let err = Paste::view(&mut store, "t1".to_string(), 0).unwrap_err();
    assert_eq!(err, Error::NotFound);
    assert_eq!(err.status_code(), 404);
}

#[test]
fn cache_policy_follows_the_expiry_mode() {
    let no_expiry = Paste {
        id: "a".to_string(),
        content: "x".to_string(),
        expiry_time: None,
        expiry_views: None,
    };
    assert_eq!(
        cache_policy(&no_expiry, 1_000),
        CachePolicy::Public { max_age_secs: 3600 }
    );

    let deadline = Paste {
        id: "b".to_string(),
        content: "x".to_string(),
        expiry_time: Some(10_000),
        expiry_views: None,
    };
    assert_eq!(
        cache_policy(&deadline, 4_500),
        CachePolicy::Public { max_age_secs: 5 }
    );

    let counted = Paste {
        id: "c".to_string(),
        content: "x".to_string(),
        expiry_time: Some(10_000),
        expiry_views: Some(7),
    };
    assert_eq!(cache_policy(&counted, 4_500), CachePolicy::NoCache);
}

#[test]
fn the_policy_renders_as_a_cache_control_value() {
    assert_eq!(CachePolicy::NoCache.directive(), "no-cache".to_string());
    assert_eq!(
        CachePolicy::Public { max_age_secs: 3600 }.directive(),
        "public, max-age=3600".to_string()
    );
    assert_eq!(
        CachePolicy::Public { max_age_secs: 0 }.directive(),
        "public, max-age=0".to_string()
    );
    assert_eq!(
        CachePolicy::Public { max_age_secs: 1_000_000_007 }.directive(),
        "public, max-age=1000000007".to_string()
    );
    assert_eq!(
        CachePolicy::Public { max_age_secs: -45 }.directive(),
        "public, max-age=-45".to_string()
    );
    assert_eq!(
        CachePolicy::Public {
            max_age_secs: i64::MIN,
        }
        .directive(),
        "public, max-age=-9223372036854775808".to_string()
    );
}
