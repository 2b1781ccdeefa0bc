use thumbor::cache::{ImageCache, CACHE_CAPACITY};

fn url(i: usize) -> String {
    format!("https://example.org/{i}.png")
}

#[test]
fn empty_cache_finds_nothing() {
    let mut cache = ImageCache::new();
    assert_eq!(cache.lookup("a"), None);
    assert_eq!(cache.lookup(""), None);
}

#[test]
fn stored_image_is_found() {
    let mut cache = ImageCache::new();
    cache.store("a", vec![1, 2]);
    cache.store("b", vec![3]);
    assert_eq!(cache.lookup("a"), Some(vec![1, 2]));
    assert_eq!(cache.lookup("b"), Some(vec![3]));
    assert_eq!(cache.lookup("ab"), None);
    assert_eq!(cache.lookup("a"), Some(vec![1, 2]));
}

#[test]
fn stored_image_replaces_the_old_one() {
    let mut cache = ImageCache::new();
    cache.store("a", vec![1]);
    cache.store("a", vec![2]);
    assert_eq!(cache.lookup("a"), Some(vec![2]));
}

#[test]
fn oldest_image_leaves_a_full_cache() {
    let mut cache = ImageCache::new();
    for i in 0..CACHE_CAPACITY {
        cache.store(&url(i), vec![i as u8]);
    }
    cache.store(&url(CACHE_CAPACITY), vec![0]);
    assert_eq!(cache.lookup(&url(0)), None);
    for i in 1..=CACHE_CAPACITY {
        assert_eq!(cache.lookup(&url(i)), Some(vec![i as u8]));
    }
}

#[test]
fn used_image_stays_in_a_full_cache() {
    assert_eq!(CACHE_CAPACITY, 1024);
    let mut cache = ImageCache::new();
    for i in 0..CACHE_CAPACITY {
        cache.store(&url(i), vec![7]);
    }
    assert!(cache.lookup(&url(0)).is_some());
    cache.store(&url(2), vec![8]);
    cache.store("new", vec![9]);
    assert_eq!(cache.lookup(&url(0)), Some(vec![7]));
    assert_eq!(cache.lookup(&url(1)), None);
    assert_eq!(cache.lookup(&url(2)), Some(vec![8]));
    assert_eq!(cache.lookup("new"), Some(vec![9]));
}
