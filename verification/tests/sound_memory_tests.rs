use ddnet_core::sound_memory::{hash_eq, SoundHash, MemoryAllocatorInner};

fn hash_of(b: u8) -> SoundHash {
    let mut h = [0u8; 32];
    h[31] = b;
    h
}

#[test]
fn ids_count_up() {
    let mut m: MemoryAllocatorInner<String> = MemoryAllocatorInner::new();
    assert_eq!(m.next_id(), 0);
    assert_eq!(m.next_id(), 1);
    assert_eq!(m.next_id(), 2);
}

#[test]
fn flushed_data_by_id() {
    let mut m: MemoryAllocatorInner<String> = MemoryAllocatorInner::new();
    assert!(!m.contains(&3));
    m.add(3, "three".to_string());
    assert!(m.contains(&3));
    assert_eq!(m.remove(&3), Some("three".to_string()));
    assert!(!m.contains(&3));
    assert_eq!(m.remove(&3), None);
}

#[test]
fn hashed_sound_is_counted_and_dropped_by_the_last_holder() {
    let mut m: MemoryAllocatorInner<String> = MemoryAllocatorInner::new();
    let h = hash_of(1);
    m.add_hashed(h, "first".to_string());
    m.add_hashed(h, "second".to_string());
    assert_eq!(m.holder_count(&h), 2);
    m.remove_hashed(&h);
    assert_eq!(m.holder_count(&h), 1);
    m.remove_hashed(&h);
    assert_eq!(m.holder_count(&h), 0);
    // letting go of a sound that is not held changes nothing
    m.remove_hashed(&h);
    assert_eq!(m.holder_count(&h), 0);
}

#[test]
fn get_or_add_decodes_once() {
    let mut m: MemoryAllocatorInner<String> = MemoryAllocatorInner::new();
    let h = hash_of(7);
    let first: Result<String, String> = m.get_or_add(h, || Ok("decoded".to_string()));
    assert_eq!(first, Ok("decoded".to_string()));
    assert_eq!(m.holder_count(&h), 1);
    // the kept data is handed out again; decoding is not asked for
    let second: Result<String, String> = m.get_or_add(h, || Err("not called".to_string()));
    assert_eq!(second, Ok("decoded".to_string()));
    assert_eq!(m.holder_count(&h), 2);
}

#[test]
fn get_or_add_error_changes_nothing() {
    let mut m: MemoryAllocatorInner<String> = MemoryAllocatorInner::new();
    let h = hash_of(9);
    let r: Result<String, String> = m.get_or_add(h, || Err("bad ogg".to_string()));
    assert_eq!(r, Err("bad ogg".to_string()));
    assert_eq!(m.holder_count(&h), 0);
}

#[test]
fn hashes_are_told_apart() {
    assert!(hash_eq(&hash_of(1), &hash_of(1)));
    assert!(!hash_eq(&hash_of(1), &hash_of(2)));
    let mut other = hash_of(1);
    other[0] = 5;
    assert!(!hash_eq(&hash_of(1), &other));
    let mut m: MemoryAllocatorInner<u32> = MemoryAllocatorInner::new();
    m.add_hashed(hash_of(1), 10);
    m.add_hashed(other, 20);
    assert_eq!(m.holder_count(&hash_of(1)), 1);
    assert_eq!(m.holder_count(&other), 1);
}
