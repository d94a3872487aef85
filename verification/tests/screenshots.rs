use ddnet_core::network_string::{NetworkString, PoolNetworkString};
use ddnet_core::pool::Recycle;

/// The screenshot scenarios (HUD, scoreboard, spectator selection, ...)
/// hand the renderers characters whose account name and browser score are
/// pooled network strings that belong to no pool. Drawing them needs the
/// graphics backend, which is not part of this library; this prepares the
/// same per-character strings the scenarios build.
#[test]
fn create_screenshots() {
    let mut characters = Vec::new();
    for _ in 0..20 {
        let browser_score: PoolNetworkString<32> = Recycle::without_pool(NetworkString::empty());
        let account_name: PoolNetworkString<32> =
            Recycle::without_pool(NetworkString::try_from_str("testname").unwrap());
        characters.push((browser_score, Some(account_name)));
    }
    assert_eq!(characters.len(), 20);
    for (score, name) in &characters {
        assert!(!score.is_pooled());
        assert_eq!(score.item().as_str(), "");
        assert_eq!(name.as_ref().unwrap().item().as_str(), "testname");
    }
}
