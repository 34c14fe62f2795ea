use willow_sync::keys::NamespaceSecretKey;
use willow_sync::keys::UserSecretKey;
use willow_sync::meadowcap::AccessMode;
use willow_sync::meadowcap::McCapability;
use willow_sync::meadowcap::OwnedCapability;
use willow_sync::resource::ResourceMap;

fn capability(tag: u8) -> McCapability {
    let ns = NamespaceSecretKey::from_bytes(vec![7u8; 32]);
    let user = UserSecretKey::from_bytes(vec![tag; 32]);
    McCapability::Owned(OwnedCapability::new(&ns, user.public_key(), AccessMode::Write))
}

#[test]
fn bind_assigns_handles_from_one() {
    let mut map: ResourceMap<McCapability> = ResourceMap::new();
    let h1 = map.bind(capability(1));
    let h2 = map.bind(capability(2));
    assert_eq!(h1, 1);
    assert_eq!(h2, 2);
    assert!(map.get(0).is_none());
    assert!(map.get(1).is_some());
    assert!(map.get(3).is_none());
}

#[test]
fn bind_if_new_is_idempotent() {
    let mut map: ResourceMap<McCapability> = ResourceMap::new();
    let (h1, new1) = map.bind_if_new(capability(1));
    let (h2, new2) = map.bind_if_new(capability(1));
    assert_eq!(h1, h2);
    assert!(new1);
    assert!(!new2);
    assert_eq!(map.len(), 1);

    let (h3, new3) = map.bind_if_new(capability(2));
    assert!(new3);
    assert_ne!(h3, h1);
    // and the second value is idempotent too
    let (h4, new4) = map.bind_if_new(capability(2));
    assert_eq!(h4, h3);
    assert!(!new4);
}

#[test]
fn try_get_reports_missing_resource() {
    let mut map: ResourceMap<McCapability> = ResourceMap::new();
    assert!(map.try_get(1).is_err());
    let h = map.bind(capability(1));
    assert!(map.try_get(h).is_ok());
    assert!(map.try_get(h + 1).is_err());
}
