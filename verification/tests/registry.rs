use exchange::{Amount, Client, ExchangeError, Registry};

#[test]
fn a_new_client_has_no_funds() {
    let client = Client::new(42);
    assert_eq!(client.id, 42);
    assert_eq!(client.available, Amount::zero());
    assert_eq!(client.held, Amount::zero());
    assert_eq!(client.total, Amount::zero());
    assert!(!client.locked);
    assert_eq!(client.total.scale(), 0);
}

#[test]
fn get_does_not_create() {
    let mut registry = Registry::new();
    assert!(registry.get(&1).is_none());
    assert!(registry.clients.is_empty());
}

#[test]
fn get_mut_creates_the_client() {
    let mut registry = Registry::new();
    let client = registry.get_mut(&5).unwrap();
    assert_eq!(*client, Client::new(5));
    client.held = Amount::new(3, 0);
    assert_eq!(registry.get(&5).unwrap().held, Amount::new(3, 0));
    assert_eq!(registry.get_mut(&5).unwrap().held, Amount::new(3, 0));
    assert_eq!(registry.clients.len(), 1);
}

#[test]
fn get_mut_refuses_a_locked_client() {
    let mut registry = Registry::new();
    let mut client = Client::new(5);
    client.total = Amount::new(9, 0);
    client.locked = true;
    assert_eq!(registry.register(client), None);
    assert_eq!(registry.get_mut(&5), Err(ExchangeError::Locked(client)));
    assert_eq!(registry.get(&5), Some(&client));
    assert_eq!(registry.clients.len(), 1);
}

#[test]
fn register_replaces_and_returns_the_previous_account() {
    let mut registry = Registry::new();
    let first = Client::new(1);
    let mut second = Client::new(1);
    second.available = Amount::new(10, 0);
    second.total = Amount::new(10, 0);
    assert_eq!(registry.register(first), None);
    assert_eq!(registry.register(second), Some(first));
    assert_eq!(registry.get(&1), Some(&second));
    assert_eq!(registry.register(Client::new(2)), None);
    assert_eq!(registry.clients.len(), 2);
}

#[test]
fn iter_gives_every_account_once() {
    let mut registry = Registry::new();
    assert!(registry.iter().is_empty());
    for id in [9, 2, 500] {
        let mut client = Client::new(id);
        client.total = Amount::new(id as i64, 0);
        registry.register(client);
    }
    registry.get_mut(&2).unwrap().held = Amount::new(1, 0);
    let mut all = registry.iter();
    all.sort_by_key(|client| client.id);
    assert_eq!(all.len(), 3);
    assert_eq!((all[0].id, all[0].total, all[0].held), (2, Amount::new(2, 0), Amount::new(1, 0)));
    assert_eq!((all[1].id, all[1].total), (9, Amount::new(9, 0)));
    assert_eq!((all[2].id, all[2].total), (500, Amount::new(500, 0)));
}
