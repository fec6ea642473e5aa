use komorebi::component::Components;
use komorebi::world::World;

#[test]
fn registering_twice_returns_the_same_identity() {
    let mut c = Components::new();
    let first = c.init_non_send(7, String::from("Position"));
    let second = c.init_non_send(7, String::from("Position"));
    assert_eq!(first, second);
    assert_eq!(first.index(), 0);
}

#[test]
fn distinct_types_get_distinct_dense_identities() {
    let mut c = Components::new();
    let position = c.init_non_send(7, String::from("Position"));
    let velocity = c.init_non_send(8, String::from("Velocity"));
    let health = c.init_non_send(9, String::from("Health"));
    assert_ne!(position, velocity);
    assert_ne!(velocity, health);
    assert_ne!(position, health);
    assert_eq!(position.index(), 0);
    assert_eq!(velocity.index(), 1);
    assert_eq!(health.index(), 2);
    assert_eq!(c.init_non_send(8, String::from("Velocity")).index(), 1);
}

#[test]
fn descriptor_records_the_registration_name() {
    let mut c = Components::new();
    let id = c.init_non_send(42, String::from("Sprite"));
    assert_eq!(c.descriptor_of(id).name(), &String::from("Sprite"));
    let again = c.init_non_send(42, String::from("Other"));
    assert_eq!(again, id);
    assert_eq!(c.descriptor_of(id).name(), &String::from("Sprite"));
}

#[test]
fn world_owns_a_fresh_registry() {
    let mut w = World::new();
    let id = w.components.init_non_send(1, String::from("Position"));
    assert_eq!(id.index(), 0);
    w.insert_non_send_resource(5i64);
}
