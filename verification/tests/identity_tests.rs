use chatbridge::identity::unit_name_for;
use chatbridge::identity::ServiceIdentity;

#[test]
fn unit_name_wraps_the_instance_name() {
    assert_eq!(
        unit_name_for(b"survival"),
        b"minecraft-server@survival.service".to_vec(),
    );
    assert_eq!(unit_name_for(b""), b"minecraft-server@.service".to_vec());
}

#[test]
fn identities_compare_by_chat() {
    assert_eq!(ServiceIdentity { chat_id: 5 }, ServiceIdentity { chat_id: 5 });
    assert_ne!(ServiceIdentity { chat_id: 5 }, ServiceIdentity { chat_id: 6 });
}
