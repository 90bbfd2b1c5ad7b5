use pallet_subnet::registry::Pallet;
use pallet_subnet::types::{Error, Event, ProviderMetadata, SubnetMetadata};

fn subnet(title: &[u8], rewards_allocation: u32) -> SubnetMetadata {
    SubnetMetadata {
        title: title.to_vec(),
        intro: b"intro".to_vec(),
        rewards_allocation,
        core_performance: 7,
        gpunet_performance: 9,
        metadata: b"extra".to_vec(),
    }
}

fn provider(name: &[u8]) -> ProviderMetadata {
    ProviderMetadata { name: name.to_vec(), resource_details: b"gpu".to_vec() }
}

const ALICE: u64 = 1;
const BOB: u64 = 2;
const CAROL: u64 = 3;

#[test]
fn create_subnet_stores_metadata() {
    let mut pallet = Pallet::new();
    let result = pallet.create_subnet(ALICE, subnet(b"net1", 100));
    assert_eq!(result, Ok(()));
    assert_eq!(pallet.subnets(ALICE), Some(&subnet(b"net1", 100)));
}

#[test]
fn create_subnet_twice_fails_and_keeps_first() {
    let mut pallet = Pallet::new();
    assert_eq!(pallet.create_subnet(ALICE, subnet(b"net1", 100)), Ok(()));
    let result = pallet.create_subnet(ALICE, subnet(b"other", 55));
    assert_eq!(result, Err(Error::SubnetAlreadyExists));
    assert_eq!(pallet.subnets(ALICE), Some(&subnet(b"net1", 100)));
    assert_eq!(pallet.events().len(), 1);
}

#[test]
fn register_provider_appends_and_emits_caller() {
    let mut pallet = Pallet::new();
    assert_eq!(pallet.create_subnet(ALICE, subnet(b"net1", 100)), Ok(()));
    let result = pallet.register_provider(BOB, ALICE, provider(b"p1"));
    assert_eq!(result, Ok(()));
    assert_eq!(pallet.providers(ALICE), vec![provider(b"p1")]);
    assert_eq!(
        pallet.events().last(),
        Some(&Event::ProviderRegistered(BOB, provider(b"p1")))
    );
}

#[test]
fn register_provider_without_subnet_fails() {
    let mut pallet = Pallet::new();
    assert_eq!(pallet.create_subnet(ALICE, subnet(b"net1", 100)), Ok(()));
    let result = pallet.register_provider(BOB, CAROL, provider(b"p2"));
    assert_eq!(result, Err(Error::SubnetNotFound));
    assert_eq!(pallet.providers(CAROL), Vec::new());
    assert_eq!(pallet.events().len(), 1);
}

#[test]
fn register_provider_gated_for_any_caller() {
    let mut pallet = Pallet::new();
    let result = pallet.register_provider(CAROL, CAROL, provider(b"p"));
    assert_eq!(result, Err(Error::SubnetNotFound));
    assert!(pallet.providers(CAROL).is_empty());
    assert!(pallet.events().is_empty());
}

#[test]
fn providers_keep_registration_order() {
    let mut pallet = Pallet::new();
    assert_eq!(pallet.create_subnet(ALICE, subnet(b"net1", 100)), Ok(()));
    assert_eq!(pallet.register_provider(BOB, ALICE, provider(b"p1")), Ok(()));
    assert_eq!(pallet.register_provider(CAROL, ALICE, provider(b"p2")), Ok(()));
    assert_eq!(pallet.register_provider(ALICE, ALICE, provider(b"p3")), Ok(()));
    assert_eq!(
        pallet.providers(ALICE),
        vec![provider(b"p1"), provider(b"p2"), provider(b"p3")]
    );
}

#[test]
fn duplicate_providers_are_permitted() {
    let mut pallet = Pallet::new();
    assert_eq!(pallet.create_subnet(ALICE, subnet(b"net1", 100)), Ok(()));
    assert_eq!(pallet.register_provider(BOB, ALICE, provider(b"p1")), Ok(()));
    assert_eq!(pallet.register_provider(BOB, ALICE, provider(b"p1")), Ok(()));
    assert_eq!(pallet.providers(ALICE), vec![provider(b"p1"), provider(b"p1")]);
}

#[test]
fn failed_calls_change_nothing() {
    let mut pallet = Pallet::new();
    assert_eq!(pallet.create_subnet(ALICE, subnet(b"net1", 100)), Ok(()));
    assert_eq!(pallet.register_provider(BOB, ALICE, provider(b"p1")), Ok(()));

    assert_eq!(
        pallet.create_subnet(ALICE, subnet(b"again", 1)),
        Err(Error::SubnetAlreadyExists)
    );
    assert_eq!(
        pallet.register_provider(BOB, CAROL, provider(b"p2")),
        Err(Error::SubnetNotFound)
    );

    assert_eq!(pallet.subnets(ALICE), Some(&subnet(b"net1", 100)));
    assert_eq!(pallet.subnets(BOB), None);
    assert_eq!(pallet.subnets(CAROL), None);
    assert_eq!(pallet.providers(ALICE), vec![provider(b"p1")]);
    assert_eq!(pallet.providers(BOB), Vec::new());
    assert_eq!(pallet.providers(CAROL), Vec::new());
    assert_eq!(
        pallet.events(),
        &vec![
            Event::SubnetCreated(ALICE, subnet(b"net1", 100)),
            Event::ProviderRegistered(BOB, provider(b"p1")),
        ]
    );
}

#[test]
fn events_record_each_success_in_order() {
    let mut pallet = Pallet::new();
    assert_eq!(pallet.create_subnet(ALICE, subnet(b"net1", 100)), Ok(()));
    assert_eq!(pallet.create_subnet(BOB, subnet(b"net2", 200)), Ok(()));
    assert_eq!(pallet.register_provider(CAROL, ALICE, provider(b"p1")), Ok(()));
    assert_eq!(
        pallet.events(),
        &vec![
            Event::SubnetCreated(ALICE, subnet(b"net1", 100)),
            Event::SubnetCreated(BOB, subnet(b"net2", 200)),
            Event::ProviderRegistered(CAROL, provider(b"p1")),
        ]
    );
}

#[test]
fn provider_registered_event_names_caller_not_owner() {
    let mut pallet = Pallet::new();
    assert_eq!(pallet.create_subnet(ALICE, subnet(b"net1", 100)), Ok(()));
    assert_eq!(pallet.register_provider(BOB, ALICE, provider(b"p1")), Ok(()));
    let event = &pallet.events()[1];
    assert_eq!(event, &Event::ProviderRegistered(BOB, provider(b"p1")));
    assert_ne!(event, &Event::ProviderRegistered(ALICE, provider(b"p1")));
}

#[test]
fn independent_accounts_do_not_interfere() {
    let mut pallet = Pallet::new();
    assert_eq!(pallet.create_subnet(ALICE, subnet(b"net1", 100)), Ok(()));
    assert_eq!(pallet.create_subnet(BOB, subnet(b"net2", 200)), Ok(()));
    assert_eq!(pallet.register_provider(ALICE, BOB, provider(b"pb")), Ok(()));
    assert_eq!(pallet.subnets(ALICE), Some(&subnet(b"net1", 100)));
    assert_eq!(pallet.subnets(BOB), Some(&subnet(b"net2", 200)));
    assert_eq!(pallet.providers(ALICE), Vec::new());
    assert_eq!(pallet.providers(BOB), vec![provider(b"pb")]);
}

#[test]
fn empty_metadata_is_accepted_unvalidated() {
    let mut pallet = Pallet::new();
    assert_eq!(pallet.create_subnet(ALICE, SubnetMetadata::default()), Ok(()));
    assert_eq!(pallet.subnets(ALICE), Some(&SubnetMetadata::default()));
    assert_eq!(
        pallet.register_provider(ALICE, ALICE, ProviderMetadata::default()),
        Ok(())
    );
    assert_eq!(pallet.providers(ALICE), vec![ProviderMetadata::default()]);
}

#[test]
fn reserved_error_kind_is_never_raised() {
    let mut pallet = Pallet::new();
    assert_eq!(pallet.create_subnet(ALICE, subnet(b"net1", 100)), Ok(()));
    let duplicate_create = pallet.create_subnet(ALICE, subnet(b"net1", 100));
    let orphan_register = pallet.register_provider(BOB, CAROL, provider(b"p"));
    let repeat_register = pallet.register_provider(BOB, ALICE, provider(b"p"));
    let repeat_again = pallet.register_provider(BOB, ALICE, provider(b"p"));
    for result in [duplicate_create, orphan_register, repeat_register, repeat_again] {
        assert_ne!(result, Err(Error::ProviderAlreadyRegistered));
    }
}

#[test]
fn fresh_registry_is_empty() {
    let pallet = Pallet::new();
    assert_eq!(pallet.subnets(ALICE), None);
    assert_eq!(pallet.providers(ALICE), Vec::new());
    assert!(pallet.events().is_empty());
}
