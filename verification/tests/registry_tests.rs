use thread2channel::command::{parse_command, ControlCommand};
use thread2channel::error::NotBound;
use thread2channel::registry::{Mapping, MappingRegistry};

const HOOK: &str = "https://discord.com/api/webhooks/1/t";

#[test]
fn new_registry_is_empty() {
    let registry = MappingRegistry::new();
    assert_eq!(registry.len(), 0);
    assert_eq!(registry.lookup(111), None);
    assert_eq!(registry.get_target_channel(111), None);
}

#[test]
fn bind_then_lookup() {
    let mut registry = MappingRegistry::new();
    registry.bind(111, 222, true);
    assert_eq!(registry.len(), 1);
    assert_eq!(
        registry.lookup(111),
        Some(Mapping {
            source_id: 111,
            destination_id: 222,
            backfill_on_demand: true,
            impersonation_endpoint: None,
        })
    );
    assert_eq!(registry.get_target_channel(111), Some(222));
    assert_eq!(registry.lookup(222), None);
}

#[test]
fn bind_replaces_the_mapping_of_a_source() {
    let mut registry = MappingRegistry::new();
    registry.bind(111, 222, true);
    assert_eq!(registry.set_transport(111, String::from(HOOK)), Ok(()));
    registry.bind(111, 333, false);
    assert_eq!(registry.len(), 1);
    assert_eq!(
        registry.lookup(111),
        Some(Mapping {
            source_id: 111,
            destination_id: 333,
            backfill_on_demand: false,
            impersonation_endpoint: None,
        })
    );
}

#[test]
fn many_sources_may_share_a_destination() {
    let mut registry = MappingRegistry::new();
    registry.bind(1, 9, false);
    registry.bind(2, 9, false);
    registry.bind(3, 9, true);
    assert_eq!(registry.len(), 3);
    assert_eq!(registry.get_target_channel(1), Some(9));
    assert_eq!(registry.get_target_channel(2), Some(9));
    assert_eq!(registry.get_target_channel(3), Some(9));
}

#[test]
fn set_transport_needs_a_mapping() {
    let mut registry = MappingRegistry::new();
    registry.bind(1, 9, false);
    assert_eq!(registry.set_transport(111, String::from(HOOK)), Err(NotBound { source_id: 111 }));
    assert_eq!(registry.len(), 1);
    assert_eq!(registry.lookup(111), None);
    assert_eq!(registry.lookup(1).unwrap().impersonation_endpoint, None);
}

#[test]
fn set_transport_adds_and_replaces_the_endpoint() {
    let mut registry = MappingRegistry::new();
    registry.bind(111, 222, true);
    assert_eq!(registry.set_transport(111, String::from(HOOK)), Ok(()));
    assert_eq!(
        registry.lookup(111),
        Some(Mapping {
            source_id: 111,
            destination_id: 222,
            backfill_on_demand: true,
            impersonation_endpoint: Some(String::from(HOOK)),
        })
    );
    assert_eq!(registry.set_transport(111, String::from("https://discord.com/api/webhooks/2/u")), Ok(()));
    assert_eq!(
        registry.lookup(111).unwrap().impersonation_endpoint,
        Some(String::from("https://discord.com/api/webhooks/2/u"))
    );
    assert_eq!(registry.len(), 1);
}

#[test]
fn insert_files_a_mapping_under_its_source() {
    let mut registry = MappingRegistry::new();
    let mapping = Mapping {
        source_id: 5,
        destination_id: 6,
        backfill_on_demand: false,
        impersonation_endpoint: Some(String::from(HOOK)),
    };
    registry.insert(mapping.clone());
    assert_eq!(registry.lookup(5), Some(mapping));
    assert_eq!(registry.lookup(6), None);
}

#[test]
fn lookup_is_a_snapshot() {
    let mut registry = MappingRegistry::new();
    registry.bind(111, 222, false);
    let before = registry.lookup(111).unwrap();
    registry.bind(111, 333, true);
    assert_eq!(before.destination_id, 222);
    assert_eq!(registry.lookup(111).unwrap().destination_id, 333);
}

#[test]
fn commands_that_stand_alone() {
    assert_eq!(parse_command("!all"), Some(ControlCommand::TriggerBackfill));
    assert_eq!(parse_command("  !all\n"), Some(ControlCommand::TriggerBackfill));
    assert_eq!(parse_command("!start"), Some(ControlCommand::AutoBackfill));
    assert_eq!(parse_command("\t!start "), Some(ControlCommand::AutoBackfill));
}

#[test]
fn text_that_is_not_a_command() {
    assert_eq!(parse_command(""), None);
    assert_eq!(parse_command("hi"), None);
    assert_eq!(parse_command("!ALL"), None);
    assert_eq!(parse_command("!all now"), None);
    assert_eq!(parse_command("say !all"), None);
    assert_eq!(parse_command("!allx"), None);
    assert_eq!(parse_command("! all"), None);
    assert_eq!(parse_command("!start all"), None);
    assert_eq!(parse_command("!unknown 1"), None);
}

#[test]
fn bind_command() {
    assert_eq!(
        parse_command("!thread2channel 222"),
        Some(ControlCommand::Bind { destination_id: 222, backfill_on_demand: false })
    );
    assert_eq!(
        parse_command("!thread2channel 222 all"),
        Some(ControlCommand::Bind { destination_id: 222, backfill_on_demand: true })
    );
    assert_eq!(
        parse_command("  !thread2channel \t 1350283354309660672   all  "),
        Some(ControlCommand::Bind { destination_id: 1_350_283_354_309_660_672, backfill_on_demand: true })
    );
}

#[test]
fn bind_command_with_bad_arguments() {
    assert_eq!(parse_command("!thread2channel"), None);
    assert_eq!(parse_command("!thread2channel abc"), None);
    assert_eq!(parse_command("!thread2channel 222 everything"), None);
    assert_eq!(parse_command("!thread2channel 222 all all"), None);
    assert_eq!(parse_command("!thread2channel all 222"), None);
    assert_eq!(parse_command("!thread2channel222"), None);
    assert_eq!(parse_command("!thread2channel 18446744073709551616"), None);
}

#[test]
fn set_webhook_command() {
    assert_eq!(
        parse_command("!set_webhook https://discord.com/api/webhooks/1/t"),
        Some(ControlCommand::SetTransport { endpoint: String::from(HOOK) })
    );
    assert_eq!(
        parse_command(" !set_webhook   not-an-address "),
        Some(ControlCommand::SetTransport { endpoint: String::from("not-an-address") })
    );
    assert_eq!(parse_command("!set_webhook"), None);
    assert_eq!(parse_command("!set_webhook a b"), None);
    assert_eq!(parse_command("!set_webhookx"), None);
}
