use macgyver_rs::cli_args::NamespaceAndService;
use macgyver_rs::logs::discovery::{
    build_log_params, first_matching, instance_selector, resolve, resolve_all, source_label,
    Entity, LogParams, TargetInventory,
};
use macgyver_rs::logs::StreamEndpoint;

fn entity(name: Option<&str>, parts: &[&str]) -> Entity {
    Entity {
        name: name.map(|n| n.to_string()),
        sub_components: parts.iter().map(|p| p.to_string()).collect(),
    }
}

fn endpoint(namespace: &str, service: &str, entity_id: &str, container_id: &str) -> StreamEndpoint {
    StreamEndpoint {
        source_label: format!("{namespace}-{service}"),
        namespace: namespace.to_string(),
        entity_id: entity_id.to_string(),
        container_id: container_id.to_string(),
    }
}

#[test]
fn source_label_joins_namespace_and_service() {
    assert_eq!(source_label("prod", "api"), "prod-api");
    assert_eq!(source_label("", ""), "-");
}

#[test]
fn selector_names_the_instance_label() {
    assert_eq!(instance_selector("prod-api"), "app.kubernetes.io/instance=prod-api");
    assert_eq!(instance_selector(""), "app.kubernetes.io/instance=");
}

#[test]
fn first_match_wins() {
    let names: Vec<String> =
        ["istio-proxy", "api", "api-sidecar"].iter().map(|s| s.to_string()).collect();
    assert_eq!(first_matching(&names, "api"), Some(1));
    assert_eq!(first_matching(&names, "sidecar"), Some(2));
    assert_eq!(first_matching(&names, "i"), Some(0));
}

#[test]
fn no_match_gives_nothing() {
    let names: Vec<String> = ["istio-proxy", "api"].iter().map(|s| s.to_string()).collect();
    assert_eq!(first_matching(&names, "worker"), None);
    assert_eq!(first_matching(&names, "API"), None);
    assert_eq!(first_matching(&Vec::new(), "api"), None);
}

#[test]
fn empty_token_matches_the_first_name() {
    let names: Vec<String> = ["a", "b"].iter().map(|s| s.to_string()).collect();
    assert_eq!(first_matching(&names, ""), Some(0));
}

#[test]
fn log_params_follow_the_first_matching_container() {
    let pod = entity(Some("api-7f9"), &["istio-proxy", "api", "api-metrics"]);
    assert_eq!(
        build_log_params(&pod, "api"),
        Some((
            "api-7f9".to_string(),
            LogParams { container: Some("api".to_string()), follow: true }
        ))
    );
}

#[test]
fn entity_without_name_is_skipped() {
    assert_eq!(build_log_params(&entity(None, &["api"]), "api"), None);
}

#[test]
fn entity_without_matching_container_is_skipped() {
    assert_eq!(build_log_params(&entity(Some("db-0"), &["postgres"]), "api"), None);
    assert_eq!(build_log_params(&entity(Some("db-0"), &[]), "api"), None);
}

#[test]
fn resolve_keeps_the_order_of_the_entities() {
    let entities = vec![
        entity(Some("api-1"), &["api"]),
        entity(None, &["api"]),
        entity(Some("db-0"), &["postgres"]),
        entity(Some("api-2"), &["proxy", "the-api", "api"]),
    ];
    assert_eq!(
        resolve("prod", "api", &entities),
        vec![endpoint("prod", "api", "api-1", "api"), endpoint("prod", "api", "api-2", "the-api")]
    );
}

#[test]
fn resolve_of_nothing_is_nothing() {
    assert_eq!(resolve("prod", "api", &Vec::new()), Vec::new());
}

#[test]
fn endpoints_of_one_service_share_the_label() {
    let entities = vec![entity(Some("api-1"), &["api"]), entity(Some("api-2"), &["api"])];
    let endpoints = resolve("prod", "api", &entities);
    assert_eq!(endpoints.len(), 2);
    assert_eq!(endpoints[0].source_label, "prod-api");
    assert_eq!(endpoints[1].source_label, "prod-api");
    assert_ne!(endpoints[0].entity_id, endpoints[1].entity_id);
}

#[test]
fn resolve_all_goes_target_by_target() {
    let inventories = vec![
        TargetInventory {
            target: NamespaceAndService { namespace: "prod".into(), service: "api".into() },
            entities: vec![entity(Some("api-1"), &["api"]), entity(Some("api-2"), &["api"])],
        },
        TargetInventory {
            target: NamespaceAndService { namespace: "prod".into(), service: "web".into() },
            entities: vec![entity(Some("cache-0"), &["redis"])],
        },
        TargetInventory {
            target: NamespaceAndService { namespace: "dev".into(), service: "api".into() },
            entities: vec![entity(Some("api-9"), &["api"])],
        },
    ];
    assert_eq!(
        resolve_all(&inventories),
        vec![
            endpoint("prod", "api", "api-1", "api"),
            endpoint("prod", "api", "api-2", "api"),
            endpoint("dev", "api", "api-9", "api"),
        ]
    );
    assert_eq!(resolve_all(&Vec::new()), Vec::new());
}
