use macgyver_rs::cpumem::{
    self, collect_info, collect_rows, extract_info, find_own_container, print_result, Container, Pod,
    PrintArguments, ResourceEntry, ResourceRequirements,
};

fn entries(pairs: &[(&str, &str)]) -> Option<Vec<ResourceEntry>> {
    Some(
        pairs
            .iter()
            .map(|(n, q)| ResourceEntry { name: n.to_string(), quantity: q.to_string() })
            .collect(),
    )
}

fn container(name: &str, resources: Option<ResourceRequirements>) -> Container {
    Container { name: name.to_string(), resources }
}

#[test]
fn quantity_of_a_listed_resource_is_found() {
    let list = entries(&[("cpu", "500m"), ("memory", "128Mi")]);
    assert_eq!(extract_info(&list, "cpu"), "500m");
    assert_eq!(extract_info(&list, "memory"), "128Mi");
}

#[test]
fn unlisted_resource_is_not_available() {
    let list = entries(&[("cpu", "500m")]);
    assert_eq!(extract_info(&list, "memory"), "N/A");
    assert_eq!(extract_info(&list, "CPU"), "N/A");
    assert_eq!(extract_info(&entries(&[]), "cpu"), "N/A");
    assert_eq!(extract_info(&None, "cpu"), "N/A");
}

#[test]
fn own_container_is_named_in_the_pod_name() {
    let r = || Some(ResourceRequirements { limits: None, requests: None });
    let containers =
        vec![container("istio-proxy", r()), container("api", None), container("api", r())];
    assert_eq!(find_own_container(&containers, "api-7f9-xk2"), Some(2));
    assert_eq!(find_own_container(&containers, "istio-proxy-api"), Some(0));
    assert_eq!(find_own_container(&containers, "worker-1"), None);
    assert_eq!(find_own_container(&Vec::new(), "api"), None);
}

#[test]
fn row_holds_limits_and_requests() {
    let pod = Pod {
        name: Some("api-7f9".into()),
        containers: Some(vec![
            container("proxy", Some(ResourceRequirements { limits: entries(&[("cpu", "1")]), requests: None })),
            container(
                "api",
                Some(ResourceRequirements {
                    limits: entries(&[("cpu", "2"), ("memory", "1Gi")]),
                    requests: entries(&[("memory", "256Mi")]),
                }),
            ),
        ]),
    };
    assert_eq!(
        collect_info(&pod),
        Some(PrintArguments {
            pod: "api-7f9".into(),
            limit_cpu: "2".into(),
            limit_memory: "1Gi".into(),
            request_cpu: "N/A".into(),
            request_memory: "256Mi".into(),
        })
    );
}

#[test]
fn pod_without_name_specification_or_own_container_gives_no_row() {
    let r = || Some(ResourceRequirements { limits: None, requests: None });
    assert_eq!(collect_info(&Pod { name: None, containers: Some(vec![container("", r())]) }), None);
    assert_eq!(collect_info(&Pod { name: Some("api".into()), containers: None }), None);
    assert_eq!(
        collect_info(&Pod { name: Some("api".into()), containers: Some(vec![container("api", None)]) }),
        None
    );
    assert_eq!(
        collect_info(&Pod { name: Some("api".into()), containers: Some(vec![container("web", r())]) }),
        None
    );
}

#[test]
fn row_is_set_in_five_columns() {
    let row = PrintArguments {
        pod: "api-7f9".into(),
        limit_cpu: "2".into(),
        limit_memory: "1Gi".into(),
        request_cpu: "N/A".into(),
        request_memory: "256Mi".into(),
    };
    assert_eq!(
        row.line(),
        format!("{0: <100} {1: <20} {2: <20} {3: <20} {4: <20}", "api-7f9", "2", "1Gi", "N/A", "256Mi")
    );
    assert_eq!(row.line().chars().count(), 100 + 4 * 21);
}

#[test]
fn headers_name_the_columns() {
    assert_eq!(
        PrintArguments::headers(),
        PrintArguments {
            pod: "pod".into(),
            limit_cpu: "limit.cpu".into(),
            limit_memory: "limit.memory".into(),
            request_cpu: "request.cpu".into(),
            request_memory: "request.memory".into(),
        }
    );
}

#[test]
fn report_lists_headers_and_rows() {
    let pods = vec![
        Pod { name: None, containers: None },
        Pod {
            name: Some("api-1".into()),
            containers: Some(vec![container(
                "api",
                Some(ResourceRequirements { limits: entries(&[("cpu", "1")]), requests: None }),
            )]),
        },
    ];
    let rows = collect_rows(&pods);
    assert_eq!(rows.len(), 3);
    assert_eq!(rows[0], Some(PrintArguments::headers()));
    assert_eq!(rows[1], None);
    let lines = print_result("PROD", &rows);
    assert_eq!(
        lines,
        vec![
            "ENVIRONMENT: PROD".to_string(),
            format!(
                "{0: <100} {1: <20} {2: <20} {3: <20} {4: <20}",
                "pod", "limit.cpu", "limit.memory", "request.cpu", "request.memory"
            ),
            format!("{0: <100} {1: <20} {2: <20} {3: <20} {4: <20}", "api-1", "1", "N/A", "N/A", "N/A"),
        ]
    );
}

#[test]
fn report_on_resources_has_context_headers_and_rows() {
    let pods = vec![
        Pod { name: Some("db-0".into()), containers: None },
        Pod {
            name: Some("api-1".into()),
            containers: Some(vec![container(
                "api",
                Some(ResourceRequirements {
                    limits: entries(&[("memory", "1Gi")]),
                    requests: entries(&[("cpu", "250m")]),
                }),
            )]),
        },
    ];
    assert_eq!(
        cpumem::process("QA", &pods),
        vec![
            "ENVIRONMENT: QA".to_string(),
            format!(
                "{0: <100} {1: <20} {2: <20} {3: <20} {4: <20}",
                "pod", "limit.cpu", "limit.memory", "request.cpu", "request.memory"
            ),
            format!("{0: <100} {1: <20} {2: <20} {3: <20} {4: <20}", "api-1", "N/A", "1Gi", "250m", "N/A"),
        ]
    );
}
