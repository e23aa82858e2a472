use davit::config::{
    find_environment, find_service, is_hidden_name, is_manifest_ext, sorted_unique_services,
    Environment, ServiceSource, Yaml, YamlEntry,
};
use davit::resolve::{match_candidates, selected_tag, MatchOutcome};

fn ystr(s: &str) -> Yaml {
    Yaml::Str(String::from(s))
}

fn entry(key: &str, value: Yaml) -> YamlEntry {
    YamlEntry { key: ystr(key), value }
}

fn mapping(entries: Vec<YamlEntry>) -> Yaml {
    Yaml::Mapping(entries)
}

fn test_env() -> Environment {
    Environment {
        name: String::from("test"),
        repo_root: String::from("/repo"),
        kubectl_context: String::from("test"),
        gcp_project: None,
        gcp_location: None,
        gcp_repository: None,
        protected: None,
    }
}

fn service(name: &str, image: &str) -> ServiceSource {
    ServiceSource {
        name: String::from(name),
        image_path: String::from(image),
        container_name: String::from("main"),
        yaml_path: String::from("deploy.yaml"),
        namespace: None,
        selector: None,
    }
}

fn gcr_deployment() -> Yaml {
    mapping(vec![
        entry("apiVersion", ystr("apps/v1")),
        entry("kind", ystr("Deployment")),
        entry(
            "metadata",
            mapping(vec![entry("name", ystr("gcr-service")), entry("namespace", ystr("test-ns"))]),
        ),
        entry(
            "spec",
            mapping(vec![
                entry(
                    "selector",
                    mapping(vec![entry(
                        "matchLabels",
                        mapping(vec![entry("app", ystr("gcr-service-app"))]),
                    )]),
                ),
                entry(
                    "template",
                    mapping(vec![entry(
                        "spec",
                        mapping(vec![entry(
                            "containers",
                            Yaml::Sequence(vec![mapping(vec![
                                entry("name", ystr("gcr-container")),
                                entry("image", ystr("gcr.io/my-project/my-image:latest")),
                            ])]),
                        )]),
                    )]),
                ),
            ]),
        ),
    ])
}

#[test]
fn extract_service_from_gcr_deployment() {
    let env = test_env();
    let s = env.extract_gcr_service(&gcr_deployment(), "service1/deploy.yaml").unwrap();
    assert_eq!(s.name, "gcr-service");
    assert_eq!(s.image_path, "gcr.io/my-project/my-image:latest");
    assert_eq!(s.container_name, "gcr-container");
    assert_eq!(s.yaml_path, "service1/deploy.yaml");
    assert_eq!(s.namespace.as_deref(), Some("test-ns"));
    assert_eq!(s.selector.as_deref(), Some("app=gcr-service-app"));
}

#[test]
fn extract_service_accepts_artifact_registry_statefulset() {
    let env = test_env();
    let resource = mapping(vec![
        entry("kind", ystr("StatefulSet")),
        entry("metadata", mapping(vec![entry("name", ystr("pkg-service"))])),
        entry(
            "spec",
            mapping(vec![entry(
                "template",
                mapping(vec![entry(
                    "spec",
                    mapping(vec![entry(
                        "containers",
                        Yaml::Sequence(vec![mapping(vec![
                            entry("name", ystr("main")),
                            entry(
                                "image",
                                ystr("europe-west1-docker.pkg.dev/my-project/my-repo/my-image:v1"),
                            ),
                        ])]),
                    )]),
                )]),
            )]),
        ),
    ]);
    let s = env.extract_gcr_service(&resource, "statefulset.yaml").unwrap();
    assert_eq!(s.name, "pkg-service");
    assert_eq!(s.image_path, "europe-west1-docker.pkg.dev/my-project/my-repo/my-image:v1");
    assert!(s.namespace.is_none());
    assert!(s.selector.is_none());
}

#[test]
fn extract_service_rejects_non_workload_kinds() {
    let env = test_env();
    let resource = mapping(vec![
        entry("kind", ystr("Service")),
        entry("metadata", mapping(vec![entry("name", ystr("not-a-microservice"))])),
        entry(
            "spec",
            mapping(vec![entry("ports", Yaml::Sequence(vec![mapping(vec![entry(
                "port",
                Yaml::Other,
            )])]))]),
        ),
    ]);
    assert!(env.extract_gcr_service(&resource, "service.yaml").is_none());
}

#[test]
fn extract_service_rejects_docker_hub_images() {
    let env = test_env();
    let resource = mapping(vec![
        entry("kind", ystr("Deployment")),
        entry("metadata", mapping(vec![entry("name", ystr("dockerhub-service"))])),
        entry(
            "spec",
            mapping(vec![entry(
                "template",
                mapping(vec![entry(
                    "spec",
                    mapping(vec![entry(
                        "containers",
                        Yaml::Sequence(vec![mapping(vec![
                            entry("name", ystr("main")),
                            entry("image", ystr("nginx:latest")),
                        ])]),
                    )]),
                )]),
            )]),
        ),
    ]);
    assert!(env.extract_gcr_service(&resource, "deploy.yaml").is_none());
}

#[test]
fn find_gcr_image_takes_first_in_document_order() {
    let env = test_env();
    let doc = Yaml::Sequence(vec![
        mapping(vec![entry("image", ystr("nginx:latest"))]),
        mapping(vec![
            entry("image", ystr("gcr.io/p/first:v1")),
            entry("name", ystr("one")),
        ]),
        mapping(vec![entry("image", ystr("gcr.io/p/second:v1"))]),
    ]);
    let (img, container) = env.find_gcr_image(&doc).unwrap();
    assert_eq!(img, "gcr.io/p/first:v1");
    assert_eq!(container, "one");
}

#[test]
fn find_gcr_image_defaults_container_name() {
    let env = test_env();
    let doc = mapping(vec![entry("image", ystr("gcr.io/p/app:v1"))]);
    let (_, container) = env.find_gcr_image(&doc).unwrap();
    assert_eq!(container, "default");
}

#[test]
fn sorted_unique_services_orders_and_dedups() {
    let found = vec![
        service("zeta", "gcr.io/p/zeta:v1"),
        service("alpha", "gcr.io/p/alpha:v1"),
        service("zeta", "gcr.io/p/zeta:v1"),
        service("mid", "gcr.io/p/mid:v1"),
    ];
    let sorted = sorted_unique_services(found);
    let names: Vec<&str> = sorted.iter().map(|s| s.name.as_str()).collect();
    assert_eq!(names, vec!["alpha", "mid", "zeta"]);
}

#[test]
fn find_environment_by_name() {
    let mut staging = test_env();
    staging.name = String::from("staging");
    let mut production = test_env();
    production.name = String::from("production");
    let envs = vec![staging, production];
    assert_eq!(find_environment(&envs, "production").unwrap().name, "production");
    assert!(find_environment(&envs, "qa").is_none());
}

#[test]
fn find_service_by_name() {
    let services = vec![service("alpha", "a"), service("beta", "b")];
    assert_eq!(find_service(&services, "beta").unwrap().image_path, "b");
    assert!(find_service(&services, "gamma").is_none());
}

#[test]
fn hidden_names_and_manifest_extensions() {
    assert!(is_hidden_name(".git"));
    assert!(!is_hidden_name("services"));
    assert!(!is_hidden_name(""));
    assert!(is_manifest_ext("yaml"));
    assert!(is_manifest_ext("yml"));
    assert!(!is_manifest_ext("json"));
}

#[test]
fn match_candidates_classifies_input() {
    let items = vec![String::from("staging"), String::from("production")];
    assert!(matches!(match_candidates(&items, "staging"), MatchOutcome::Exact));
    match match_candidates(&items, "prod") {
        MatchOutcome::Single(s) => assert_eq!(s, "production"),
        _ => panic!("expected a single match"),
    }
    match match_candidates(&items, "i") {
        MatchOutcome::Multiple(v) => assert_eq!(v, vec!["staging", "production"]),
        _ => panic!("expected several matches"),
    }
    assert!(matches!(match_candidates(&items, "zz"), MatchOutcome::NoMatch));
}

#[test]
fn selected_tag_reads_first_token_without_commas() {
    assert_eq!(selected_tag("v1.2.3, latest  (2h ago) [abcdef1]"), "v1.2.3");
    assert_eq!(selected_tag("   v2   (1d ago) [1234567]"), "v2");
    assert_eq!(selected_tag(""), "");
    assert_eq!(selected_tag("solo"), "solo");
}
