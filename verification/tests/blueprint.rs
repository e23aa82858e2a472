use davit::blueprint::{Blueprint, BlueprintError};

#[test]
fn test_update_image_tag_with_sidecars() {
    let content = r#"
apiVersion: apps/v1
kind: Deployment
metadata:
  name: my-app
spec:
  template:
    spec:
      containers:
      - name: main
        image: gcr.io/my-project/my-app:v1
      - name: sidecar
        image: haproxy:2.4
"#;
    let base_image = "gcr.io/my-project/my-app";
    let new_tag = "v2";
    let updated = Blueprint::update_image_tag(content, base_image, new_tag).unwrap();

    assert!(updated.contains("image: gcr.io/my-project/my-app:v2"));
    assert!(updated.contains("image: haproxy:2.4"));
}

#[test]
fn update_image_tag_keeps_trailing_comment() {
    let content = "        image: gcr.io/p/app:v1 # pinned\n        name: main";
    let updated = Blueprint::update_image_tag(content, "gcr.io/p/app", "v3").unwrap();
    assert_eq!(updated, "        image: gcr.io/p/app:v3 # pinned\n        name: main");
}

#[test]
fn update_image_tag_replaces_digest_reference() {
    let content = "image: gcr.io/p/app@sha256:0123abcd";
    let updated = Blueprint::update_image_tag(content, "gcr.io/p/app", "v9").unwrap();
    assert_eq!(updated, "image: gcr.io/p/app:v9");
}

#[test]
fn update_image_tag_fails_without_matching_line() {
    let content = "kind: Service\nmetadata:\n  name: web";
    let err = Blueprint::update_image_tag(content, "gcr.io/p/app", "v2").unwrap_err();
    assert_eq!(err, BlueprintError::ImageLineNotFound);
}

#[test]
fn update_image_tag_ignores_other_images() {
    let content = "image: gcr.io/p/other:v1\nimage: gcr.io/p/app:v1";
    let updated = Blueprint::update_image_tag(content, "gcr.io/p/app", "v2").unwrap();
    assert_eq!(updated, "image: gcr.io/p/other:v1\nimage: gcr.io/p/app:v2");
}
