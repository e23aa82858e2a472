use davit::registry::{age_text, describe_image, mock_images, ImageMetadata, Registry, RegistryError};

fn image(tags: Vec<&str>, update_time: i64, name: &str) -> ImageMetadata {
    ImageMetadata {
        tags: tags.into_iter().map(String::from).collect(),
        update_time,
        name: String::from(name),
    }
}

#[test]
fn parse_gcr_images_reads_listing_in_order() {
    let raw = r#"[{"tags":["v1","latest"],"digest":"sha256:abc","timestamp":{"datetime":"2026-02-05 19:49:35+01:00"}},{"tags":[],"digest":"sha256:skip","timestamp":{"datetime":"2024-01-01 00:00:00"}},{"tags":["v2"],"digest":"sha256:def","timestamp":{"datetime":"2024-01-01 00:00:00"}},{"tags":["v3"],"digest":"sha256:ghi","timestamp":{"datetime":"odd format","year":2024,"month":1,"day":2,"hour":3,"minute":4,"second":5}}]"#;
    let images = Registry::parse_gcr_images(raw, "gcr.io/proj/app").unwrap();
    assert_eq!(images.len(), 3);

    assert_eq!(images[0].tags, vec!["v1", "latest"]);
    assert_eq!(images[0].name, "gcr.io/proj/app@sha256:abc");
    // 2026-02-05 19:49:35 at +01:00 is 18:49:35 UTC.
    assert_eq!(images[0].update_time, 1770317375);

    // The untagged element is skipped.
    assert_eq!(images[1].name, "gcr.io/proj/app@sha256:def");
    assert_eq!(images[1].update_time, 1704067200);

    // The element with an unparseable datetime falls back to its fields.
    assert_eq!(images[2].name, "gcr.io/proj/app@sha256:ghi");
    assert_eq!(images[2].update_time, 1704164645);
}

#[test]
fn parse_gcr_images_skips_elements_without_digest_or_timestamp() {
    let raw = r#"[{"tags":["v1"],"timestamp":{"datetime":"2024-01-01 00:00:00"}},{"tags":["v2"],"digest":"sha256:ok"},{"tags":["v3"],"digest":"sha256:keep","timestamp":{"datetime":"2024-01-01 00:00:00"}}]"#;
    let images = Registry::parse_gcr_images(raw, "b").unwrap();
    assert_eq!(images.len(), 1);
    assert_eq!(images[0].name, "b@sha256:keep");
}

#[test]
fn parse_gcr_images_rejects_non_array() {
    let err = Registry::parse_gcr_images("{\"not\":\"a list\"}", "b").unwrap_err();
    assert_eq!(err, RegistryError::UnreadableListing);
    let err = Registry::parse_gcr_images("nonsense", "b").unwrap_err();
    assert_eq!(err, RegistryError::UnreadableListing);
}

#[test]
fn display_tag_joins_tags() {
    let img = image(vec!["v1.2.3", "latest"], 0, "n");
    assert_eq!(img.display_tag(), "v1.2.3, latest");
    let img = image(vec![], 0, "n");
    assert_eq!(img.display_tag(), "");
}

#[test]
fn short_hash_takes_seven_digest_characters() {
    let img = image(vec![], 0, "auth-service@sha256:abcdef123456789");
    assert_eq!(img.short_hash(), "abcdef1");
}

#[test]
fn short_hash_unknown_without_digest() {
    let img = image(vec![], 0, "auth-service");
    assert_eq!(img.short_hash(), "unknown");
    let img = image(vec![], 0, "auth-service@sha256:ab");
    assert_eq!(img.short_hash(), "unknown");
    let img = image(vec![], 0, "auth-service@md5:abcdef123456789");
    assert_eq!(img.short_hash(), "unknown");
}

#[test]
fn age_text_picks_largest_whole_unit() {
    assert_eq!(age_text(2 * 86400 + 7200), "2d ago");
    assert_eq!(age_text(86400), "1d ago");
    assert_eq!(age_text(7200), "2h ago");
    assert_eq!(age_text(3600), "1h ago");
    assert_eq!(age_text(90), "1m ago");
    assert_eq!(age_text(59), "just now");
    assert_eq!(age_text(0), "just now");
    assert_eq!(age_text(-5), "just now");
}

#[test]
fn describe_image_pads_tags_to_fifteen() {
    assert_eq!(
        describe_image("v1.2.3", "2h ago", "abcdefg"),
        "v1.2.3          (2h ago) [abcdefg]"
    );
    assert_eq!(
        describe_image("a-very-long-tag-name", "1d ago", "1234567"),
        "a-very-long-tag-name (1d ago) [1234567]"
    );
}

#[test]
fn mock_images_have_fixed_shapes() {
    let now = 1_700_000_000;
    let images = mock_images(now);
    assert_eq!(images.len(), 3);
    assert_eq!(images[0].tags, vec!["v1.2.3", "latest"]);
    assert_eq!(images[0].update_time, now - 7200);
    assert_eq!(images[0].short_hash(), "abcdef1");
    assert_eq!(images[1].update_time, now - 86400);
    assert_eq!(images[2].update_time, now - 432000);
    assert_eq!(images[2].name, "auth-service@sha256:987654321fedcba");
}

#[test]
fn age_string_formats_some_age() {
    let img = image(vec![], 0, "n");
    let s = img.age_string();
    assert!(s == "just now" || s.ends_with(" ago"));
}
