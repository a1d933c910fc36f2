use update_server::update::{HashFunction, Patch, PatchType, Update, UpdateType, Updates};

#[test]
fn document_matches_wire_example_without_members() {
    let archive = b"no members here".to_vec();
    let c = Updates::from_mar(&archive, None, None);
    let doc = c.serialize();
    let hash = hex::encode(hmac_sha512::Hash::hash(&archive));
    let expected = format!(
        "<updates>\n  <update type=\"minor\" displayVersion=\"2000.0a1\" appVersion=\"2000.0a1\" platformVersion=\"2000.0a1\" buildID=\"21181002100236\">\n    <patch type=\"complete\" URL=\"http://localhost:8000/update.mar\" hashFunction=\"sha512\" hashValue=\"{}\" size=\"{}\"/>\n  </update>\n</updates>",
        hash,
        archive.len()
    );
    assert_eq!(doc, expected);
}

#[test]
fn partial_manifest_serializes_partial_patch() {
    let archive = b"payload".to_vec();
    let manifest = b"type \"partial\"\n".to_vec();
    let c = Updates::from_mar(&archive, Some(&manifest), None);
    let doc = c.serialize();
    assert!(doc.contains("<patch type=\"partial\""));
    assert!(!doc.contains("<patch type=\"complete\""));
}

#[test]
fn descriptor_values_appear_verbatim() {
    let archive = b"payload".to_vec();
    let ini = "[App]\nVersion=1.2.3\nBuildID=999\n";
    let c = Updates::from_mar(&archive, None, Some(ini));
    let doc = c.serialize();
    assert!(doc.contains("displayVersion=\"1.2.3\""));
    assert!(doc.contains("appVersion=\"1.2.3\""));
    assert!(doc.contains("platformVersion=\"1.2.3\""));
    assert!(doc.contains("buildID=\"999\""));
}

#[test]
fn serialization_is_idempotent() {
    let archive = b"payload".to_vec();
    let ini = "[App]\nVersion=5.0\nBuildID=42\n";
    let c = Updates::from_mar(&archive, None, Some(ini));
    let first = c.serialize();
    let second = c.serialize();
    assert_eq!(first, second);
}

#[test]
fn attribute_values_are_entity_encoded() {
    let p = Patch {
        patch_type: PatchType::Complete,
        url: "http://localhost:8000/update.mar?a=1&b=2".to_string(),
        hash_function: HashFunction::Sha512,
        hash_value: "00".to_string(),
        size: 1,
    };
    let u = Update {
        update_type: UpdateType::Minor,
        display_version: "1<2\"3'4>5".to_string(),
        app_version: "v".to_string(),
        platform_version: "v".to_string(),
        build_id: "b".to_string(),
        patches: vec![p],
    };
    let c = Updates { updates: vec![u] };
    let doc = c.serialize();
    assert!(doc.contains("displayVersion=\"1&lt;2&quot;3&apos;4&gt;5\""));
    assert!(doc.contains("URL=\"http://localhost:8000/update.mar?a=1&amp;b=2\""));
}

#[test]
fn largest_size_is_rendered_in_full() {
    let p = Patch {
        patch_type: PatchType::Partial,
        url: "u".to_string(),
        hash_function: HashFunction::Sha512,
        hash_value: "00".to_string(),
        size: u64::MAX,
    };
    let u = Update {
        update_type: UpdateType::Minor,
        display_version: "v".to_string(),
        app_version: "v".to_string(),
        platform_version: "v".to_string(),
        build_id: "b".to_string(),
        patches: vec![p],
    };
    let c = Updates { updates: vec![u] };
    let doc = c.serialize();
    assert!(doc.contains("size=\"18446744073709551615\""));
    assert!(doc.contains("<patch type=\"partial\""));
}

#[test]
fn empty_catalog_serializes_bare_root() {
    let c = Updates { updates: Vec::new() };
    assert_eq!(c.serialize(), "<updates>\n</updates>");
}
