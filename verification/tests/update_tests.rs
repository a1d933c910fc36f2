use update_server::update::{HashFunction, Patch, PatchType, Update, UpdateType, Updates};

const EMPTY_SHA512: &str = "cf83e1357eefb8bdf1542850d66d8007d620e4050b5715dc83f4a921d36ce9ce47d0d13c5d85f2b0ff8318d2877eec2f63b931bd47417a81a538327af927da3e";
const ABC_SHA512: &str = "ddaf35a193617abacc417349ae20413112e6fa4e89a97ea20a9eeee64b55d39a2192992a274fc1a836ba3c23a3feebbd454d4423643ce80e2a9ac94fa54ca49f";

#[test]
fn patch_from_file_empty_archive() {
    let archive: Vec<u8> = Vec::new();
    let p = Patch::from_file(&archive);
    assert_eq!(p.hash_value, EMPTY_SHA512);
    assert_eq!(p.size, 0);
    assert!(matches!(p.patch_type, PatchType::Complete));
    assert!(matches!(p.hash_function, HashFunction::Sha512));
    assert_eq!(p.url, "http://localhost:8000/update.mar");
}

#[test]
fn patch_from_file_known_digest() {
    let archive = b"abc".to_vec();
    let p = Patch::from_file(&archive);
    assert_eq!(p.hash_value, ABC_SHA512);
    assert_eq!(p.size, 3);
}

#[test]
fn patch_size_matches_byte_length() {
    let archive = vec![7u8; 12345];
    let p = Patch::from_file(&archive);
    assert_eq!(p.size, 12345);
    let reference = hex::encode(hmac_sha512::Hash::hash(&archive));
    assert_eq!(p.hash_value, reference);
    assert_eq!(p.hash_value.len(), 128);
}

#[test]
fn manifest_partial_first_line_gives_partial() {
    let archive = b"whatever".to_vec();
    let manifest = b"type \"partial\"\nrest of the manifest".to_vec();
    let u = Update::from_mar(&archive, Some(&manifest), None);
    assert!(matches!(u.patches[0].patch_type, PatchType::Partial));
}

#[test]
fn manifest_crlf_first_line_gives_partial() {
    let archive = b"whatever".to_vec();
    let manifest = b"type \"partial\"\r\nmore".to_vec();
    let u = Update::from_mar(&archive, Some(&manifest), None);
    assert!(matches!(u.patches[0].patch_type, PatchType::Partial));
}

#[test]
fn manifest_other_first_line_gives_complete() {
    let archive = b"whatever".to_vec();
    let manifest = b"type \"complete\"\n".to_vec();
    let u = Update::from_mar(&archive, Some(&manifest), None);
    assert!(matches!(u.patches[0].patch_type, PatchType::Complete));
}

#[test]
fn manifest_trailing_space_gives_complete() {
    let archive = b"whatever".to_vec();
    let manifest = b"type \"partial\" \n".to_vec();
    let u = Update::from_mar(&archive, Some(&manifest), None);
    assert!(matches!(u.patches[0].patch_type, PatchType::Complete));
}

#[test]
fn manifest_absent_gives_complete() {
    let archive = b"whatever".to_vec();
    let u = Update::from_mar(&archive, None, None);
    assert!(matches!(u.patches[0].patch_type, PatchType::Complete));
}

#[test]
fn descriptor_sets_versions_and_build_id() {
    let archive = b"whatever".to_vec();
    let ini = "[App]\nVersion=1.2.3\nBuildID=999\n";
    let u = Update::from_mar(&archive, None, Some(ini));
    assert_eq!(u.display_version, "1.2.3");
    assert_eq!(u.app_version, "1.2.3");
    assert_eq!(u.platform_version, "1.2.3");
    assert_eq!(u.build_id, "999");
    assert!(matches!(u.update_type, UpdateType::Minor));
}

#[test]
fn descriptor_absent_keeps_defaults() {
    let archive = b"whatever".to_vec();
    let u = Update::from_mar(&archive, None, None);
    assert_eq!(u.display_version, "2000.0a1");
    assert_eq!(u.app_version, "2000.0a1");
    assert_eq!(u.platform_version, "2000.0a1");
    assert_eq!(u.build_id, "21181002100236");
}

#[test]
fn descriptor_missing_key_keeps_that_default() {
    let archive = b"whatever".to_vec();
    let ini = "[App]\nVersion=9.9\n";
    let u = Update::from_mar(&archive, None, Some(ini));
    assert_eq!(u.display_version, "9.9");
    assert_eq!(u.build_id, "21181002100236");
}

#[test]
fn descriptor_wrong_section_keeps_defaults() {
    let archive = b"whatever".to_vec();
    let ini = "[Other]\nVersion=9.9\nBuildID=1\n";
    let u = Update::from_mar(&archive, None, Some(ini));
    assert_eq!(u.display_version, "2000.0a1");
    assert_eq!(u.build_id, "21181002100236");
}

#[test]
fn catalog_holds_one_update_with_one_patch() {
    let archive = b"bytes".to_vec();
    let c = Updates::from_mar(&archive, None, None);
    assert_eq!(c.updates.len(), 1);
    assert_eq!(c.updates[0].patches.len(), 1);
    assert_eq!(c.updates[0].patches[0].size, 5);
}
