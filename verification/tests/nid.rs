use psvita_linker::nid::try_get_predefined;
use psvita_linker::nid::Nid;

#[test]
fn nid_debug_fmt() {
    assert_eq!(Nid(0x000A2E54).to_string(), "Nid(0x000A2E54)");
}

#[test]
fn nid_nid_debug_fmt() {
    assert_eq!(Nid(0x000A2E54).to_string(), "Nid(0x000A2E54)");
}

#[test]
fn henkaku_nid_example() {
    assert_eq!(Nid(0xEEDA2E54), Nid::from_bytes(b"sceDisplayGetFrameBuf"));
}

#[test]
fn nid_henkaku_nid_example() {
    assert_eq!(Nid(0xEEDA2E54), Nid::generate(b"sceDisplayGetFrameBuf"));
}

#[test]
fn nid_text_of_extreme_values() {
    assert_eq!(Nid(0).to_string(), "Nid(0x00000000)");
    assert_eq!(Nid(0xFFFFFFFF).to_string(), "Nid(0xFFFFFFFF)");
    assert_eq!(Nid(0x935CD196).to_string(), "Nid(0x935CD196)");
}

#[test]
fn nid_from_the_first_four_bytes_of_a_digest() {
    let mut digest = [0u8; 20];
    digest[0] = 0x54;
    digest[1] = 0x2e;
    digest[2] = 0xda;
    digest[3] = 0xee;
    digest[4] = 0xff;
    assert_eq!(Nid::from_digest(&digest), Nid(0xEEDA2E54));
    assert_eq!(Nid::from_digest(&[0xff; 20]), Nid(0xFFFFFFFF));
}

#[test]
fn nid_depends_on_the_name() {
    assert_ne!(Nid::generate(b"module_start"), Nid::generate(b"module_stop"));
    assert_eq!(Nid::generate(b""), Nid(0xEEA339DA));
}

#[test]
fn predefined_identifiers() {
    assert_eq!(try_get_predefined(b"module_start"), Some(Nid(0x935CD196)));
    assert_eq!(try_get_predefined(b"module_stop"), Some(Nid(0x79F8E492)));
    assert_eq!(try_get_predefined(b"module_exit"), Some(Nid(0x913482A9)));
    assert_eq!(try_get_predefined(b"module_bootstart"), Some(Nid(0x5C424D40)));
    assert_eq!(try_get_predefined(b"module_info"), Some(Nid(0x6C2224BA)));
    assert_eq!(try_get_predefined(b"module_proc_param"), Some(Nid(0x70FBA1E7)));
    assert_eq!(try_get_predefined(b"module_sdk_version"), Some(Nid(0x936C8A78)));
    assert_eq!(try_get_predefined(b"module_starts"), None);
    assert_eq!(try_get_predefined(b""), None);
    assert_eq!(Nid::try_get_predefined(b"module_info"), Some(Nid(0x6C2224BA)));
}
