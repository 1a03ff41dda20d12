use psvita_linker::codegen::verification::validate_header;
use psvita_linker::codegen::verification::VerifyHeader;
use psvita_linker::codegen::verification::VerifyHeaderError;
use psvita_linker::codegen::ItemType;
use psvita_linker::sce_types::module_exports::HashInfo;
use psvita_linker::sce_types::module_imports::FunctionStubPlaceholder;
use psvita_linker::sce_types::module_info::RawAttributes;
use psvita_linker::sce_types::module_info::SceModuleAttribute;
use psvita_linker::sce_types::module_info::SceModulePrivilegeLevel;
use psvita_linker::sce_types::Address;
use psvita_linker::sce_types::AddressRange;
use psvita_linker::sce_types::Ptr;
use psvita_linker::sce_types::SceLibraryAttribute;

#[test]
fn hash_info_of_export_counts() {
    assert_eq!(HashInfo::new(0, 0, 0), HashInfo(0x000));
    assert_eq!(HashInfo::new(0x0f, 0x0f, 0x0f), HashInfo(0x000));
    assert_eq!(HashInfo::new(0x10, 0, 0), HashInfo(0x002));
    assert_eq!(HashInfo::new(0x3f, 0x40, 0xff), HashInfo(0x442));
    assert_eq!(HashInfo::new(0x100, 0x10, 0x40), HashInfo(0x426));
    assert_eq!(HashInfo::new(0xffff, 0xffff, 0xffff), HashInfo(0x666));
    assert_eq!(HashInfo::new(0, 0x100, 0), HashInfo(0x060));
    assert_eq!(HashInfo::new(0, 0, 0x10), HashInfo(0x200));
}

#[test]
fn raw_attributes_join_both_parts() {
    let attrs = SceModuleAttribute::from_bits_truncate(0x0005);
    let level = SceModulePrivilegeLevel::from_bits_truncate(0x1000);
    assert_eq!(RawAttributes::new(attrs, level), RawAttributes(0x1005));
    assert_eq!(SceModuleAttribute::from_bits_truncate(0xffff).bits(), 0x0007);
    assert_eq!(SceModulePrivilegeLevel::from_bits_truncate(0xffff).bits(), 0x7e00);
    assert_eq!(SceModuleAttribute::all().bits(), 0x0007);
    assert_eq!(SceModulePrivilegeLevel::all().bits(), 0x7e00);
}

#[test]
fn raw_attributes_split_only_with_a_stray_bit() {
    assert_eq!(RawAttributes(0x1005).try_into_pair(), None);
    assert_eq!(RawAttributes(0).try_into_pair(), None);
    let (attrs, level) = RawAttributes(0x9005).try_into_pair().unwrap();
    assert_eq!(attrs.bits(), 0x0005);
    assert_eq!(level.bits(), 0x1000);
    let (attrs, level) = RawAttributes(0x0008).try_into_pair().unwrap();
    assert_eq!(attrs.bits(), 0);
    assert_eq!(level.bits(), 0);
}

#[test]
fn library_attributes() {
    assert_eq!(SceLibraryAttribute::all().bits(), 0xe00f);
    assert_eq!(SceLibraryAttribute::empty().bits(), 0);
    assert_eq!(SceLibraryAttribute::from_bits_truncate(0xffff).bits(), 0xe00f);
    assert_eq!(SceLibraryAttribute::from_bits(0x8001).map(|a| a.bits()), Some(0x8001));
    assert_eq!(SceLibraryAttribute::from_bits(0x0010), None);
    let main = SceLibraryAttribute::from_bits_truncate(0x8000);
    let both = SceLibraryAttribute::from_bits_truncate(0x8001);
    assert!(both.contains(main));
    assert!(!main.contains(both));
}

#[test]
fn stub_of_an_unresolved_function() {
    let stub = FunctionStubPlaceholder::new();
    assert_eq!(
        stub.text,
        [0xe3, 0xe0, 0x00, 0x00, 0xe1, 0x2f, 0xff, 0x1e, 0xe1, 0xa0, 0x00, 0x00, 0x00, 0x00, 0x00, 0x00]
    );
    assert_eq!(FunctionStubPlaceholder::default(), stub);
}

#[test]
fn pointers_hold_their_address() {
    let p: Ptr<u32> = Ptr::new(0x8100_0000);
    assert_eq!(p.0, 0x8100_0000);
    let q = p;
    assert_eq!(p, q);
    let range = AddressRange { top: Address::new(1), bottom: Address::new(2) };
    assert_eq!(range.clone(), range);
}

#[test]
fn header_of_a_linkable_file() {
    let good = VerifyHeader { os_abi: 0, machine: 40, e_version: 1 };
    assert_eq!(VerifyHeader::expected(), good);
    assert_eq!(validate_header(&good), Ok(()));
    let wrong_machine = VerifyHeader { os_abi: 0, machine: 62, e_version: 1 };
    assert_eq!(validate_header(&wrong_machine), Err(VerifyHeaderError(wrong_machine)));
    let wrong_abi = VerifyHeader { os_abi: 3, machine: 40, e_version: 1 };
    assert_eq!(validate_header(&wrong_abi), Err(VerifyHeaderError(wrong_abi)));
    let wrong_version = VerifyHeader { os_abi: 0, machine: 40, e_version: 0 };
    assert_eq!(validate_header(&wrong_version), Err(VerifyHeaderError(wrong_version)));
    assert!(ItemType::Function < ItemType::TLS);
}
