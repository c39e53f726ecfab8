use where_cmd::binary::{
    container_binary_report, inspect_container_file, inspect_local, parse_binary, sha256_hex,
    BinaryKind,
};
use where_cmd::options::Options;

fn opts() -> Options {
    Options {
        all: false, first_only: false, show_symlink: false, show_size: false, verbose: false,
        json: false, pretty: false, yaml: false, csv: false, plain: false, color: false,
        hash: false, time: false, package: false, version_info: false, why: false, trace: false,
        benchmark: false, doctor: false, about: false, quiet: false, arch: false, security: false,
        libs: false, interactive: false, suggest: false, resolve: false, explain: false,
    }
}

/// A 64-byte ELF header of an x86-64 shared object with no program or section headers.
fn tiny_elf() -> Vec<u8> {
    let mut b = vec![0x7f, b'E', b'L', b'F', 2, 1, 1, 0, 0, 0, 0, 0, 0, 0, 0, 0];
    b.extend_from_slice(&3u16.to_le_bytes()); // e_type: ET_DYN
    b.extend_from_slice(&62u16.to_le_bytes()); // e_machine: x86-64
    b.extend_from_slice(&1u32.to_le_bytes()); // e_version
    b.extend_from_slice(&0u64.to_le_bytes()); // e_entry
    b.extend_from_slice(&0u64.to_le_bytes()); // e_phoff
    b.extend_from_slice(&0u64.to_le_bytes()); // e_shoff
    b.extend_from_slice(&0u32.to_le_bytes()); // e_flags
    b.extend_from_slice(&64u16.to_le_bytes()); // e_ehsize
    b.extend_from_slice(&56u16.to_le_bytes()); // e_phentsize
    b.extend_from_slice(&0u16.to_le_bytes()); // e_phnum
    b.extend_from_slice(&64u16.to_le_bytes()); // e_shentsize
    b.extend_from_slice(&0u16.to_le_bytes()); // e_shnum
    b.extend_from_slice(&0u16.to_le_bytes()); // e_shstrndx
    b
}

#[test]
fn sha256_known_values() {
    assert_eq!(sha256_hex(b""), "e3b0c44298fc1c149afbf4c8996fb92427ae41e4649b934ca495991b7852b855");
    assert_eq!(sha256_hex(b"abc"), "ba7816bf8f01cfea414140de5dae2223b00361a396177a9cb410ff61f20015ad");
}

#[test]
fn test_elf_parsing() {
    let mut o = opts();
    o.json = true;
    o.arch = true;
    o.libs = true;
    o.security = true;
    let bytes = tiny_elf();
    let r = inspect_local(&o, Some(&bytes), Some(0o100755));
    assert!(r.arch.is_some(), "arch should be populated");
    assert!(r.security.is_some(), "security should be populated");
    assert!(r.libs.is_some(), "libs should be populated");
    assert_eq!(r.arch.as_deref(), Some("X86_64"));
    assert_eq!(r.security.as_deref(), Some("linked: static"));
    assert_eq!(r.libs, Some(Vec::new()));
}

#[test]
fn setuid_and_setgid_are_reported() {
    let mut o = opts();
    o.security = true;
    let r = inspect_local(&o, Some(&tiny_elf()), Some(0o106755));
    assert_eq!(r.security.as_deref(), Some("linked: static, setuid, setgid"));
    assert_eq!(r.arch, None);
}

#[test]
fn non_elf_and_unreadable_files() {
    let mut o = opts();
    o.arch = true;
    o.libs = true;
    let script = b"#!/bin/sh\necho hi\n".to_vec();
    assert!(matches!(parse_binary(&script), BinaryKind::OtherObject | BinaryKind::Unparsable));
    let r = inspect_local(&o, Some(&script), None);
    assert_eq!(r.arch.as_deref(), Some("Not an ELF binary"));
    assert_eq!(r.security, None);
    assert_eq!(r.libs, Some(vec!["(Not an ELF binary)".to_string()]));
    let r = inspect_local(&o, None, None);
    assert_eq!(r.arch.as_deref(), Some("Unreadable"));
    let r = inspect_local(&opts(), Some(&script), None);
    assert_eq!((r.arch, r.security, r.libs), (None, None, None));
}

#[test]
fn container_reports() {
    let mut o = opts();
    o.verbose = true;
    let f = inspect_container_file(&o, Some(tiny_elf()));
    assert_eq!(f.size, Some(64));
    assert_eq!(f.hash, None);
    assert_eq!(f.binary.arch.as_deref(), Some("x86_64"));
    assert_eq!(f.binary.security.as_deref(), Some("PIE"));
    let mut o = opts();
    o.hash = true;
    o.show_size = true;
    let f = inspect_container_file(&o, None);
    assert_eq!(f.binary.arch.as_deref(), Some("Extraction failed"));
    let f = inspect_container_file(&o, Some(b"abc".to_vec()));
    assert_eq!(f.hash.as_deref(), Some("ba7816bf8f01cfea414140de5dae2223b00361a396177a9cb410ff61f20015ad"));
    assert_eq!(f.size, Some(3));
    let mut o = opts();
    o.arch = true;
    let k = BinaryKind::Elf(where_cmd::binary::ElfFacts { machine: 243, e_type: 2, libraries: vec!["libc.so.6".to_string()], interpreter: None });
    let r = container_binary_report(&o, &k);
    assert_eq!(r.arch.as_deref(), Some("unknown(243)"));
}
