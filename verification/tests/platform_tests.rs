use d7os::acpi::rsdt::{find_rsdp, get_rsdp_addr, get_xsdp, parse_rsdp, ParseResult, RSDPParseError, XSDPParseError};
use d7os::acpi::tables::{init_rsdt, rsdt_entry_addresses};
use d7os::acpi::madt::{madt_is_well_formed, parse_madt};
use d7os::cpuid::{cpu_brand, init as cpu_init, run_feature_checks, tsc_supports_deadline_mode, FeatureError};
use d7os::elf_parser::{parse_elf, ELFParsingError};
use d7os::initrd::{files_area, parse_header, FileEntry, Header, InitRD, InitRdError};
use d7os::rtc::{get_current_time, is_valid_snapshot, TimeRegisterSnapshot};
use d7os::tsc::{clear_deadline, combine, set_deadline};

fn checksum_fix(bytes: &mut [u8], n: usize, at: usize) {
    bytes[at] = 0;
    let sum: u32 = bytes[..n].iter().map(|b| *b as u32).sum();
    bytes[at] = ((256 - (sum % 256)) % 256) as u8;
}

fn rsdp_v1(rsdt: u32) -> Vec<u8> {
    let mut d = vec![0u8; 64];
    d[..8].copy_from_slice(b"RSD PTR ");
    d[15] = 0;
    d[16..20].copy_from_slice(&rsdt.to_le_bytes());
    checksum_fix(&mut d, 20, 8);
    d
}

#[test]
fn rsdp_parse_versions_and_errors() {
    let d = rsdp_v1(0x7fe_0000);
    assert!(matches!(parse_rsdp(&d), Ok(ParseResult::RSDT(0x7fe_0000))));
    let mut bad = d.clone();
    bad[9] ^= 1;
    assert!(matches!(parse_rsdp(&bad), Err(RSDPParseError::IncorrectChecksum)));
    let mut v3 = d.clone();
    v3[15] = 3;
    assert!(matches!(parse_rsdp(&v3), Err(RSDPParseError::UnsupportedVersion)));
    let mut v2 = vec![0u8; 64];
    v2[..8].copy_from_slice(b"RSD PTR ");
    v2[15] = 2;
    v2[24..32].copy_from_slice(&0x1_2345_6000u64.to_le_bytes());
    checksum_fix(&mut v2, 20, 8);
    checksum_fix(&mut v2, 64, 32);
    assert!(matches!(parse_rsdp(&v2), Ok(ParseResult::XSDT(0x1_2345_6000))));
}

#[test]
fn rsdp_is_found_on_a_16_byte_boundary() {
    let mut mem = vec![0u8; 0x200];
    mem[0x38..0x40].copy_from_slice(b"RSD PTR ");
    mem[0x40..0x48].copy_from_slice(b"RSD PTR ");
    assert_eq!(find_rsdp(&mem, 0x100), Some(0x40));
    let mut ebda = vec![0u8; 0x640 + 64];
    let bios = vec![0u8; 0x1ffff + 64];
    assert_eq!(get_rsdp_addr(&ebda, &bios), None);
    let d = rsdp_v1(0x1000);
    ebda[0x20..0x60].copy_from_slice(&d);
    assert_eq!(get_rsdp_addr(&ebda, &bios), Some(0x9fc00 + 0x20));
    assert!(matches!(get_xsdp(&ebda, 0x640, &bios, 0x1ffff), Ok(true)));
    let empty = vec![0u8; 0x640 + 64];
    assert!(matches!(
        get_xsdp(&empty, 0x640, &bios, 0x1ffff),
        Err(XSDPParseError::RSDPParseError(RSDPParseError::NotFound))
    ));
}

#[test]
fn root_table_entries_and_lookup() {
    let mut root = vec![0u8; 44];
    root[..4].copy_from_slice(b"RSDT");
    root[4..8].copy_from_slice(&44u32.to_le_bytes());
    root[36..40].copy_from_slice(&0x1000u32.to_le_bytes());
    root[40..44].copy_from_slice(&0x2000u32.to_le_bytes());
    assert_eq!(rsdt_entry_addresses(ParseResult::RSDT(0), &root), vec![0x1000, 0x2000]);
    let t = init_rsdt(ParseResult::RSDT(0), &[*b"FACP", *b"APIC", *b"FACP"], &[0x1000, 0x2000, 0x3000]);
    assert!(t.is_legacy_acpi());
    assert_eq!(t.rsdt_get(b"FACP"), Some(0x3000));
    assert_eq!(t.rsdt_get(b"APIC"), Some(0x2000));
    assert_eq!(t.rsdt_get(b"HPET"), None);
}

#[test]
fn elf_header_errors() {
    let mut image = vec![0u8; 64];
    assert!(matches!(parse_elf(&image), Err(ELFParsingError::NotElf)));
    image[..4].copy_from_slice(&[0x7f, b'E', b'L', b'F']);
    image[4] = 1;
    assert!(matches!(parse_elf(&image), Err(ELFParsingError::Not64Bit)));
}

#[test]
fn elf_program_headers_keep_loadable_only() {
    let mut image = vec![0u8; 64 + 2 * 56];
    image[..4].copy_from_slice(&[0x7f, b'E', b'L', b'F']);
    image[4] = 2;
    image[5] = 1;
    image[6] = 1;
    image[18..20].copy_from_slice(&0x3Eu16.to_le_bytes());
    image[20..24].copy_from_slice(&1u32.to_le_bytes());
    image[24..32].copy_from_slice(&0x40_0000u64.to_le_bytes());
    image[32..40].copy_from_slice(&64u64.to_le_bytes());
    image[54..56].copy_from_slice(&56u16.to_le_bytes());
    image[56..58].copy_from_slice(&2u16.to_le_bytes());
    // First entry: not loadable. Second: loadable.
    image[64..68].copy_from_slice(&6u32.to_le_bytes());
    image[120..124].copy_from_slice(&1u32.to_le_bytes());
    image[124..128].copy_from_slice(&5u32.to_le_bytes());
    image[136..144].copy_from_slice(&0x40_1000u64.to_le_bytes());
    let data = match parse_elf(&image) {
        Ok(d) => d,
        Err(e) => panic!("parse failed: {:?}", e),
    };
    assert_eq!(data.header.program_entry_pos, 0x40_0000);
    assert_eq!(data.ph_table.len(), 20);
    let first = data.ph_table[0].unwrap();
    assert_eq!(first.virtual_address, 0x40_1000);
    assert!(first.loadable());
    assert!(data.ph_table[1].is_none());
}

#[test]
fn initrd_header_checks() {
    let mut h = vec![0u8; 16];
    h[0..4].copy_from_slice(&0x1234_5678u32.to_le_bytes());
    h[4..8].copy_from_slice(&100u32.to_le_bytes());
    h[8..16].copy_from_slice(&1000u64.to_le_bytes());
    let header = parse_header(&h, 0x1234_5678).unwrap();
    assert_eq!(header, Header { size_flist: 100, size_total: 1000 });
    assert_eq!(files_area(header), (116, 884));
    assert_eq!(parse_header(&h, 0x8765_4321), Err(InitRdError::MagicMismatch));
    let mut empty = h.clone();
    empty[4..8].copy_from_slice(&0u32.to_le_bytes());
    assert_eq!(parse_header(&empty, 0x1234_5678), Err(InitRdError::Empty));
    let mut large = h.clone();
    large[4..8].copy_from_slice(&4088u32.to_le_bytes());
    assert_eq!(parse_header(&large, 0x1234_5678), Err(InitRdError::TooLarge));
    let mut small = h.clone();
    small[8..16].copy_from_slice(&50u64.to_le_bytes());
    assert_eq!(parse_header(&small, 0x1234_5678), Err(InitRdError::TooSmall));
}

#[test]
fn initrd_reads_files_by_name() {
    let files = vec![
        FileEntry { name: "init".to_string(), offset: 0, size: 3 },
        FileEntry { name: "cfg".to_string(), offset: 3, size: 2 },
        FileEntry { name: "init".to_string(), offset: 1, size: 2 },
    ];
    let rd = InitRD::new(files, vec![10, 11, 12, 13, 14]);
    assert_eq!(rd.read("cfg"), Some(&[13u8, 14][..]));
    assert_eq!(rd.read("init"), Some(&[11u8, 12][..]));
    assert_eq!(rd.read("none"), None);
}

#[test]
fn clock_snapshot_to_date() {
    let t = TimeRegisterSnapshot {
        seconds: 5,
        minutes: 4,
        hours: 3,
        day: 29,
        month: 2,
        year_last_digits: 24,
        maybe_century: 20,
    };
    assert!(is_valid_snapshot(&t));
    let d = get_current_time(t);
    assert_eq!((d.year, d.month, d.day, d.hour, d.minute, d.second), (2024, 2, 29, 3, 4, 5));
    let not_leap = TimeRegisterSnapshot { year_last_digits: 23, ..t };
    assert!(!is_valid_snapshot(&not_leap));
}

#[test]
fn processor_checks() {
    assert_eq!(run_feature_checks(2, 0x8000_0008, 0xffff_ffff, 0), Err(FeatureError::StandardLevelTooLow));
    assert_eq!(run_feature_checks(3, 0x8000_0006, 0xffff_ffff, 0), Err(FeatureError::ExtendedLevelTooLow));
    assert_eq!(run_feature_checks(3, 0x8000_0008, 0, 0), Err(FeatureError::MissingTsc));
    assert_eq!(run_feature_checks(3, 0x8000_0008, 0x10, 0), Err(FeatureError::MissingSse));
    assert_eq!(run_feature_checks(3, 0x8000_0008, 0x200_0010, 0), Err(FeatureError::MissingApic));
    assert_eq!(run_feature_checks(3, 0x8000_0008, 0x200_0210, 0x100), Ok(true));
    assert!(tsc_supports_deadline_mode(0x0100_0000));
    assert!(!tsc_supports_deadline_mode(0));
}

#[test]
fn brand_string_is_trimmed() {
    let mut text = vec![0u8; 48];
    text[..16].copy_from_slice(b"  Virtual CPU   ");
    let mut leaves = [[0u32; 4]; 3];
    for leaf in 0..3 {
        for reg in 0..4 {
            let i = leaf * 16 + reg * 4;
            leaves[leaf][reg] = u32::from_le_bytes([text[i], text[i + 1], text[i + 2], text[i + 3]]);
        }
    }
    assert_eq!(cpu_brand(leaves), b"Virtual CPU".to_vec());
}

#[test]
fn tsc_halves() {
    assert_eq!(combine(0x12, 0xffff_ffff_0000_0034), 0x12_0000_0034);
    assert_eq!(set_deadline(0x1_0000_0002), (1, 2));
    assert_eq!(clear_deadline(), (0, 0));
}

fn sample_madt() -> Vec<u8> {
    let mut t = vec![0u8; 44];
    t[0..4].copy_from_slice(b"APIC");
    t[36..40].copy_from_slice(&0xfee0_0000u32.to_le_bytes());
    // A processor, an I/O APIC, an interrupt source override, an NMI entry.
    t.extend_from_slice(&[0, 8, 0, 1, 1, 0, 0, 0]);
    t.extend_from_slice(&[1, 12, 2, 0, 0x00, 0x00, 0xc0, 0xfe, 0, 0, 0, 0]);
    t.extend_from_slice(&[2, 10, 0, 0, 2, 0, 0, 0, 0, 0]);
    t.extend_from_slice(&[4, 6, 0xff, 0, 0, 1]);
    let len = t.len() as u32;
    t[4..8].copy_from_slice(&len.to_le_bytes());
    t
}

#[test]
fn madt_parses_entries_in_order() {
    let t = sample_madt();
    assert!(madt_is_well_formed(&t));
    let d = parse_madt(&t);
    assert_eq!(d.local_apic_addr, 0xfee0_0000);
    assert_eq!(d.cpus.len(), 1);
    assert_eq!(d.cpus[0].acpi_id, 1);
    assert_eq!(d.io_apics.len(), 1);
    assert_eq!(d.io_apics[0].io_acpi_addr, 0xfec0_0000);
    assert_eq!(d.int_source_overrides.len(), 1);
    assert_eq!(d.int_source_overrides[0].gsi, 2);
}

#[test]
fn madt_malformed_tables_are_refused() {
    let good = sample_madt();
    let mut wrong_size = good.clone();
    wrong_size[45] = 9;
    assert!(!madt_is_well_formed(&wrong_size));
    let mut unknown_type = good.clone();
    unknown_type[44] = 7;
    assert!(!madt_is_well_formed(&unknown_type));
    let mut short_length = good.clone();
    short_length[4..8].copy_from_slice(&50u32.to_le_bytes());
    assert!(!madt_is_well_formed(&short_length));
    assert!(!madt_is_well_formed(&good[..40]));
}

#[test]
fn cpu_init_reports_tsc_modes() {
    let edx1 = 0x10 | 0x200 | 0x200_0000;
    let r = cpu_init(0xd, 0x8000_0008, 0x0100_0000, edx1, 0x100);
    assert!(r.invariant_tsc);
    assert!(r.deadline_mode);
    let r = cpu_init(3, 0x8000_0007, 0, edx1, 0);
    assert!(!r.invariant_tsc);
    assert!(!r.deadline_mode);
}
