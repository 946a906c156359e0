use arceos_tools::image::{
    generate_bin, le_bytes_of, pack_app_image, size_prefix, AppHeader, IMAGE_SIZE,
};

#[test]
fn size_prefix_is_little_endian() {
    assert_eq!(size_prefix(0x0102030405060708), vec![8, 7, 6, 5, 4, 3, 2, 1]);
    assert_eq!(size_prefix(0), vec![0; 8]);
    assert_eq!(size_prefix(0xabcdef), vec![0xef, 0xcd, 0xab, 0, 0, 0, 0, 0]);
    assert_eq!(size_prefix(u64::MAX), vec![0xff; 8]);
}

#[test]
fn le_bytes_of_matches_std() {
    for x in [0u64, 1, 255, 256, 0x1122334455667788, u64::MAX] {
        assert_eq!(le_bytes_of(x), x.to_le_bytes().to_vec());
    }
}

#[test]
fn generate_bin_lays_out_size_elf_and_padding() {
    let elf = b"\x7fELF-body".to_vec();
    let img = generate_bin(&elf);
    assert_eq!(img.len(), IMAGE_SIZE);
    assert_eq!(&img[0..8], &(elf.len() as u64).to_le_bytes());
    assert_eq!(&img[8..8 + elf.len()], &elf[..]);
    assert!(img[8 + elf.len()..].iter().all(|b| *b == 0));
}

#[test]
fn generate_bin_reads_back() {
    let elf: Vec<u8> = (0..1000u32).map(|i| (i % 251) as u8).collect();
    let img = generate_bin(&elf);
    let mut len_bytes = [0u8; 8];
    len_bytes.copy_from_slice(&img[0..8]);
    let len = u64::from_le_bytes(len_bytes) as usize;
    assert_eq!(len, elf.len());
    assert_eq!(&img[8..8 + len], &elf[..]);
}

#[test]
fn generate_bin_grows_for_a_large_elf() {
    let elf = vec![7u8; IMAGE_SIZE];
    let img = generate_bin(&elf);
    assert_eq!(img.len(), IMAGE_SIZE + 8);
    assert_eq!(img[IMAGE_SIZE + 7], 7);
}

#[test]
fn app_header_layout() {
    let h = AppHeader::new(5);
    assert_eq!(h.magic, AppHeader::MAGIC);
    assert_eq!(AppHeader::MAGIC, 0x4150505F);
    assert_eq!(h.app_count, 1);
    assert_eq!(h.app_size, [5, 0, 0, 0, 0, 0]);
    let bytes = h.to_bytes();
    assert_eq!(bytes.len(), 64);
    assert_eq!(&bytes[0..8], &[0x5F, 0x50, 0x50, 0x41, 0, 0, 0, 0]);
    assert_eq!(&bytes[8..16], &1u64.to_le_bytes());
    assert_eq!(&bytes[16..24], &5u64.to_le_bytes());
    assert!(bytes[24..].iter().all(|b| *b == 0));
}

#[test]
fn packed_image_reads_back() {
    let app = b"hello app".to_vec();
    let img = pack_app_image(&app);
    assert_eq!(img.len(), IMAGE_SIZE);
    assert_eq!(&img[0..64], &AppHeader::new(app.len() as u64).to_bytes()[..]);
    assert_eq!(&img[64..64 + app.len()], &app[..]);
    assert!(img[64 + app.len()..].iter().all(|b| *b == 0));
}

#[test]
fn packed_image_closing_byte_overwrites_a_large_app() {
    let app = vec![9u8; IMAGE_SIZE];
    let img = pack_app_image(&app);
    assert_eq!(img.len(), IMAGE_SIZE + 64);
    assert_eq!(img[IMAGE_SIZE - 1], 0);
    assert_eq!(img[IMAGE_SIZE - 2], 9);
    assert_eq!(img[IMAGE_SIZE], 9);
}
