use apple_pmp::shmem::{new_shmem, shmem_image, write_dram_config, write_init_maps, SHMEM_SIZE};

#[test]
fn new_shmem_is_zeroed() {
    let s = new_shmem();
    assert_eq!(s.len(), 0x10000);
    assert!(s.iter().all(|b| *b == 0));
}

#[test]
fn image_places_both_regions() {
    let cfg = [1u8, 2, 3, 4];
    let maps = [9u8; 32];
    let s = shmem_image(&cfg, &maps);
    assert_eq!(s.len(), SHMEM_SIZE);
    assert_eq!(&s[0x2000..0x2004], &cfg);
    assert_eq!(&s[0xe000..0xe020], &maps);
    assert!(s[..0x2000].iter().all(|b| *b == 0));
    assert!(s[0x2004..0xe000].iter().all(|b| *b == 0));
    assert!(s[0xe020..].iter().all(|b| *b == 0));
}

#[test]
fn maps_overwrite_a_long_dram_config() {
    let cfg = vec![7u8; 0xe000];
    let maps = [1u8; 16];
    let s = shmem_image(&cfg, &maps);
    assert_eq!(s[0xdfff], 7);
    assert_eq!(&s[0xe000..0xe010], &maps);
    assert_eq!(s[0xe010], 7);
    assert_eq!(s[0xffff], 7);
}

#[test]
fn writes_fill_the_buffer_to_its_end() {
    let mut s = new_shmem();
    write_dram_config(&mut s, &vec![5u8; 0xe000]);
    write_init_maps(&mut s, &vec![6u8; 0x2000]);
    assert_eq!(s.len(), 0x10000);
    assert!(s[..0x2000].iter().all(|b| *b == 0));
    assert!(s[0x2000..0xe000].iter().all(|b| *b == 5));
    assert!(s[0xe000..].iter().all(|b| *b == 6));
}

#[test]
fn empty_writes_change_nothing() {
    let mut s = new_shmem();
    write_dram_config(&mut s, &[]);
    write_init_maps(&mut s, &[]);
    assert!(s.iter().all(|b| *b == 0));
}
