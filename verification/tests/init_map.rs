use apple_pmp::error::PmpError;
use apple_pmp::init_map::{plan_init_maps, pmp_init_plan, pmp_init_table, InitEntry, IommuMapping};

const EXPECTED: [(u64, u64, u64); 34] = [
    (0xc0000000, 0x200024000, 0x4000),
    (0xc0004000, 0x200064000, 0x4000),
    (0xc0008000, 0x2000a4000, 0x4000),
    (0xc000c000, 0x2000e4000, 0x4000),
    (0xc0010000, 0x200158000, 0x4000),
    (0xc0014000, 0x200204000, 0x4000),
    (0xc0018000, 0x200244000, 0x4000),
    (0xc001c000, 0x200284000, 0x4000),
    (0xc0020000, 0x2002c4000, 0x4000),
    (0xc1000000, 0x204d10000, 0x4000),
    (0xc2000000, 0x210058000, 0x4000),
    (0xc2004000, 0x210158000, 0x4000),
    (0xc2008000, 0x210258000, 0x4000),
    (0xc200c000, 0x210358000, 0x4000),
    (0xc2010000, 0x210e20000, 0x60000),
    (0xc2070000, 0x210e48000, 0x4000),
    (0xc3000000, 0x211058000, 0x4000),
    (0xc3004000, 0x211158000, 0x4000),
    (0xc3008000, 0x211258000, 0x4000),
    (0xc300c000, 0x211358000, 0x4000),
    (0xc3010000, 0x211e20000, 0x60000),
    (0xc3070000, 0x211e48000, 0x4000),
    (0xc4000000, 0x23d100000, 0x14000),
    (0xc4014000, 0x23d128000, 0x30000),
    (0xc4044000, 0x23d0d8000, 0x4000),
    (0xc5000000, 0x26b90c000, 0x4000),
    (0xc0024000, 0x200170000, 0x4000),
    (0xc6000000, 0x23c100000, 0x4000),
    (0xc1004000, 0x204e20000, 0x4000),
    (0xc3074000, 0x211ee0000, 0x8000),
    (0xc307c000, 0x211ee8000, 0x8000),
    (0xc3084000, 0x211ef0000, 0x8000),
    (0xc2074000, 0x210ee0000, 0x8000),
    (0xc1008000, 0x204d80000, 0x8000),
];

#[test]
fn init_table_shape() {
    let t = pmp_init_table();
    assert_eq!(t.len(), 53);
    assert_eq!(t[0], InitEntry::Dva { addr: 0xc0000000 });
    assert_eq!(t[1], InitEntry::Range { addr: 0x00024000, size: 0x4000 });
    assert_eq!(t[52], InitEntry::Range { addr: 0x04d80000, size: 0x8000 });
    assert_eq!(t.iter().filter(|e| matches!(e, InitEntry::Range { .. })).count(), 41);
}

#[test]
fn init_plan_mappings() {
    let p = pmp_init_plan();
    assert_eq!(p.mappings.len(), EXPECTED.len());
    for (m, e) in p.mappings.iter().zip(EXPECTED.iter()) {
        assert_eq!(*m, IommuMapping { dva: e.0, paddr: e.1, size: e.2 });
    }
}

#[test]
fn init_plan_maps_table() {
    let p = pmp_init_plan();
    // One 16-byte record per range entry, empty ones included.
    assert_eq!(p.maps.len(), 41 * 16);
    assert_eq!(&p.maps[0..16], &[0, 0, 0, 0xc0, 0, 0, 0, 0, 0, 0x40, 0, 0, 0, 0, 0, 0]);
    // The tenth range is empty: a zero record.
    assert_eq!(&p.maps[9 * 16..10 * 16], &[0u8; 16]);
    let mut mapped = 0;
    for rec in p.maps.chunks(16) {
        let dva = u64::from_le_bytes(rec[0..8].try_into().unwrap());
        let size = u64::from_le_bytes(rec[8..16].try_into().unwrap());
        if size != 0 {
            assert_eq!((dva, size), (EXPECTED[mapped].0, EXPECTED[mapped].2));
            mapped += 1;
        } else {
            assert_eq!(dva, 0);
        }
    }
    assert_eq!(mapped, 34);
}

#[test]
fn init_plan_dvas_are_aligned() {
    let p = pmp_init_plan();
    assert!(p.mappings.iter().all(|m| m.dva % 0x4000 == 0));
}

#[test]
fn cursor_rounds_up_to_granule() {
    let t = [
        InitEntry::Dva { addr: 0x1000_0000 },
        InitEntry::Range { addr: 0x10, size: 0x1 },
        InitEntry::Range { addr: 0x20, size: 0x4001 },
        InitEntry::Range { addr: 0x30, size: 0x8000 },
    ];
    let p = plan_init_maps(&t).unwrap();
    assert_eq!(
        p.mappings,
        vec![
            IommuMapping { dva: 0x1000_0000, paddr: 0x2_0000_0010, size: 0x1 },
            IommuMapping { dva: 0x1000_4000, paddr: 0x2_0000_0020, size: 0x4001 },
            IommuMapping { dva: 0x1000_c000, paddr: 0x2_0000_0030, size: 0x8000 },
        ]
    );
}

#[test]
fn ranges_before_any_dva_start_at_zero() {
    let t = [InitEntry::Range { addr: 0, size: 0x4000 }, InitEntry::Range { addr: 0x4000, size: 0x4000 }];
    let p = plan_init_maps(&t).unwrap();
    assert_eq!(p.mappings[0].dva, 0);
    assert_eq!(p.mappings[1].dva, 0x4000);
}

#[test]
fn empty_table_plans_nothing() {
    let p = plan_init_maps(&[]).unwrap();
    assert!(p.mappings.is_empty());
    assert!(p.maps.is_empty());
}

#[test]
fn physical_address_overflow_is_refused() {
    let t = [InitEntry::Range { addr: u64::MAX - 0x1_ffff_ffff, size: 0 }];
    assert_eq!(plan_init_maps(&t).err(), Some(PmpError::Overflow));
    let t = [InitEntry::Range { addr: u64::MAX - 0x2_0000_0000, size: 0 }];
    assert!(plan_init_maps(&t).is_ok());
}

#[test]
fn cursor_overflow_is_refused() {
    let t = [InitEntry::Dva { addr: u64::MAX - 0x7fff }, InitEntry::Range { addr: 0, size: 0x4000 }];
    assert!(plan_init_maps(&t).is_ok());
    // The cursor also moves past the last range, and that move must fit.
    let t = [InitEntry::Dva { addr: u64::MAX - 0x3fff }, InitEntry::Range { addr: 0, size: 0x4000 }];
    assert_eq!(plan_init_maps(&t).err(), Some(PmpError::Overflow));
    let t = [InitEntry::Dva { addr: u64::MAX - 0x7fff }, InitEntry::Range { addr: 0, size: 0x1 }, InitEntry::Range { addr: 0, size: 0x1 }];
    assert_eq!(plan_init_maps(&t).err(), Some(PmpError::Overflow));
    let t = [InitEntry::Range { addr: 0, size: u64::MAX }];
    assert_eq!(plan_init_maps(&t).err(), Some(PmpError::Overflow));
}

#[test]
fn init_plan_mappings_do_not_overlap() {
    let p = pmp_init_plan();
    for (j, a) in p.mappings.iter().enumerate() {
        for b in p.mappings.iter().skip(j + 1) {
            assert!(a.dva + a.size <= b.dva || b.dva + b.size <= a.dva);
        }
    }
}

#[test]
fn a_new_segment_may_reuse_addresses() {
    let t = [
        InitEntry::Dva { addr: 0x10000 },
        InitEntry::Range { addr: 0, size: 0x8000 },
        InitEntry::Dva { addr: 0x10000 },
        InitEntry::Range { addr: 0x100, size: 0x4000 },
    ];
    let p = plan_init_maps(&t).unwrap();
    assert_eq!(p.mappings[0].dva, 0x10000);
    assert_eq!(p.mappings[1].dva, 0x10000);
}
