//! Layout of the buffer shared with the PMP firmware.
//!
//! The buffer is `SHMEM_SIZE` bytes, zeroed when allocated; the DRAM
//! configuration of the device tree goes at `DRAM_CONFIG_OFFSET` and the maps
//! table of the initialisation plan at `INIT_MAPS_OFFSET`.
use vstd::prelude::*;

verus! {

/// Size of the shared buffer.
pub const SHMEM_SIZE: usize = 0x10000;

/// Offset of the DRAM configuration in the shared buffer.
pub const DRAM_CONFIG_OFFSET: usize = 0x2000;

/// Offset of the maps table in the shared buffer.
pub const INIT_MAPS_OFFSET: usize = 0xe000;

/// A freshly allocated shared buffer.
pub open spec fn zeroed_shmem() -> Seq<u8> {
    Seq::new(SHMEM_SIZE as nat, |i: int| 0u8)
}

/// `buf` with the bytes from `off` on replaced by `data`.
pub open spec fn spec_write_at(buf: Seq<u8>, off: int, data: Seq<u8>) -> Seq<u8> {
    buf.subrange(0, off) + data + buf.subrange(off + data.len(), buf.len() as int)
}

/// The shared buffer with `dram_config` and `maps` in place.
pub open spec fn spec_shmem_image(dram_config: Seq<u8>, maps: Seq<u8>) -> Seq<u8> {
    spec_write_at(
        spec_write_at(zeroed_shmem(), DRAM_CONFIG_OFFSET as int, dram_config),
        INIT_MAPS_OFFSET as int,
        maps,
    )
}

/// A zeroed shared buffer.
pub fn new_shmem() -> (s: Vec<u8>)
    ensures
        s@ == zeroed_shmem(),
{
    let mut s: Vec<u8> = Vec::new();
    let mut k: usize = 0;
    while k < SHMEM_SIZE
        invariant
            k <= SHMEM_SIZE,
            s@ =~= Seq::new(k as nat, |i: int| 0u8),
        decreases SHMEM_SIZE - k,
    {
        s.push(0u8);
        k = k + 1;
    }
    s
}

/// Copies `data` into `buf` from `off` on.
fn write_at(buf: &mut Vec<u8>, off: usize, data: &[u8])
    requires
        off + data@.len() <= old(buf)@.len(),
    ensures
        final(buf)@ == spec_write_at(old(buf)@, off as int, data@),
{
    let n = data.len();
    let mut k: usize = 0;
    while k < n
        invariant
            n == data@.len(),
            k <= n,
            off + n <= buf@.len(),
            buf.len() == old(buf).len(),
            forall|i: int| 0 <= i < buf@.len() ==> #[trigger] buf@[i] == (
                if off <= i < off + k { data@[i - off] } else { old(buf)@[i] }),
        decreases n - k,
    {
        buf.set(off + k, data[k]);
        k = k + 1;
    }
    assert(buf@ =~= spec_write_at(old(buf)@, off as int, data@));
}

/// Places the DRAM configuration in the shared buffer.
pub fn write_dram_config(shmem: &mut Vec<u8>, dram_config: &[u8])
    requires
        DRAM_CONFIG_OFFSET + dram_config@.len() <= old(shmem)@.len(),
    ensures
        final(shmem)@ == spec_write_at(old(shmem)@, DRAM_CONFIG_OFFSET as int, dram_config@),
{
    write_at(shmem, DRAM_CONFIG_OFFSET, dram_config);
}

/// Places the maps table in the shared buffer.
pub fn write_init_maps(shmem: &mut Vec<u8>, maps: &[u8])
    requires
        INIT_MAPS_OFFSET + maps@.len() <= old(shmem)@.len(),
    ensures
        final(shmem)@ == spec_write_at(old(shmem)@, INIT_MAPS_OFFSET as int, maps@),
{
    write_at(shmem, INIT_MAPS_OFFSET, maps);
}

/// The shared buffer as the driver hands it to the firmware: zeroed, with the
/// DRAM configuration and then the maps table written in.
pub fn shmem_image(dram_config: &[u8], maps: &[u8]) -> (s: Vec<u8>)
    requires
        DRAM_CONFIG_OFFSET + dram_config@.len() <= SHMEM_SIZE,
        INIT_MAPS_OFFSET + maps@.len() <= SHMEM_SIZE,
    ensures
        s@ == spec_shmem_image(dram_config@, maps@),
{
    let mut s = new_shmem();
    write_dram_config(&mut s, dram_config);
    write_init_maps(&mut s, maps);
    s
}

/// The two regions do not interfere: a DRAM configuration that ends before
/// `INIT_MAPS_OFFSET` and a maps table that fits the buffer are both found
/// intact in the image, and every other byte is zero.
pub proof fn lemma_shmem_image_regions(dram_config: Seq<u8>, maps: Seq<u8>)
    requires
        DRAM_CONFIG_OFFSET + dram_config.len() <= INIT_MAPS_OFFSET,
        INIT_MAPS_OFFSET + maps.len() <= SHMEM_SIZE,
    ensures
        spec_shmem_image(dram_config, maps).len() == SHMEM_SIZE,
        spec_shmem_image(dram_config, maps).subrange(
            DRAM_CONFIG_OFFSET as int,
            DRAM_CONFIG_OFFSET + dram_config.len(),
        ) == dram_config,
        spec_shmem_image(dram_config, maps).subrange(
            INIT_MAPS_OFFSET as int,
            INIT_MAPS_OFFSET + maps.len(),
        ) == maps,
        forall|i: int|
            0 <= i < SHMEM_SIZE && !(DRAM_CONFIG_OFFSET <= i < DRAM_CONFIG_OFFSET + dram_config.len())
                && !(INIT_MAPS_OFFSET <= i < INIT_MAPS_OFFSET + maps.len())
                ==> #[trigger] spec_shmem_image(dram_config, maps)[i] == 0,
{
    let a = spec_write_at(zeroed_shmem(), DRAM_CONFIG_OFFSET as int, dram_config);
    let img = spec_shmem_image(dram_config, maps);
    assert(a.len() == SHMEM_SIZE);
    assert forall|i: int| 0 <= i < SHMEM_SIZE implies #[trigger] a[i] == (
        if DRAM_CONFIG_OFFSET <= i < DRAM_CONFIG_OFFSET + dram_config.len() {
            dram_config[i - DRAM_CONFIG_OFFSET]
        } else {
            0u8
        }) by {
        if i < DRAM_CONFIG_OFFSET {
        } else if i < DRAM_CONFIG_OFFSET + dram_config.len() {
        } else {
        }
    }
    assert forall|i: int| 0 <= i < SHMEM_SIZE implies #[trigger] img[i] == (
        if INIT_MAPS_OFFSET <= i < INIT_MAPS_OFFSET + maps.len() {
            maps[i - INIT_MAPS_OFFSET]
        } else {
            a[i]
        }) by {
        if i < INIT_MAPS_OFFSET {
        } else if i < INIT_MAPS_OFFSET + maps.len() {
        } else {
        }
    }
    assert(img.subrange(DRAM_CONFIG_OFFSET as int, DRAM_CONFIG_OFFSET + dram_config.len()) =~= dram_config);
    assert(img.subrange(INIT_MAPS_OFFSET as int, INIT_MAPS_OFFSET + maps.len()) =~= maps);
}

/// A write places its data whatever the buffer held: the written window holds
/// exactly `data`, every other byte is the buffer's own, and the length stays.
pub proof fn lemma_write_at_places_data(buf: Seq<u8>, off: int, data: Seq<u8>)
    requires
        0 <= off,
        off + data.len() <= buf.len(),
    ensures
        spec_write_at(buf, off, data).len() == buf.len(),
        spec_write_at(buf, off, data).subrange(off, off + data.len()) == data,
        forall|i: int| 0 <= i < buf.len() && !(off <= i < off + data.len())
            ==> #[trigger] spec_write_at(buf, off, data)[i] == buf[i],
{
    let w = spec_write_at(buf, off, data);
    assert(w.subrange(off, off + data.len()) =~= data);
    assert forall|i: int| 0 <= i < buf.len() && !(off <= i < off + data.len()) implies #[trigger] w[i] == buf[i] by {
        if i < off {
        } else {
        }
    }
}

} // verus!
