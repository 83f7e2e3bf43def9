use ferrvm::guest::console_bytes;
use ferrvm::virtio::blk::{id_writes, parse_request_header, request_offsets};
use ferrvm::virtio::rng::fill_request;
use ferrvm::virtio::{VirtqDesc, Virtqueue, chain_next, pending_chains};

fn queue() -> Virtqueue {
    Virtqueue { desc_table: 0x1000, avail_ring: 0x2000, used_ring: 0x3000, num: 8, last_avail_idx: 10, ready: true }
}

fn desc(addr: u64, len: u32, flags: u16, next: u16) -> VirtqDesc {
    VirtqDesc { addr, len, flags, next }
}

#[test]
fn pending_chains_wraps() {
    assert_eq!(pending_chains(10, 13), 3);
    assert_eq!(pending_chains(0xfffe, 1), 3);
    assert_eq!(pending_chains(5, 5), 0);
}

#[test]
fn queue_addresses() {
    let q = queue();
    assert_eq!(q.avail_idx_addr(), 0x2002);
    // Position 10 of a ring of 8 is slot 2.
    assert_eq!(q.avail_entry_addr(10), 0x2004 + 2 * 2);
    assert_eq!(q.desc_addr(3), 0x1000 + 3 * 16);
    let (addr, elem) = q.used_ring_update(7, 0x0102_0304);
    assert_eq!(addr, 0x3004 + 2 * 8);
    assert_eq!(elem, vec![7, 0, 0, 0, 0x04, 0x03, 0x02, 0x01]);
    let (idx_addr, idx) = q.used_idx_update();
    assert_eq!(idx_addr, 0x3002);
    assert_eq!(idx, vec![10, 0]);
}

#[test]
fn chain_walk_step() {
    assert_eq!(chain_next(&desc(0, 16, 1, 5), 1, 8), Some(5));
    assert_eq!(chain_next(&desc(0, 16, 0, 5), 1, 8), None);
    // A chain already longer than the queue ends.
    assert_eq!(chain_next(&desc(0, 16, 1, 5), 9, 8), None);
}

#[test]
fn blk_header_and_offsets() {
    let mut hdr = vec![0u8; 16];
    hdr[0] = 1;
    hdr[8] = 3;
    assert_eq!(parse_request_header(&hdr), Some((1, 3)));
    assert_eq!(parse_request_header(&hdr[..15]), None);
    let data = [desc(0x100, 512, 2, 0), desc(0x400, 100, 2, 0), desc(0x800, 7, 2, 0)];
    assert_eq!(request_offsets(3, &data), vec![1536, 2048, 2148]);
}

#[test]
fn blk_id_pieces() {
    let data = [desc(0x100, 4, 2, 0), desc(0x200, 30, 2, 0), desc(0x300, 8, 2, 0)];
    let w = id_writes(&data);
    assert_eq!(w.len(), 3);
    assert_eq!(w[0], (0x100, b"ferr".to_vec()));
    assert_eq!(w[1].0, 0x200);
    assert_eq!(w[1].1.len(), 16);
    assert_eq!(&w[1].1[..2], b"vm");
    assert_eq!(w[2], (0x300, Vec::new()));
}

#[test]
fn rng_fill_requests() {
    assert_eq!(fill_request(&desc(0x500, 64, 2, 0)), Some((0x500, 64)));
    assert_eq!(fill_request(&desc(0x500, 64, 0, 0)), None);
    assert_eq!(fill_request(&desc(0x500, 0, 2, 0)), None);
}

#[test]
fn guest_console_crlf() {
    assert_eq!(console_bytes(b"a\nb\n"), b"a\r\nb\r\n".to_vec());
    assert_eq!(console_bytes(b""), Vec::<u8>::new());
}
