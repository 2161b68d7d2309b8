use bof::index_mesh::{index_mesh_addresses, index_mesh_indices, VERTICES_PER_BLADE};
use bof::ring_records::{ChunkCell, RingRecords, RECORD_BYTES};

fn cell(x: i32, z: i32) -> ChunkCell {
    ChunkCell { x, z }
}

#[test]
fn every_vertex_carries_which_blade_and_corner_it_is() {
    let address = index_mesh_addresses(3);
    assert_eq!(address.len(), 3 * VERTICES_PER_BLADE as usize);
    for (vertex, (blade, corner)) in address.iter().copied().enumerate() {
        let vertex = u32::try_from(vertex).expect("malla chica de test");
        assert_eq!(blade, vertex / VERTICES_PER_BLADE);
        assert_eq!(corner, vertex % VERTICES_PER_BLADE);
    }
}

#[test]
fn a_released_slot_is_handed_out_again() {
    let mut ring: RingRecords<(), ()> = RingRecords::new(());
    let first = ring.slot_for(cell(0, 0));
    let second = ring.slot_for(cell(1, 0));
    assert_ne!(first, second);
    ring.release(cell(0, 0));
    assert_eq!(ring.slot_for(cell(9, 9)), first);
}

#[test]
fn a_chunk_keeps_its_slot() {
    let mut ring: RingRecords<(), ()> = RingRecords::new(());
    let slot = ring.slot_for(cell(3, -2));
    assert_eq!(ring.slot_for(cell(3, -2)), slot);
    assert_eq!(ring.chunks(), 1);
}

#[test]
fn records_land_in_their_own_slot() {
    let mut ring: RingRecords<(), ()> = RingRecords::new(());
    ring.stride = 2;
    let lanes = |values: [f32; 4]| values.map(f32::to_bits);
    ring.write(1, &[lanes([1.0, 2.0, 3.0, 4.0]), lanes([5.0, 6.0, 7.0, 8.0])]);
    assert_eq!(ring.buffer_bytes(), 2 * 2 * RECORD_BYTES);
    let data = ring.pending_upload().expect("written bytes are pending").clone();
    assert!(data[..2 * RECORD_BYTES].iter().all(|byte| *byte == 0));
    assert_eq!(
        f32::from_le_bytes(data[2 * RECORD_BYTES..2 * RECORD_BYTES + 4].try_into().unwrap()),
        1.0,
    );
    assert_eq!(
        f32::from_le_bytes(data[3 * RECORD_BYTES + 12..3 * RECORD_BYTES + 16].try_into().unwrap()),
        8.0,
    );
}

#[test]
fn the_index_mesh_indexes_only_vertices_it_has() {
    for (triangles_per_blade, triangles) in [(1_u32, 1_usize), (2, 2)] {
        let vertices = u32::try_from(index_mesh_addresses(5).len()).expect("malla chica de test");
        assert_eq!(vertices, 5 * VERTICES_PER_BLADE);
        let indices = index_mesh_indices(5, triangles_per_blade);
        assert_eq!(indices.len(), 5 * triangles * 3);
        assert!(
            indices.iter().all(|index| *index < vertices),
            "un índice apunta fuera de la malla",
        );
    }
}

#[test]
fn uploading_clears_the_pending_bytes_and_reset_forgets_the_slots() {
    let mut ring: RingRecords<(), ()> = RingRecords::new(());
    assert!(ring.pending_upload().is_none());
    ring.stride = 1;
    let slot = ring.slot_for(cell(2, 2));
    ring.write(slot, &[[1, 2, 3, 4]]);
    assert!(ring.pending_upload().is_some());
    ring.mark_uploaded();
    assert!(ring.pending_upload().is_none());
    ring.reset();
    assert_eq!(ring.chunks(), 0);
    assert_eq!(ring.buffer_bytes(), 0);
    assert_eq!(ring.stride, 0);
    assert_eq!(ring.slot_for(cell(7, 7)), 0);
}

#[test]
fn a_record_is_stored_least_significant_byte_first() {
    let mut ring: RingRecords<(), ()> = RingRecords::new(());
    ring.stride = 1;
    ring.write(0, &[[0x0403_0201, 0, 0, 0xA0B0_C0D0]]);
    let data = ring.pending_upload().unwrap();
    assert_eq!(&data[0..4], &[1, 2, 3, 4]);
    assert_eq!(&data[12..16], &[0xD0, 0xC0, 0xB0, 0xA0]);
}

#[test]
fn setting_the_stride_sizes_every_slot() {
    let mut ring: RingRecords<(), ()> = RingRecords::new(());
    let first = ring.slot_for(cell(0, 0));
    ring.set_stride(3);
    assert_eq!(ring.stride(), 3);
    assert_eq!(ring.chunks(), 1);
    ring.write(first + 1, &[[7, 0, 0, 0]; 4]);
    // One slot of three records before it, and the fourth record is dropped.
    assert_eq!(ring.buffer_bytes(), 2 * 3 * RECORD_BYTES);
    let data = ring.pending_upload().unwrap().clone();
    assert!(data[..3 * RECORD_BYTES].iter().all(|byte| *byte == 0));
    assert_eq!(data[3 * RECORD_BYTES], 7);
    assert_eq!(data[5 * RECORD_BYTES], 7);
    ring.set_mesh(());
    assert_eq!(ring.mesh, Some(()));
    assert_eq!(ring.stride(), 3);
}
