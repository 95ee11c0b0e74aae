use cheon_bsgs::curve::{fr_from_u64, fr_pow, g1_generator, g2_generator, gt_pow, try_pairing};
use cheon_bsgs::table::{build_table, table_lookup};

#[test]
fn table_entries_map_back_to_their_index() {
    let g = try_pairing(&g1_generator(), &g2_generator()).unwrap();
    let two = fr_from_u64(2);
    let t = build_table(&g, &two, 8);
    assert_eq!(t.len(), 8);
    // Entry j holds g^(2^j); looking each entry up returns exactly j.
    for j in 0..8u64 {
        let e = fr_pow(&two, j as u128, 128);
        let query = gt_pow(&g, &e);
        assert_eq!(table_lookup(&t, &query), Some(j));
    }
}

#[test]
fn lookup_misses_elements_outside_the_table() {
    let g = try_pairing(&g1_generator(), &g2_generator()).unwrap();
    let two = fr_from_u64(2);
    let t = build_table(&g, &two, 8);
    // g^3 is no power g^(2^j) of the table.
    let three = fr_from_u64(3);
    assert_eq!(table_lookup(&t, &gt_pow(&g, &three)), None);
    // g^(2^8) lies just past the covered range: no false hit.
    let past = fr_pow(&two, 8, 128);
    assert_eq!(table_lookup(&t, &gt_pow(&g, &past)), None);
}
