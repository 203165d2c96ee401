use baby_bear_dft::{
    decode, encode, dft_batch_values, dft_column, finish, matches_reference, prepare, reference_dft_batch,
    AcceleratorElement, BabyBear, BabyBearIcicleDft, BabyBearSpparkDft, BatchDescriptor, DftError, Layout,
    RowMajorMatrix, P,
};

/// Stands in for an accelerator: transforms every sequence of the buffer in
/// place with the host transform, and leaves some outputs unreduced (plus
/// `P`) as a device may.
fn run_host_accelerator(buf: &mut Vec<AcceleratorElement>, d: BatchDescriptor, h: usize, root: u32) {
    let w = d.batch_size;
    for k in 0..w {
        let idx: Vec<usize> = (0..h)
            .map(|i| if d.columns_batch { i * w + k } else { k * h + i })
            .collect();
        let seq: Vec<u32> = idx.iter().map(|&t| buf[t].limb).collect();
        let out = dft_column(&seq, root, P);
        for (i, &t) in idx.iter().enumerate() {
            let v = out[i];
            let limb = if v < u32::MAX - P && i % 2 == 1 { v + P } else { v };
            buf[t] = AcceleratorElement { limb };
        }
    }
}

fn sample_matrix() -> RowMajorMatrix {
    let values: Vec<u32> = (0..24u32).map(|x| x * 7919 % P + x).collect();
    RowMajorMatrix::new(values, 3).unwrap()
}

#[test]
fn wrapped_values_reduce() {
    assert_eq!(BabyBear::from_wrapped_u32(P).value, 0);
    assert_eq!(BabyBear::from_wrapped_u32(P + 5).value, 5);
    assert_eq!(BabyBear::from_wrapped_u32(u32::MAX).value, 268435453);
    assert_eq!(BabyBear::from_wrapped_u32(17).as_canonical_u32(), 17);
}

#[test]
fn two_adic_generators() {
    assert_eq!(BabyBear::two_adic_generator(0).value, 1);
    assert_eq!(BabyBear::two_adic_generator(1).value, P - 1);
    assert_eq!(BabyBear::two_adic_generator(2).value, 0x67055c21);
    assert_eq!(BabyBear::two_adic_generator(27).value, 0x1a427a41);
}

#[test]
fn codec_round_trip() {
    for r in [0u32, 1, 2, 1000, P / 2, P - 1] {
        let x = BabyBear::from_canonical_u32(r);
        assert_eq!(decode(encode(x)), x);
        assert_eq!(encode(x).limb, r);
    }
}

#[test]
fn decode_reduces_non_canonical() {
    assert_eq!(decode(AcceleratorElement { limb: P }).value, 0);
    assert_eq!(decode(AcceleratorElement { limb: P + 7 }).value, 7);
    assert_eq!(decode(AcceleratorElement { limb: u32::MAX }).value, u32::MAX % P);
    assert_ne!(decode(AcceleratorElement { limb: P + 7 }).value, P + 7);
}

#[test]
fn matrix_shape_checks() {
    assert!(RowMajorMatrix::new(vec![1, 2, 3, 4], 0).is_none());
    assert!(RowMajorMatrix::new(vec![], 1).is_none());
    assert!(RowMajorMatrix::new(vec![1, 2, 3], 2).is_none());
    assert!(RowMajorMatrix::new(vec![1, 2, 3], 1).is_none());
    let m = RowMajorMatrix::new(vec![1, 2, 3, 4, 5, 6, 7, 8], 2).unwrap();
    assert_eq!(m.height(), 4);
    assert_eq!(m.width(), 2);
    assert_eq!(m.log_height(), 2);
}

#[test]
fn transpose_swaps_rows_and_columns() {
    let m = RowMajorMatrix::new(vec![1, 2, 3, 4, 5, 6], 3).unwrap();
    let t = m.transpose();
    assert_eq!(t.width, 2);
    assert_eq!(t.values, vec![1, 4, 2, 5, 3, 6]);
}

#[test]
fn toy_prime_example() {
    // p = 5, root 2 of order 4: 1 + 2x + 3x^2 + 4x^3 at x = 1, 2, 4, 3.
    assert_eq!(dft_column(&vec![1, 2, 3, 4], 2, 5), vec![0, 4, 3, 2]);
    assert_eq!(dft_batch_values(&vec![1, 2, 3, 4], 1, 2, 5), vec![0, 4, 3, 2]);
}

#[test]
fn batch_equals_columns_one_by_one() {
    let vals = vec![1, 4, 2, 0, 3, 3, 4, 1];
    let batched = dft_batch_values(&vals, 2, 2, 5);
    let c0 = dft_column(&vec![1, 2, 3, 4], 2, 5);
    let c1 = dft_column(&vec![4, 0, 3, 1], 2, 5);
    for i in 0..4 {
        assert_eq!(batched[i * 2], c0[i]);
        assert_eq!(batched[i * 2 + 1], c1[i]);
    }
}

#[test]
fn reference_of_two_rows() {
    let m = RowMajorMatrix::new(vec![3, 5], 1).unwrap();
    let r = reference_dft_batch(&m).unwrap();
    assert_eq!(r.values, vec![8, P - 2]);
    assert_eq!(matches_reference(&m, &r), Ok(true));
    let wrong = RowMajorMatrix::new(vec![8, 2], 1).unwrap();
    assert_eq!(matches_reference(&m, &wrong), Ok(false));
}

#[test]
fn column_strided_matches_reference() {
    let m = sample_matrix();
    let mut session = baby_bear_dft::DomainSession::new();
    let dft = BabyBearIcicleDft;
    assert_eq!(dft.layout(), Layout::ColumnStrided);
    let mut batch = dft.prepare(&m, &mut session).unwrap();
    assert_eq!(batch.descriptor, BatchDescriptor { batch_size: 3, columns_batch: true });
    assert_eq!(batch.root.value, BabyBear::two_adic_generator(3).value);
    assert_eq!(session.step(baby_bear_dft::Event::DomainEstablished), baby_bear_dft::Action::Transform);
    run_host_accelerator(&mut batch.buffer, batch.descriptor, batch.height, batch.root.value);
    assert_eq!(session.step(baby_bear_dft::Event::TransformDone), baby_bear_dft::Action::Release);
    assert_eq!(session.step(baby_bear_dft::Event::DomainReleased), baby_bear_dft::Action::Complete);
    let out = dft.finish(&batch.buffer, batch.height, batch.width).unwrap();
    assert_eq!(out, reference_dft_batch(&m).unwrap());
    assert_eq!(matches_reference(&m, &out), Ok(true));
}

#[test]
fn row_contiguous_matches_reference() {
    let m = sample_matrix();
    let dft = BabyBearSpparkDft;
    assert_eq!(dft.layout(), Layout::RowContiguous);
    let (mut buf, d) = dft.prepare(&m);
    assert_eq!(d, BatchDescriptor { batch_size: 3, columns_batch: false });
    assert_eq!(buf[1].limb, m.values[3]);
    run_host_accelerator(&mut buf, d, 8, BabyBear::two_adic_generator(3).value);
    let out = dft.finish(&buf, 8, 3).unwrap();
    assert_eq!(out, reference_dft_batch(&m).unwrap());
}

#[test]
fn layouts_agree() {
    let m = sample_matrix();
    let root = BabyBear::two_adic_generator(3).value;
    let (mut a, da) = prepare(&m, Layout::ColumnStrided);
    let (mut b, db) = prepare(&m, Layout::RowContiguous);
    run_host_accelerator(&mut a, da, 8, root);
    run_host_accelerator(&mut b, db, 8, root);
    assert_eq!(finish(&a, da, 8, 3).unwrap(), finish(&b, db, 8, 3).unwrap());
}

#[test]
fn finish_refuses_mismatched_layout() {
    let buf = vec![AcceleratorElement { limb: 1 }; 6];
    let d = BatchDescriptor { batch_size: 2, columns_batch: true };
    assert_eq!(finish(&buf, d, 4, 2), Err(DftError::LayoutMismatch));
    let d3 = BatchDescriptor { batch_size: 3, columns_batch: true };
    assert_eq!(finish(&buf, d3, 2, 2), Err(DftError::LayoutMismatch));
    assert_eq!(BabyBearSpparkDft.finish(&buf, 4, 2), Err(DftError::LayoutMismatch));
}

#[test]
fn finish_decodes_non_canonical() {
    let buf = vec![AcceleratorElement { limb: P + 1 }, AcceleratorElement { limb: 2 }];
    let out = BabyBearIcicleDft.finish(&buf, 2, 1).unwrap();
    assert_eq!(out.values, vec![1, 2]);
}
