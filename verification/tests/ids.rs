use erdos::{generate_id, IdGenerator, OperatorId, Uuid};

const SAMPLE: [u8; 16] = [
    0x67, 0xe5, 0x50, 0x44, 0x10, 0xb1, 0x42, 0x6f, 0x92, 0x47, 0xbb, 0x68, 0x0e, 0x5f, 0xe0, 0xc8,
];

#[test]
fn nil_is_all_zero() {
    let id = Uuid::nil();
    assert_eq!(id.0, [0u8; 16]);
    assert_eq!(id.to_string(), "00000000-0000-0000-0000-000000000000");
}

#[test]
fn text_of_sample() {
    assert_eq!(Uuid(SAMPLE).to_string(), "67e55044-10b1-426f-9247-bb680e5fe0c8");
}

#[test]
fn text_of_all_ones() {
    assert_eq!(Uuid([0xff; 16]).to_string(), "ffffffff-ffff-ffff-ffff-ffffffffffff");
}

#[test]
fn text_matches_uuid_crate() {
    let mut bytes = [0u8; 16];
    for round in 0..64u32 {
        for (i, b) in bytes.iter_mut().enumerate() {
            *b = (round as u8).wrapping_mul(31).wrapping_add((i as u8).wrapping_mul(17));
        }
        let ours = Uuid(bytes).to_string();
        let theirs = uuid::Uuid::from_bytes(bytes).to_string();
        assert_eq!(ours, theirs);
    }
}

#[test]
fn text_shape() {
    let s = Uuid(SAMPLE).to_string();
    assert_eq!(s.len(), 36);
    for (i, c) in s.chars().enumerate() {
        if i == 8 || i == 13 || i == 18 || i == 23 {
            assert_eq!(c, '-');
        } else {
            assert!(c.is_ascii_hexdigit() && !c.is_ascii_uppercase());
        }
    }
}

#[test]
fn distinct_ids_print_differently() {
    let mut other = SAMPLE;
    other[15] ^= 1;
    assert_ne!(Uuid(SAMPLE).to_string(), Uuid(other).to_string());
    let mut other = SAMPLE;
    other[0] ^= 0x10;
    assert_ne!(Uuid(SAMPLE).to_string(), Uuid(other).to_string());
}

#[test]
fn random_ids_are_version_4() {
    for _ in 0..32 {
        let id = Uuid::new_v4();
        assert_eq!(id.0[6] >> 4, 4);
        assert_eq!(id.0[8] >> 6, 2);
        let s = id.to_string();
        assert_eq!(s.as_bytes()[14], b'4');
        assert!(matches!(s.as_bytes()[19], b'8' | b'9' | b'a' | b'b'));
        assert_eq!(uuid::Uuid::from_bytes(id.0).get_version_num(), 4);
    }
}

#[test]
fn random_ids_differ() {
    assert_ne!(Uuid::new_v4().0, Uuid::new_v4().0);
}

#[test]
fn seeded_generators_agree() {
    let mut a = IdGenerator::new();
    let mut b = IdGenerator::new();
    for _ in 0..8 {
        let x: OperatorId = generate_id(&mut a);
        let y: OperatorId = Uuid::new_deterministic(&mut b);
        assert_eq!(x.0, y.0);
    }
}

#[test]
fn seeded_generator_moves_on() {
    let mut g = IdGenerator::new();
    let first = generate_id(&mut g);
    let second = generate_id(&mut g);
    assert_ne!(first.0, second.0);
    assert_ne!(first.0, [0u8; 16]);
}

#[test]
fn ids_order_by_bytes() {
    let mut low = [0u8; 16];
    low[15] = 1;
    let mut high = [0u8; 16];
    high[0] = 1;
    assert!(Uuid(low) < Uuid(high));
    assert!(Uuid::nil() < Uuid(low));
    assert!(Uuid(SAMPLE) == Uuid(SAMPLE));
}

#[test]
fn text_orders_as_bytes() {
    let mut ids = Vec::new();
    for round in 0..24u32 {
        let mut bytes = [0u8; 16];
        for (i, b) in bytes.iter_mut().enumerate() {
            *b = (round as u8).wrapping_mul(97).wrapping_add((i as u8).wrapping_mul(29)) % 7;
        }
        ids.push(Uuid(bytes));
    }
    ids.push(Uuid::nil());
    ids.push(Uuid([0xff; 16]));
    for a in &ids {
        for b in &ids {
            assert_eq!(a.cmp(b), a.to_string().cmp(&b.to_string()));
        }
    }
}
