use streamdeck_mobile::wire::{parse_fields, push_bytes, push_number, Field, FieldValue, NESTING_LIMIT};

#[test]
fn fields_are_read_back() {
    let mut out = Vec::new();
    push_number(&mut out, 1, 0);
    push_number(&mut out, 15, 127);
    push_number(&mut out, 16, 128);
    push_bytes(&mut out, 2, b"abc");
    push_bytes(&mut out, 0x1fff_ffff, b"");
    push_number(&mut out, 3, u64::MAX);
    let number = |tag, v| Field { tag, value: FieldValue::Varint(v) };
    let bytes = |tag, b: &[u8]| Field { tag, value: FieldValue::Bytes(b.to_vec()) };
    assert_eq!(
        parse_fields(&out, NESTING_LIMIT),
        Some(vec![
            number(1, 0),
            number(15, 127),
            number(16, 128),
            bytes(2, b"abc"),
            bytes(0x1fff_ffff, b""),
            number(3, u64::MAX),
        ])
    );
}

#[test]
fn numbers_have_groups_of_seven_bits() {
    let written = |v: u64| {
        let mut out = Vec::new();
        push_number(&mut out, 1, v);
        out
    };
    assert_eq!(written(1), vec![0x08, 0x01]);
    assert_eq!(written(300), vec![0x08, 0xac, 0x02]);
    assert_eq!(
        written(u64::MAX),
        vec![0x08, 0xff, 0xff, 0xff, 0xff, 0xff, 0xff, 0xff, 0xff, 0xff, 0x01]
    );
    for shift in 0..64 {
        for v in [1u64 << shift, (1u64 << shift) - 1, u64::MAX >> shift] {
            assert_eq!(
                parse_fields(&written(v), 1),
                Some(vec![Field { tag: 1, value: FieldValue::Varint(v) }])
            );
        }
    }
}

#[test]
fn other_fields_are_opaque() {
    let opaque = |tag| Field { tag, value: FieldValue::Opaque };
    assert_eq!(parse_fields(&[0x09, 1, 2, 3, 4, 5, 6, 7, 8], 1), Some(vec![opaque(1)]));
    assert_eq!(parse_fields(&[0x0d, 1, 2, 3, 4], 1), Some(vec![opaque(1)]));
    assert_eq!(parse_fields(&[0x0b, 0x10, 0x07, 0x0c], 2), Some(vec![opaque(1)]));
    assert_eq!(parse_fields(&[0x0b, 0x10, 0x07, 0x14], 2), None);
    assert_eq!(parse_fields(&[0x0c], 2), None);
    assert_eq!(parse_fields(&[0x0d, 1, 2, 3], 1), None);
    assert_eq!(parse_fields(&[0x09, 1], 1), None);
    assert_eq!(parse_fields(&[], 0), Some(vec![]));
}
