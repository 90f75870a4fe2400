use table_transform::column_ref::{index_to_ref, is_ref_byte, ref_to_index, ColumnRef, InvalidColumnRef};

fn check_refs(mut check_next: impl FnMut(&[u8])) {
    for x in b'A'..=b'Z' {
        check_next(&[x]);
    }
    for x in b'A'..=b'Z' {
        for y in b'A'..=b'Z' {
            check_next(&[x, y]);
        }
    }
    for x in b'A'..=b'Z' {
        for y in b'A'..=b'Z' {
            for z in b'A'..=b'Z' {
                check_next(&[x, y, z]);
            }
        }
    }
}

#[test]
fn check_index_to_ref() {
    let mut index = 0;
    check_refs(move |expected: &[u8]| {
        assert_eq!(index_to_ref(index), std::str::from_utf8(expected).unwrap());
        index += 1;
    });
}

#[test]
fn check_ref_to_index() {
    let mut index = 0;
    check_refs(move |input: &[u8]| {
        assert_eq!(ref_to_index(std::str::from_utf8(input).unwrap()), Some(index));
        index += 1;
    });
}

#[test]
fn codec_round_trip_first_labels() {
    for n in 0..18278usize {
        assert_eq!(ref_to_index(&index_to_ref(n)), Some(n));
    }
    assert_eq!(index_to_ref(0), "A");
    assert_eq!(index_to_ref(25), "Z");
    assert_eq!(index_to_ref(26), "AA");
    assert_eq!(index_to_ref(51), "AZ");
    assert_eq!(index_to_ref(52), "BA");
    assert_eq!(index_to_ref(701), "ZZ");
    assert_eq!(index_to_ref(702), "AAA");
}

#[test]
fn decode_rejects_non_labels() {
    assert_eq!(ref_to_index(""), None);
    assert_eq!(ref_to_index("a"), None);
    assert_eq!(ref_to_index("A1"), None);
    assert_eq!(ref_to_index("Ä"), None);
    assert_eq!(ref_to_index("ZZZZZZZZZZZZZZZZZZZZ"), None);
    assert!(is_ref_byte('Q'));
    assert!(!is_ref_byte('q'));
}

#[test]
fn parse_reference_text() {
    let c = ColumnRef::parse("AB:  Full Name  ").ok().unwrap();
    assert_eq!(c.index, 27);
    assert_eq!(c.header, "Full Name");
    let c = ColumnRef::parse("C: a: b").ok().unwrap();
    assert_eq!(c.index, 2);
    assert_eq!(c.header, "a: b");
    assert_eq!(ColumnRef::parse("A Name").err(), Some(InvalidColumnRef));
    assert_eq!(ColumnRef::parse("a: Name").err(), Some(InvalidColumnRef));
    assert_eq!(ColumnRef::parse(": Name").err(), Some(InvalidColumnRef));
}

#[test]
fn format_reference_text() {
    let c = ColumnRef { index: 28, header: "Score".to_string() };
    assert_eq!(c.to_string(), "AC: Score");
    let back = ColumnRef::parse(&c.to_string()).ok().unwrap();
    assert_eq!(back.index, 28);
    assert_eq!(back.header, "Score");
}
