use rand::rngs::StdRng;
use rand::SeedableRng;
use simgen::arbitrary::{
    arbitrary_blob, arbitrary_text, integer_at, letter, nudged, MAX_BLOB_LEN, MAX_TEXT_LEN,
};
use simgen::bounded::{
    blob_prefix, greatest_of_type, has_room_above, has_room_below, least_of_type, text_prefix,
    GTValue, LTValue,
};
use simgen::error::GenError;
use simgen::value::{clone_bytes, ColumnType, Value};

fn text(s: &str) -> Value {
    Value::Text(s.to_string())
}

#[test]
fn integers_compare_by_size() {
    assert!(Value::Integer(-3).less_than(&Value::Integer(2)));
    assert!(!Value::Integer(2).less_than(&Value::Integer(2)));
    assert!(!Value::Integer(3).less_than(&Value::Integer(2)));
    assert!(Value::Integer(i64::MIN).less_than(&Value::Integer(i64::MAX)));
}

#[test]
fn texts_compare_lexicographically() {
    assert!(text("abc").less_than(&text("abd")));
    assert!(text("ab").less_than(&text("abc")));
    assert!(text("").less_than(&text("a")));
    assert!(text("abc").less_than(&text("b")));
    assert!(!text("b").less_than(&text("abc")));
    assert!(!text("abc").less_than(&text("abc")));
    assert!(!text("abc").less_than(&text("ab")));
    assert!(text("z").less_than(&text("\u{e9}")));
}

#[test]
fn blobs_compare_lexicographically() {
    assert!(Value::Blob(vec![1, 2]).less_than(&Value::Blob(vec![1, 3])));
    assert!(Value::Blob(vec![1, 2]).less_than(&Value::Blob(vec![1, 2, 0])));
    assert!(Value::Blob(vec![]).less_than(&Value::Blob(vec![0])));
    assert!(!Value::Blob(vec![2]).less_than(&Value::Blob(vec![1, 255])));
    assert!(!Value::Blob(vec![7]).less_than(&Value::Blob(vec![7])));
}

#[test]
fn values_of_different_types_do_not_compare() {
    assert!(!Value::Integer(1).less_than(&text("a")));
    assert!(!text("a").less_than(&Value::Integer(1)));
    assert!(!Value::Null.less_than(&Value::Integer(1)));
    assert!(!Value::Integer(1).less_than(&Value::Null));
    assert!(!Value::Null.less_than(&Value::Null));
    assert!(!Value::Blob(vec![1]).less_than(&text("a")));
}

#[test]
fn same_as_tells_equal_data() {
    assert!(Value::Null.same_as(&Value::Null));
    assert!(Value::Integer(4).same_as(&Value::Integer(4)));
    assert!(!Value::Integer(4).same_as(&Value::Integer(5)));
    assert!(text("ab").same_as(&text("ab")));
    assert!(!text("ab").same_as(&text("abc")));
    assert!(!text("abc").same_as(&text("ab")));
    assert!(!text("ab").same_as(&text("ac")));
    assert!(Value::Blob(vec![1, 2]).same_as(&Value::Blob(vec![1, 2])));
    assert!(!Value::Blob(vec![1, 2]).same_as(&Value::Blob(vec![1])));
    assert!(!Value::Null.same_as(&Value::Integer(0)));
    assert!(!text("").same_as(&Value::Blob(vec![])));
}

#[test]
fn has_type_tells_the_column_type() {
    assert!(Value::Integer(1).has_type(ColumnType::Integer));
    assert!(!Value::Integer(1).has_type(ColumnType::Text));
    assert!(text("a").has_type(ColumnType::Text));
    assert!(Value::Blob(vec![]).has_type(ColumnType::Blob));
    assert!(!Value::Null.has_type(ColumnType::Integer));
    assert!(!Value::Null.has_type(ColumnType::Text));
    assert!(!Value::Null.has_type(ColumnType::Blob));
}

#[test]
fn least_and_greatest_are_the_ends_of_each_type() {
    assert!(Value::Integer(i64::MIN).is_least());
    assert!(!Value::Integer(i64::MIN + 1).is_least());
    assert!(Value::Integer(i64::MAX).is_greatest());
    assert!(!Value::Integer(i64::MAX - 1).is_greatest());
    assert!(text("").is_least());
    assert!(!text("a").is_least());
    assert!(!text("zzzz").is_greatest());
    assert!(Value::Blob(vec![]).is_least());
    assert!(!Value::Blob(vec![0]).is_least());
    assert!(!Value::Blob(vec![255]).is_greatest());
    assert!(Value::Null.is_least());
    assert!(Value::Null.is_greatest());
}

#[test]
fn clone_keeps_the_value() {
    let values = vec![
        Value::Null,
        Value::Integer(-9),
        text("hello"),
        Value::Blob(vec![1, 2, 3]),
    ];
    for value in &values {
        assert_eq!(&value.clone(), value);
    }
    assert_eq!(clone_bytes(&vec![9, 8, 7]), vec![9, 8, 7]);
    assert_eq!(clone_bytes(&vec![]), Vec::<u8>::new());
}

#[test]
fn integer_at_adds_the_offset() {
    assert_eq!(integer_at(i64::MIN, 0), i64::MIN);
    assert_eq!(integer_at(-5, 10), 5);
    assert_eq!(integer_at(i64::MIN, u64::MAX as u128), i64::MAX);
    assert_eq!(integer_at(41, 1), 42);
}

#[test]
fn letter_is_the_letter_at_the_position() {
    assert_eq!(letter(0), "a");
    assert_eq!(letter(1), "b");
    assert_eq!(letter(25), "z");
}

#[test]
fn nudged_gives_the_next_value_of_the_type() {
    assert_eq!(nudged(Value::Integer(5)), Value::Integer(6));
    assert_eq!(nudged(Value::Integer(i64::MAX)), Value::Integer(i64::MIN));
    assert_eq!(nudged(text("ab")), text("aba"));
    assert_eq!(nudged(text("")), text("a"));
    assert_eq!(nudged(Value::Blob(vec![1])), Value::Blob(vec![1, 0]));
    assert_eq!(nudged(Value::Null), Value::Null);
}

#[test]
fn prefixes_are_cut_at_the_length() {
    assert_eq!(text_prefix(&"hello".to_string(), 2), "he");
    assert_eq!(text_prefix(&"hello".to_string(), 0), "");
    assert_eq!(text_prefix(&"hello".to_string(), 5), "hello");
    assert_eq!(text_prefix(&"h\u{e9}llo".to_string(), 2), "h\u{e9}");
    assert_eq!(blob_prefix(&vec![1, 2, 3], 1), vec![1]);
    assert_eq!(blob_prefix(&vec![1, 2, 3], 3), vec![1, 2, 3]);
    assert_eq!(blob_prefix(&vec![1, 2, 3], 0), Vec::<u8>::new());
}

#[test]
fn arbitrary_texts_are_short_and_lower_case() {
    let mut rng = StdRng::seed_from_u64(21);
    let mut longest = 0;
    for _ in 0..500 {
        let text = arbitrary_text(&mut rng);
        assert!(text.chars().count() <= MAX_TEXT_LEN);
        assert!(text.chars().all(|c| ('a'..='z').contains(&c)));
        longest = longest.max(text.len());
    }
    assert_eq!(longest, MAX_TEXT_LEN);
}

#[test]
fn arbitrary_blobs_are_short() {
    let mut rng = StdRng::seed_from_u64(22);
    let mut longest = 0;
    for _ in 0..500 {
        let blob = arbitrary_blob(&mut rng);
        assert!(blob.len() <= MAX_BLOB_LEN);
        longest = longest.max(blob.len());
    }
    assert_eq!(longest, MAX_BLOB_LEN);
}

#[test]
fn arbitrary_values_have_the_column_type() {
    let mut rng = StdRng::seed_from_u64(23);
    for _ in 0..200 {
        assert!(matches!(Value::arbitrary_from(&mut rng, ColumnType::Integer), Value::Integer(_)));
        assert!(matches!(Value::arbitrary_from(&mut rng, ColumnType::Text), Value::Text(_)));
        assert!(matches!(Value::arbitrary_from(&mut rng, ColumnType::Blob), Value::Blob(_)));
    }
}

#[test]
fn arbitrary_integers_take_both_signs() {
    let mut rng = StdRng::seed_from_u64(24);
    let mut negative = 0;
    let mut positive = 0;
    for _ in 0..400 {
        match Value::arbitrary_from(&mut rng, ColumnType::Integer) {
            Value::Integer(x) if x < 0 => negative += 1,
            Value::Integer(_) => positive += 1,
            other => panic!("not an integer: {:?}", other),
        }
    }
    assert!(negative > 100);
    assert!(positive > 100);
}

#[test]
fn arbitrary_other_differs_from_the_value_to_avoid() {
    let mut rng = StdRng::seed_from_u64(25);
    let avoided = vec![
        (ColumnType::Integer, Value::Integer(0)),
        (ColumnType::Text, text("")),
        (ColumnType::Blob, Value::Blob(vec![])),
        (ColumnType::Integer, Value::Null),
        (ColumnType::Text, Value::Integer(3)),
    ];
    for (column_type, avoid) in &avoided {
        for _ in 0..300 {
            let value = Value::arbitrary_other(&mut rng, *column_type, avoid);
            assert!(value.has_type(*column_type));
            assert_ne!(&value, avoid);
        }
    }
}

#[test]
fn arbitrary_among_picks_a_member_or_null() {
    let mut rng = StdRng::seed_from_u64(26);
    let none: Vec<&Value> = Vec::new();
    assert_eq!(Value::arbitrary_among(&mut rng, &none), Value::Null);
    let one = Value::Integer(1);
    let two = text("two");
    let members = vec![&one, &two];
    let mut seen = [false; 2];
    for _ in 0..200 {
        let value = Value::arbitrary_among(&mut rng, &members);
        if value == one {
            seen[0] = true;
        } else {
            assert_eq!(value, two);
            seen[1] = true;
        }
    }
    assert_eq!(seen, [true; 2]);
}

#[test]
fn greatest_and_least_of_type_pass_over_other_types() {
    let a = Value::Integer(3);
    let b = Value::Null;
    let c = Value::Integer(9);
    let d = text("z");
    let e = Value::Integer(9);
    let f = Value::Integer(-4);
    let values = vec![&a, &b, &c, &d, &e, &f];
    assert_eq!(greatest_of_type(&values, ColumnType::Integer), Some(2));
    assert_eq!(least_of_type(&values, ColumnType::Integer), Some(5));
    assert_eq!(greatest_of_type(&values, ColumnType::Text), Some(3));
    assert_eq!(least_of_type(&values, ColumnType::Text), Some(3));
    assert_eq!(greatest_of_type(&values, ColumnType::Blob), None);
    assert_eq!(least_of_type(&values, ColumnType::Blob), None);
    let none: Vec<&Value> = Vec::new();
    assert_eq!(greatest_of_type(&none, ColumnType::Integer), None);
}

#[test]
fn room_above_and_below_end_at_the_ends_of_the_type() {
    let top = Value::Integer(i64::MAX);
    let bottom = Value::Integer(i64::MIN);
    let middle = Value::Integer(0);
    let empty = text("");
    assert!(has_room_above(&vec![&middle, &bottom], ColumnType::Integer));
    assert!(!has_room_above(&vec![&middle, &top], ColumnType::Integer));
    assert!(has_room_above(&vec![&top], ColumnType::Text));
    assert!(has_room_below(&vec![&middle, &top], ColumnType::Integer));
    assert!(!has_room_below(&vec![&bottom, &middle], ColumnType::Integer));
    assert!(!has_room_below(&vec![&empty], ColumnType::Text));
    assert!(has_room_below(&vec![&empty], ColumnType::Blob));
    assert!(has_room_below(&Vec::new(), ColumnType::Integer));
}

#[test]
fn greater_values_are_strictly_greater() {
    let mut rng = StdRng::seed_from_u64(31);
    let references = vec![
        Value::Integer(0),
        Value::Integer(i64::MIN),
        Value::Integer(i64::MAX - 1),
        text(""),
        text("mango"),
        Value::Blob(vec![]),
        Value::Blob(vec![255, 255]),
    ];
    for reference in &references {
        for _ in 0..200 {
            let greater = GTValue::arbitrary_from(&mut rng, reference).unwrap().0;
            assert!(reference.less_than(&greater), "{:?} !< {:?}", reference, greater);
        }
    }
    assert_eq!(
        GTValue::arbitrary_from(&mut rng, &Value::Integer(i64::MAX - 1)),
        Ok(GTValue(Value::Integer(i64::MAX)))
    );
}

#[test]
fn lesser_values_are_strictly_less() {
    let mut rng = StdRng::seed_from_u64(32);
    let references = vec![
        Value::Integer(0),
        Value::Integer(i64::MAX),
        Value::Integer(i64::MIN + 1),
        text("a"),
        text("mango"),
        Value::Blob(vec![0]),
        Value::Blob(vec![3, 1, 4]),
    ];
    for reference in &references {
        for _ in 0..200 {
            let less = LTValue::arbitrary_from(&mut rng, reference).unwrap().0;
            assert!(less.less_than(reference), "{:?} !< {:?}", less, reference);
        }
    }
    assert_eq!(
        LTValue::arbitrary_from(&mut rng, &Value::Integer(i64::MIN + 1)),
        Ok(LTValue(Value::Integer(i64::MIN)))
    );
    assert_eq!(LTValue::arbitrary_from(&mut rng, &text("a")), Ok(LTValue(text(""))));
}

#[test]
fn bounded_integers_spread_over_the_range() {
    let mut rng = StdRng::seed_from_u64(33);
    let mut far = 0;
    for _ in 0..200 {
        match GTValue::arbitrary_from(&mut rng, &Value::Integer(0)).unwrap().0 {
            Value::Integer(x) => {
                if x > 1_000_000 {
                    far += 1;
                }
            }
            other => panic!("not an integer: {:?}", other),
        }
    }
    assert!(far > 150);
}

#[test]
fn nothing_lies_beyond_the_ends_of_a_type() {
    let mut rng = StdRng::seed_from_u64(34);
    assert_eq!(
        GTValue::arbitrary_from(&mut rng, &Value::Integer(i64::MAX)),
        Err(GenError::DomainExhausted)
    );
    assert_eq!(GTValue::arbitrary_from(&mut rng, &Value::Null), Err(GenError::DomainExhausted));
    assert_eq!(
        LTValue::arbitrary_from(&mut rng, &Value::Integer(i64::MIN)),
        Err(GenError::DomainExhausted)
    );
    assert_eq!(LTValue::arbitrary_from(&mut rng, &text("")), Err(GenError::DomainExhausted));
    assert_eq!(
        LTValue::arbitrary_from(&mut rng, &Value::Blob(vec![])),
        Err(GenError::DomainExhausted)
    );
    assert_eq!(LTValue::arbitrary_from(&mut rng, &Value::Null), Err(GenError::DomainExhausted));
}

#[test]
fn values_above_a_column_exceed_all_of_its_type() {
    let mut rng = StdRng::seed_from_u64(35);
    let a = Value::Integer(3);
    let b = Value::Null;
    let c = Value::Integer(9);
    let d = text("z");
    let values = vec![&a, &b, &c, &d];
    for _ in 0..200 {
        let above = GTValue::arbitrary_above(&mut rng, ColumnType::Integer, &values).unwrap().0;
        assert!(a.less_than(&above));
        assert!(c.less_than(&above));
        let below = LTValue::arbitrary_below(&mut rng, ColumnType::Integer, &values).unwrap().0;
        assert!(below.less_than(&a));
        assert!(below.less_than(&c));
        let after = GTValue::arbitrary_above(&mut rng, ColumnType::Text, &values).unwrap().0;
        assert!(d.less_than(&after));
        let blob = GTValue::arbitrary_above(&mut rng, ColumnType::Blob, &values).unwrap().0;
        assert!(blob.has_type(ColumnType::Blob));
    }
}

#[test]
fn values_beyond_an_empty_column_have_the_column_type() {
    let mut rng = StdRng::seed_from_u64(36);
    let none: Vec<&Value> = Vec::new();
    for _ in 0..50 {
        let above = GTValue::arbitrary_above(&mut rng, ColumnType::Text, &none).unwrap().0;
        assert!(above.has_type(ColumnType::Text));
        let below = LTValue::arbitrary_below(&mut rng, ColumnType::Integer, &none).unwrap().0;
        assert!(below.has_type(ColumnType::Integer));
    }
}

#[test]
fn nothing_lies_beyond_a_column_that_holds_an_end_of_its_type() {
    let mut rng = StdRng::seed_from_u64(37);
    let top = Value::Integer(i64::MAX);
    let bottom = Value::Integer(i64::MIN);
    let middle = Value::Integer(12);
    let empty = text("");
    assert_eq!(
        GTValue::arbitrary_above(&mut rng, ColumnType::Integer, &vec![&middle, &top]),
        Err(GenError::DomainExhausted)
    );
    assert_eq!(
        LTValue::arbitrary_below(&mut rng, ColumnType::Integer, &vec![&bottom, &middle]),
        Err(GenError::DomainExhausted)
    );
    assert_eq!(
        LTValue::arbitrary_below(&mut rng, ColumnType::Text, &vec![&middle, &empty]),
        Err(GenError::DomainExhausted)
    );
    assert!(LTValue::arbitrary_below(&mut rng, ColumnType::Blob, &vec![&middle, &empty]).is_ok());
}

#[test]
fn greater_texts_and_blobs_extend_the_reference_by_one_to_three() {
    let mut rng = StdRng::seed_from_u64(41);
    let mut added = [false; 4];
    for _ in 0..300 {
        match GTValue::arbitrary_from(&mut rng, &text("kiwi")).unwrap().0 {
            Value::Text(greater) => {
                assert!(greater.starts_with("kiwi"));
                let tail = &greater[4..];
                assert!(1 <= tail.len() && tail.len() <= 3);
                assert!(tail.chars().all(|c| ('a'..='z').contains(&c)));
                added[tail.len()] = true;
            }
            other => panic!("not a text: {:?}", other),
        }
        match GTValue::arbitrary_from(&mut rng, &Value::Blob(vec![9, 9])).unwrap().0 {
            Value::Blob(greater) => {
                assert_eq!(&greater[..2], &[9, 9]);
                assert!(3 <= greater.len() && greater.len() <= 5);
            }
            other => panic!("not a blob: {:?}", other),
        }
    }
    assert_eq!(added, [false, true, true, true]);
}

#[test]
fn lesser_texts_and_blobs_are_proper_prefixes_of_the_reference() {
    let mut rng = StdRng::seed_from_u64(42);
    let mut kept = [false; 4];
    for _ in 0..300 {
        match LTValue::arbitrary_from(&mut rng, &text("kiwi")).unwrap().0 {
            Value::Text(less) => {
                assert!("kiwi".starts_with(less.as_str()));
                assert!(less.len() < 4);
                kept[less.len()] = true;
            }
            other => panic!("not a text: {:?}", other),
        }
        match LTValue::arbitrary_from(&mut rng, &Value::Blob(vec![9, 8, 7])).unwrap().0 {
            Value::Blob(less) => {
                assert!(less.len() < 3);
                assert_eq!(&less[..], &[9, 8, 7][..less.len()]);
            }
            other => panic!("not a blob: {:?}", other),
        }
    }
    assert_eq!(kept, [true; 4]);
}
