use orc_core::bencode::{
    get_bytes, get_dict_value, get_int, parse_bencode, parse_bencode_with_depth, BVal,
    BencodeError, MAX_BENCODE_DEPTH, MAX_BENCODE_SIZE, MAX_BYTE_STRING_SIZE, MAX_DICT_ITEMS,
    MAX_LIST_ITEMS,
};

fn failure(input: &[u8]) -> BencodeError {
    match parse_bencode(input, 0) {
        Ok(_) => panic!("input was accepted"),
        Err(e) => e,
    }
}

fn nested_lists(levels: usize) -> Vec<u8> {
    let mut input = vec![b'l'; levels];
    input.extend(vec![b'e'; levels]);
    input
}

#[test]
fn decodes_integers() {
    assert!(matches!(parse_bencode(b"i42e", 0), Ok((BVal::Int(42), 4))));
    assert!(matches!(parse_bencode(b"i-7e", 0), Ok((BVal::Int(-7), 4))));
    assert!(matches!(parse_bencode(b"i+5e", 0), Ok((BVal::Int(5), 4))));
    assert!(matches!(parse_bencode(b"i007e", 0), Ok((BVal::Int(7), 5))));
    assert!(matches!(parse_bencode(b"i0e", 0), Ok((BVal::Int(0), 3))));
}

#[test]
fn decodes_the_extreme_integers() {
    assert!(matches!(
        parse_bencode(b"i9223372036854775807e", 0),
        Ok((BVal::Int(i64::MAX), 21))
    ));
    assert!(matches!(
        parse_bencode(b"i-9223372036854775808e", 0),
        Ok((BVal::Int(i64::MIN), 22))
    ));
    assert_eq!(failure(b"i9223372036854775808e"), BencodeError::InvalidInt);
    assert_eq!(failure(b"i-9223372036854775809e"), BencodeError::InvalidInt);
}

#[test]
fn decodes_byte_strings() {
    match parse_bencode(b"4:spam", 0) {
        Ok((BVal::Bytes(b), end)) => {
            assert_eq!(b, b"spam".to_vec());
            assert_eq!(end, 6);
        }
        _ => panic!("not a byte string"),
    }
    match parse_bencode(b"0:", 0) {
        Ok((BVal::Bytes(b), end)) => {
            assert!(b.is_empty());
            assert_eq!(end, 2);
        }
        _ => panic!("not a byte string"),
    }
}

#[test]
fn decodes_from_an_offset() {
    match parse_bencode(b"i1e3:abc", 3) {
        Ok((BVal::Bytes(b), end)) => {
            assert_eq!(b, b"abc".to_vec());
            assert_eq!(end, 8);
        }
        _ => panic!("not a byte string"),
    }
}

#[test]
fn decodes_lists_and_dictionaries() {
    match parse_bencode(b"l4:spami42ee", 0) {
        Ok((BVal::List(items), end)) => {
            assert_eq!(end, 12);
            assert_eq!(items.len(), 2);
            assert!(matches!(&items[0], BVal::Bytes(b) if b == b"spam"));
            assert!(matches!(&items[1], BVal::Int(42)));
        }
        _ => panic!("not a list"),
    }
    match parse_bencode(b"d3:cow3:moo4:spaml1:a1:bee", 0) {
        Ok((BVal::Dict(entries), end)) => {
            assert_eq!(end, 26);
            assert_eq!(entries.len(), 2);
            assert_eq!(entries[0].0, b"cow".to_vec());
            assert!(matches!(&entries[0].1, BVal::Bytes(b) if b == b"moo"));
            assert_eq!(entries[1].0, b"spam".to_vec());
            assert!(matches!(&entries[1].1, BVal::List(l) if l.len() == 2));
        }
        _ => panic!("not a dictionary"),
    }
    assert!(matches!(parse_bencode(b"le", 0), Ok((BVal::List(l), 2)) if l.is_empty()));
    assert!(matches!(parse_bencode(b"de", 0), Ok((BVal::Dict(d), 2)) if d.is_empty()));
}

#[test]
fn nesting_up_to_the_limit_is_accepted() {
    let input = nested_lists(MAX_BENCODE_DEPTH + 1);
    assert!(matches!(parse_bencode(&input, 0), Ok((BVal::List(_), end)) if end == input.len()));
}

#[test]
fn nesting_beyond_the_limit_is_refused() {
    assert_eq!(failure(&nested_lists(MAX_BENCODE_DEPTH + 2)), BencodeError::TooDeep);
    assert_eq!(failure(&nested_lists(5000)), BencodeError::TooDeep);
    assert!(matches!(
        parse_bencode_with_depth(b"i1e", 0, MAX_BENCODE_DEPTH + 1),
        Err(BencodeError::TooDeep)
    ));
    assert!(matches!(
        parse_bencode_with_depth(b"i1e", 0, MAX_BENCODE_DEPTH),
        Ok((BVal::Int(1), 3))
    ));
}

#[test]
fn input_beyond_the_size_limit_is_refused() {
    let mut input = vec![b'0'; MAX_BENCODE_SIZE + 1];
    input[0] = b'i';
    assert_eq!(failure(&input), BencodeError::TooLarge);
}

#[test]
fn byte_string_beyond_the_limit_is_refused() {
    let mut input = format!("{}:", MAX_BYTE_STRING_SIZE + 1).into_bytes();
    input.extend(vec![b'x'; MAX_BYTE_STRING_SIZE + 1]);
    assert_eq!(failure(&input), BencodeError::BytesTooLarge);
    assert_eq!(failure(b"4294967296:"), BencodeError::BytesTooLarge);
}

#[test]
fn byte_string_at_the_limit_is_accepted() {
    let mut input = format!("{}:", MAX_BYTE_STRING_SIZE).into_bytes();
    input.extend(vec![b'x'; MAX_BYTE_STRING_SIZE]);
    assert!(matches!(
        parse_bencode(&input, 0),
        Ok((BVal::Bytes(b), _)) if b.len() == MAX_BYTE_STRING_SIZE
    ));
}

#[test]
fn list_beyond_the_limit_is_refused() {
    let mut input = vec![b'l'];
    for _ in 0..(MAX_LIST_ITEMS + 1) {
        input.extend_from_slice(b"i0e");
    }
    input.push(b'e');
    assert_eq!(failure(&input), BencodeError::ListTooLarge);
}

#[test]
fn list_at_the_limit_is_accepted() {
    let mut input = vec![b'l'];
    for _ in 0..MAX_LIST_ITEMS {
        input.extend_from_slice(b"i0e");
    }
    input.push(b'e');
    assert!(matches!(
        parse_bencode(&input, 0),
        Ok((BVal::List(items), _)) if items.len() == MAX_LIST_ITEMS
    ));
}

#[test]
fn dictionary_beyond_the_limit_is_refused() {
    let mut input = vec![b'd'];
    for _ in 0..(MAX_DICT_ITEMS + 1) {
        input.extend_from_slice(b"1:ai0e");
    }
    input.push(b'e');
    assert_eq!(failure(&input), BencodeError::DictTooLarge);
}

#[test]
fn every_structural_fault_has_its_error() {
    assert_eq!(failure(b""), BencodeError::Eof);
    assert!(matches!(parse_bencode(b"i1e", 3), Err(BencodeError::Eof)));
    assert!(matches!(parse_bencode(b"i1e", 99), Err(BencodeError::Eof)));
    assert_eq!(failure(b"i42"), BencodeError::UnterminatedInt);
    assert_eq!(failure(b"i"), BencodeError::UnterminatedInt);
    assert_eq!(failure(b"i123456789012345678901e"), BencodeError::IntTooLong);
    assert_eq!(failure(b"ie"), BencodeError::InvalidInt);
    assert_eq!(failure(b"i-e"), BencodeError::InvalidInt);
    assert_eq!(failure(b"iabce"), BencodeError::InvalidInt);
    assert_eq!(failure(b"i1 e"), BencodeError::InvalidInt);
    assert_eq!(failure(b"i99999999999999999999e"), BencodeError::InvalidInt);
    assert_eq!(failure(b"li1e"), BencodeError::UnterminatedList);
    assert_eq!(failure(b"l"), BencodeError::UnterminatedList);
    assert_eq!(failure(b"di1ei2ee"), BencodeError::DictKeyNotBytes);
    assert_eq!(failure(b"d1:ai1e"), BencodeError::UnterminatedDict);
    assert_eq!(failure(b"d1:a"), BencodeError::Eof);
    assert_eq!(failure(b"12"), BencodeError::InvalidLength);
    assert_eq!(failure(b"12345678901:"), BencodeError::LengthTooLong);
    assert_eq!(failure(b"1a:x"), BencodeError::InvalidLengthDigits);
    assert_eq!(failure(b"5:ab"), BencodeError::BytesOutOfRange);
    assert_eq!(failure(b"x"), BencodeError::InvalidPrefix);
    assert_eq!(failure(b"e"), BencodeError::InvalidPrefix);
    assert_eq!(failure(b"lxe"), BencodeError::InvalidPrefix);
}

#[test]
fn integer_token_of_twenty_characters_is_read() {
    assert_eq!(failure(b"i00000000000000000000"), BencodeError::UnterminatedInt);
    assert!(matches!(parse_bencode(b"i00000000000000000042e", 0), Ok((BVal::Int(42), 22))));
}

#[test]
fn looks_entries_up_by_key() {
    let entries = match parse_bencode(b"d1:ai1e1:b2:xy1:ai2ee", 0) {
        Ok((BVal::Dict(entries), _)) => entries,
        _ => panic!("not a dictionary"),
    };
    assert!(matches!(get_dict_value(&entries, b"a"), Some(BVal::Int(1))));
    assert!(matches!(get_dict_value(&entries, b"b"), Some(BVal::Bytes(_))));
    assert!(get_dict_value(&entries, b"c").is_none());
    assert_eq!(get_int(&entries, b"a"), Some(1));
    assert_eq!(get_int(&entries, b"b"), None);
    assert_eq!(get_int(&entries, b"zz"), None);
    assert_eq!(get_bytes(&entries, b"b"), Some(b"xy".to_vec()));
    assert_eq!(get_bytes(&entries, b"a"), None);
}

#[test]
fn errors_have_messages() {
    assert_eq!(BencodeError::Eof.message(), "eof");
    assert_eq!(BencodeError::TooDeep.message(), "bencode nesting too deep (max 100)");
    assert_eq!(BencodeError::InvalidPrefix.message(), "invalid bencode prefix");
}
