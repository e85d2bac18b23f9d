use damm::{check_sum, encode, is_valid};

#[test]
fn test_encode() {
    assert_eq!(encode("43881234567"), Some(9));
    assert_eq!(encode("572"), Some(4));
}

#[test]
fn test_check_sum() {
    assert_eq!(check_sum("43881234567"), Some("438812345679".to_string()));
    assert_eq!(check_sum("572"), Some("5724".to_string()));
}

#[test]
fn test_is_valid() {
    assert!(is_valid("438812345679"));
    assert!(is_valid("5724"));
}

#[test]
fn empty_input_folds_to_zero() {
    assert_eq!(encode(""), Some(0));
    assert_eq!(check_sum(""), Some("0".to_string()));
    assert!(is_valid("0"));
}

#[test]
fn single_digits() {
    // Each single digit's check digit is the first row of the table.
    let row = [0, 3, 1, 7, 5, 9, 8, 6, 4, 2];
    for d in 0..10usize {
        let s = d.to_string();
        assert_eq!(encode(&s), Some(row[d]));
        assert_eq!(check_sum(&s), Some(format!("{}{}", d, row[d])));
    }
}

#[test]
fn corrupted_last_digit_is_invalid() {
    assert!(!is_valid("438812345670"));
    assert!(!is_valid("5725"));
}

#[test]
fn non_digits_are_rejected() {
    for s in ["12a3", " 572", "572 ", "-572", "+572", "5.72", "a", "\u{663}", "\u{ff15}72"] {
        assert_eq!(encode(s), None, "{:?}", s);
        assert_eq!(check_sum(s), None, "{:?}", s);
        assert!(!is_valid(s), "{:?}", s);
    }
}

#[test]
fn appended_check_digit_validates() {
    for s in ["", "0", "9", "572", "43881234567", "0000000", "99999999999999999999", "1234567890"] {
        let t = check_sum(s).unwrap();
        assert_eq!(t.len(), s.len() + 1);
        assert!(t.starts_with(s));
        assert!(is_valid(&t), "{:?}", t);
    }
}

#[test]
fn long_input_round_trip() {
    let s: String = (0..5000).map(|i| char::from(b'0' + ((i * 7 + 3) % 10) as u8)).collect();
    let t = check_sum(&s).unwrap();
    assert!(is_valid(&t));
    assert_eq!(encode(&t), Some(0));
}

#[test]
fn every_single_substitution_is_detected() {
    for s in ["572", "43881234567", "0"] {
        let t: Vec<char> = check_sum(s).unwrap().chars().collect();
        for i in 0..t.len() {
            for d in '0'..='9' {
                if d != t[i] {
                    let mut u = t.clone();
                    u[i] = d;
                    let u: String = u.into_iter().collect();
                    assert!(!is_valid(&u), "{:?}", u);
                }
            }
        }
    }
}

#[test]
fn every_adjacent_transposition_is_detected() {
    assert!(!is_valid("7524"));
    assert!(!is_valid("5274"));
    assert!(!is_valid("5742"));
    for s in ["43881234567", "90817263545"] {
        let t: Vec<char> = check_sum(s).unwrap().chars().collect();
        for i in 0..t.len() - 1 {
            if t[i] != t[i + 1] {
                let mut u = t.clone();
                u.swap(i, i + 1);
                let u: String = u.into_iter().collect();
                assert!(!is_valid(&u), "{:?}", u);
            }
        }
    }
}
