use ddnet_core::network_string::{
    NetworkAsciiStringError, NetworkReducedAsciiString, NetworkString, NetworkStringError,
    ReducedAsciiString, ReducedAsciiStringError,
};
use ddnet_core::pool::Recyclable;

#[test]
fn network_string_new_counts_code_points() {
    let s = NetworkString::<3>::new("äöü".to_string()).unwrap();
    assert_eq!(s.as_str(), "äöü");
    assert!(matches!(
        NetworkString::<3>::new("abcd".to_string()),
        Err(NetworkStringError::InvalidLength)
    ));
    assert_eq!(NetworkString::<0>::new(String::new()).unwrap().as_str(), "");
}

#[test]
fn network_string_new_lossy() {
    assert_eq!(NetworkString::<3>::new_lossy("äöüß".to_string()).as_str(), "äöü");
    assert_eq!(NetworkString::<8>::new_lossy("abc".to_string()).as_str(), "abc");
}

#[test]
fn network_string_try_set() {
    let mut s = NetworkString::<4>::new("ab".to_string()).unwrap();
    assert!(s.try_set("abcde").is_err());
    assert_eq!(s.as_str(), "ab");
    assert!(s.try_set("wxyz").is_ok());
    assert_eq!(s.as_str(), "wxyz");
    s.reset();
    assert_eq!(s.as_str(), "");
    let t: NetworkString<4> = Recyclable::new();
    assert_eq!(t.as_str(), "");
    assert_eq!(s.clone().into_string(), "");
}

#[test]
fn reduced_ascii_string_charset() {
    assert_eq!(ReducedAsciiString::try_from_str("ab_C 9").unwrap().as_str(), "ab_C 9");
    assert!(matches!(
        ReducedAsciiString::try_from_str("ab-c-"),
        Err(ReducedAsciiStringError::InvalidCharacter('-'))
    ));
    assert!(matches!(
        ReducedAsciiString::try_from_str("aé"),
        Err(ReducedAsciiStringError::InvalidCharacter('é'))
    ));
}

#[test]
fn network_reduced_ascii_string_new() {
    assert_eq!(NetworkReducedAsciiString::<5>::new("abc").unwrap().as_str(), "abc");
    assert!(matches!(
        NetworkReducedAsciiString::<2>::new("abc"),
        Err(NetworkAsciiStringError::InvalidLength(2))
    ));
    // the charset is checked before the length
    assert!(matches!(
        NetworkReducedAsciiString::<2>::new("a.bc"),
        Err(NetworkAsciiStringError::RedcuedAsciiStrErr(
            ReducedAsciiStringError::InvalidCharacter('.')
        ))
    ));
    let r = ReducedAsciiString::try_from_str("abcd").unwrap();
    assert!(NetworkReducedAsciiString::<4>::is_valid(&r).is_ok());
    assert!(matches!(
        NetworkReducedAsciiString::<3>::is_valid(&r),
        Err(NetworkAsciiStringError::InvalidLength(3))
    ));
}

#[test]
fn lossy_reduced_strings() {
    assert_eq!(ReducedAsciiString::from_str_lossy("a-b c!_9é").as_str(), "ab c_9");
    assert_eq!(NetworkReducedAsciiString::<4>::from_str_lossy("a-b c!_9").as_str(), "ab c");
    assert_eq!(NetworkReducedAsciiString::<10>::from_str_lossy("xy").as_str(), "xy");
}
