use grc20::ids::{checksum_address, derive_id, str_eq, str_lt};
use grc20::models::{Account, ParentSpace, Space, SpaceMember, VoteCast};

const BASE58_ALPHABET: &str = "123456789ABCDEFGHJKLMNPQRSTUVWXYZabcdefghijkmnopqrstuvwxyz";

#[test]
fn derive_id_is_deterministic() {
    let a = derive_id("hello world");
    let b = derive_id("hello world");
    assert_eq!(a, b);
}

#[test]
fn derive_id_is_22_base58_chars() {
    for input in ["", "a", "hello world", "PARENT_SPACE:x:y", "0x1234"] {
        let id = derive_id(input);
        assert_eq!(id.chars().count(), 22);
        for c in id.chars() {
            assert!(BASE58_ALPHABET.contains(c), "{c} is not a base-58 character");
        }
    }
}

#[test]
fn distinct_inputs_give_distinct_ids() {
    let ids: Vec<String> = ["a", "b", "ab", "ba", "A", "aa", ""]
        .iter()
        .map(|s| derive_id(s))
        .collect();
    for i in 0..ids.len() {
        for j in 0..ids.len() {
            if i != j {
                assert_ne!(ids[i], ids[j]);
            }
        }
    }
}

#[test]
fn checksum_address_lower_cases_ascii() {
    assert_eq!(checksum_address("0xAbCdEf"), "0xabcdef");
    assert_eq!(checksum_address("0xabcdef"), "0xabcdef");
    assert_eq!(checksum_address(""), "");
}

#[test]
fn address_keyed_ids_are_case_invariant() {
    assert_eq!(
        Space::gen_id("GEO", "0xDeadBeef"),
        Space::gen_id("GEO", "0xdeadbeef"),
    );
    assert_eq!(Account::gen_id("0xAbC"), Account::gen_id("0xabc"));
}

#[test]
fn membership_ids_are_stable_in_their_tuple() {
    assert_eq!(SpaceMember::generate_id("m", "s"), SpaceMember::generate_id("m", "s"));
    assert_ne!(SpaceMember::generate_id("m", "s"), SpaceMember::generate_id("s", "m"));
    assert_eq!(ParentSpace::generate_id("c", "p"), ParentSpace::generate_id("c", "p"));
    assert_eq!(VoteCast::new_id("acc", "prop"), VoteCast::new_id("acc", "prop"));
}

#[test]
fn string_comparisons() {
    assert!(str_eq("abc", "abc"));
    assert!(!str_eq("abc", "abd"));
    assert!(!str_eq("abc", "abcd"));
    assert!(str_lt("abc", "abd"));
    assert!(str_lt("abc", "abcd"));
    assert!(!str_lt("abc", "abc"));
    assert!(str_lt("", "a"));
    assert!(!str_lt("b", "a"));
}
