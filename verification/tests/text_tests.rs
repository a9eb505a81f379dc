use flare::content::ServiceId;
use flare::text::{
    decimal_string, find_last, insert_sorted_unique, join_strings, owned, push_decimal, push_hex,
    push_hex_fixed, remove_isolates, replace, str_contains, str_eq, str_lt, str_starts_with,
    sub_string, uuid_string,
};

#[test]
fn owned_copies_text() {
    assert_eq!(owned("Flare"), "Flare".to_string());
}

#[test]
fn starts_with_and_contains() {
    assert!(str_starts_with("image/png", "image/"));
    assert!(!str_starts_with("im", "image/"));
    assert!(str_contains("Hello World", "o W"));
    assert!(!str_contains("Hello", "world"));
    assert!(str_eq("abc", "abc"));
    assert!(!str_eq("abc", "abd"));
}

#[test]
fn decimal_and_hex_digits() {
    assert_eq!(decimal_string(0), "0");
    assert_eq!(decimal_string(1234567890), "1234567890");
    let mut s = String::from("n=");
    push_decimal(&mut s, 42);
    assert_eq!(s, "n=42");
    let mut h = String::new();
    push_hex(&mut h, 0x1a2b);
    assert_eq!(h, "1a2b");
    let mut f = String::new();
    push_hex_fixed(&mut f, 0xab, 4);
    assert_eq!(f, "00ab");
}

#[test]
fn uuid_text_is_hyphenated() {
    let u: u128 = 0x67e55044_10b1_426f_9247_bb680e5fe0c8;
    assert_eq!(uuid_string(u), "67e55044-10b1-426f-9247-bb680e5fe0c8");
    assert_eq!(uuid_string(0), "00000000-0000-0000-0000-000000000000");
}

#[test]
fn join_and_replace() {
    let parts = vec!["a".to_string(), "b".to_string(), "c".to_string()];
    assert_eq!(join_strings(&parts, ", "), "a, b, c");
    assert_eq!(join_strings(&Vec::new(), ", "), "");
    assert_eq!(replace("Sent {} images", "{}", "3"), "Sent 3 images");
    assert_eq!(replace("aaa", "aa", "b"), "ba");
}

#[test]
fn isolates_are_removed() {
    assert_eq!(remove_isolates("\u{2068}Alice\u{2069} is typing"), "Alice is typing");
}

#[test]
fn last_occurrence_and_substring() {
    assert_eq!(find_last("photo.tar.gz", '.'), Some(9));
    assert_eq!(find_last("README", '.'), None);
    assert_eq!(sub_string("hello world", 6, 11), "world");
}

#[test]
fn text_order_follows_code_points() {
    assert!(str_lt("Alice", "Bob"));
    assert!(str_lt("Bob", "Bobby"));
    assert!(!str_lt("bob", "Bob"));
    assert!(!str_lt("Bob", "Bob"));
}

#[test]
fn sorted_insert_keeps_each_text_once() {
    let mut v = vec!["b".to_string(), "d".to_string()];
    insert_sorted_unique(&mut v, "c".to_string());
    insert_sorted_unique(&mut v, "a".to_string());
    insert_sorted_unique(&mut v, "d".to_string());
    assert_eq!(v, vec!["a", "b", "c", "d"]);
}

#[test]
fn service_id_binary_round_trip() {
    let aci = ServiceId::Aci(0x0102_0304_0506_0708_090a_0b0c_0d0e_0f10);
    let bytes = aci.service_id_binary();
    assert_eq!(bytes.len(), 16);
    assert_eq!(bytes[0], 1);
    assert_eq!(ServiceId::parse_from_service_id_binary(&bytes), Some(aci));
    let pni = ServiceId::Pni(7);
    let pbytes = pni.service_id_binary();
    assert_eq!(pbytes.len(), 17);
    assert_eq!(pbytes[0], 1);
    assert_eq!(pbytes[16], 7);
    assert_eq!(ServiceId::parse_from_service_id_binary(&pbytes), Some(pni));
    assert_eq!(ServiceId::parse_from_service_id_binary(&vec![1, 2, 3]), None);
    assert_eq!(aci.raw_uuid(), 0x0102_0304_0506_0708_090a_0b0c_0d0e_0f10);
}
