use mywasmlib::new_person;
use mywasmlib::reverse_string;

#[test]
fn add_small_values() {
    assert_eq!(mywasmlib::add(2, 3), 5);
}

#[test]
fn add_commutes_on_sample_values() {
    assert_eq!(mywasmlib::add(17, -4), mywasmlib::add(-4, 17));
}

#[test]
fn add_zero_is_identity() {
    assert_eq!(mywasmlib::add(123456, 0), 123456);
    assert_eq!(mywasmlib::add(-7, 0), -7);
}

#[test]
fn add_negative_values() {
    assert_eq!(mywasmlib::add(-2, -3), -5);
}

#[test]
fn add_extreme_values() {
    assert_eq!(mywasmlib::add(i32::MAX, i32::MIN), -1);
    assert_eq!(mywasmlib::add(i32::MAX - 1, 1), i32::MAX);
}

#[test]
fn reverse_ascii() {
    assert_eq!(reverse_string(String::from("abc")), "cba");
}

#[test]
fn reverse_empty_is_empty() {
    assert_eq!(reverse_string(String::from("")), "");
}

#[test]
fn reverse_single_char() {
    assert_eq!(reverse_string(String::from("x")), "x");
}

#[test]
fn reverse_multibyte_chars() {
    assert_eq!(reverse_string(String::from("héllo")), "olléh");
    assert_eq!(reverse_string(String::from("日本語")), "語本日");
}

#[test]
fn reverse_twice_is_identity_on_sample_values() {
    let s = "round trip, über-αβγ!";
    assert_eq!(reverse_string(reverse_string(String::from(s))), s);
}

#[test]
fn say_hello_world() {
    let p = new_person(String::from("World"));
    assert_eq!(p.say_hello(), "Hello, World!");
}

#[test]
fn say_hello_contains_name() {
    let p = new_person(String::from("Ada"));
    assert!(p.say_hello().contains("Ada"));
}

#[test]
fn say_hello_empty_name() {
    let p = new_person(String::from(""));
    assert_eq!(p.say_hello(), "Hello, !");
}
