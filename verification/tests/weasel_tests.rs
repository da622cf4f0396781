use weasel::weasel::{check_equal_chars, gen_rand_string, get_mutated_string};

#[test]
fn test_gen_rand_string() {
    let str_len = 10;
    let char_set =
        String::from("ABCDEFGHIJKLMNOPQRSTUVWXYZ abcdefghijklmnopqrstuvwxyz!?.");

    let test_str =
        gen_rand_string(str_len, &char_set).expect("Problem generating random String!");

    for c in test_str.chars() {
        if !char_set.contains(c) {
            panic!("method uses chars outside defined char set");
        }
    }

    assert_eq!(test_str.len(), str_len);
}

#[test]
fn test_get_mutated_string() {
    let test_str = String::from("HELLO");
    let char_set = String::from("ABCDEFGHIJKLMNOP");
    let mut_str =
        get_mutated_string(5, &test_str, &char_set).expect("Problem getting mutated String!");

    assert_eq!(mut_str.len(), test_str.len());
}

#[test]
fn test_same_len_string_equality() {
    let string_a = String::from("FOO");
    let string_b = String::from("OOF");

    assert_eq!(check_equal_chars(&string_a, &string_b), 1);
}

#[test]
fn test_diff_len_string_equality() {
    let string_a = String::from("FOO");
    let string_b = String::from("FOOBAR");

    assert_eq!(check_equal_chars(&string_a, &string_b), 3);
}
