use vespertide::text::to_ascii_lowercase;

#[test]
fn ascii_lowercase_keeps_other_characters() {
    assert_eq!(to_ascii_lowercase("User_Email"), "user_email");
    assert_eq!(to_ascii_lowercase(""), "");
    assert_eq!(to_ascii_lowercase("ÄBC-Zé9"), "Äbc-zé9");
    assert_eq!(to_ascii_lowercase("already lower"), "already lower");
    assert_eq!(to_ascii_lowercase("ABCDEFGHIJKLMNOPQRSTUVWXYZ"), "abcdefghijklmnopqrstuvwxyz");
}
