use login_core::greet_message;

#[test]
fn test_greet_handler() {
    let name = "Rust".to_string();
    assert_eq!(greet_message(Some(&name)), "Hello, Rust!");
}

#[test]
fn greet_defaults_to_guest() {
    assert_eq!(greet_message(None), "Hello, Guest!");
}
