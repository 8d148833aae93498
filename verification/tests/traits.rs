use al_structures::traits::StringError;

#[test]
fn string_error_message() {
    assert_eq!(StringError("oops".to_string()).message(), "oops");
}
