use booking_machine::auth::{bearer_token, token_of};

#[test]
fn token_follows_the_scheme() {
    assert_eq!(bearer_token("Bearer abc.def.ghi"), "abc.def.ghi");
}

#[test]
fn header_is_percent_decoded() {
    assert_eq!(bearer_token("Bearer%20abc.def"), "abc.def");
}

#[test]
fn missing_token_is_empty() {
    assert_eq!(bearer_token(""), "");
    assert_eq!(bearer_token("x"), "");
    assert_eq!(bearer_token("Bearer"), "");
    assert_eq!(bearer_token("%FF%FE"), "");
}

#[test]
fn token_stops_at_the_next_space() {
    assert_eq!(token_of("Bearer tok extra"), "tok");
    assert_eq!(token_of("Bearer "), "");
}
