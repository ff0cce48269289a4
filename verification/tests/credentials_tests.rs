use bottlecap_runner::credentials::{
    interpret_token_clear, interpret_token_read, interpret_token_save, StoreReadOutcome,
    StoreWriteOutcome,
};

fn b(s: &str) -> Vec<u8> {
    s.as_bytes().to_vec()
}

#[test]
fn token_read_found_yields_the_token() {
    let r = interpret_token_read(StoreReadOutcome::Found(b("tok")));
    assert_eq!(r, Ok(Some(b("tok"))));
}

#[test]
fn token_read_no_entry_is_a_normal_empty_result() {
    let r = interpret_token_read(StoreReadOutcome::NoEntry);
    assert_eq!(r, Ok(None));
}

#[test]
fn token_read_failure_surfaces_the_text() {
    let r = interpret_token_read(StoreReadOutcome::Failed(b("locked")));
    assert_eq!(r, Err(b("locked")));
}

#[test]
fn token_save_outcomes() {
    assert_eq!(interpret_token_save(StoreWriteOutcome::Done), Ok(()));
    assert_eq!(interpret_token_save(StoreWriteOutcome::Failed(b("locked"))), Err(b("locked")));
}

#[test]
fn token_clear_of_nothing_is_not_an_error() {
    assert_eq!(interpret_token_clear(StoreWriteOutcome::Done), Ok(()));
    assert_eq!(interpret_token_clear(StoreWriteOutcome::NoEntry), Ok(()));
    assert_eq!(interpret_token_clear(StoreWriteOutcome::Failed(b("locked"))), Err(b("locked")));
}
