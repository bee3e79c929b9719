use crud_core::ids::check_id_list;

#[test]
fn id_list_accepts_plain_lists() {
    assert!(check_id_list("1"));
    assert!(check_id_list("0"));
    assert!(check_id_list("1,2"));
    assert!(check_id_list("10,20,30"));
    assert!(check_id_list("007"));
    assert!(check_id_list("+5,3"));
    assert!(check_id_list("18446744073709551615"));
}

#[test]
fn id_list_rejects_malformed_input() {
    assert!(!check_id_list(""));
    assert!(!check_id_list(","));
    assert!(!check_id_list("1,"));
    assert!(!check_id_list(",1"));
    assert!(!check_id_list("1,,2"));
    assert!(!check_id_list("1,2,x"));
    assert!(!check_id_list("x"));
    assert!(!check_id_list("+"));
    assert!(!check_id_list("-1"));
    assert!(!check_id_list("1 2"));
    assert!(!check_id_list("1.5"));
}

#[test]
fn id_list_rejects_overflowing_ids() {
    assert!(!check_id_list("18446744073709551616"));
    assert!(!check_id_list("1,99999999999999999999"));
}
