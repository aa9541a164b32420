use vote_court::chain_spec::Alternative;

#[test]
fn chain_alternative_from_name() {
    assert_eq!(Alternative::from("dev"), Some(Alternative::Development));
    assert_eq!(Alternative::from(""), Some(Alternative::LocalTestnet));
    assert_eq!(Alternative::from("local"), Some(Alternative::LocalTestnet));
    assert_eq!(Alternative::from("mainnet"), None);
    assert_eq!(Alternative::from("de"), None);
}
