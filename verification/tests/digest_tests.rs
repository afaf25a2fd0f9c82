use tobi::digest::HashTally;

#[test]
fn tally_counts_and_hashes_what_passed() {
    let mut tally = HashTally::new();
    assert_eq!(tally.bytes_read(), 0);
    assert_eq!(
        tally.sha256_hex(),
        "e3b0c44298fc1c149afbf4c8996fb92427ae41e4649b934ca495991b7852b855"
    );
    tally.absorb(b"a");
    tally.absorb(b"bc");
    assert_eq!(tally.bytes_read(), 3);
    assert_eq!(
        tally.sha256_hex(),
        "ba7816bf8f01cfea414140de5dae2223b00361a396177a9cb410ff61f20015ad"
    );
}
