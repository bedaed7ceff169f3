use dtee::Char;

#[test]
fn test_character__0001() {
    let chr = Char::from('a');
    assert!(!chr.is_join());
    assert!(!chr.is_full_join());
}

#[test]
fn test_character__0002() {
    let mut chr = Char::from('a');
    chr.set_full_join();
    chr.set_join();
    assert!(chr.is_join());
    assert!(!chr.is_full_join());
}

#[test]
fn test_character__0003() {
    let mut chr = Char::from('a');
    chr.set_join();
    chr.set_full_join();
    assert!(chr.is_full_join());
    assert!(!chr.is_join());
}

#[test]
fn test_character__0004() {
    let mut chr = Char::from('a');
    chr.set_join();
    chr.clear_join();
    assert!(!chr.is_join());
}

#[test]
fn test_character__0005() {
    let mut chr = Char::from('a');
    chr.set_full_join();
    chr.clear_full_join();
    assert!(!chr.is_full_join());
}
