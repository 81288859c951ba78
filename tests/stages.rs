use bt2_codegen::component::{get_scoped_boxed_data, BtSelfComponent, ToSelfComponent};
use bt2_codegen::lexer::tokenize;
use bt2_codegen::enums::label_of;

fn chars(s: &str) -> Vec<char> {
    s.chars().collect()
}

#[test]
fn lexer_keeps_paths_and_arrows() {
    let t = tokenize(&chars("fn f(a: *const ::std::os::raw::c_char) -> u64;"));
    let words: Vec<String> = t.iter().map(|w| w.iter().collect()).collect();
    assert_eq!(
        words,
        vec!["fn", "f", "(", "a", ":", "*", "const", "::std::os::raw::c_char", ")", "->", "u64", ";"]
    );
}

#[test]
fn label_strips_type_and_upper_repetition() {
    assert_eq!(label_of(&chars("bt_foo_BT_FOO_OK"), &chars("bt_foo")), Some(chars("OK")));
    assert_eq!(label_of(&chars("bt_foo_OK"), &chars("bt_foo")), Some(chars("OK")));
    assert_eq!(label_of(&chars("bt_foo"), &chars("bt_foo")), None);
}

#[test]
fn scoped_data_is_lent_and_kept() {
    let mut comp: BtSelfComponent<u32> = BtSelfComponent::new();
    let none = get_scoped_boxed_data(&mut comp, |b: Box<u32>| (b, 0u32));
    assert_eq!(none, None);
    comp.set_data(Box::new(5));
    let r = get_scoped_boxed_data(&mut comp, |b: Box<u32>| (Box::new(*b + 1), *b * 2));
    assert_eq!(r, Some(10));
    assert_eq!(comp.take_data().map(|b| *b), Some(6));
}
