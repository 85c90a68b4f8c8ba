use harfbuzz::common::Script;
use harfbuzz::unicode::{
    CodepointRange, Composition, UnicodeCombiningClass, UnicodeFuncs, UnicodeGeneralCategory,
};

#[test]
fn combining_class_from_number() {
    assert_eq!(UnicodeCombiningClass::from(0), UnicodeCombiningClass::NotReordered);
    assert_eq!(UnicodeCombiningClass::from(230), UnicodeCombiningClass::Above);
    assert_eq!(UnicodeCombiningClass::from(132), UnicodeCombiningClass::Ccc133);
    assert_eq!(UnicodeCombiningClass::from(255), UnicodeCombiningClass::Invalid);
    assert_eq!(UnicodeCombiningClass::from(2), UnicodeCombiningClass::__Nonexhaustive);
    assert_eq!(UnicodeCombiningClass::from(254), UnicodeCombiningClass::__Nonexhaustive);
    assert_eq!(UnicodeCombiningClass::from(1000), UnicodeCombiningClass::__Nonexhaustive);
    assert_eq!(UnicodeCombiningClass::Virama.to_u32(), 9);
}

#[test]
fn tables_without_entries_give_fixed_answers() {
    let funcs = UnicodeFuncs::get_default();
    assert_eq!(funcs.script(0x61), Script::Unknown);
    assert_eq!(funcs.general_category(0x61), UnicodeGeneralCategory::OtherLetter);
    assert_eq!(funcs.combining_class(0x301), UnicodeCombiningClass::NotReordered);
    assert_eq!(funcs.mirroring(0x28), 0x28);
    assert_eq!(funcs.compose(0x61, 0x301), None);
    assert_eq!(funcs.decompose(0xE1), None);
    assert!(funcs.get_parent().is_none());
}

#[test]
fn child_overrides_parent_table_by_table() {
    let mut parent = UnicodeFuncs::get_default();
    parent.set_script_func(vec![CodepointRange { first: 0x41, last: 0x5A, value: Script::Latin }]);
    parent.set_mirroring_func(vec![
        CodepointRange { first: 0x28, last: 0x28, value: 0x29 },
        CodepointRange { first: 0x29, last: 0x29, value: 0x28 },
    ]);
    parent.set_general_category_func(vec![CodepointRange {
        first: 0x41,
        last: 0x5A,
        value: UnicodeGeneralCategory::UppercaseLetter,
    }]);
    parent.set_combining_class_func(vec![CodepointRange { first: 0x300, last: 0x314, value: 230 }]);
    parent.set_compose_func(vec![Composition { first: 0x61, second: 0x301, composed: 0xE1 }]);
    let mut child = UnicodeFuncs::create(parent);
    assert_eq!(child.script(0x41), Script::Latin);
    assert_eq!(child.script(0x61), Script::Unknown);
    assert_eq!(child.mirroring(0x28), 0x29);
    assert_eq!(child.general_category(0x42), UnicodeGeneralCategory::UppercaseLetter);
    assert_eq!(child.combining_class(0x301), UnicodeCombiningClass::Above);
    assert_eq!(child.compose(0x61, 0x301), Some(0xE1));
    assert_eq!(child.decompose(0xE1), Some((0x61, 0x301)));
    child.set_script_func(vec![CodepointRange { first: 0x41, last: 0x41, value: Script::Greek }]);
    assert_eq!(child.script(0x41), Script::Greek);
    assert_eq!(child.script(0x42), Script::Unknown);
    assert_eq!(child.mirroring(0x29), 0x28);
    assert_eq!(child.get_parent().unwrap().script(0x42), Script::Latin);
    child.make_immutable();
    child.set_script_func(Vec::new());
    assert_eq!(child.script(0x41), Script::Greek);
    assert!(child.is_immutable());
}
