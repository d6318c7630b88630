use lume::lang::{LangItem, LangItemError, LanguageItems};
use lume::span::{NodeId, PackageId};

fn id(i: u64) -> NodeId {
    NodeId::new(PackageId(1), i)
}

#[test]
fn add_then_get_reads_the_item() {
    let mut items = LanguageItems::new();
    assert!(items.add(LangItem::Array, id(4)).is_ok());
    assert_eq!(items.get(LangItem::Array), Some(id(4)));
    assert_eq!(items.get(LangItem::Never), None);
}

#[test]
fn adding_twice_reports_and_replaces() {
    let mut items = LanguageItems::new();
    items.add(LangItem::Cast, id(1)).unwrap();
    match items.add(LangItem::Cast, id(2)) {
        Err(LangItemError::AlreadyExists { item, existing, replaced_with }) => {
            assert_eq!(item, LangItem::Cast);
            assert_eq!(existing, id(1));
            assert_eq!(replaced_with, id(2));
        }
        _ => panic!("expected a duplicate error"),
    }
    assert_eq!(items.get(LangItem::Cast), Some(id(2)));
}

#[test]
fn add_name_by_key() {
    let mut items = LanguageItems::new();
    items.add_name("string_eq", id(7)).unwrap();
    assert_eq!(items.get(LangItem::StringEq), Some(id(7)));
    match items.add_name("no_such_item", id(8)) {
        Err(LangItemError::UnknownName { name }) => assert_eq!(name, "no_such_item"),
        _ => panic!("expected an unknown name"),
    }
}

#[test]
fn key_names_item() {
    assert_eq!(LangItem::from_name("never"), Some(LangItem::Never));
    assert_eq!(LangItem::from_name("lookup_method"), Some(LangItem::MethodLookup));
    assert_eq!(LangItem::from_name("dispose_trait"), Some(LangItem::Dispose));
    assert_eq!(LangItem::from_name("Never"), None);
    assert_eq!(LangItem::MethodLookup.to_string(), "find_method_on");
}

#[test]
fn merge_prefers_merged_items() {
    let mut target = LanguageItems::new();
    target.add(LangItem::Add, id(1)).unwrap();
    target.add(LangItem::Sub, id(2)).unwrap();
    let mut source = LanguageItems::new();
    source.add(LangItem::Sub, id(3)).unwrap();
    source.add(LangItem::Mul, id(4)).unwrap();
    source.merge_into(&mut target);
    assert_eq!(target.get(LangItem::Add), Some(id(1)));
    assert_eq!(target.get(LangItem::Sub), Some(id(3)));
    assert_eq!(target.get(LangItem::Mul), Some(id(4)));
}
