use pg_mapper_derive::classify::{check_field_attributes, classify, Classification};
use pg_mapper_derive::directive::{
    directive_of, field_directives, get_mapper_meta_items, mapper_items, Annotation,
    Directive, Value, MetaItem,
};
use pg_mapper_derive::directive::Directive::{Collection, Flatten, Ignore, Unknown};
use pg_mapper_derive::error::GenerationError;
use pg_mapper_derive::text::text_is;

fn word(name: &str) -> MetaItem {
    MetaItem::Word { name: Some(name.to_string()) }
}

fn mapper(items: Vec<MetaItem>) -> Annotation {
    Annotation { path: vec!["pg_mapper".to_string()], items: Some(items) }
}

fn other(path: &[&str], items: Option<Vec<MetaItem>>) -> Annotation {
    Annotation { path: path.iter().map(|s| s.to_string()).collect(), items }
}

#[test]
fn no_directive_is_mapped() {
    assert_eq!(classify(&vec![]), Classification::Mapped);
}

#[test]
fn single_directives() {
    assert_eq!(classify(&vec![Directive::Ignore]), Classification::Ignored);
    assert_eq!(classify(&vec![Directive::Flatten]), Classification::Flattened);
    assert_eq!(classify(&vec![Directive::Collection]), Classification::Collection);
    assert_eq!(classify(&vec![Directive::Unknown]), Classification::Mapped);
}

#[test]
fn ignore_wins_over_everything() {
    assert_eq!(classify(&vec![Ignore, Flatten]), Classification::Ignored);
    assert_eq!(classify(&vec![Flatten, Ignore]), Classification::Ignored);
    assert_eq!(classify(&vec![Ignore, Collection]), Classification::Ignored);
    assert_eq!(classify(&vec![Collection, Ignore]), Classification::Ignored);
    assert_eq!(classify(&vec![Ignore, Unknown]), Classification::Ignored);
    assert_eq!(classify(&vec![Unknown, Ignore]), Classification::Ignored);
    assert_eq!(classify(&vec![Flatten, Collection, Unknown, Ignore]), Classification::Ignored);
}

#[test]
fn collection_wins_over_flatten() {
    assert_eq!(classify(&vec![Flatten, Collection]), Classification::Collection);
    assert_eq!(classify(&vec![Collection, Flatten]), Classification::Collection);
}

#[test]
fn repeated_flatten_stays_flattened() {
    assert_eq!(classify(&vec![Directive::Flatten, Directive::Flatten]), Classification::Flattened);
}

#[test]
fn unknown_directive_falls_back_to_mapped() {
    assert_eq!(classify(&vec![Unknown, Collection]), Classification::Mapped);
    assert_eq!(classify(&vec![Collection, Unknown]), Classification::Mapped);
    assert_eq!(classify(&vec![Flatten, Unknown]), Classification::Mapped);
    assert_eq!(classify(&vec![Unknown, Flatten]), Classification::Mapped);
}

#[test]
fn classification_ignores_order_and_repetition() {
    let all = [Ignore, Flatten, Collection, Unknown];
    for a in all {
        for b in all {
            for c in all {
                let base = classify(&vec![a, b, c]);
                assert_eq!(classify(&vec![c, b, a]), base);
                assert_eq!(classify(&vec![b, a, c]), base);
                assert_eq!(classify(&vec![a, c, b]), base);
                assert_eq!(classify(&vec![a, a, b, c, c]), base);
            }
        }
    }
}

#[test]
fn mapped_and_flattened_are_read_from_the_row() {
    assert!(Classification::Mapped.mapped());
    assert!(Classification::Flattened.mapped());
    assert!(!Classification::Ignored.mapped());
    assert!(!Classification::Collection.mapped());
}

#[test]
fn keywords_of_items() {
    assert_eq!(directive_of(&word("ignore")), Directive::Ignore);
    assert_eq!(directive_of(&word("flatten")), Directive::Flatten);
    assert_eq!(directive_of(&word("collection")), Directive::Collection);
    assert_eq!(directive_of(&word("ignored")), Directive::Unknown);
    assert_eq!(directive_of(&word("Ignore")), Directive::Unknown);
    assert_eq!(directive_of(&word("")), Directive::Unknown);
    assert_eq!(directive_of(&MetaItem::Word { name: None }), Directive::Unknown);
    assert_eq!(directive_of(&MetaItem::Constant), Directive::Unknown);
}

#[test]
fn a_value_after_the_keyword_changes_nothing() {
    let item = MetaItem::NameValue {
        name: Some("flatten".to_string()),
        value: Value::Str("x".to_string()),
    };
    assert_eq!(directive_of(&item), Directive::Flatten);
    let item = MetaItem::NameValue { name: Some("ignore".to_string()), value: Value::Other };
    assert_eq!(directive_of(&item), Directive::Ignore);
    let item = MetaItem::NameValue { name: None, value: Value::Other };
    assert_eq!(directive_of(&item), Directive::Unknown);
}

#[test]
fn text_is_compares_whole_words() {
    assert!(text_is(&"table".to_string(), "table"));
    assert!(!text_is(&"table".to_string(), "tables"));
    assert!(!text_is(&"tabl".to_string(), "table"));
    assert!(text_is(&String::new(), ""));
}

#[test]
fn only_mapper_annotations_are_read() {
    let serde = other(&["serde"], Some(vec![word("ignore")]));
    assert_eq!(get_mapper_meta_items(&serde), Ok(None));
    let longer = other(&["pg_mapper", "x"], Some(vec![word("ignore")]));
    assert_eq!(get_mapper_meta_items(&longer), Ok(None));
    let nested = other(&["x", "pg_mapper"], None);
    assert_eq!(get_mapper_meta_items(&nested), Ok(None));
    let empty = other(&[], None);
    assert_eq!(get_mapper_meta_items(&empty), Ok(None));
    let ours = mapper(vec![word("ignore"), MetaItem::Constant]);
    assert_eq!(get_mapper_meta_items(&ours), Ok(Some(&vec![word("ignore"), MetaItem::Constant])));
}

#[test]
fn mapper_annotation_without_list_is_refused() {
    let bare = other(&["pg_mapper"], None);
    assert_eq!(get_mapper_meta_items(&bare), Err(GenerationError::MalformedAnnotation));
    assert_eq!(mapper_items(&vec![mapper(vec![]), bare.clone()]), Err(GenerationError::MalformedAnnotation));
    assert_eq!(field_directives(&vec![bare.clone()]), Err(GenerationError::MalformedAnnotation));
    assert_eq!(
        check_field_attributes(&vec![mapper(vec![word("ignore")]), bare]),
        Err(GenerationError::MalformedAnnotation)
    );
}

#[test]
fn items_are_collected_in_order() {
    let annotations = vec![
        mapper(vec![word("a"), word("b")]),
        other(&["doc"], None),
        mapper(vec![]),
        other(&["serde"], Some(vec![word("x")])),
        mapper(vec![word("c")]),
    ];
    let items = mapper_items(&annotations).unwrap();
    assert_eq!(items, vec![&word("a"), &word("b"), &word("c")]);
    assert_eq!(mapper_items(&vec![]), Ok(vec![]));
}

#[test]
fn directives_of_a_field() {
    let annotations = vec![
        mapper(vec![word("flatten"), word("what")]),
        other(&["serde"], Some(vec![word("ignore")])),
        mapper(vec![MetaItem::Constant, word("collection"), word("ignore")]),
    ];
    assert_eq!(
        field_directives(&annotations),
        Ok(vec![
            Directive::Flatten,
            Directive::Unknown,
            Directive::Unknown,
            Directive::Collection,
            Directive::Ignore
        ])
    );
}

#[test]
fn classification_of_a_field() {
    assert_eq!(check_field_attributes(&vec![]), Ok(Classification::Mapped));
    assert_eq!(
        check_field_attributes(&vec![other(&["serde"], Some(vec![word("ignore")]))]),
        Ok(Classification::Mapped)
    );
    assert_eq!(
        check_field_attributes(&vec![mapper(vec![word("flatten")])]),
        Ok(Classification::Flattened)
    );
    assert_eq!(
        check_field_attributes(&vec![mapper(vec![word("flatten")]), mapper(vec![word("collection")])]),
        Ok(Classification::Collection)
    );
    assert_eq!(
        check_field_attributes(&vec![mapper(vec![word("typo"), word("ignore")])]),
        Ok(Classification::Ignored)
    );
    assert_eq!(
        check_field_attributes(&vec![mapper(vec![word("collection"), word("typo")])]),
        Ok(Classification::Mapped)
    );
}
