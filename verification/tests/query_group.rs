//! What the declaration of a query comes to.

use salsa::names::{
    group_storage_name, lookup_fn_name, lookup_query_type_name, lookup_query_type_of, query_type_name, query_type_of,
    set_fn_name, set_with_durability_fn_name,
};
use salsa::capacity::parse_capacity;
use salsa::query_group::{
    copy_text, copy_texts, filter_attrs, is_not_salsa_attr_path, plan_method, query_indices, same_text, Attribute,
    ConfigError, QueryMethod, QueryOptions, QueryStorage, QueryValue, SalsaAttr,
};

fn text(s: &str) -> String {
    String::from(s)
}

fn attr(path: &[&str], tokens: &str) -> Attribute {
    Attribute { path: path.iter().map(|s| text(s)).collect(), tokens: text(tokens) }
}

fn salsa(name: &str, tts: &str) -> SalsaAttr {
    SalsaAttr { name: text(name), tts: text(tts) }
}

fn method(name: &str, attrs: Vec<Attribute>) -> QueryMethod {
    QueryMethod { name: text(name), attrs, is_async: false, keys: vec![text("u32"), text("String")], value: text("Id") }
}

#[test]
fn names_are_derived_from_the_query_name() {
    assert_eq!(query_type_name("my_query"), "MyQueryQuery");
    assert_eq!(query_type_name("a"), "AQuery");
    assert_eq!(query_type_name("parse_XMLFile"), "ParseXmlFileQuery");
    assert_eq!(lookup_query_type_name("intern_name"), "InternNameLookupQuery");
    assert_eq!(query_type_of(text("Abc")), "AbcQuery");
    assert_eq!(lookup_query_type_of(text("Abc")), "AbcLookupQuery");
    assert_eq!(lookup_fn_name("intern_name"), "lookup_intern_name");
    assert_eq!(set_fn_name("x"), "set_x");
    assert_eq!(set_with_durability_fn_name("x"), "set_x_with_durability");
    assert_eq!(group_storage_name("Parser"), "ParserGroupStorage__");
}

#[test]
fn storage_kinds() {
    let lookup = QueryStorage::InternedLookup { intern_query_type: text("InternQuery") };
    let kinds = [
        (QueryStorage::Memoized, true, false, true),
        (QueryStorage::Dependencies, true, false, true),
        (QueryStorage::Input, false, true, true),
        (QueryStorage::Interned, false, false, true),
        (lookup, false, false, true),
        (QueryStorage::Transparent, false, false, false),
    ];
    for (storage, needs_function, supports_mut, has_storage) in kinds.iter() {
        assert_eq!(storage.needs_query_function(), *needs_function);
        assert_eq!(storage.supports_mut(), *supports_mut);
        assert_eq!(storage.has_storage(), *has_storage);
        let copy = storage.duplicate();
        assert_eq!(format!("{:?}", copy), format!("{:?}", storage));
    }
}

#[test]
fn engine_attributes_are_told_apart() {
    assert!(same_text("salsa", "salsa"));
    assert!(!same_text("salsa", "salsa2"));
    assert!(!is_not_salsa_attr_path(&vec![text("salsa"), text("input")]));
    assert!(is_not_salsa_attr_path(&vec![text("salsa")]));
    assert!(is_not_salsa_attr_path(&vec![text("salsa"), text("input"), text("x")]));
    assert!(is_not_salsa_attr_path(&vec![text("serde"), text("input")]));
    assert!(is_not_salsa_attr_path(&vec![]));

    let read = SalsaAttr::try_from(attr(&["salsa", "cycle"], "(recover)")).unwrap();
    assert_eq!((read.name.as_str(), read.tts.as_str()), ("cycle", "(recover)"));
    let other = SalsaAttr::try_from(attr(&["doc"], "= \"text\"")).unwrap_err();
    assert_eq!(other.path, vec![text("doc")]);
    assert_eq!(other.tokens, "= \"text\"");
    let copy = other.duplicate();
    assert_eq!((copy.path, copy.tokens), (other.path, other.tokens));
}

#[test]
fn attributes_are_parted_in_order() {
    let attrs = vec![
        attr(&["doc"], "one"),
        attr(&["salsa", "input"], ""),
        attr(&["allow"], "(unused)"),
        attr(&["salsa", "invoke"], "(f)"),
        attr(&["salsa", "x", "y"], ""),
    ];
    let (other, engine) = filter_attrs(&attrs);
    let other: Vec<&str> = other.iter().map(|a| a.path[0].as_str()).collect();
    assert_eq!(other, vec!["doc", "allow", "salsa"]);
    let engine: Vec<(&str, &str)> = engine.iter().map(|a| (a.name.as_str(), a.tts.as_str())).collect();
    assert_eq!(engine, vec![("input", ""), ("invoke", "(f)")]);
    let (other, engine) = filter_attrs(&vec![]);
    assert!(other.is_empty() && engine.is_empty());
}

#[test]
fn options_follow_the_attributes() {
    let options = QueryOptions::resolve(&vec![]).unwrap();
    assert!(matches!(options.storage, QueryStorage::Memoized));
    assert_eq!((options.cycle, options.invoke, options.query_type, options.num_storages), (None, None, None, 0));
    assert_eq!(options.lru, None);

    let kinds: Vec<(&str, fn(&QueryStorage) -> bool)> = vec![
        ("memoized", |s| matches!(s, QueryStorage::Memoized)),
        ("dependencies", |s| matches!(s, QueryStorage::Dependencies)),
        ("input", |s| matches!(s, QueryStorage::Input)),
        ("interned", |s| matches!(s, QueryStorage::Interned)),
        ("transparent", |s| matches!(s, QueryStorage::Transparent)),
    ];
    for (name, is_kind) in kinds {
        let options = QueryOptions::resolve(&vec![salsa(name, "")]).unwrap();
        assert!(is_kind(&options.storage));
        assert_eq!(options.num_storages, 1);
    }

    let options = QueryOptions::resolve(&vec![
        salsa("cycle", "(recover)"),
        salsa("dependencies", ""),
        salsa("invoke", "(compute)"),
        salsa("query_type", "(Custom)"),
    ])
    .unwrap();
    assert!(matches!(options.storage, QueryStorage::Dependencies));
    assert_eq!(options.cycle, Some(text("(recover)")));
    assert_eq!(options.invoke, Some(text("(compute)")));
    assert_eq!(options.query_type, Some(text("(Custom)")));

    let mut step = QueryOptions::new();
    assert!(step.apply(&salsa("input", "")).is_ok());
    assert!(matches!(step.apply(&salsa("Input", "")), Err(ConfigError::UnknownAttribute { name }) if name == "Input"));
    assert!(matches!(step.storage, QueryStorage::Input));
    assert_eq!(step.num_storages, 1);
}

#[test]
fn bad_attributes_are_refused() {
    let unknown = QueryOptions::resolve(&vec![salsa("input", ""), salsa("volatile", ""), salsa("bogus", "")]);
    assert!(matches!(unknown, Err(ConfigError::UnknownAttribute { name }) if name == "volatile"));
    let twice = QueryOptions::resolve(&vec![salsa("input", ""), salsa("memoized", "")]);
    assert!(matches!(twice, Err(ConfigError::MultipleStorages)));
    let same_twice = QueryOptions::resolve(&vec![salsa("input", ""), salsa("input", "")]);
    assert!(matches!(same_twice, Err(ConfigError::MultipleStorages)));
    let invoke = QueryOptions::resolve(&vec![salsa("invoke", "(f)"), salsa("input", "")]);
    assert!(matches!(invoke, Err(ConfigError::InvokeOnInput)));
    let fine = QueryOptions::resolve(&vec![salsa("invoke", "(f)"), salsa("transparent", "")]);
    assert!(fine.is_ok());
}

#[test]
fn plain_method_declares_one_memoized_query() {
    let (query, lookup) = plan_method(&method("parse_file", vec![attr(&["doc"], "text")])).unwrap();
    assert!(lookup.is_none());
    assert_eq!(query.fn_name, "parse_file");
    assert_eq!(query.query_name, "parse_file");
    assert_eq!(query.query_type, "ParseFileQuery");
    assert!(matches!(query.storage, QueryStorage::Memoized));
    assert_eq!(query.keys, vec![text("u32"), text("String")]);
    assert!(matches!(&query.value, QueryValue::Type(t) if t == "Id"));
    assert_eq!(query.attrs.len(), 1);
    assert_eq!((query.invoke.clone(), query.cycle.clone()), (None, None));
    assert!(!query.is_async);
    assert_eq!(query.invoke_tt(), "parse_file");
}

#[test]
fn attributes_shape_the_query() {
    let attrs = vec![
        attr(&["salsa", "invoke"], "(crate::compute)"),
        attr(&["salsa", "cycle"], "(recover)"),
        attr(&["salsa", "query_type"], "(Special)"),
        attr(&["salsa", "dependencies"], ""),
    ];
    let mut declared = method("f", attrs);
    declared.is_async = true;
    let (query, lookup) = plan_method(&declared).unwrap();
    assert!(lookup.is_none());
    assert_eq!(query.query_type, "(Special)");
    assert!(matches!(query.storage, QueryStorage::Dependencies));
    assert_eq!(query.invoke_tt(), "(crate::compute)");
    assert_eq!(query.cycle, Some(text("(recover)")));
    assert!(query.is_async);
    assert!(query.attrs.is_empty());

    assert!(matches!(
        plan_method(&method("f", vec![attr(&["salsa", "volatile"], "")])),
        Err(ConfigError::UnknownAttribute { name }) if name == "volatile"
    ));
    assert!(matches!(
        plan_method(&method("f", vec![attr(&["salsa", "lru"], "")])),
        Err(ConfigError::BadCapacity { text }) if text.is_empty()
    ));
    let (bounded, _) = plan_method(&method("f", vec![attr(&["salsa", "lru"], "(128)")])).unwrap();
    assert_eq!(bounded.lru, Some(128));
    assert_eq!(query.lru, None);
    assert!(matches!(
        plan_method(&method("f", vec![attr(&["salsa", "input"], ""), attr(&["salsa", "invoke"], "(g)")])),
        Err(ConfigError::InvokeOnInput)
    ));
    assert!(matches!(
        plan_method(&method("f", vec![attr(&["salsa", "input"], ""), attr(&["salsa", "interned"], "")])),
        Err(ConfigError::MultipleStorages)
    ));
}

#[test]
fn interned_query_gets_a_lookup_query() {
    let attrs = vec![attr(&["salsa", "interned"], ""), attr(&["salsa", "cycle"], "(recover)")];
    let (query, lookup) = plan_method(&method("intern_name", attrs)).unwrap();
    assert!(matches!(query.storage, QueryStorage::Interned));
    assert_eq!(query.query_type, "InternNameQuery");
    let lookup = lookup.unwrap();
    assert_eq!(lookup.fn_name, "lookup_intern_name");
    assert_eq!(lookup.query_name, "lookup_intern_name");
    assert_eq!(lookup.query_type, "InternNameLookupQuery");
    assert!(matches!(&lookup.storage, QueryStorage::InternedLookup { intern_query_type } if intern_query_type == "InternNameQuery"));
    assert_eq!(lookup.keys, vec![text("Id")]);
    assert!(matches!(&lookup.value, QueryValue::TupleOf(keys) if keys == &vec![text("u32"), text("String")]));
    assert_eq!(lookup.invoke, None);
    assert_eq!(lookup.cycle, Some(text("(recover)")));
    assert!(lookup.attrs.is_empty());
    assert_eq!(lookup.invoke_tt(), "lookup_intern_name");
}

#[test]
fn queries_with_storage_are_numbered() {
    let storages = vec![
        QueryStorage::Memoized,
        QueryStorage::Transparent,
        QueryStorage::Input,
        QueryStorage::Transparent,
        QueryStorage::Interned,
    ];
    assert_eq!(query_indices(&storages).unwrap(), vec![Some(0), None, Some(1), None, Some(2)]);
    assert_eq!(query_indices(&vec![]).unwrap(), vec![]);

    let mut many: Vec<QueryStorage> = Vec::new();
    for _ in 0..0x1_0000 {
        many.push(QueryStorage::Memoized);
    }
    many.push(QueryStorage::Transparent);
    let numbered = query_indices(&many).unwrap();
    assert_eq!(numbered[0xffff], Some(0xffff));
    assert_eq!(numbered[0x1_0000], None);
    many.push(QueryStorage::Input);
    assert!(matches!(query_indices(&many), Err(ConfigError::TooManyQueries)));
}

#[test]
fn texts_are_copied() {
    let texts = vec![text("a"), text("bc")];
    assert_eq!(copy_texts(&texts), texts);
    assert_eq!(copy_text(&Some(text("a"))), Some(text("a")));
    assert_eq!(copy_text(&None), None);
}

#[test]
fn capacity_is_a_decimal_number() {
    assert_eq!(parse_capacity("0"), Some(0));
    assert_eq!(parse_capacity("7"), Some(7));
    assert_eq!(parse_capacity("(32)"), Some(32));
    assert_eq!(parse_capacity("0128"), Some(128));
    assert_eq!(parse_capacity("4294967295"), Some(4294967295));
    assert_eq!(parse_capacity("(4294967295)"), Some(4294967295));
    assert_eq!(parse_capacity("4294967296"), None);
    assert_eq!(parse_capacity("99999999999999999999999"), None);
    assert_eq!(parse_capacity(""), None);
    assert_eq!(parse_capacity("()"), None);
    assert_eq!(parse_capacity("(12"), None);
    assert_eq!(parse_capacity("12)"), None);
    assert_eq!(parse_capacity("((12))"), None);
    assert_eq!(parse_capacity("1 2"), None);
    assert_eq!(parse_capacity("-1"), None);
    assert_eq!(parse_capacity("12a"), None);
    assert_eq!(parse_capacity("\u{0663}"), None);
}

#[test]
fn capacity_option_is_read() {
    let options = QueryOptions::resolve(&vec![salsa("lru", "(16)"), salsa("memoized", "")]).unwrap();
    assert_eq!(options.lru, Some(16));
    let options = QueryOptions::resolve(&vec![salsa("lru", "16"), salsa("lru", "0")]).unwrap();
    assert_eq!(options.lru, Some(0));
    let bad = QueryOptions::resolve(&vec![salsa("lru", "many"), salsa("bogus", "")]);
    assert!(matches!(bad, Err(ConfigError::BadCapacity { text }) if text == "many"));
}
