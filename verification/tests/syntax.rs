use pg_mapper_derive::classify::Classification;
use pg_mapper_derive::derive::{derive_item, impl_derive};
use pg_mapper_derive::directive::{Annotation, MetaItem, Value};
use pg_mapper_derive::error::GenerationError;
use pg_mapper_derive::plan::{build_plan, Access};
use pg_mapper_derive::schema::resolve;
use pg_mapper_derive::syntax::{read_annotation, read_annotations, read_field, read_item};
use pg_mapper_derive::tokens::{digit, scan_char, simple_literal, stream_is_simple, Scan, NESTING_LIMIT};

const USER: &str = "#[pg_mapper(table = \"users\")] struct User { id: i32, name: String, #[pg_mapper(ignore)] secret: String }";

fn item(source: &str) -> syn::DeriveInput {
    syn::parse_str::<syn::DeriveInput>(source).unwrap()
}

fn derive(source: &str) -> Result<String, GenerationError> {
    impl_derive(&item(source))
}

fn constructor_of(method: &syn::ImplItem) -> syn::ExprStruct {
    let method = match method {
        syn::ImplItem::Method(method) => method,
        _ => panic!("not a method"),
    };
    let last = match method.block.stmts.last() {
        Some(syn::Stmt::Expr(expr)) => expr,
        _ => panic!("no final expression"),
    };
    let call = match last {
        syn::Expr::Call(call) => call,
        _ => panic!("not a call"),
    };
    match call.args.first() {
        Some(syn::Expr::Struct(constructor)) => constructor.clone(),
        _ => panic!("not a constructor"),
    }
}

fn member_names(constructor: &syn::ExprStruct) -> Vec<String> {
    constructor
        .fields
        .iter()
        .map(|field| match &field.member {
            syn::Member::Named(ident) => ident.to_string(),
            syn::Member::Unnamed(_) => panic!("unnamed member"),
        })
        .collect()
}

#[test]
fn user_columns() {
    let decl = read_item(&item(USER));
    let schema = resolve(&decl).unwrap();
    let plan = build_plan(&schema);
    assert_eq!(plan.table_name, "users");
    assert_eq!(plan.bare_columns, " id ,  name ");
    assert_eq!(plan.qualified_columns, " users.id ,  users.name ");
    assert!(plan.has_excluded);
    assert_eq!(plan.fields.len(), 2);
    assert_eq!(plan.fields[0].name, "id");
    assert_eq!(plan.fields[0].access, Access::Column);
    assert_eq!(plan.fields[1].name, "name");
    assert_eq!(schema.fields[2].name, "secret");
    assert_eq!(schema.fields[2].classification, Classification::Ignored);
}

#[test]
fn user_mapper_is_an_impl_that_fills_secret_by_default() {
    let text = derive(USER).unwrap();
    let parsed = syn::parse_str::<syn::ItemImpl>(&text).unwrap();
    let names: Vec<String> = parsed
        .items
        .iter()
        .map(|item| match item {
            syn::ImplItem::Method(method) => method.sig.ident.to_string(),
            _ => panic!("not a method"),
        })
        .collect();
    assert_eq!(
        names,
        vec!["from_row", "from_row_ref", "from_row_ref_prefixed", "sql_table", "sql_table_fields", "sql_fields"]
    );
    for method in &parsed.items[0..3] {
        let constructor = constructor_of(method);
        assert_eq!(member_names(&constructor), vec!["id", "name"]);
        assert!(constructor.dot2_token.is_some());
        assert!(constructor.rest.is_some());
    }
    assert!(text.contains("fn sql_fields() -> String { \" id ,  name \".to_string() }"));
    assert!(text.contains("fn sql_table_fields() -> String { \" users.id ,  users.name \".to_string() }"));
    assert!(text.contains("fn sql_table() -> String { \"users\".to_string() }"));
}

#[test]
fn record_without_excluded_field_has_no_default_fill() {
    let text = derive("#[pg_mapper(table = \"p\")] struct P { a: i32, b: Option<String> }").unwrap();
    let parsed = syn::parse_str::<syn::ItemImpl>(&text).unwrap();
    for method in &parsed.items[0..3] {
        let constructor = constructor_of(method);
        assert_eq!(member_names(&constructor), vec!["a", "b"]);
        assert!(constructor.dot2_token.is_none());
        assert!(constructor.rest.is_none());
    }
}

#[test]
fn nested_record_is_read_from_the_same_row_under_the_same_prefix() {
    let source = "#[pg_mapper(table = \"a\")] struct A { id: i64, #[pg_mapper(flatten)] b: B }";
    let decl = read_item(&item(source));
    let schema = resolve(&decl).unwrap();
    assert_eq!(schema.fields[1].classification, Classification::Flattened);
    let plan = build_plan(&schema);
    assert_eq!(plan.fields[1].access, Access::Nested);
    assert!(!plan.has_excluded);
    assert_eq!(plan.bare_columns, " id ,  b ");
    let text = derive_item(&decl).unwrap();
    assert_eq!(text.matches("b: <B>::from_row_ref_prefixed(&row, prefix)?").count(), 3);
    let parsed = syn::parse_str::<syn::ItemImpl>(&text).unwrap();
    for method in &parsed.items[0..3] {
        let constructor = constructor_of(method);
        let nested = match &constructor.fields[1].expr {
            syn::Expr::Try(tried) => match &*tried.expr {
                syn::Expr::Call(call) => call.clone(),
                _ => panic!("not a call"),
            },
            _ => panic!("failure is not passed on"),
        };
        let args: Vec<String> =
            nested.args.iter().map(|arg| quote::ToTokens::to_token_stream(arg).to_string()).collect();
        assert_eq!(args, vec!["& row", "prefix"]);
    }
}

#[test]
fn reading_and_deriving_agree() {
    let ast = item(USER);
    assert_eq!(impl_derive(&ast), derive_item(&read_item(&ast)));
}

#[test]
fn record_without_table() {
    assert_eq!(derive("struct User { id: i32 }"), Err(GenerationError::MissingTable));
    assert_eq!(
        derive("#[derive(Debug)] #[serde(table = \"users\")] struct User { id: i32 }"),
        Err(GenerationError::MissingTable)
    );
    assert_eq!(derive("#[pg_mapper()] struct User { id: i32 }"), Err(GenerationError::MissingTable));
    assert_eq!(derive("enum E { A }"), Err(GenerationError::MissingTable));
}

#[test]
fn malformed_table_annotations() {
    assert_eq!(derive("#[pg_mapper] struct U { id: i32 }"), Err(GenerationError::MalformedAnnotation));
    assert_eq!(
        derive("#[pg_mapper = \"users\"] struct U { id: i32 }"),
        Err(GenerationError::MalformedAnnotation)
    );
    assert_eq!(
        derive("#[pg_mapper(table users)] struct U { id: i32 }"),
        Err(GenerationError::MalformedAnnotation)
    );
    assert_eq!(
        derive("#[pg_mapper(table = 5)] struct U { id: i32 }"),
        Err(GenerationError::TableNotString)
    );
    assert_eq!(
        derive("#[pg_mapper(table)] struct U { id: i32 }"),
        Err(GenerationError::UnknownContainerAttribute)
    );
    assert_eq!(
        derive("#[pg_mapper(table(\"users\"))] struct U { id: i32 }"),
        Err(GenerationError::UnknownContainerAttribute)
    );
    assert_eq!(
        derive("#[pg_mapper(table = \"users\", schema = \"public\")] struct U { id: i32 }"),
        Err(GenerationError::UnknownContainerAttribute)
    );
    assert_eq!(
        derive("#[pg_mapper(a::table = \"users\")] struct U { id: i32 }"),
        Err(GenerationError::UnknownContainerAttribute)
    );
    assert_eq!(
        derive("#[pg_mapper(\"users\")] struct U { id: i32 }"),
        Err(GenerationError::UnexpectedLiteral)
    );
}

#[test]
fn enums_and_unions_cannot_be_mapped() {
    assert_eq!(derive("#[pg_mapper(table = \"e\")] enum E { A, B }"), Err(GenerationError::NotARecord));
    assert_eq!(
        derive("#[pg_mapper(table = \"u\")] union U { a: u32, b: f32 }"),
        Err(GenerationError::NotARecord)
    );
}

#[test]
fn tuple_records_cannot_be_mapped() {
    assert_eq!(
        derive("#[pg_mapper(table = \"t\")] struct T(i32, String);"),
        Err(GenerationError::UnnamedField)
    );
    assert_eq!(
        derive("#[pg_mapper(table = \"t\")] struct T(#[pg_mapper] i32);"),
        Err(GenerationError::MalformedAnnotation)
    );
}

#[test]
fn records_without_fields() {
    for source in [
        "#[pg_mapper(table = \"t\")] struct T;",
        "#[pg_mapper(table = \"t\")] struct T();",
        "#[pg_mapper(table = \"t\")] struct T {}",
    ] {
        let text = derive(source).unwrap();
        assert!(text.contains("Ok(Self {  })"));
        assert!(syn::parse_str::<syn::ItemImpl>(&text).is_ok());
    }
}

#[test]
fn malformed_field_annotation() {
    assert_eq!(
        derive("#[pg_mapper(table = \"t\")] struct T { #[pg_mapper] a: i32 }"),
        Err(GenerationError::MalformedAnnotation)
    );
    assert_eq!(
        derive("#[pg_mapper(table = \"t\")] struct T { a: i32, #[pg_mapper = 1] b: i32 }"),
        Err(GenerationError::MalformedAnnotation)
    );
}

#[test]
fn field_annotations_as_written() {
    let source = "#[pg_mapper(table = \"t\")] struct T {
        /// A doc comment is an annotation too.
        #[serde(rename = \"x\", ignore)]
        a: i32,
        #[pg_mapper(ignore)]
        b: i32,
        #[pg_mapper(flatten)]
        c: C,
        #[pg_mapper(collection)]
        d: Vec<D>,
        #[pg_mapper(flatten, collection)]
        e: Vec<E>,
        #[pg_mapper(flatten)]
        #[pg_mapper(ignore)]
        f: F,
        #[pg_mapper(unknown, flatten)]
        g: G,
        #[pg_mapper(ignore = \"yes\")]
        h: u8,
        #[pg_mapper(collection(of = \"I\"))]
        i: Vec<I>,
        #[pg_mapper(1, ignore)]
        j: u8,
        #[pg_mapper(a::flatten)]
        k: K,
        #[x::pg_mapper(ignore)]
        l: u8,
    }";
    let schema = resolve(&read_item(&item(source))).unwrap();
    let classes: Vec<(String, Classification)> =
        schema.fields.iter().map(|f| (f.name.clone(), f.classification)).collect();
    let expected = vec![
        ("a", Classification::Mapped),
        ("b", Classification::Ignored),
        ("c", Classification::Flattened),
        ("d", Classification::Collection),
        ("e", Classification::Collection),
        ("f", Classification::Ignored),
        ("g", Classification::Mapped),
        ("h", Classification::Ignored),
        ("i", Classification::Collection),
        ("j", Classification::Ignored),
        ("k", Classification::Mapped),
        ("l", Classification::Mapped),
    ];
    assert_eq!(classes.len(), expected.len());
    for ((name, class), (expected_name, expected_class)) in classes.iter().zip(expected.iter()) {
        assert_eq!(name, expected_name);
        assert_eq!(class, expected_class);
    }
    assert_eq!(build_plan(&schema).bare_columns, " a ,  c ,  g ,  k ,  l ");
}

#[test]
fn reading_an_attribute() {
    let ast = item("#[pg_mapper(table = \"a\\\"b\", ignore, x::y, z(1), 7, n = 3)] #[doc = \"d\"] #[a::b] struct S;");
    let annotations = read_annotations(&ast.attrs);
    assert_eq!(annotations.len(), 3);
    assert_eq!(
        annotations[0],
        Annotation {
            path: vec!["pg_mapper".to_string()],
            items: Some(vec![
                MetaItem::NameValue {
                    name: Some("table".to_string()),
                    value: Value::Str("a\"b".to_string())
                },
                MetaItem::Word { name: Some("ignore".to_string()) },
                MetaItem::Word { name: None },
                MetaItem::Word { name: Some("z".to_string()) },
                MetaItem::Constant,
                MetaItem::NameValue { name: Some("n".to_string()), value: Value::Other },
            ]),
        }
    );
    assert_eq!(annotations[1], Annotation { path: vec!["doc".to_string()], items: None });
    assert_eq!(
        annotations[2],
        Annotation { path: vec!["a".to_string(), "b".to_string()], items: None }
    );
    assert_eq!(read_annotation(&ast.attrs[1]), annotations[1]);
}

#[test]
fn reading_an_item() {
    let decl = read_item(&item(
        "#[pg_mapper(table = \"w\")] pub struct Wrapper<'a, T: Clone> where T: Default { pub inner: Option<T>, #[pg_mapper(ignore)] name: &'a str }",
    ));
    assert_eq!(decl.name, "Wrapper");
    assert_eq!(decl.annotations.len(), 1);
    let fields = decl.fields.clone().unwrap();
    assert_eq!(fields.len(), 2);
    assert_eq!(fields[0].name, Some("inner".to_string()));
    assert_eq!(fields[0].ty.replace(' ', ""), "Option<T>");
    assert!(fields[0].annotations.is_empty());
    assert_eq!(fields[1].name, Some("name".to_string()));
    assert_eq!(fields[1].ty.replace(' ', ""), "&'astr");
    assert_eq!(fields[1].annotations.len(), 1);
    assert_eq!(decl.generics.impl_generics.replace(' ', ""), "<'a,T:Clone>");
    assert_eq!(decl.generics.ty_generics.replace(' ', ""), "<'a,T>");
    assert_eq!(decl.generics.where_clause.replace(' ', ""), "whereT:Default");
    let text = derive_item(&decl).unwrap();
    let parsed = syn::parse_str::<syn::ItemImpl>(&text).unwrap();
    assert_eq!(parsed.generics.params.len(), 2);
    assert!(parsed.generics.where_clause.is_some());
}

#[test]
fn reading_a_field() {
    let ast = item("struct S { #[pg_mapper(flatten)] pub(crate) position: geo::Point<f64> }");
    let field = match &ast.data {
        syn::Data::Struct(data) => data.fields.iter().next().unwrap().clone(),
        _ => panic!("not a struct"),
    };
    let decl = read_field(&field);
    assert_eq!(decl.name, Some("position".to_string()));
    assert_eq!(decl.ty.replace(' ', ""), "geo::Point<f64>");
    assert_eq!(
        decl.annotations,
        vec![Annotation {
            path: vec!["pg_mapper".to_string()],
            items: Some(vec![MetaItem::Word { name: Some("flatten".to_string()) }]),
        }]
    );
}

#[test]
fn reading_items_that_are_no_records() {
    assert_eq!(read_item(&item("enum E { A }")).fields, None);
    assert_eq!(read_item(&item("union U { a: u8 }")).fields, None);
    assert_eq!(read_item(&item("struct S;")).fields, Some(vec![]));
    let tuple = read_item(&item("struct T(u8);"));
    assert_eq!(tuple.fields.unwrap()[0].name, None);
}

#[test]
fn table_name_with_quotes_survives_generation() {
    let text = derive("#[pg_mapper(table = \"my \\\"quoted\\\" table\")] struct Q { id: i32 }").unwrap();
    let parsed = syn::parse_str::<syn::ItemImpl>(&text).unwrap();
    let method = match &parsed.items[3] {
        syn::ImplItem::Method(method) => method.clone(),
        _ => panic!("not a method"),
    };
    let literal = match method.block.stmts.last() {
        Some(syn::Stmt::Expr(syn::Expr::MethodCall(call))) => match &*call.receiver {
            syn::Expr::Lit(lit) => match &lit.lit {
                syn::Lit::Str(text) => text.value(),
                _ => panic!("not a string"),
            },
            _ => panic!("not a literal"),
        },
        _ => panic!("no final expression"),
    };
    assert_eq!(literal, "my \"quoted\" table");
}

#[test]
fn table_value_that_is_no_string() {
    assert_eq!(derive("#[pg_mapper(table = 5)] struct U { id: i32 }"), Err(GenerationError::TableNotString));
    assert_eq!(
        derive("#[pg_mapper(table = true)] struct U { id: i32 }"),
        Err(GenerationError::TableNotString)
    );
    assert_eq!(
        GenerationError::TableNotString.message(),
        "declare table name: #[pg_mapper(table = \"foo\")]"
    );
}

#[test]
fn annotation_with_a_literal_that_is_not_simple_is_not_parsed() {
    for value in ["c\"users\"", "r\"users\"", "b\"users\"", "'u'", "1.5", "5u8", "0x10", "\"caf\\u{e9}\"", "\"a\"suffix"] {
        let source = format!("#[pg_mapper(table = {})] struct U {{ id: i32 }}", value);
        let ast = item(&source);
        assert_eq!(read_annotation(&ast.attrs[0]).items, None);
        assert_eq!(impl_derive(&ast), Err(GenerationError::MalformedAnnotation));
        let source = format!(
            "#[pg_mapper(table = \"u\")] struct U {{ #[pg_mapper(ignore, x({}))] id: i32 }}",
            value
        );
        assert_eq!(derive(&source), Err(GenerationError::MalformedAnnotation));
    }
}

#[test]
fn literals_of_other_annotations_do_not_matter() {
    let text = derive(
        "#[doc(c\"x\")] #[pg_mapper(table = \"u\")] struct U { #[serde(default = 1.5)] id: i32, #[other = b'x'] n: u8 }",
    );
    assert!(text.is_ok());
    let ast = item("#[doc(c\"x\")] struct U;");
    assert_eq!(
        read_annotation(&ast.attrs[0]),
        Annotation { path: vec!["doc".to_string()], items: None }
    );
}

#[test]
fn simple_literals_are_parsed() {
    let ast = item(
        "#[pg_mapper(table = \"a\\\\b\\n\\t\\r\\0\\'\\\"c\", n = 007, m(-3, \"x y\"))] struct S;",
    );
    let annotation = read_annotation(&ast.attrs[0]);
    assert_eq!(
        annotation.items,
        Some(vec![
            MetaItem::NameValue {
                name: Some("table".to_string()),
                value: Value::Str("a\\b\n\t\r\0'\"c".to_string())
            },
            MetaItem::NameValue { name: Some("n".to_string()), value: Value::Other },
            MetaItem::Word { name: Some("m".to_string()) },
        ])
    );
}

#[test]
fn annotations_nested_too_deep_are_not_parsed() {
    let mut inner = String::from("ignore");
    for _ in 0..NESTING_LIMIT - 1 {
        inner = format!("a({})", inner);
    }
    let ast = item(&format!("#[pg_mapper({})] struct S;", inner));
    assert!(read_annotation(&ast.attrs[0]).items.is_some());
    let ast = item(&format!("#[pg_mapper(a({}))] struct S;", inner));
    assert_eq!(read_annotation(&ast.attrs[0]).items, None);
}

#[test]
fn walking_token_streams() {
    let simple = |source: &str, depth: usize| {
        stream_is_simple(&source.parse::<proc_macro2::TokenStream>().unwrap(), depth)
    };
    assert!(simple("", 0));
    assert!(simple("a = \"b\", c :: d 12 - 7", 0));
    assert!(!simple("(a)", 0));
    assert!(simple("(a)", 1));
    assert!(simple("(a [b] {c})", 2));
    assert!(!simple("(a [b {c}])", 2));
    assert!(!simple("a = 1.0", 3));
    assert!(!simple("(a, (b, c\"x\"))", 3));
    assert!(simple("(a, (b, \"x\"))", 3));
}

#[test]
fn which_literals_are_simple() {
    for text in ["0", "7", "007", "1234567890", "\"\"", "\"users\"", "\"a b\"", "\"é\"", "\"a\\\"b\"", "\"\\\\\"", "\"\\n\\r\\t\\0\\'\"", "\"a\nb\""] {
        assert!(simple_literal(text), "{}", text);
    }
    for text in ["", "-1", "1.0", "1e3", "0x1f", "1_000", "5u8", "\"", "\"a", "a\"", "\"a\"b", "\"a\"\"", "\"\\\"", "\"\\x41\"", "\"\\u{41}\"", "\"a\rb\"", "r\"a\"", "b\"a\"", "c\"a\"", "'a'", "b'a'", "true"] {
        assert!(!simple_literal(text), "{}", text);
    }
}

#[test]
fn reading_characters_of_a_string() {
    assert_eq!(scan_char(Scan::Start, '"'), Scan::Body);
    assert_eq!(scan_char(Scan::Start, 'a'), Scan::Refused);
    assert_eq!(scan_char(Scan::Body, 'a'), Scan::Body);
    assert_eq!(scan_char(Scan::Body, '\\'), Scan::Escape);
    assert_eq!(scan_char(Scan::Body, '"'), Scan::Closed);
    assert_eq!(scan_char(Scan::Body, '\r'), Scan::Refused);
    assert_eq!(scan_char(Scan::Escape, 'n'), Scan::Body);
    assert_eq!(scan_char(Scan::Escape, '"'), Scan::Body);
    assert_eq!(scan_char(Scan::Escape, 'x'), Scan::Refused);
    assert_eq!(scan_char(Scan::Closed, 'a'), Scan::Refused);
    assert_eq!(scan_char(Scan::Refused, '"'), Scan::Refused);
    assert!(digit('0') && digit('9') && !digit('a') && !digit('-'));
}
