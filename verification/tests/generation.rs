use system_desc_derive::ast::{
    Attribute, DeriveInput, Field, Fields, GenericArgument, Generics, Lit, Meta, MetaList,
    NestedMeta, PathArguments, PathSegment, Type,
};
use system_desc_derive::classify::system_desc_fields;
use system_desc_derive::system_desc::{
    call_system_constructor, classes_present, field_computation_expressions, find_malformation,
    impl_constructor, impl_constructor_body, impl_constructor_parameters, impl_system_desc,
    is_identifier, snake_case, system_desc_struct, try_impl_system_desc, try_snake_case, Context,
    Malformed,
};

fn text(s: &str) -> String {
    String::from(s)
}

fn system_desc(nested: Vec<NestedMeta>) -> Attribute {
    Attribute { meta: Some(Meta::List(MetaList { ident: text("system_desc"), nested })) }
}

fn tag(name: &str) -> Attribute {
    system_desc(vec![NestedMeta::Meta(Meta::Word(text(name)))])
}

fn skip() -> Vec<Attribute> {
    vec![tag("skip")]
}

fn reader() -> Vec<Attribute> {
    vec![tag("event_channel_reader")]
}

fn list(name: &str, nested: Vec<NestedMeta>) -> NestedMeta {
    NestedMeta::Meta(Meta::List(MetaList { ident: text(name), nested }))
}

fn name(descriptor: &str) -> Attribute {
    system_desc(vec![list("name", vec![NestedMeta::Meta(Meta::Word(text(descriptor)))])])
}

fn plain(ident: &str) -> Type {
    Type {
        tokens: text(ident),
        last_segment: Some(PathSegment { ident: text(ident), arguments: PathArguments::Absent }),
    }
}

fn with_arguments(ident: &str, args: Vec<GenericArgument>) -> Type {
    Type {
        tokens: format!("{}<..>", ident),
        last_segment: Some(PathSegment {
            ident: text(ident),
            arguments: PathArguments::AngleBracketed { args },
        }),
    }
}

fn generic(ident: &str, argument: &str) -> Type {
    let mut ty = with_arguments(ident, vec![GenericArgument::TypePath(text(argument))]);
    ty.tokens = format!("{}<{}>", ident, argument);
    ty
}

fn tuple_type() -> Type {
    Type { tokens: text("(u32, u32)"), last_segment: None }
}

fn named(attrs: Vec<Attribute>, ident: &str, ty: Type) -> Field {
    let tokens = format!("{}: {}", ident, ty.tokens);
    Field { attrs, ident: Some(text(ident)), ty, tokens }
}

fn unnamed(attrs: Vec<Attribute>, ty: Type) -> Field {
    let tokens = ty.tokens.clone();
    Field { attrs, ident: None, ty, tokens }
}

/// The texts for a structure without generic parameters.
fn no_generics() -> Generics {
    Generics {
        impl_generics: text(""),
        impl_generics_with_lifetimes: text("<'system_desc_a, 'system_desc_b>"),
        ty_generics: text(""),
        where_clause: text(""),
    }
}

/// The texts for `<'a, T: Send> .. where T: Sync`.
fn some_generics() -> Generics {
    Generics {
        impl_generics: text("<'a, T: Send>"),
        impl_generics_with_lifetimes: text("<'a, 'system_desc_a, 'system_desc_b, T: Send>"),
        ty_generics: text("<'a, T>"),
        where_clause: text("where T: Sync"),
    }
}

/// A string literal with an expression in it.
fn expression(value: &str) -> NestedMeta {
    NestedMeta::Literal(Lit::Str { value: text(value), expression: true })
}

/// A string literal without an expression in it.
fn no_expression(value: &str) -> NestedMeta {
    NestedMeta::Literal(Lit::Str { value: text(value), expression: false })
}

/// The tokens of a text, one space between them.
fn tokens(text: &str) -> String {
    text.parse::<proc_macro2::TokenStream>().expect("the text to be tokens").to_string()
}

fn input(attrs: Vec<Attribute>, ident: &str, fields: Fields) -> DeriveInput {
    DeriveInput {
        attrs,
        ident: text(ident),
        generics: no_generics(),
        fields,
    }
}

/// A context for a structure without generic parameters, as the generation
/// makes it for a structure that names a descriptor.
fn context<'c>(ast: &'c DeriveInput, descriptor: &str) -> Context<'c> {
    let system_desc_fields = system_desc_fields(ast);
    let is_default = !classes_present(&system_desc_fields.field_mappings).passthrough;
    Context {
        system_name: &ast.ident,
        system_desc_name: text(descriptor),
        system_desc_fields,
        impl_generics: text(""),
        ty_generics: text(""),
        where_clause: text(""),
        is_default,
        is_self: false,
    }
}

/// The last expression of the generated `build`.
fn construction(ast: &DeriveInput) -> String {
    call_system_constructor(&context(ast, "CounterDesc"))
}

fn occurrences(haystack: &str, needle: &str) -> usize {
    haystack.matches(needle).count()
}

const BUILD_HEAD: &str = "impl<'system_desc_a, 'system_desc_b> \
    SystemDesc<'system_desc_a, 'system_desc_b, ";

#[test]
fn skipped_and_ordinary_field_of_a_tuple_structure() {
    let ast = input(
        vec![name("CounterDesc")],
        "Counter",
        Fields::Unnamed(vec![unnamed(skip(), plain("Cache")), unnamed(vec![], plain("u32"))]),
    );
    let generated = impl_system_desc(&ast);
    let expected = format!(
        "#[doc = \"Builds a `Counter`.\"] #[derive(Debug)] pub struct CounterDesc(u32, ); \
         impl CounterDesc {{ #[doc = \"Returns a new CounterDesc\"] pub fn new(u32: u32, ) -> Self \
         {{ CounterDesc(u32, ) }} }} \
         {}Counter> for CounterDesc {{ fn build(self, world: &mut World) -> Counter {{ \
         <Counter as System<'_>>::SystemData::setup(world); Counter::default() }} }}",
        BUILD_HEAD
    );
    assert_eq!(tokens(&generated), tokens(&expected));
    assert_eq!(occurrences(&generated, "self."), 0);
}

#[test]
fn identity_mode_returns_self() {
    let ast = input(
        vec![system_desc(vec![list("insert", vec![NestedMeta::Meta(Meta::Word(text("Score")))])])],
        "Counter",
        Fields::Named(vec![named(reader(), "reader", generic("ReaderId", "Event"))]),
    );
    let generated = impl_system_desc(&ast);
    assert_eq!(
        generated,
        "impl<'system_desc_a, 'system_desc_b> SystemDesc<'system_desc_a, 'system_desc_b, Counter> \
         for Counter  { fn build(self, world: &mut World) -> Counter { \
         <Counter as System<'_>>::SystemData::setup(world); world.insert(Score); self } }"
    );
}

#[test]
fn a_structure_without_parameters_declares_the_two_lifetimes_alone() {
    let ast = input(
        vec![system_desc(vec![list("insert", vec![NestedMeta::Meta(Meta::Word(text("MyRes")))])])],
        "S",
        Fields::Unit,
    );
    let generated = impl_system_desc(&ast);
    assert_eq!(
        tokens(&generated),
        tokens(
            "impl<'system_desc_a, 'system_desc_b> SystemDesc<'system_desc_a, 'system_desc_b, S> \
             for S { fn build(self, world: &mut World) -> S { \
             <S as System<'_>>::SystemData::setup(world); world.insert(MyRes); self } }"
        )
    );
    assert_eq!(occurrences(&tokens(&generated), "'system_desc_b ,"), 1);
    assert_eq!(occurrences(&tokens(&generated), "'system_desc_b >"), 1);
}

#[test]
fn identity_mode_does_not_look_at_the_fields() {
    let ast = input(
        vec![],
        "Counter",
        Fields::Unnamed(vec![unnamed(reader(), tuple_type()), unnamed(vec![], tuple_type())]),
    );
    let expected = format!(
        "{}Counter> for Counter {{ fn build(self, world: &mut World) -> Counter {{ \
         <Counter as System<'_>>::SystemData::setup(world); self }} }}",
        BUILD_HEAD
    );
    let generated = try_impl_system_desc(&ast).expect("nothing to be malformed");
    assert_eq!(tokens(&generated), tokens(&expected));
}

#[test]
fn generic_system_keeps_its_parameters() {
    let mut ast = input(
        vec![name("CounterDesc")],
        "Counter",
        Fields::Named(vec![named(vec![], "marker", generic("PhantomData", "T"))]),
    );
    ast.generics = some_generics();
    let generated = impl_system_desc(&ast);
    let expected = "#[doc = \"Builds a `Counter`.\"] #[derive(Debug)] pub struct \
        CounterDesc<'a, T> where T: Sync { marker: PhantomData<T>, } \
        impl<'a, T: Send> std::default::Default for CounterDesc<'a, T> where T: Sync \
        { fn default() -> Self { CounterDesc { marker: std::marker::PhantomData::default(), } } } \
        impl<'a, 'system_desc_a, 'system_desc_b, T: Send> \
        SystemDesc<'system_desc_a, 'system_desc_b, Counter<'a, T>> for CounterDesc<'a, T> \
        where T: Sync { fn build(self, world: &mut World) -> Counter<'a, T> { \
        <Counter<'a, T> as System<'_>>::SystemData::setup(world); Counter::default() } }";
    assert_eq!(tokens(&generated), tokens(expected));
}

#[test]
fn the_where_clause_of_a_tuple_descriptor_stands_behind_its_fields() {
    let mut ast = input(
        vec![name("CounterDesc")],
        "Counter",
        Fields::Unnamed(vec![unnamed(vec![], generic("PhantomData", "T"))]),
    );
    ast.generics = some_generics();
    let mut context = context(&ast, "CounterDesc");
    context.impl_generics = text("<'a, T: Send>");
    context.ty_generics = text("<'a, T>");
    context.where_clause = text("where T: Sync");
    assert_eq!(
        system_desc_struct(&context),
        "#[doc = \"Builds a `Counter`.\"] #[derive(Debug)] pub struct \
         CounterDesc<'a, T>(PhantomData<T>, ) where T: Sync;"
    );
    assert_eq!(
        impl_constructor(&context),
        "impl<'a, T: Send> std::default::Default for CounterDesc<'a, T> where T: Sync \
         { fn default() -> Self { CounterDesc(std::marker::PhantomData::default(), ) } }"
    );
}

#[test]
fn a_structure_without_fields_is_constructed_by_its_name() {
    assert_eq!(construction(&input(vec![], "Counter", Fields::Unit)), "Counter");
    assert_eq!(construction(&input(vec![], "Counter", Fields::Named(vec![]))), "Counter");
}

#[test]
fn skipped_fields_alone_lead_to_default() {
    let ast = input(vec![], "Counter", Fields::Named(vec![named(skip(), "cache", plain("Cache"))]));
    assert_eq!(construction(&ast), "Counter::default()");
    let ast = input(vec![], "Counter", Fields::Unnamed(vec![unnamed(skip(), tuple_type())]));
    assert_eq!(construction(&ast), "Counter::default()");
}

#[test]
fn skipped_fields_and_markers_lead_to_default() {
    let fields = vec![
        named(vec![], "marker", generic("PhantomData", "T")),
        named(skip(), "cache", plain("Cache")),
    ];
    let ast = input(vec![], "Counter", Fields::Named(fields));
    assert_eq!(construction(&ast), "Counter::default()");
    let fields = vec![
        unnamed(vec![], generic("PhantomData", "T")),
        unnamed(skip(), plain("Cache")),
    ];
    let ast = input(vec![], "Counter", Fields::Unnamed(fields));
    assert_eq!(construction(&ast), "Counter::default()");
}

#[test]
fn a_tuple_structure_without_computed_fields_leads_to_default() {
    let fields = vec![unnamed(vec![], plain("u32")), unnamed(vec![], plain("Speed"))];
    let ast = input(vec![], "Counter", Fields::Unnamed(fields));
    assert_eq!(construction(&ast), "Counter::default()");
}

#[test]
fn computed_fields_alone_go_through_new() {
    let ast = input(
        vec![],
        "Counter",
        Fields::Named(vec![
            named(reader(), "first", generic("ReaderId", "Event")),
            named(skip(), "cache", plain("Cache")),
            named(reader(), "second", generic("ReaderId", "Other")),
        ]),
    );
    assert_eq!(construction(&ast), "Counter::new(first, second, )");
    let ast = input(
        vec![],
        "Counter",
        Fields::Unnamed(vec![unnamed(reader(), generic("ReaderId", "Event"))]),
    );
    assert_eq!(construction(&ast), "Counter::new(reader_id, )");
}

#[test]
fn a_tuple_structure_with_a_computed_field_goes_through_new() {
    let ast = input(
        vec![],
        "Counter",
        Fields::Unnamed(vec![
            unnamed(vec![], plain("u32")),
            unnamed(skip(), plain("Cache")),
            unnamed(vec![], generic("PhantomData", "T")),
            unnamed(reader(), generic("ReaderId", "Event")),
            unnamed(vec![], plain("Speed")),
        ]),
    );
    assert_eq!(construction(&ast), "Counter::new(self.0, reader_id, self.2, )");
}

#[test]
fn descriptor_positions_are_written_in_decimal() {
    let mut fields = vec![unnamed(reader(), generic("ReaderId", "Event"))];
    for _ in 0..11 {
        fields.push(unnamed(vec![], plain("u32")));
    }
    let ast = input(vec![], "Counter", Fields::Unnamed(fields));
    assert_eq!(
        construction(&ast),
        "Counter::new(reader_id, self.0, self.1, self.2, self.3, self.4, self.5, self.6, self.7, \
         self.8, self.9, self.10, )"
    );
}

#[test]
fn named_fields_that_are_all_known_make_a_literal() {
    let ast = input(
        vec![],
        "Counter",
        Fields::Named(vec![
            named(vec![], "speed", plain("f32")),
            named(reader(), "reader", generic("ReaderId", "Event")),
            named(vec![], "limit", plain("u32")),
        ]),
    );
    assert_eq!(construction(&ast), "Counter { speed: self.speed, reader, limit: self.limit, }");
}

#[test]
fn named_fields_with_one_left_out_go_through_new() {
    let ast = input(
        vec![],
        "Counter",
        Fields::Named(vec![
            named(vec![], "speed", plain("f32")),
            named(skip(), "cache", plain("Cache")),
            named(reader(), "reader", generic("ReaderId", "Event")),
        ]),
    );
    assert_eq!(construction(&ast), "Counter::new(self.speed, reader, )");
    let ast = input(
        vec![],
        "Counter",
        Fields::Named(vec![
            named(vec![], "marker", generic("PhantomData", "T")),
            named(vec![], "speed", plain("f32")),
        ]),
    );
    assert_eq!(construction(&ast), "Counter::new(self.speed, )");
}

#[test]
fn every_computed_field_is_registered_once() {
    let ast = input(
        vec![name("CounterDesc")],
        "Counter",
        Fields::Named(vec![
            named(reader(), "first", generic("ReaderId", "event::Moved")),
            named(vec![], "speed", plain("f32")),
            named(reader(), "second", generic("ReaderId", "Pressed")),
        ]),
    );
    let statements = field_computation_expressions(&system_desc_fields(&ast));
    assert_eq!(
        statements,
        "let first = world.fetch_mut::<EventChannel<event::Moved>>().register_reader(); \
         let second = world.fetch_mut::<EventChannel<Pressed>>().register_reader(); "
    );
    let generated = impl_system_desc(&ast);
    assert_eq!(occurrences(&generated, "register_reader()"), 2);
    assert_eq!(occurrences(&generated, "fetch_mut::<EventChannel<event::Moved>>"), 1);
    assert_eq!(occurrences(&generated, "fetch_mut::<EventChannel<Pressed>>"), 1);
    assert!(generated.ends_with(
        "let second = world.fetch_mut::<EventChannel<Pressed>>().register_reader(); \
         Counter { first, speed: self.speed, second, } } }"
    ));
}

#[test]
fn a_computed_field_without_a_name_goes_by_its_type() {
    let ast = input(
        vec![],
        "Counter",
        Fields::Unnamed(vec![unnamed(reader(), generic("EventReaderId", "Event"))]),
    );
    assert_eq!(
        field_computation_expressions(&system_desc_fields(&ast)),
        "let event_reader_id = world.fetch_mut::<EventChannel<Event>>().register_reader(); "
    );
}

#[test]
fn nothing_is_computed_without_computed_fields() {
    let ast = input(vec![], "Counter", Fields::Named(vec![named(vec![], "speed", plain("f32"))]));
    assert_eq!(field_computation_expressions(&system_desc_fields(&ast)), "");
}

#[test]
fn the_value_of_a_field_passes_through_the_descriptor() {
    let ast = input(
        vec![name("CounterDesc")],
        "Counter",
        Fields::Unnamed(vec![
            unnamed(reader(), generic("ReaderId", "Event")),
            unnamed(vec![], generic("PhantomData", "T")),
            unnamed(vec![], plain("MaxSpeed")),
        ]),
    );
    let context = context(&ast, "CounterDesc");
    assert_eq!(system_desc_struct(&context), "#[doc = \"Builds a `Counter`.\"] #[derive(Debug)] \
        pub struct CounterDesc(PhantomData<T>, MaxSpeed, ) ;");
    assert_eq!(impl_constructor_parameters(&context), "max_speed: MaxSpeed, ");
    assert_eq!(
        impl_constructor_body(&context),
        "CounterDesc(std::marker::PhantomData::default(), max_speed, )"
    );
    assert_eq!(call_system_constructor(&context), "Counter::new(reader_id, self.1, )");
}

#[test]
fn the_value_of_a_named_field_passes_through_the_descriptor() {
    let ast = input(
        vec![name("CounterDesc")],
        "Counter",
        Fields::Named(vec![
            named(skip(), "cache", plain("Cache")),
            named(vec![], "marker", generic("PhantomData", "T")),
            named(vec![], "speed", plain("MaxSpeed")),
        ]),
    );
    let context = context(&ast, "CounterDesc");
    assert_eq!(system_desc_struct(&context), "#[doc = \"Builds a `Counter`.\"] #[derive(Debug)] \
        pub struct CounterDesc  { marker: PhantomData<T>, speed: MaxSpeed, }");
    assert_eq!(impl_constructor_parameters(&context), "speed: MaxSpeed, ");
    assert_eq!(
        impl_constructor_body(&context),
        "CounterDesc { marker: std::marker::PhantomData::default(), speed, }"
    );
    assert_eq!(
        impl_constructor(&context),
        "impl CounterDesc  { #[doc = \"Returns a new CounterDesc\"] pub fn new(speed: MaxSpeed, ) \
         -> Self { CounterDesc { marker: std::marker::PhantomData::default(), speed, } } }"
    );
    assert_eq!(call_system_constructor(&context), "Counter::new(self.speed, )");
}

#[test]
fn a_descriptor_without_arguments_implements_default() {
    let ast = input(
        vec![name("CounterDesc")],
        "Counter",
        Fields::Named(vec![named(reader(), "reader", generic("ReaderId", "Event"))]),
    );
    let context = context(&ast, "CounterDesc");
    assert!(context.is_default);
    assert_eq!(
        system_desc_struct(&context),
        "#[doc = \"Builds a `Counter`.\"] #[derive(Debug)] pub struct CounterDesc;"
    );
    assert_eq!(impl_constructor_parameters(&context), "");
    assert_eq!(impl_constructor_body(&context), "CounterDesc");
    assert_eq!(
        impl_constructor(&context),
        "impl std::default::Default for CounterDesc  { fn default() -> Self { CounterDesc } }"
    );
}

#[test]
fn classes_are_found_among_the_fields() {
    let ast = input(
        vec![],
        "Counter",
        Fields::Named(vec![
            named(skip(), "cache", plain("Cache")),
            named(vec![], "speed", plain("f32")),
        ]),
    );
    let present = classes_present(&system_desc_fields(&ast).field_mappings);
    assert!(present.skipped);
    assert!(present.passthrough);
    assert!(!present.compute);
    assert!(!present.phantom_data);
    let none = classes_present(&vec![]);
    assert!(!none.skipped && !none.passthrough && !none.compute && !none.phantom_data);
}

#[test]
fn type_names_are_written_in_snake_case() {
    assert_eq!(snake_case(&unnamed(vec![], plain("MaxSpeed"))), "max_speed");
    assert_eq!(snake_case(&unnamed(vec![], plain("XMLHttpRequest"))), "xml_http_request");
    assert_eq!(snake_case(&unnamed(vec![], generic("ReaderId", "Event"))), "reader_id");
    assert_eq!(snake_case(&unnamed(vec![], plain("u32"))), "u32");
}

#[test]
fn a_malformed_name_is_reported() {
    let ast = input(vec![system_desc(vec![list("name", vec![])])], "Counter", Fields::Unit);
    assert_eq!(try_impl_system_desc(&ast), Err(Malformed::Annotation { attribute: 0 }));
}

#[test]
fn a_malformed_insertion_is_reported() {
    let insert = list("insert", vec![no_expression("1 +")]);
    let ast = input(vec![system_desc(vec![insert])], "Counter", Fields::Unit);
    assert_eq!(try_impl_system_desc(&ast), Err(Malformed::Annotation { attribute: 0 }));
    let insert = list("insert", vec![NestedMeta::Literal(Lit::Other)]);
    let ast = input(vec![name("CounterDesc"), system_desc(vec![insert])], "Counter", Fields::Unit);
    assert_eq!(find_malformation(&ast), Some(Malformed::Annotation { attribute: 1 }));
}

#[test]
fn a_malformed_name_is_reported_before_a_malformed_insertion() {
    let insert = list("insert", vec![no_expression("1 +")]);
    let ast = input(
        vec![system_desc(vec![insert]), system_desc(vec![list("name", vec![])])],
        "Counter",
        Fields::Unit,
    );
    assert_eq!(find_malformation(&ast), Some(Malformed::Annotation { attribute: 1 }));
}

#[test]
fn a_malformed_reader_type_is_reported() {
    let reported = |ty: Type| {
        let ast = input(
            vec![name("CounterDesc")],
            "Counter",
            Fields::Named(vec![
                named(vec![], "speed", plain("f32")),
                named(reader(), "reader", ty),
            ]),
        );
        try_impl_system_desc(&ast)
    };
    let event = || GenericArgument::TypePath(text("Event"));
    let malformed = Err(Malformed::ComputedFieldType { field: 1 });
    assert_eq!(reported(tuple_type()), malformed);
    assert_eq!(reported(plain("ReaderId")), malformed);
    assert_eq!(reported(with_arguments("ReaderId", vec![])), malformed);
    assert_eq!(reported(with_arguments("ReaderId", vec![GenericArgument::Other])), malformed);
    assert_eq!(reported(with_arguments("ReaderId", vec![event(), event()])), malformed);
    let parenthesized = Type {
        tokens: text("Fn(Event)"),
        last_segment: Some(PathSegment { ident: text("Fn"), arguments: PathArguments::Parenthesized }),
    };
    assert_eq!(reported(parenthesized), malformed);
    assert!(reported(with_arguments("ReaderId", vec![event()])).is_ok());
}

#[test]
fn a_comma_behind_the_event_type_changes_nothing() {
    let mut ty = with_arguments("ReaderId", vec![GenericArgument::TypePath(text("Event"))]);
    ty.tokens = text("ReaderId<Event,>");
    let ast = input(
        vec![name("CounterDesc")],
        "Counter",
        Fields::Named(vec![named(reader(), "reader", ty)]),
    );
    assert_eq!(find_malformation(&ast), None);
    assert_eq!(
        field_computation_expressions(&system_desc_fields(&ast)),
        "let reader = world.fetch_mut::<EventChannel<Event>>().register_reader(); "
    );
}

#[test]
fn the_first_malformed_reader_type_is_reported() {
    let ast = input(
        vec![name("CounterDesc")],
        "Counter",
        Fields::Unnamed(vec![
            unnamed(reader(), generic("ReaderId", "Event")),
            unnamed(skip(), tuple_type()),
            unnamed(reader(), plain("ReaderId")),
            unnamed(reader(), tuple_type()),
        ]),
    );
    assert_eq!(find_malformation(&ast), Some(Malformed::ComputedFieldType { field: 2 }));
}

#[test]
fn a_field_that_cannot_be_named_is_reported() {
    let ast = input(
        vec![name("CounterDesc")],
        "Counter",
        Fields::Unnamed(vec![unnamed(vec![], tuple_type())]),
    );
    assert_eq!(try_impl_system_desc(&ast), Err(Malformed::FieldWithoutName { field: 0 }));
    let ast = input(
        vec![name("CounterDesc")],
        "Counter",
        Fields::Named(vec![named(vec![], "speed", plain("f32")), unnamed(vec![], plain("u32"))]),
    );
    assert_eq!(try_impl_system_desc(&ast), Err(Malformed::FieldWithoutName { field: 1 }));
}

#[test]
fn a_type_name_that_gives_no_identifier_is_reported() {
    let reported = |ty: Type| {
        let ast = input(
            vec![name("CounterDesc")],
            "Counter",
            Fields::Unnamed(vec![
                unnamed(vec![], plain("u32")),
                unnamed(skip(), plain("__")),
                unnamed(vec![], generic("PhantomData", "T")),
                unnamed(vec![], ty),
            ]),
        );
        find_malformation(&ast)
    };
    assert_eq!(reported(plain("__")), Some(Malformed::FieldWithoutName { field: 3 }));
    assert_eq!(reported(plain("_1A")), Some(Malformed::FieldWithoutName { field: 3 }));
    assert_eq!(reported(plain("_A1")), None);
    let ast = input(
        vec![name("CounterDesc")],
        "Counter",
        Fields::Unnamed(vec![unnamed(reader(), generic("_1", "Event"))]),
    );
    assert_eq!(find_malformation(&ast), Some(Malformed::FieldWithoutName { field: 0 }));
}

#[test]
fn a_named_field_is_not_named_after_its_type() {
    let ast = input(
        vec![name("CounterDesc")],
        "Counter",
        Fields::Named(vec![
            named(vec![], "speed", plain("__")),
            named(reader(), "reader", generic("_1", "Event")),
        ]),
    );
    assert_eq!(find_malformation(&ast), None);
}

#[test]
fn identifiers_begin_with_a_letter_or_an_underscore() {
    assert!(is_identifier("a"));
    assert!(is_identifier("_"));
    assert!(is_identifier("max_speed"));
    assert!(is_identifier("Z9"));
    assert!(is_identifier("_1a"));
    assert!(is_identifier("gr\u{f6}\u{df}e"));
    assert!(!is_identifier(""));
    assert!(!is_identifier("1a"));
    assert!(!is_identifier("9"));
    assert!(!is_identifier("a-b"));
    assert!(!is_identifier("a b"));
    assert!(!is_identifier("a."));
    assert!(!is_identifier("{"));
    assert!(!is_identifier("a\u{7f}"));
}

#[test]
fn a_type_is_named_in_snake_case_only_where_that_is_an_identifier() {
    assert_eq!(try_snake_case(&unnamed(vec![], plain("MaxSpeed"))), Some(text("max_speed")));
    assert_eq!(try_snake_case(&unnamed(vec![], plain("__"))), None);
    assert_eq!(try_snake_case(&unnamed(vec![], plain("_1A"))), None);
    assert_eq!(try_snake_case(&unnamed(vec![], tuple_type())), None);
}

#[test]
fn the_attributes_are_looked_at_before_the_fields() {
    let insert = list("insert", vec![no_expression("1 +")]);
    let ast = input(
        vec![name("CounterDesc"), system_desc(vec![insert])],
        "Counter",
        Fields::Unnamed(vec![unnamed(reader(), tuple_type()), unnamed(vec![], tuple_type())]),
    );
    assert_eq!(find_malformation(&ast), Some(Malformed::Annotation { attribute: 1 }));
}

#[test]
fn the_computed_fields_are_looked_at_before_the_names() {
    let ast = input(
        vec![name("CounterDesc")],
        "Counter",
        Fields::Unnamed(vec![unnamed(vec![], tuple_type()), unnamed(reader(), plain("ReaderId"))]),
    );
    assert_eq!(find_malformation(&ast), Some(Malformed::ComputedFieldType { field: 1 }));
}

#[test]
fn a_well_formed_structure_is_not_reported() {
    let insert = list("insert", vec![expression("1 + 1")]);
    let ast = input(
        vec![name("CounterDesc"), system_desc(vec![insert])],
        "Counter",
        Fields::Unnamed(vec![
            unnamed(vec![], plain("u32")),
            unnamed(reader(), generic("ReaderId", "Event")),
        ]),
    );
    assert_eq!(find_malformation(&ast), None);
    assert!(try_impl_system_desc(&ast).is_ok());
}

#[test]
fn a_skipped_field_needs_no_name() {
    let ast = input(
        vec![name("CounterDesc")],
        "Counter",
        Fields::Unnamed(vec![unnamed(skip(), tuple_type())]),
    );
    assert_eq!(find_malformation(&ast), None);
    let generated = try_impl_system_desc(&ast).unwrap();
    assert!(generated.starts_with(
        "#[doc = \"Builds a `Counter`.\"] #[derive(Debug)] pub struct CounterDesc; \
         impl std::default::Default for CounterDesc  { fn default() -> Self { CounterDesc } } "
    ));
    assert!(generated.ends_with("Counter::default() } }"));
}

#[test]
fn a_named_field_of_any_type_is_passed_through() {
    let ast = input(
        vec![name("CounterDesc")],
        "Counter",
        Fields::Named(vec![named(vec![], "pair", tuple_type())]),
    );
    let generated = try_impl_system_desc(&ast).unwrap();
    assert!(generated.contains("pub fn new(pair: (u32, u32), ) -> Self { CounterDesc { pair, } }"));
    assert!(generated.ends_with("Counter { pair: self.pair, } } }"));
}

#[test]
fn the_generated_text_is_rust() {
    let mut ast = input(
        vec![
            name("CounterDesc"),
            system_desc(vec![list(
                "insert",
                vec![
                    NestedMeta::Meta(Meta::Word(text("Score"))),
                    expression("Lives::new(3)"),
                ],
            )]),
        ],
        "Counter",
        Fields::Unnamed(vec![
            unnamed(vec![], plain("MaxSpeed")),
            unnamed(reader(), generic("ReaderId", "Event")),
            unnamed(vec![], generic("PhantomData", "T")),
            unnamed(skip(), plain("Cache")),
        ]),
    );
    ast.generics = some_generics();
    let generated = impl_system_desc(&ast);
    let file = syn::parse_str::<syn::File>(&generated).expect("the generated text to be items");
    assert_eq!(file.items.len(), 3);
    let identity = impl_system_desc(&input(vec![], "Counter", Fields::Unit));
    let file = syn::parse_str::<syn::File>(&identity).expect("the generated text to be items");
    assert_eq!(file.items.len(), 1);
}
