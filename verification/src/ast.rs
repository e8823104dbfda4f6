//! The structure definition that a derive works on, as plain data.
//!
//! Only what the generation reads is kept: names, attributes in meta form, the
//! shape of each field's type, and the text of what is copied through.

use vstd::prelude::*;

verus! {

/// A literal inside an attribute.
#[derive(Debug, PartialEq, Eq)]
pub enum Lit {
    /// A string literal.
    Str {
        /// The value of the literal.
        value: String,
        /// Whether the value, read as Rust source, is one expression. This
        /// is the answer of the parser that reads the structure; the
        /// generation asks it of the elements of `insert(..)` lists only.
        expression: bool,
    },
    /// Any other literal.
    Other,
}

/// An element of an attribute's list.
#[derive(Debug, PartialEq, Eq)]
pub enum NestedMeta {
    /// A nested meta item, such as the `name(..)` in `system_desc(name(..))`.
    Meta(Meta),
    /// A literal.
    Literal(Lit),
}

/// A name with a list of elements in parentheses.
#[derive(Debug, PartialEq, Eq)]
pub struct MetaList {
    pub ident: String,
    pub nested: Vec<NestedMeta>,
}

/// The content of an attribute.
#[derive(Debug, PartialEq, Eq)]
pub enum Meta {
    /// A single name, as in `#[test]`.
    Word(String),
    /// A name and a list, as in `#[derive(Debug)]`.
    List(MetaList),
    /// A name and a value, as in `#[path = "a.rs"]`.
    NameValue(String, Lit),
}

/// An attribute of a structure or of a field.
#[derive(Debug, PartialEq, Eq)]
pub struct Attribute {
    /// The content in meta form; `None` where the attribute has no such form.
    pub meta: Option<Meta>,
}

/// An argument between the angle brackets of a path segment.
#[derive(Debug, PartialEq, Eq)]
pub enum GenericArgument {
    /// A type that is a path, by its text.
    TypePath(String),
    /// A lifetime, a type that is no path, a binding, a constant.
    Other,
}

/// What follows the name in a path segment.
#[derive(Debug, PartialEq, Eq)]
pub enum PathArguments {
    /// Nothing, as in `u32`.
    Absent,
    /// Arguments in angle brackets, as in `Vec<u8>`.
    AngleBracketed { args: Vec<GenericArgument> },
    /// Arguments in parentheses, as in `Fn(u8) -> u8`.
    Parenthesized,
}

/// A segment of a path.
#[derive(Debug, PartialEq, Eq)]
pub struct PathSegment {
    pub ident: String,
    pub arguments: PathArguments,
}

/// The declared type of a field.
#[derive(Debug, PartialEq, Eq)]
pub struct Type {
    /// The type as written.
    pub tokens: String,
    /// The last segment where the type is a path, `None` for any other type.
    pub last_segment: Option<PathSegment>,
}

/// A field of a structure.
#[derive(Debug, PartialEq, Eq)]
pub struct Field {
    pub attrs: Vec<Attribute>,
    /// The name; a field of a tuple structure has none.
    pub ident: Option<String>,
    pub ty: Type,
    /// The declaration as written: attributes, visibility, name and type.
    pub tokens: String,
}

/// The fields of a structure.
#[derive(Debug, PartialEq, Eq)]
pub enum Fields {
    /// Fields with names, between braces.
    Named(Vec<Field>),
    /// Fields by position, between parentheses.
    Unnamed(Vec<Field>),
    /// No fields.
    Unit,
}

/// The generic parameters of a structure, as the implementations for it write
/// them. Each text is empty where there is nothing to write.
#[derive(Debug, PartialEq, Eq)]
pub struct Generics {
    /// The parameters as an implementation declares them, between angle
    /// brackets: with their bounds, without their defaults.
    pub impl_generics: String,
    /// The parameters as an implementation of `SystemDesc` declares them: the
    /// two lifetimes of that trait, `'system_desc_a` and `'system_desc_b`,
    /// are declared with them.
    pub impl_generics_with_lifetimes: String,
    /// The parameters as a type names them, between angle brackets.
    pub ty_generics: String,
    /// The `where` clause with its keyword.
    pub where_clause: String,
}

/// A structure definition with a derive on it.
#[derive(Debug, PartialEq, Eq)]
pub struct DeriveInput {
    pub attrs: Vec<Attribute>,
    pub ident: String,
    pub generics: Generics,
    pub fields: Fields,
}

impl Meta {
    /// The name of a meta item as text.
    pub open spec fn name_text(self) -> Seq<char> {
        match self {
            Meta::Word(ident) => ident@,
            Meta::List(list) => list.ident@,
            Meta::NameValue(ident, _) => ident@,
        }
    }

    /// The name, as `syn::Meta::name` gives it: the `test` of `#[test]`, the
    /// `derive` of `#[derive(Copy)]`, the `path` of `#[path = "a.rs"]`.
    pub fn name(&self) -> (name: &String)
        ensures
            name@ == self.name_text(),
    {
        match self {
            Meta::Word(ident) => ident,
            Meta::List(list) => &list.ident,
            Meta::NameValue(ident, _) => ident,
        }
    }
}

impl NestedMeta {
    /// Whether this element is a meta item of the given name.
    pub open spec fn is_meta_named(self, name: Seq<char>) -> bool {
        self matches NestedMeta::Meta(meta) && meta.name_text() == name
    }
}

impl Attribute {
    /// Whether the attribute is a list named `namespace` that holds a meta
    /// item named `tag`, as `#[namespace(tag)]` does.
    pub open spec fn has_tag(self, namespace: Seq<char>, tag: Seq<char>) -> bool {
        self.meta matches Some(Meta::List(list)) && list.ident@ == namespace && exists|j: int|
            0 <= j < list.nested@.len() && #[trigger] list.nested@[j].is_meta_named(tag)
    }

    /// Whether the attribute is `#[namespace(tag)]`, whatever else its list
    /// holds.
    #[verifier::loop_isolation(false)]
    pub fn contains_tag(&self, namespace: &String, tag: &String) -> (found: bool)
        ensures
            found == self.has_tag(namespace@, tag@),
    {
        match &self.meta {
            Some(Meta::List(list)) => {
                if list.ident != *namespace {
                    return false;
                }
                let mut j: usize = 0;
                while j < list.nested.len()
                    invariant
                        j <= list.nested@.len(),
                        forall|k: int|
                            0 <= k < j ==> !(#[trigger] list.nested@[k]).is_meta_named(tag@),
                    decreases list.nested@.len() - j,
                {
                    match &list.nested[j] {
                        NestedMeta::Meta(meta) => {
                            if *meta.name() == *tag {
                                assert(list.nested@[j as int].is_meta_named(tag@));
                                return true;
                            }
                        },
                        NestedMeta::Literal(_) => {},
                    }
                    j += 1;
                }
                false
            },
            _ => false,
        }
    }
}

impl Field {
    /// Whether one of the field's attributes is `#[namespace(tag)]`.
    pub open spec fn has_tag(self, namespace: Seq<char>, tag: Seq<char>) -> bool {
        exists|i: int|
            0 <= i < self.attrs@.len() && #[trigger] self.attrs@[i].has_tag(namespace, tag)
    }

    /// The simple name of the field's type where the type is a path: the
    /// `PhantomData` of `std::marker::PhantomData<T>`.
    pub open spec fn type_ident_text(self) -> Option<Seq<char>> {
        match self.ty.last_segment {
            Some(segment) => Some(segment.ident@),
            None => None,
        }
    }

    /// Whether the field's type goes by the name `PhantomData`.
    pub open spec fn phantom_data(self) -> bool {
        self.type_ident_text() == Some("PhantomData"@)
    }

    /// Whether the field carries a `#[namespace(tag)]` attribute. The rule is
    /// that of `proc_macro_roids::FieldExt::contains_tag`: among the
    /// attributes that have a meta form, a list named `namespace` holds a meta
    /// item named `tag`.
    #[verifier::loop_isolation(false)]
    pub fn contains_tag(&self, namespace: &str, tag: &str) -> (found: bool)
        ensures
            found == self.has_tag(namespace@, tag@),
    {
        let wanted_namespace = String::from_str(namespace);
        let wanted_tag = String::from_str(tag);
        let mut i: usize = 0;
        while i < self.attrs.len()
            invariant
                i <= self.attrs@.len(),
                wanted_namespace@ == namespace@,
                wanted_tag@ == tag@,
                forall|k: int|
                    0 <= k < i ==> !(#[trigger] self.attrs@[k]).has_tag(namespace@, tag@),
            decreases self.attrs@.len() - i,
        {
            if self.attrs[i].contains_tag(&wanted_namespace, &wanted_tag) {
                return true;
            }
            i += 1;
        }
        false
    }

    /// The simple name of the field's type, which is what
    /// `proc_macro_roids::FieldExt::type_name` gives for a path; `None` where
    /// the type is no path, on which that function panics.
    pub fn type_ident(&self) -> (name: Option<&String>)
        ensures
            name is Some <==> self.type_ident_text() is Some,
            name matches Some(n) ==> n@ == self.type_ident_text().unwrap(),
    {
        match &self.ty.last_segment {
            Some(segment) => Some(&segment.ident),
            None => None,
        }
    }

    /// Whether the field is a `PhantomData` marker. The type is recognised by
    /// its simple name alone. A type that is no path is no marker; on such a
    /// type `proc_macro_roids::FieldExt::is_phantom_data` panics, where this
    /// function answers `false`.
    pub fn is_phantom_data(&self) -> (phantom: bool)
        ensures
            phantom == self.phantom_data(),
    {
        match &self.ty.last_segment {
            Some(segment) => segment.ident == String::from_str("PhantomData"),
            None => false,
        }
    }
}

impl DeriveInput {
    /// The fields of the structure in declaration order.
    pub open spec fn field_seq(self) -> Seq<Field> {
        match self.fields {
            Fields::Named(fields) => fields@,
            Fields::Unnamed(fields) => fields@,
            Fields::Unit => Seq::empty(),
        }
    }

    /// Whether the structure's fields have names.
    pub open spec fn named(self) -> bool {
        self.fields is Named
    }

    /// Whether the structure's fields have names.
    pub fn is_named(&self) -> (named: bool)
        ensures
            named == self.named(),
    {
        match &self.fields {
            Fields::Named(_) => true,
            _ => false,
        }
    }
}

} // verus!
