//! The `#[system_desc(..)]` attributes of a structure: the name of its
//! descriptor and the resources to insert.

use crate::ast::{Attribute, DeriveInput, Lit, Meta, MetaList, NestedMeta};
use crate::text::{
    concat, first_index, first_some, lemma_concat_next, lemma_first_index_is,
    lemma_first_some_skip,
};
use vstd::prelude::*;

verus! {

/// The list of an attribute that is `#[system_desc(..)]`.
pub open spec fn system_desc_list(attribute: Attribute) -> Option<MetaList> {
    match attribute.meta {
        Some(Meta::List(list)) => if list.ident@ == "system_desc"@ {
            Some(list)
        } else {
            None
        },
        _ => None,
    }
}

/// The list of an element that is a nested list of the given name, such as
/// `name(..)` or `insert(..)`.
pub open spec fn nested_list(element: NestedMeta, name: Seq<char>) -> Option<MetaList> {
    match element {
        NestedMeta::Meta(Meta::List(list)) => if list.ident@ == name {
            Some(list)
        } else {
            None
        },
        _ => None,
    }
}

/// The first `name(..)` list inside an attribute, where the attribute is
/// `#[system_desc(..)]`.
pub open spec fn first_name_list_in(attribute: Attribute) -> Option<MetaList> {
    match system_desc_list(attribute) {
        Some(list) => first_some(list.nested@, |element: NestedMeta| nested_list(element, "name"@)),
        None => None,
    }
}

/// The first `name(..)` list among the `#[system_desc(..)]` attributes.
pub open spec fn first_name_list(attributes: Seq<Attribute>) -> Option<MetaList> {
    first_some(attributes, |attribute: Attribute| first_name_list_in(attribute))
}

/// The position of the attribute that holds the first `name(..)` list.
pub open spec fn name_attribute(attributes: Seq<Attribute>) -> Option<int> {
    first_index(attributes, |attribute: Attribute| first_name_list_in(attribute) is Some)
}

/// The single identifier that a `name(..)` list holds.
pub open spec fn single_identifier(list: MetaList) -> Option<Seq<char>> {
    if list.nested@.len() == 1 {
        match list.nested@[0] {
            NestedMeta::Meta(Meta::Word(ident)) => Some(ident@),
            _ => None,
        }
    } else {
        None
    }
}

/// Whether the name of the descriptor is well formed: the first `name(..)`
/// list, if there is one, holds exactly one identifier.
pub open spec fn name_well_formed(attributes: Seq<Attribute>) -> bool {
    first_name_list(attributes) matches Some(list) ==> single_identifier(list) is Some
}

/// The name that `#[system_desc(name(..))]` gives to the descriptor, `None`
/// where the structure has no such attribute.
pub open spec fn descriptor_name(attributes: Seq<Attribute>) -> Option<Seq<char>> {
    match first_name_list(attributes) {
        Some(list) => single_identifier(list),
        None => None,
    }
}

/// The `#[system_desc(..)]` list of an attribute.
fn attribute_system_desc_list(attribute: &Attribute) -> (list: Option<&MetaList>)
    ensures
        list is Some <==> system_desc_list(*attribute) is Some,
        list matches Some(l) ==> *l == system_desc_list(*attribute).unwrap(),
{
    match &attribute.meta {
        Some(Meta::List(list)) => {
            if list.ident == String::from_str("system_desc") {
                Some(list)
            } else {
                None
            }
        },
        _ => None,
    }
}

/// The list of an element that is a nested list of the given name.
fn element_list<'a>(element: &'a NestedMeta, name: &str) -> (list: Option<&'a MetaList>)
    ensures
        list is Some <==> nested_list(*element, name@) is Some,
        list matches Some(l) ==> *l == nested_list(*element, name@).unwrap(),
{
    match element {
        NestedMeta::Meta(Meta::List(list)) => {
            if list.ident == String::from_str(name) {
                Some(list)
            } else {
                None
            }
        },
        _ => None,
    }
}

/// Finds the first `name(..)` list among the `#[system_desc(..)]` attributes,
/// and the position of the attribute that holds it.
#[verifier::loop_isolation(false)]
fn find_name_list(attributes: &Vec<Attribute>) -> (found: Option<(usize, &MetaList)>)
    ensures
        found is Some <==> first_name_list(attributes@) is Some,
        found matches Some((position, list)) ==> *list == first_name_list(attributes@).unwrap()
            && name_attribute(attributes@) == Some(position as int),
{
    let mut i: usize = 0;
    while i < attributes.len()
        invariant
            i <= attributes@.len(),
            forall|k: int| 0 <= k < i ==> first_name_list_in(#[trigger] attributes@[k]) is None,
        decreases attributes@.len() - i,
    {
        if let Some(meta_list) = attribute_system_desc_list(&attributes[i]) {
            let mut j: usize = 0;
            while j < meta_list.nested.len()
                invariant
                    j <= meta_list.nested@.len(),
                    forall|k: int|
                        0 <= k < j ==> nested_list(#[trigger] meta_list.nested@[k], "name"@)
                            is None,
                decreases meta_list.nested@.len() - j,
            {
                if let Some(name_list) = element_list(&meta_list.nested[j], "name") {
                    proof {
                        lemma_first_some_skip(
                            meta_list.nested@,
                            |element: NestedMeta| nested_list(element, "name"@),
                            j as int,
                        );
                        lemma_first_some_skip(
                            attributes@,
                            |attribute: Attribute| first_name_list_in(attribute),
                            i as int,
                        );
                        lemma_first_index_is(
                            attributes@,
                            |attribute: Attribute| first_name_list_in(attribute) is Some,
                            i as int,
                        );
                    }
                    return Some((i, name_list));
                }
                j += 1;
            }
            proof {
                lemma_first_some_skip(
                    meta_list.nested@,
                    |element: NestedMeta| nested_list(element, "name"@),
                    j as int,
                );
            }
        }
        i += 1;
    }
    proof {
        lemma_first_some_skip(
            attributes@,
            |attribute: Attribute| first_name_list_in(attribute),
            i as int,
        );
    }
    None
}

/// The single identifier of a `name(..)` list.
fn list_identifier(list: &MetaList) -> (ident: Option<&String>)
    ensures
        ident is Some <==> single_identifier(*list) is Some,
        ident matches Some(name) ==> name@ == single_identifier(*list).unwrap(),
{
    if list.nested.len() != 1 {
        return None;
    }
    match &list.nested[0] {
        NestedMeta::Meta(Meta::Word(ident)) => Some(ident),
        _ => None,
    }
}

/// Extracts the name from the `#[system_desc(name(..))]` attribute.
pub fn system_desc_name(ast: &DeriveInput) -> (name: Option<String>)
    requires
        name_well_formed(ast.attrs@),
    ensures
        name is Some <==> descriptor_name(ast.attrs@) is Some,
        name matches Some(ident) ==> ident@ == descriptor_name(ast.attrs@).unwrap(),
{
    match find_name_list(&ast.attrs) {
        Some((_, meta_list)) => {
            let ident = list_identifier(meta_list).expect(
                "Expected exactly one identifier for `#[system_desc(name(..))]`.",
            );
            Some(ident.clone())
        },
        None => None,
    }
}

/// The expression that an element of an `insert(..)` list stands for: an
/// identifier as it is, a string literal by its value where the value is an
/// expression. A line break ends the value, so that a comment at its end
/// cannot reach into what follows. Anything else, and a string that is no
/// expression, stands for nothing.
pub open spec fn inserted_expression(element: NestedMeta) -> Option<Seq<char>> {
    match element {
        NestedMeta::Meta(Meta::Word(ident)) => Some(ident@),
        NestedMeta::Literal(Lit::Str { value, expression }) => if expression {
            Some(value@ + "\n"@)
        } else {
            None
        },
        _ => None,
    }
}

/// The statement that inserts what an element of an `insert(..)` list stands
/// for into the `World`.
pub open spec fn insertion_statement(element: NestedMeta) -> Option<Seq<char>> {
    match inserted_expression(element) {
        Some(expression) => Some("world.insert("@ + expression + "); "@),
        None => None,
    }
}

/// The insertions that an element of a `#[system_desc(..)]` list asks for:
/// one for each element of an `insert(..)` list.
pub open spec fn element_insertions(element: NestedMeta) -> Option<Seq<char>> {
    match nested_list(element, "insert"@) {
        Some(list) => Some(
            concat(list.nested@.filter_map(|entry: NestedMeta| insertion_statement(entry))),
        ),
        None => None,
    }
}

/// The insertions that an attribute asks for.
pub open spec fn attribute_insertions(attribute: Attribute) -> Option<Seq<char>> {
    match system_desc_list(attribute) {
        Some(list) => Some(
            concat(list.nested@.filter_map(|element: NestedMeta| element_insertions(element))),
        ),
        None => None,
    }
}

/// The statements that insert the resources named by
/// `#[system_desc(insert(..))]` into the `World`, in the order of the
/// attributes and of their lists.
pub open spec fn resource_insertions(attributes: Seq<Attribute>) -> Seq<char> {
    concat(attributes.filter_map(|attribute: Attribute| attribute_insertions(attribute)))
}

/// Whether every element of an `insert(..)` list is an identifier or a string
/// that holds an expression.
pub open spec fn insert_list_well_formed(list: MetaList) -> bool {
    forall|k: int|
        0 <= k < list.nested@.len() ==> inserted_expression(#[trigger] list.nested@[k]) is Some
}

/// Whether an element of a `#[system_desc(..)]` list, if it is an
/// `insert(..)` list, is well formed.
pub open spec fn element_well_formed(element: NestedMeta) -> bool {
    nested_list(element, "insert"@) matches Some(list) ==> insert_list_well_formed(list)
}

/// Whether an attribute, if it is `#[system_desc(..)]`, holds well-formed
/// `insert(..)` lists only.
pub open spec fn attribute_well_formed(attribute: Attribute) -> bool {
    system_desc_list(attribute) matches Some(list) ==> forall|j: int|
        0 <= j < list.nested@.len() ==> element_well_formed(#[trigger] list.nested@[j])
}

/// Whether every element of every `#[system_desc(insert(..))]` list is an
/// identifier or a string that holds an expression.
pub open spec fn insertions_well_formed(attributes: Seq<Attribute>) -> bool {
    forall|i: int| 0 <= i < attributes.len() ==> attribute_well_formed(#[trigger] attributes[i])
}

/// Whether an element of an `insert(..)` list is an identifier or a string
/// that holds an expression.
fn stands_for_expression(entry: &NestedMeta) -> (valid: bool)
    ensures
        valid == inserted_expression(*entry) is Some,
{
    match entry {
        NestedMeta::Meta(Meta::Word(_)) => true,
        NestedMeta::Literal(Lit::Str { expression, .. }) => *expression,
        _ => false,
    }
}

/// Whether every `insert(..)` list of a `#[system_desc(..)]` list is well
/// formed.
#[verifier::loop_isolation(false)]
fn system_desc_list_is_well_formed(list: &MetaList) -> (valid: bool)
    ensures
        valid == forall|j: int|
            0 <= j < list.nested@.len() ==> element_well_formed(#[trigger] list.nested@[j]),
{
    let mut j: usize = 0;
    while j < list.nested.len()
        invariant
            j <= list.nested@.len(),
            forall|n: int| 0 <= n < j ==> element_well_formed(#[trigger] list.nested@[n]),
        decreases list.nested@.len() - j,
    {
        if let Some(insert_list) = element_list(&list.nested[j], "insert") {
            let mut k: usize = 0;
            while k < insert_list.nested.len()
                invariant
                    k <= insert_list.nested@.len(),
                    forall|n: int|
                        0 <= n < k ==> inserted_expression(#[trigger] insert_list.nested@[n])
                            is Some,
                decreases insert_list.nested@.len() - k,
            {
                if !stands_for_expression(&insert_list.nested[k]) {
                    return false;
                }
                k += 1;
            }
        }
        j += 1;
    }
    true
}

/// The position of the first attribute that holds an ill-formed `insert(..)`
/// list.
pub open spec fn malformed_insertion(attributes: Seq<Attribute>) -> Option<int> {
    first_index(attributes, |attribute: Attribute| !attribute_well_formed(attribute))
}

/// Finds the first attribute in which an element of an `insert(..)` list is
/// neither an identifier nor a string that holds an expression.
#[verifier::loop_isolation(false)]
pub fn find_malformed_insertion(ast: &DeriveInput) -> (found: Option<usize>)
    ensures
        found is Some <==> !insertions_well_formed(ast.attrs@),
        found matches Some(position) ==> malformed_insertion(ast.attrs@) == Some(position as int),
{
    let mut i: usize = 0;
    while i < ast.attrs.len()
        invariant
            i <= ast.attrs@.len(),
            forall|n: int| 0 <= n < i ==> attribute_well_formed(#[trigger] ast.attrs@[n]),
        decreases ast.attrs@.len() - i,
    {
        if let Some(meta_list) = attribute_system_desc_list(&ast.attrs[i]) {
            if !system_desc_list_is_well_formed(meta_list) {
                proof {
                    lemma_first_index_is(
                        ast.attrs@,
                        |attribute: Attribute| !attribute_well_formed(attribute),
                        i as int,
                    );
                }
                return Some(i);
            }
        }
        i += 1;
    }
    None
}

/// Whether every element of every `#[system_desc(insert(..))]` list is an
/// identifier or a string that holds an expression.
pub fn insertions_are_well_formed(ast: &DeriveInput) -> (valid: bool)
    ensures
        valid == insertions_well_formed(ast.attrs@),
{
    find_malformed_insertion(ast).is_none()
}

/// Finds the attribute whose `name(..)` list, the first of the structure, does
/// not hold exactly one identifier.
pub fn find_malformed_name(ast: &DeriveInput) -> (found: Option<usize>)
    ensures
        found is Some <==> !name_well_formed(ast.attrs@),
        found matches Some(position) ==> name_attribute(ast.attrs@) == Some(position as int),
{
    match find_name_list(&ast.attrs) {
        Some((position, meta_list)) => {
            if list_identifier(meta_list).is_some() {
                None
            } else {
                Some(position)
            }
        },
        None => None,
    }
}

/// Whether the first `name(..)` list, if there is one, holds exactly one
/// identifier.
pub fn name_is_well_formed(ast: &DeriveInput) -> (valid: bool)
    ensures
        valid == name_well_formed(ast.attrs@),
{
    find_malformed_name(ast).is_none()
}

/// Writes the insertion for one element of an `insert(..)` list, `None` where
/// the element stands for no expression.
fn insertion(entry: &NestedMeta) -> (statement: Option<String>)
    ensures
        statement is Some <==> insertion_statement(*entry) is Some,
        statement matches Some(s) ==> s@ == insertion_statement(*entry).unwrap(),
{
    let expression = match entry {
        NestedMeta::Meta(Meta::Word(ident)) => Some(ident.clone()),
        NestedMeta::Literal(Lit::Str { value, expression }) => {
            if *expression {
                let mut expression = value.clone();
                expression.append("\n");
                Some(expression)
            } else {
                None
            }
        },
        _ => None,
    };
    match expression {
        Some(expression) => {
            let mut statement = String::from_str("world.insert(");
            statement.append(expression.as_str());
            statement.append("); ");
            Some(statement)
        },
        None => None,
    }
}

/// Writes the insertions of one `insert(..)` list.
#[verifier::loop_isolation(false)]
fn insert_list_insertions(list: &MetaList) -> (tokens: String)
    requires
        insert_list_well_formed(*list),
    ensures
        tokens@ == concat(list.nested@.filter_map(|entry: NestedMeta| insertion_statement(entry))),
{
    let mut tokens = String::new();
    let mut k: usize = 0;
    while k < list.nested.len()
        invariant
            k <= list.nested@.len(),
            tokens@ == concat(
                list.nested@.take(k as int).filter_map(
                    |entry: NestedMeta| insertion_statement(entry),
                ),
            ),
        decreases list.nested@.len() - k,
    {
        proof {
            lemma_concat_next(
                list.nested@,
                |entry: NestedMeta| insertion_statement(entry),
                k as int,
            );
        }
        let statement = insertion(&list.nested[k]).expect(
            "Expected a literal string with an expression or a single word.",
        );
        tokens.append(statement.as_str());
        k += 1;
    }
    assert(list.nested@.take(k as int) =~= list.nested@);
    tokens
}

/// Writes the insertions of one `#[system_desc(..)]` list.
#[verifier::loop_isolation(false)]
fn system_desc_list_insertions(list: &MetaList) -> (tokens: String)
    requires
        forall|j: int|
            0 <= j < list.nested@.len() ==> element_well_formed(#[trigger] list.nested@[j]),
    ensures
        tokens@ == concat(
            list.nested@.filter_map(|element: NestedMeta| element_insertions(element)),
        ),
{
    let mut tokens = String::new();
    let mut j: usize = 0;
    while j < list.nested.len()
        invariant
            j <= list.nested@.len(),
            tokens@ == concat(
                list.nested@.take(j as int).filter_map(
                    |element: NestedMeta| element_insertions(element),
                ),
            ),
        decreases list.nested@.len() - j,
    {
        proof {
            lemma_concat_next(
                list.nested@,
                |element: NestedMeta| element_insertions(element),
                j as int,
            );
        }
        if let Some(insert_list) = element_list(&list.nested[j], "insert") {
            let insertions = insert_list_insertions(insert_list);
            tokens.append(insertions.as_str());
        }
        j += 1;
    }
    assert(list.nested@.take(j as int) =~= list.nested@);
    tokens
}

/// Inserts resources specified inside the `#[system_desc(insert(..))]`
/// attribute.
#[verifier::loop_isolation(false)]
pub fn resource_insertion_expressions(ast: &DeriveInput) -> (tokens: String)
    requires
        insertions_well_formed(ast.attrs@),
    ensures
        tokens@ == resource_insertions(ast.attrs@),
{
    let mut tokens = String::new();
    let mut i: usize = 0;
    while i < ast.attrs.len()
        invariant
            i <= ast.attrs@.len(),
            tokens@ == resource_insertions(ast.attrs@.take(i as int)),
        decreases ast.attrs@.len() - i,
    {
        proof {
            lemma_concat_next(
                ast.attrs@,
                |attribute: Attribute| attribute_insertions(attribute),
                i as int,
            );
        }
        if let Some(meta_list) = attribute_system_desc_list(&ast.attrs[i]) {
            let insertions = system_desc_list_insertions(meta_list);
            tokens.append(insertions.as_str());
        }
        i += 1;
    }
    assert(ast.attrs@.take(i as int) =~= ast.attrs@);
    tokens
}

} // verus!
