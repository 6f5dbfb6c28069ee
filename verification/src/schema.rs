//! The fields of a page in the store.

use vstd::prelude::*;

verus! {

/// The four fields of a page in the store.
#[derive(Debug, Clone, Copy, PartialEq, Eq, Structural)]
pub enum Field {
    /// The path of the source document, relative to the documents root.
    Title,
    /// The path of the file that holds the page's text.
    Path,
    /// The page's number within its document, counted from 1.
    Page,
    /// The page's text.
    Body,
}

/// What a field holds.
#[derive(Debug, Clone, Copy, PartialEq, Eq, Structural)]
pub enum FieldKind {
    Text,
    Unsigned,
}

/// How the store treats a field.
#[derive(Debug, Clone, Copy, PartialEq, Eq, Structural)]
pub struct FieldOptions {
    pub kind: FieldKind,
    /// Whether the field is cut into words that can be searched, with their positions.
    pub indexed: bool,
    /// Whether the store can hand the field's value out again.
    pub stored: bool,
}

/// How the store treats `field`: title and path are searchable texts that are kept, the
/// page number is a number that is kept, the body is a searchable text that is not kept.
pub open spec fn options_of(field: Field) -> FieldOptions {
    match field {
        Field::Title => FieldOptions { kind: FieldKind::Text, indexed: true, stored: true },
        Field::Path => FieldOptions { kind: FieldKind::Text, indexed: true, stored: true },
        Field::Page => FieldOptions { kind: FieldKind::Unsigned, indexed: false, stored: true },
        Field::Body => FieldOptions { kind: FieldKind::Text, indexed: true, stored: false },
    }
}

/// The fields of a page, and which of them a query looks at.
#[derive(Debug, Clone, Copy, PartialEq, Eq, Structural)]
pub struct SearchSchema {
    pub title: Field,
    pub path: Field,
    pub page: Field,
    pub body: Field,
}

impl SearchSchema {
    /// The schema with the given fields.
    pub fn new(title: Field, path: Field, page: Field, body: Field) -> (schema: Self)
        ensures
            schema == (SearchSchema { title, path, page, body }),
    {
        Self { title, path, page, body }
    }

    /// The name of `field` in the store.
    pub fn name(field: Field) -> (name: &'static str)
        ensures
            name@ == match field {
                Field::Title => "title"@,
                Field::Path => "path"@,
                Field::Page => "page"@,
                Field::Body => "body"@,
            },
    {
        match field {
            Field::Title => "title",
            Field::Path => "path",
            Field::Page => "page",
            Field::Body => "body",
        }
    }

    /// How the store treats `field`.
    pub fn options(field: Field) -> (options: FieldOptions)
        ensures
            options == options_of(field),
    {
        match field {
            Field::Title => FieldOptions { kind: FieldKind::Text, indexed: true, stored: true },
            Field::Path => FieldOptions { kind: FieldKind::Text, indexed: true, stored: true },
            Field::Page => FieldOptions { kind: FieldKind::Unsigned, indexed: false, stored: true },
            Field::Body => FieldOptions { kind: FieldKind::Text, indexed: true, stored: false },
        }
    }

    /// The fields that a query looks at where it names none: the title and the body.
    pub fn default_fields(&self) -> (fields: Vec<Field>)
        ensures
            fields@ == seq![self.title, self.body],
    {
        let mut fields: Vec<Field> = Vec::new();
        fields.push(self.title);
        fields.push(self.body);
        fields
    }
}

impl Default for SearchSchema {
    fn default() -> (schema: Self)
        ensures
            schema == (SearchSchema {
                title: Field::Title,
                path: Field::Path,
                page: Field::Page,
                body: Field::Body,
            }),
    {
        SearchSchema { title: Field::Title, path: Field::Path, page: Field::Page, body: Field::Body }
    }
}

} // verus!
