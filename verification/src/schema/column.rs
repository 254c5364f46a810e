//! Columns: what the declaration of a document says of each of its fields.
use vstd::prelude::*;

use crate::schema::attr::{
    conversion_views, inner_conversion, opt_name, process_inner_attr, ConversionView,
    FieldValueConversion, FormatOption, InnerAttr, InnerView, TantivyType,
};
use crate::text::str_eq;

verus! {

/// What the values of a field are.
#[derive(Clone, Copy, Debug, PartialEq, Eq, Structural)]
pub enum ValueKind {
    Text,
    U64,
    I64,
}

/// A field of a document.
#[derive(Debug, PartialEq, Eq)]
pub struct Column {
    pub name: String,
    pub kind: ValueKind,
    /// The fields of GELF messages that fill it, in order of preference.
    pub gelf: Vec<FieldValueConversion>,
    /// The fields of syslog messages that fill it, in order of preference.
    pub syslog: Vec<FieldValueConversion>,
    /// How it is stored, if it is.
    pub storage: Vec<TantivyType>,
    /// How it is shown, where that is not the way of its kind.
    pub format: Option<FormatOption>,
}

/// What a [`Column`] stands for.
#[verifier::ext_equal]
pub struct ColumnView {
    pub name: Seq<char>,
    pub kind: ValueKind,
    pub gelf: Seq<ConversionView>,
    pub syslog: Seq<ConversionView>,
    pub storage: Seq<TantivyType>,
    pub format: Option<FormatOption>,
}

impl View for Column {
    type V = ColumnView;

    open spec fn view(&self) -> ColumnView {
        ColumnView {
            name: self.name@,
            kind: self.kind,
            gelf: conversion_views(self.gelf@),
            syslog: conversion_views(self.syslog@),
            storage: self.storage@,
            format: self.format,
        }
    }
}

/// The columns of a list, seen through their views.
pub open spec fn column_views(v: Seq<Column>) -> Seq<ColumnView> {
    Seq::new(v.len(), |i: int| v[i]@)
}

/// An attribute of a field. A path is kept where it is a single identifier.
#[derive(Debug, PartialEq, Eq)]
pub enum Attribute {
    /// A path with a list of arguments.
    List(Option<String>, Vec<InnerAttr>),
    /// A path with a string.
    NameStr(Option<String>, String),
    /// Anything else.
    Other,
}

/// The arguments of a list, seen through their views.
pub open spec fn inner_views(v: Seq<InnerAttr>) -> Seq<InnerView> {
    Seq::new(v.len(), |i: int| v[i]@)
}

/// What an [`Attribute`] stands for.
pub enum AttributeView {
    List(Option<Seq<char>>, Seq<InnerView>),
    NameStr(Option<Seq<char>>, Seq<char>),
    Other,
}

impl View for Attribute {
    type V = AttributeView;

    open spec fn view(&self) -> AttributeView {
        match *self {
            Attribute::List(p, args) => AttributeView::List(opt_name(p), inner_views(args@)),
            Attribute::NameStr(p, s) => AttributeView::NameStr(opt_name(p), s@),
            Attribute::Other => AttributeView::Other,
        }
    }
}

/// The declaration of a field.
#[derive(Debug, PartialEq, Eq)]
pub struct FieldDecl {
    pub name: String,
    pub kind: ValueKind,
    pub attrs: Vec<Attribute>,
}

/// What a [`FieldDecl`] stands for.
pub struct DeclView {
    pub name: Seq<char>,
    pub kind: ValueKind,
    pub attrs: Seq<AttributeView>,
}

impl View for FieldDecl {
    type V = DeclView;

    open spec fn view(&self) -> DeclView {
        DeclView {
            name: self.name@,
            kind: self.kind,
            attrs: Seq::new(self.attrs@.len(), |i: int| self.attrs@[i]@),
        }
    }
}

/// A declaration that cannot be used.
#[derive(Clone, Copy, Debug, PartialEq, Eq)]
pub enum DeriveError {
    /// It is not that of a struct with named fields.
    NotNamedStruct,
    /// A field has a storage type that there is none of.
    UnknownStorageType,
    /// A field has a format that there is none of.
    UnknownFormat,
}

/// The conversions that the arguments of an attribute ask for.
pub open spec fn inner_conversions(args: Seq<InnerView>) -> Seq<ConversionView>
    decreases args.len(),
{
    if args.len() == 0 {
        Seq::empty()
    } else {
        let front = inner_conversions(args.drop_last());
        match inner_conversion(args.last()) {
            Some(c) => front.push(c),
            None => front,
        }
    }
}

/// A column with what one more attribute says of it. Attributes of other names say
/// nothing.
pub open spec fn with_attribute(c: ColumnView, a: AttributeView) -> Result<ColumnView, DeriveError> {
    match a {
        AttributeView::List(Some(path), args) => if path == "from_gelf"@ {
            Ok(ColumnView { gelf: c.gelf + inner_conversions(args), ..c })
        } else if path == "from_syslog"@ {
            Ok(ColumnView { syslog: c.syslog + inner_conversions(args), ..c })
        } else {
            Ok(c)
        },
        AttributeView::NameStr(Some(path), value) => if path == "storage_type"@ {
            match TantivyType::of_attribute(value) {
                Some(t) => Ok(ColumnView { storage: c.storage.push(t), ..c }),
                None => Err(DeriveError::UnknownStorageType),
            }
        } else if path == "format"@ {
            match FormatOption::of_attribute(value) {
                Some(f) => Ok(ColumnView { format: Some(f), ..c }),
                None => Err(DeriveError::UnknownFormat),
            }
        } else {
            Ok(c)
        },
        _ => Ok(c),
    }
}

/// A column with what its attributes say of it, up to the first that cannot be used.
pub open spec fn with_attributes(c: ColumnView, attrs: Seq<AttributeView>) -> Result<
    ColumnView,
    DeriveError,
>
    decreases attrs.len(),
{
    if attrs.len() == 0 {
        Ok(c)
    } else {
        match with_attributes(c, attrs.drop_last()) {
            Ok(front) => with_attribute(front, attrs.last()),
            Err(e) => Err(e),
        }
    }
}

/// A column of which nothing but its name and its kind is known.
pub open spec fn bare_column(name: Seq<char>, kind: ValueKind) -> ColumnView {
    ColumnView { name, kind, gelf: seq![], syslog: seq![], storage: seq![], format: None }
}

/// The column that a field declares.
pub open spec fn column_of(d: DeclView) -> Result<ColumnView, DeriveError> {
    with_attributes(bare_column(d.name, d.kind), d.attrs)
}

/// The columns that a struct declares, up to the first field that cannot be used.
pub open spec fn columns_of(decls: Seq<DeclView>) -> Result<Seq<ColumnView>, DeriveError>
    decreases decls.len(),
{
    if decls.len() == 0 {
        Ok(Seq::empty())
    } else {
        match columns_of(decls.drop_last()) {
            Ok(front) => match column_of(decls.last()) {
                Ok(c) => Ok(front.push(c)),
                Err(e) => Err(e),
            },
            Err(e) => Err(e),
        }
    }
}

/// Whether a path is the single identifier.
fn is_ident(path: &Option<String>, name: &str) -> (res: bool)
    ensures
        res == (opt_name(*path) == Some(name@)),
{
    match path {
        Some(p) => str_eq(p.as_str(), name),
        None => false,
    }
}

/// Adds the conversions that the arguments of an attribute ask for.
fn add_conversions(list: &mut Vec<FieldValueConversion>, args: &Vec<InnerAttr>)
    ensures
        conversion_views(final(list)@) == conversion_views(old(list)@) + inner_conversions(
            inner_views(args@),
        ),
{
    let ghost views = inner_views(args@);
    let ghost before = conversion_views(list@);
    let mut i: usize = 0;
    assert(views.take(0) =~= Seq::<InnerView>::empty());
    assert(before + inner_conversions(views.take(0)) =~= before);
    while i < args.len()
        invariant
            i <= args@.len(),
            views == inner_views(args@),
            conversion_views(list@) == before + inner_conversions(views.take(i as int)),
        decreases args@.len() - i,
    {
        let ghost done = conversion_views(list@);
        proof {
            let next = views.take(i + 1);
            assert(next.drop_last() =~= views.take(i as int));
            assert(next.last() == args@[i as int]@);
        }
        match process_inner_attr(&args[i]) {
            Some(c) => {
                list.push(c);
                assert(conversion_views(list@) =~= done.push(c@));
                assert(conversion_views(list@) =~= before + inner_conversions(
                    views.take(i as int),
                ).push(c@));
            },
            None => {},
        }
        i = i + 1;
    }
    assert(views.take(i as int) =~= views);
}

/// Adds what an attribute says of a column.
fn apply_attribute(column: Column, attr: &Attribute) -> (res: Result<Column, DeriveError>)
    ensures
        match (res, with_attribute(column@, attr@)) {
            (Ok(c), Ok(v)) => c@ == v,
            (Err(e), Err(f)) => e == f,
            _ => false,
        },
{
    let mut column = column;
    match attr {
        Attribute::List(path, args) => {
            if is_ident(path, "from_gelf") {
                add_conversions(&mut column.gelf, args);
            } else if is_ident(path, "from_syslog") {
                add_conversions(&mut column.syslog, args);
            }
        },
        Attribute::NameStr(path, value) => {
            if is_ident(path, "storage_type") {
                match TantivyType::from_attribute(value.as_str()) {
                    Some(t) => column.storage.push(t),
                    None => {
                        return Err(DeriveError::UnknownStorageType);
                    },
                }
            } else if is_ident(path, "format") {
                match FormatOption::from_attribute(value.as_str()) {
                    Some(f) => {
                        column.format = Some(f);
                    },
                    None => {
                        return Err(DeriveError::UnknownFormat);
                    },
                }
            }
        },
        Attribute::Other => {},
    }
    Ok(column)
}

/// The column that a field declares.
pub fn derive_column(decl: &FieldDecl) -> (res: Result<Column, DeriveError>)
    ensures
        match (res, column_of(decl@)) {
            (Ok(c), Ok(v)) => c@ == v,
            (Err(e), Err(f)) => e == f,
            _ => false,
        },
{
    let ghost attrs = decl@.attrs;
    let mut column = Column {
        name: decl.name.clone(),
        kind: decl.kind,
        gelf: Vec::new(),
        syslog: Vec::new(),
        storage: Vec::new(),
        format: None,
    };
    let ghost bare = bare_column(decl.name@, decl.kind);
    assert(column@ =~= bare);
    assert(attrs.take(0) =~= Seq::<AttributeView>::empty());
    let mut i: usize = 0;
    while i < decl.attrs.len()
        invariant
            i <= decl.attrs@.len(),
            attrs == decl@.attrs,
            with_attributes(bare, attrs.take(i as int)) == Ok::<ColumnView, DeriveError>(column@),
            column_of(decl@) == with_attributes(bare, attrs),
        decreases decl.attrs@.len() - i,
    {
        proof {
            let next = attrs.take(i + 1);
            assert(next.drop_last() =~= attrs.take(i as int));
            assert(next.last() == decl.attrs@[i as int]@);
        }
        match apply_attribute(column, &decl.attrs[i]) {
            Ok(c) => {
                column = c;
            },
            Err(e) => {
                proof {
                    lemma_attributes_stop(bare, attrs, i + 1);
                }
                return Err(e);
            },
        }
        i = i + 1;
    }
    assert(attrs.take(i as int) =~= attrs);
    Ok(column)
}

/// An attribute that cannot be used makes all of them so.
proof fn lemma_attributes_stop(c: ColumnView, attrs: Seq<AttributeView>, k: int)
    requires
        0 <= k <= attrs.len(),
        with_attributes(c, attrs.take(k)) is Err,
    ensures
        with_attributes(c, attrs) == with_attributes(c, attrs.take(k)),
    decreases attrs.len() - k,
{
    if k == attrs.len() {
        assert(attrs.take(k) =~= attrs);
    } else {
        assert(attrs.take(k + 1).drop_last() =~= attrs.take(k));
        lemma_attributes_stop(c, attrs, k + 1);
    }
}

/// A field that cannot be used makes the struct so.
proof fn lemma_columns_stop(decls: Seq<DeclView>, k: int)
    requires
        0 <= k <= decls.len(),
        columns_of(decls.take(k)) is Err,
    ensures
        columns_of(decls) == columns_of(decls.take(k)),
    decreases decls.len() - k,
{
    if k == decls.len() {
        assert(decls.take(k) =~= decls);
    } else {
        assert(decls.take(k + 1).drop_last() =~= decls.take(k));
        lemma_columns_stop(decls, k + 1);
    }
}

/// The columns that a struct declares.
pub fn derive_columns(decls: &Vec<FieldDecl>) -> (res: Result<Vec<Column>, DeriveError>)
    ensures
        match (res, columns_of(Seq::new(decls@.len(), |i: int| decls@[i]@))) {
            (Ok(cs), Ok(vs)) => column_views(cs@) == vs,
            (Err(e), Err(f)) => e == f,
            _ => false,
        },
{
    let ghost views = Seq::new(decls@.len(), |i: int| decls@[i]@);
    let mut columns: Vec<Column> = Vec::new();
    assert(views.take(0) =~= Seq::<DeclView>::empty());
    assert(column_views(columns@) =~= Seq::<ColumnView>::empty());
    let mut i: usize = 0;
    while i < decls.len()
        invariant
            i <= decls@.len(),
            views == Seq::new(decls@.len(), |i: int| decls@[i]@),
            columns_of(views.take(i as int)) == Ok::<Seq<ColumnView>, DeriveError>(
                column_views(columns@),
            ),
        decreases decls@.len() - i,
    {
        proof {
            let next = views.take(i + 1);
            assert(next.drop_last() =~= views.take(i as int));
            assert(next.last() == decls@[i as int]@);
        }
        match derive_column(&decls[i]) {
            Ok(c) => {
                let ghost done = column_views(columns@);
                columns.push(c);
                assert(column_views(columns@) =~= done.push(c@));
            },
            Err(e) => {
                proof {
                    lemma_columns_stop(views, i + 1);
                }
                return Err(e);
            },
        }
        i = i + 1;
    }
    assert(views.take(i as int) =~= views);
    Ok(columns)
}

} // verus!
