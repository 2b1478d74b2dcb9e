//! The names and the plans by which holders are derived for the types that
//! are generated from a legalized document: a holder stands for a value of
//! such a type while the values it refers to are still looked up in a table.

use crate::parser::basis::{all_digits, digits_value, is_digit};
use crate::parser::remark::push_char;
use crate::semantics::scope::texts;
use vstd::prelude::*;
use vstd::string::StringExecFns;
use vstd::string::StringSliceAdditionalSpecFns;
use vstd::utf8::encode_utf8;

verus! {

/// `name` with `Holder` behind it.
pub open spec fn holder_of(name: Seq<char>) -> Seq<char> {
    name + "Holder"@
}

/// `name` with `Visitor` behind it.
pub open spec fn visitor_of(name: Seq<char>) -> Seq<char> {
    name + "Visitor"@
}

/// The name of the holder of the type `name`.
pub fn holder_name(name: &str) -> (r: String)
    ensures
        r@ == holder_of(name@),
{
    String::from_str(name).concat("Holder")
}

/// The name of the visitor that reads the type `name`.
pub fn visitor_name(name: &str) -> (r: String)
    ensures
        r@ == visitor_of(name@),
{
    String::from_str(name).concat("Visitor")
}

/// What `inflector` makes of a name when it writes it in upper case with
/// underscores between its words.
pub uninterp spec fn screaming_snake_case(name: Seq<char>) -> Seq<char>;

/// True when a buffer of twice the bytes of `name` can be allocated.
pub open spec fn can_be_doubled(name: Seq<char>) -> bool {
    2 * encode_utf8(name).len() <= isize::MAX
}

/// `inflector::cases::screamingsnakecase::to_screaming_snake_case`: the
/// result is a function of the name alone, and nothing more is claimed of
/// it. The function reserves twice the bytes of the name, which fails for a
/// name of more than half the bytes that can be allocated.
#[verifier::external_body]
fn to_screaming_snake_case(name: &str) -> (r: String)
    requires
        can_be_doubled(name@),
    ensures
        r@ == screaming_snake_case(name@),
{
    inflector::cases::screamingsnakecase::to_screaming_snake_case(name)
}

/// The name under which the type `ident` is written in an exchange file, or
/// nothing for a name too long to be converted.
pub fn step_name(ident: &str) -> (r: Option<String>)
    ensures
        r is Some <==> can_be_doubled(ident@),
        r matches Some(name) ==> name@ == screaming_snake_case(ident@),
{
    if ident.as_bytes().len() <= (isize::MAX as usize) / 2 {
        Some(to_screaming_snake_case(ident))
    } else {
        None
    }
}

/// The names that belong to a select type: its name in an exchange file,
/// its holder, the visitor of its holder, and the names of its variants in
/// an exchange file.
#[derive(Debug, Clone, PartialEq, Eq)]
pub struct SelectNames {
    pub name: String,
    pub holder: String,
    pub holder_visitor: String,
    pub variant_names: Vec<String>,
}

/// True when the names are those of the select type `ident` with the
/// variants `variants`.
pub open spec fn names_of_select(names: SelectNames, ident: Seq<char>, variants: Seq<String>) -> bool {
    &&& names.name@ == screaming_snake_case(ident)
    &&& names.holder@ == holder_of(ident)
    &&& names.holder_visitor@ == visitor_of(holder_of(ident))
    &&& names.variant_names@.len() == variants.len()
    &&& forall|i: int|
        0 <= i < variants.len() ==> (#[trigger] names.variant_names@[i])@ == screaming_snake_case(
            variants[i]@,
        )
}

/// True when each of the names can be converted.
pub open spec fn all_can_be_doubled(names: Seq<String>) -> bool {
    forall|i: int| 0 <= i < names.len() ==> can_be_doubled(#[trigger] names[i]@)
}

/// The names that belong to the select type `ident` with the variants
/// `variants`, or nothing where one of the names is too long to be
/// converted.
pub fn select_names(ident: &str, variants: &Vec<String>) -> (r: Option<SelectNames>)
    ensures
        r is Some <==> can_be_doubled(ident@) && all_can_be_doubled(variants@),
        r matches Some(names) ==> names_of_select(names, ident@, variants@),
{
    let name = match step_name(ident) {
        Some(name) => name,
        None => {
            return None;
        },
    };
    let holder = holder_name(ident);
    let holder_visitor = visitor_name(holder.as_str());
    let mut variant_names: Vec<String> = Vec::new();
    let mut i: usize = 0;
    while i < variants.len()
        invariant
            i <= variants.len(),
            variant_names@.len() == i,
            forall|k: int| 0 <= k < i ==> can_be_doubled(#[trigger] variants@[k]@),
            forall|k: int|
                0 <= k < i ==> (#[trigger] variant_names@[k])@ == screaming_snake_case(
                    variants@[k]@,
                ),
        decreases variants.len() - i,
    {
        match step_name(variants[i].as_str()) {
            Some(variant) => {
                variant_names.push(variant);
            },
            None => {
                return None;
            },
        }
        i += 1;
    }
    Some(SelectNames { name, holder, holder_visitor, variant_names })
}

/// Where the crate of the tables was found from the crate that is being
/// compiled: that crate itself, or a dependency under a name.
#[derive(Debug, Clone, PartialEq, Eq)]
pub enum FoundCrate {
    Itself,
    Name(String),
}

/// A path of one name, with or without `::` before it.
#[derive(Debug, Clone, PartialEq, Eq)]
pub struct CratePath {
    pub leading_colon: bool,
    pub name: String,
}

/// What a [`CratePath`] holds, as a mathematical value.
pub struct CratePathView {
    pub leading_colon: bool,
    pub name: Seq<char>,
}

impl View for CratePath {
    type V = CratePathView;

    open spec fn view(&self) -> CratePathView {
        CratePathView { leading_colon: self.leading_colon, name: self.name@ }
    }
}

/// The path by which generated code names the crate of the tables: a
/// dependency by `::` and its name; the crate itself by `crate`, but by
/// `::ruststep` from its integration tests and benchmarks, which are
/// compiled as crates of their own.
pub open spec fn path_to_crate(found: FoundCrate, integration: bool) -> CratePathView {
    match found {
        FoundCrate::Itself => if integration {
            CratePathView { leading_colon: true, name: "ruststep"@ }
        } else {
            CratePathView { leading_colon: false, name: "crate"@ }
        },
        FoundCrate::Name(name) => CratePathView { leading_colon: true, name: name@ },
    }
}

/// The path by which generated code names the crate of the tables.
pub fn crate_path(found: &FoundCrate, integration: bool) -> (r: CratePath)
    ensures
        r@ == path_to_crate(*found, integration),
{
    match found {
        FoundCrate::Itself => if integration {
            CratePath { leading_colon: true, name: String::from_str("ruststep") }
        } else {
            CratePath { leading_colon: false, name: String::from_str("crate") }
        },
        FoundCrate::Name(name) => CratePath { leading_colon: true, name: name.clone() },
    }
}

/// A path of names with `::` between them, with or without `::` before the
/// first: `::some::Struct`.
#[derive(Debug, PartialEq, Eq)]
pub struct TypePath {
    pub leading_colon: bool,
    pub segments: Vec<String>,
}

/// What a [`TypePath`] holds, as a mathematical value.
pub struct TypePathView {
    pub leading_colon: bool,
    pub segments: Seq<Seq<char>>,
}

impl View for TypePath {
    type V = TypePathView;

    open spec fn view(&self) -> TypePathView {
        TypePathView { leading_colon: self.leading_colon, segments: texts(self.segments@) }
    }
}

impl TypePathView {
    /// The path of the holder: `Holder` stands behind the last name.
    pub open spec fn as_holder(self) -> TypePathView {
        if self.segments.len() == 0 {
            self
        } else {
            TypePathView {
                leading_colon: self.leading_colon,
                segments: self.segments.drop_last().push(holder_of(self.segments.last())),
            }
        }
    }
}

impl Clone for TypePath {
    fn clone(&self) -> (r: Self)
        ensures
            r@ == self@,
    {
        let mut segments: Vec<String> = Vec::new();
        let mut i: usize = 0;
        while i < self.segments.len()
            invariant
                i <= self.segments.len(),
                texts(segments@) == texts(self.segments@).take(i as int),
            decreases self.segments.len() - i,
        {
            let ghost before = segments@;
            let name = self.segments[i].clone();
            segments.push(name);
            assert(texts(segments@) =~= texts(before).push(name@));
            assert(texts(self.segments@).take(i + 1) =~= texts(self.segments@).take(i as int).push(
                self.segments@[i as int]@,
            ));
            i += 1;
        }
        assert(texts(self.segments@).take(self.segments@.len() as int) == texts(self.segments@));
        TypePath { leading_colon: self.leading_colon, segments }
    }
}

impl TypePath {
    /// The path of the holder of the type that the path names.
    pub fn as_holder(&self) -> (r: TypePath)
        ensures
            r@ == self@.as_holder(),
    {
        let TypePath { leading_colon, mut segments } = self.clone();
        match segments.pop() {
            Some(last) => {
                let ghost front = segments@;
                let name = holder_name(last.as_str());
                segments.push(name);
                assert(texts(segments@) =~= texts(front).push(holder_of(last@)));
                assert(texts(front) =~= self@.segments.drop_last());
                TypePath { leading_colon, segments }
            },
            None => TypePath { leading_colon, segments },
        }
    }
}

/// The type of a field: a path; a type within `Option`, `Vec` or `Box`; or
/// a type within a place holder.
#[derive(Debug, PartialEq, Eq)]
pub enum FieldType {
    Path(TypePath),
    Optional(Box<FieldType>),
    List(Box<FieldType>),
    Boxed(Box<FieldType>),
    PlaceHolder(Box<FieldType>),
}

/// What a [`FieldType`] holds, as a mathematical value.
pub enum FieldTypeView {
    Path(TypePathView),
    Optional(Box<FieldTypeView>),
    List(Box<FieldTypeView>),
    Boxed(Box<FieldTypeView>),
    PlaceHolder(Box<FieldTypeView>),
}

/// What a [`FieldType`] holds, as a mathematical value.
pub open spec fn view_field_type(ty: FieldType) -> FieldTypeView
    decreases ty,
{
    match ty {
        FieldType::Path(path) => FieldTypeView::Path(path@),
        FieldType::Optional(inner) => FieldTypeView::Optional(Box::new(view_field_type(*inner))),
        FieldType::List(inner) => FieldTypeView::List(Box::new(view_field_type(*inner))),
        FieldType::Boxed(inner) => FieldTypeView::Boxed(Box::new(view_field_type(*inner))),
        FieldType::PlaceHolder(inner) => FieldTypeView::PlaceHolder(
            Box::new(view_field_type(*inner)),
        ),
    }
}

impl View for FieldType {
    type V = FieldTypeView;

    open spec fn view(&self) -> FieldTypeView {
        view_field_type(*self)
    }
}

impl FieldTypeView {
    /// The type of the holder: every path in the type becomes the path of
    /// its holder.
    pub open spec fn as_holder(self) -> FieldTypeView
        decreases self,
    {
        match self {
            FieldTypeView::Path(path) => FieldTypeView::Path(path.as_holder()),
            FieldTypeView::Optional(inner) => FieldTypeView::Optional(Box::new(inner.as_holder())),
            FieldTypeView::List(inner) => FieldTypeView::List(Box::new(inner.as_holder())),
            FieldTypeView::Boxed(inner) => FieldTypeView::Boxed(Box::new(inner.as_holder())),
            FieldTypeView::PlaceHolder(inner) => FieldTypeView::PlaceHolder(
                Box::new(inner.as_holder()),
            ),
        }
    }

    /// The type with every path in it held by a place holder.
    pub open spec fn as_place_holder(self) -> FieldTypeView
        decreases self,
    {
        match self {
            FieldTypeView::Path(path) => FieldTypeView::PlaceHolder(
                Box::new(FieldTypeView::Path(path)),
            ),
            FieldTypeView::Optional(inner) => FieldTypeView::Optional(
                Box::new(inner.as_place_holder()),
            ),
            FieldTypeView::List(inner) => FieldTypeView::List(Box::new(inner.as_place_holder())),
            FieldTypeView::Boxed(inner) => FieldTypeView::Boxed(Box::new(inner.as_place_holder())),
            FieldTypeView::PlaceHolder(inner) => FieldTypeView::PlaceHolder(inner),
        }
    }

    /// The shape of the type. A place holder is written as a path.
    pub open spec fn kind(self) -> FieldKind {
        match self {
            FieldTypeView::Path(_) => FieldKind::Path,
            FieldTypeView::Optional(_) => FieldKind::Optional,
            FieldTypeView::List(_) => FieldKind::List,
            FieldTypeView::Boxed(_) => FieldKind::Boxed,
            FieldTypeView::PlaceHolder(_) => FieldKind::Path,
        }
    }

    /// The type of the field of the holder for a field of this type: the
    /// holder of the type within a place holder where the field is held by
    /// one, the type itself where it is not.
    pub open spec fn in_holder(self, place_holder: bool) -> FieldTypeView {
        if place_holder {
            self.as_holder().as_place_holder()
        } else {
            self
        }
    }
}

impl Clone for FieldType {
    fn clone(&self) -> (r: Self)
        ensures
            r@ == self@,
    {
        self.copy()
    }
}

impl FieldType {
    /// A copy of the type.
    pub fn copy(&self) -> (r: FieldType)
        ensures
            r@ == self@,
        decreases *self,
    {
        match self {
            FieldType::Path(path) => FieldType::Path(path.clone()),
            FieldType::Optional(inner) => FieldType::Optional(Box::new(inner.copy())),
            FieldType::List(inner) => FieldType::List(Box::new(inner.copy())),
            FieldType::Boxed(inner) => FieldType::Boxed(Box::new(inner.copy())),
            FieldType::PlaceHolder(inner) => FieldType::PlaceHolder(Box::new(inner.copy())),
        }
    }

    /// The type of the holder of a value of this type.
    pub fn as_holder(&self) -> (r: FieldType)
        ensures
            r@ == self@.as_holder(),
        decreases *self,
    {
        match self {
            FieldType::Path(path) => FieldType::Path(path.as_holder()),
            FieldType::Optional(inner) => FieldType::Optional(Box::new(inner.as_holder())),
            FieldType::List(inner) => FieldType::List(Box::new(inner.as_holder())),
            FieldType::Boxed(inner) => FieldType::Boxed(Box::new(inner.as_holder())),
            FieldType::PlaceHolder(inner) => FieldType::PlaceHolder(Box::new(inner.as_holder())),
        }
    }

    /// The type with every path in it held by a place holder.
    pub fn as_place_holder(&self) -> (r: FieldType)
        ensures
            r@ == self@.as_place_holder(),
        decreases *self,
    {
        proof {
            reveal_with_fuel(view_field_type, 3);
        }
        match self {
            FieldType::Path(path) => FieldType::PlaceHolder(
                Box::new(FieldType::Path(path.clone())),
            ),
            FieldType::Optional(inner) => FieldType::Optional(Box::new(inner.as_place_holder())),
            FieldType::List(inner) => FieldType::List(Box::new(inner.as_place_holder())),
            FieldType::Boxed(inner) => FieldType::Boxed(Box::new(inner.as_place_holder())),
            FieldType::PlaceHolder(inner) => FieldType::PlaceHolder(Box::new(inner.copy())),
        }
    }

    /// The shape of the type.
    pub fn kind(&self) -> (r: FieldKind)
        ensures
            r == self@.kind(),
    {
        match self {
            FieldType::Path(_) => FieldKind::Path,
            FieldType::Optional(_) => FieldKind::Optional,
            FieldType::List(_) => FieldKind::List,
            FieldType::Boxed(_) => FieldKind::Boxed,
            FieldType::PlaceHolder(_) => FieldKind::Path,
        }
    }

    /// The type of the field of the holder for a field of this type.
    pub fn in_holder(&self, place_holder: bool) -> (r: FieldType)
        ensures
            r@ == self@.in_holder(place_holder),
    {
        if place_holder {
            self.as_holder().as_place_holder()
        } else {
            self.copy()
        }
    }
}

/// The shape of the type of a field: a path, or a path within `Option`,
/// `Vec` or `Box`.
#[derive(Debug, Clone, Copy, PartialEq, Eq, Structural)]
pub enum FieldKind {
    Path,
    Optional,
    List,
    Boxed,
}

/// How the field of a holder becomes the field of the value it stands for.
#[derive(Debug, Clone, Copy, PartialEq, Eq, Structural)]
pub enum IntoOwned {
    /// The field is taken as it is.
    Keep,
    /// The field is a holder: its value is looked up.
    Resolve,
    /// The field may be a holder: its value is looked up where there is one.
    ResolveOptional,
    /// The field is a list of holders: the value of each is looked up.
    ResolveList,
}

/// A field of a struct for which a holder is derived: whether it is held by
/// a place holder, and the shape of its type.
#[derive(Debug, Clone, Copy, PartialEq, Eq, Structural)]
pub struct Field {
    pub place_holder: bool,
    pub kind: FieldKind,
}

/// How a field becomes the field of the owned value. A boxed field cannot be
/// held by a place holder.
pub open spec fn plan(field: Field) -> Option<IntoOwned> {
    if !field.place_holder {
        Some(IntoOwned::Keep)
    } else {
        match field.kind {
            FieldKind::Path => Some(IntoOwned::Resolve),
            FieldKind::Optional => Some(IntoOwned::ResolveOptional),
            FieldKind::List => Some(IntoOwned::ResolveList),
            FieldKind::Boxed => None,
        }
    }
}

/// The plans of the first `n` fields, or the index of the first among them
/// that has none.
pub open spec fn plans(fields: Seq<Field>, n: int) -> Result<Seq<IntoOwned>, int>
    decreases n,
{
    if n <= 0 {
        Ok(Seq::empty())
    } else {
        match plans(fields, n - 1) {
            Ok(front) => match plan(fields[n - 1]) {
                Some(p) => Ok(front.push(p)),
                None => Err(n - 1),
            },
            Err(i) => Err(i),
        }
    }
}

/// Tells how a field becomes the field of the owned value.
pub fn field_plan(field: Field) -> (r: Option<IntoOwned>)
    ensures
        r == plan(field),
{
    if !field.place_holder {
        Some(IntoOwned::Keep)
    } else {
        match field.kind {
            FieldKind::Path => Some(IntoOwned::Resolve),
            FieldKind::Optional => Some(IntoOwned::ResolveOptional),
            FieldKind::List => Some(IntoOwned::ResolveList),
            FieldKind::Boxed => None,
        }
    }
}

/// An error among the first `n` fields is the error of all of them.
proof fn lemma_plans_prefix(fields: Seq<Field>, n: int, m: int)
    requires
        0 <= n <= m,
        plans(fields, n) is Err,
    ensures
        plans(fields, m) == plans(fields, n),
    decreases m - n,
{
    if n < m {
        lemma_plans_prefix(fields, n, m - 1);
    }
}

/// Tells for each field of a struct how it becomes the field of the owned
/// value, or gives the index of the first boxed field that a place holder
/// should hold.
pub fn field_plans(fields: &Vec<Field>) -> (r: Result<Vec<IntoOwned>, usize>)
    ensures
        match r {
            Ok(all) => plans(fields@, fields@.len() as int) == Ok::<Seq<IntoOwned>, int>(all@),
            Err(i) => plans(fields@, fields@.len() as int) == Err::<Seq<IntoOwned>, int>(i as int),
        },
{
    let mut all: Vec<IntoOwned> = Vec::new();
    let mut i: usize = 0;
    while i < fields.len()
        invariant
            i <= fields.len(),
            plans(fields@, i as int) == Ok::<Seq<IntoOwned>, int>(all@),
        decreases fields.len() - i,
    {
        match field_plan(fields[i]) {
            Some(p) => {
                all.push(p);
            },
            None => {
                proof {
                    lemma_plans_prefix(fields@, i + 1, fields@.len() as int);
                }
                return Err(i);
            },
        }
        i += 1;
    }
    Ok(all)
}

/// True when `text` is the decimal numeral of `n`: digits that denote `n`,
/// the first of them no zero unless it is the only one.
pub open spec fn is_numeral_of(text: Seq<char>, n: nat) -> bool {
    &&& text.len() > 0
    &&& all_digits(text)
    &&& digits_value(text) == n
    &&& text.len() > 1 ==> text[0] != '0'
}

/// The digit that denotes `d`.
pub fn digit_of(d: usize) -> (c: char)
    requires
        d < 10,
    ensures
        is_digit(c),
        c as nat - '0' as nat == d,
{
    if d == 0 {
        '0'
    } else if d == 1 {
        '1'
    } else if d == 2 {
        '2'
    } else if d == 3 {
        '3'
    } else if d == 4 {
        '4'
    } else if d == 5 {
        '5'
    } else if d == 6 {
        '6'
    } else if d == 7 {
        '7'
    } else if d == 8 {
        '8'
    } else {
        '9'
    }
}

/// The decimal numeral of `n`.
pub fn numeral(n: usize) -> (r: String)
    ensures
        is_numeral_of(r@, n as nat),
    decreases n,
{
    if n < 10 {
        let mut text = String::new();
        push_char(&mut text, digit_of(n));
        assert(text@.drop_last() =~= Seq::<char>::empty());
        assert(digits_value(text@.drop_last()) == 0);
        text
    } else {
        let mut text = numeral(n / 10);
        let ghost front = text@;
        push_char(&mut text, digit_of(n % 10));
        assert(text@.drop_last() =~= front);
        assert(text@[0] == front[0]);
        assert(front.len() == 1 ==> front.drop_last() =~= Seq::<char>::empty());
        assert(front.len() == 1 ==> digits_value(front.drop_last()) == 0);
        text
    }
}

/// The name of the variable that holds the attribute with index `i` while a
/// value is read: `a_` and the decimal numeral of `i`.
pub fn attribute_name(i: usize) -> (r: String)
    ensures
        r@.len() > 2,
        r@.subrange(0, 2) == "a_"@,
        is_numeral_of(r@.subrange(2, r@.len() as int), i as nat),
{
    proof {
        reveal_strlit("a_");
    }
    let digits = numeral(i);
    let name = String::from_str("a_").concat(digits.as_str());
    assert(name@.subrange(0, 2) =~= "a_"@);
    assert(name@.subrange(2, name@.len() as int) =~= digits@);
    name
}

/// The names of the variables that hold the attributes of a struct with `n`
/// attributes while a value is read.
pub fn attribute_names(n: usize) -> (r: Vec<String>)
    ensures
        r@.len() == n,
        forall|i: int|
            0 <= i < n ==> {
                let name = #[trigger] r@[i]@;
                name.len() > 2 && name.subrange(0, 2) == "a_"@ && is_numeral_of(
                    name.subrange(2, name.len() as int),
                    i as nat,
                )
            },
{
    let mut names: Vec<String> = Vec::new();
    let mut i: usize = 0;
    while i < n
        invariant
            i <= n,
            names@.len() == i,
            forall|k: int|
                0 <= k < i ==> {
                    let name = #[trigger] names@[k]@;
                    name.len() > 2 && name.subrange(0, 2) == "a_"@ && is_numeral_of(
                        name.subrange(2, name.len() as int),
                        k as nat,
                    )
                },
        decreases n - i,
    {
        names.push(attribute_name(i));
        i += 1;
    }
    names
}

} // verus!
