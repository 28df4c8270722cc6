//! The syntax that the parsers build, and its mathematical model.
//!
//! An extent is a pair of byte offsets `(start, end)` into the parsed text.
//! The executable types hold their lists in `Vec`s; their views are the
//! `*Model` types, which hold `Seq`s. Types without lists are their own view.

use vstd::prelude::*;

verus! {

/// A range of byte offsets `(start, end)` into the source.
pub type Extent = (usize, usize);

/// The model of an extent from two positions.
pub open spec fn span(start: int, end: int) -> Extent {
    (start as usize, end as usize)
}

/// The extent from `start` to `end`, which must not be empty.
pub fn ex(start: usize, end: usize) -> (r: Extent)
    requires
        start < end,
    ensures
        r == (start, end),
{
    (start, end)
}

#[derive(Debug)]
pub enum TopLevel {
    Comment(Extent),
    Function(Function),
    Enum(Enum),
    Trait(Trait),
    Impl(Impl),
    Attribute(Extent),
    ExternCrate(Crate),
    TypeAlias(TypeAlias),
    Whitespace(Extent),
}

#[derive(Debug)]
pub struct Function {
    pub extent: Extent,
    pub header: FunctionHeader,
    pub body: FunctionBody,
}

#[derive(Debug)]
pub struct FunctionHeader {
    pub extent: Extent,
    pub visibility: Option<Extent>,
    pub name: Extent,
    pub generics: Vec<Extent>,
    pub arguments: Vec<Argument>,
    pub return_type: Option<Extent>,
    pub wheres: Vec<Where>,
}

#[derive(Debug)]
pub struct Enum {
    pub extent: Extent,
    pub name: Extent,
    pub variants: Vec<EnumVariant>,
}

#[derive(Debug)]
pub struct EnumVariant {
    pub extent: Extent,
    pub name: Extent,
    pub body: Vec<Extent>,
}

#[derive(Debug, Clone, Copy)]
pub enum Argument {
    SelfArgument,
    Named { name: Extent, typ: Extent },
}

#[derive(Debug, Clone, Copy)]
pub struct Where {
    pub name: Extent,
    pub bounds: Extent,
}

#[derive(Debug)]
pub struct FunctionBody {
    pub extent: Extent,
    pub statements: Vec<Statement>,
    pub expression: Option<Expression>,
}

#[derive(Debug)]
pub struct Statement(pub Expression);

#[derive(Debug)]
pub struct Expression {
    pub extent: Extent,
    pub kind: ExpressionKind,
}

#[allow(inconsistent_fields)]
#[derive(Debug)]
pub enum ExpressionKind {
    MacroCall { name: Extent, args: Extent },
    Let { pattern: Extent, value: Option<Box<Expression>> },
    Value { extent: Extent },
    FunctionCall { name: Extent, args: Vec<Expression> },
    Loop { body: Box<FunctionBody> },
    True,
}

#[derive(Debug, Clone, Copy)]
pub struct Trait {
    pub extent: Extent,
    pub name: Extent,
}

#[derive(Debug)]
pub struct Impl {
    pub extent: Extent,
    pub trait_name: Extent,
    pub self_type: Extent,
    pub body: Vec<ImplFunction>,
}

#[derive(Debug)]
pub struct ImplFunction {
    pub extent: Extent,
    pub header: FunctionHeader,
    pub body: Option<FunctionBody>,
}

#[derive(Debug, Clone, Copy)]
pub struct Crate {
    pub extent: Extent,
    pub name: Extent,
}

#[derive(Debug, Clone, Copy)]
pub struct TypeAlias {
    pub extent: Extent,
    pub name: Extent,
    pub defn: Extent,
}

// ---------------------------------------------------------------------------
// The model
// ---------------------------------------------------------------------------

pub enum TopLevelModel {
    Comment(Extent),
    Function(FunctionModel),
    Enum(EnumModel),
    Trait(Trait),
    Impl(ImplModel),
    Attribute(Extent),
    ExternCrate(Crate),
    TypeAlias(TypeAlias),
    Whitespace(Extent),
}

pub struct FunctionModel {
    pub extent: Extent,
    pub header: FunctionHeaderModel,
    pub body: FunctionBodyModel,
}

pub struct FunctionHeaderModel {
    pub extent: Extent,
    pub visibility: Option<Extent>,
    pub name: Extent,
    pub generics: Seq<Extent>,
    pub arguments: Seq<Argument>,
    pub return_type: Option<Extent>,
    pub wheres: Seq<Where>,
}

pub struct EnumModel {
    pub extent: Extent,
    pub name: Extent,
    pub variants: Seq<EnumVariantModel>,
}

pub struct EnumVariantModel {
    pub extent: Extent,
    pub name: Extent,
    pub body: Seq<Extent>,
}

pub struct FunctionBodyModel {
    pub extent: Extent,
    pub statements: Seq<StatementModel>,
    pub expression: Option<ExpressionModel>,
}

pub struct StatementModel(pub ExpressionModel);

pub struct ExpressionModel {
    pub extent: Extent,
    pub kind: ExpressionKindModel,
}

#[allow(inconsistent_fields)]
pub enum ExpressionKindModel {
    MacroCall { name: Extent, args: Extent },
    Let { pattern: Extent, value: Option<Box<ExpressionModel>> },
    Value { extent: Extent },
    FunctionCall { name: Extent, args: Seq<ExpressionModel> },
    Loop { body: Box<FunctionBodyModel> },
    True,
}

pub struct ImplModel {
    pub extent: Extent,
    pub trait_name: Extent,
    pub self_type: Extent,
    pub body: Seq<ImplFunctionModel>,
}

pub struct ImplFunctionModel {
    pub extent: Extent,
    pub header: FunctionHeaderModel,
    pub body: Option<FunctionBodyModel>,
}

// ---------------------------------------------------------------------------
// Well-formed extents
// ---------------------------------------------------------------------------

/// A non-empty extent that ends within a text of `n` bytes.
pub open spec fn extent_ok(e: Extent, n: int) -> bool {
    e.0 < e.1 && e.1 <= n
}

pub open spec fn extents_ok(es: Seq<Extent>, n: int) -> bool {
    forall|i: int| 0 <= i < es.len() ==> extent_ok(#[trigger] es[i], n)
}

pub open spec fn argument_ok(a: Argument, n: int) -> bool {
    match a {
        Argument::SelfArgument => true,
        Argument::Named { name, typ } => extent_ok(name, n) && extent_ok(typ, n),
    }
}

pub open spec fn arguments_ok(args: Seq<Argument>, n: int) -> bool {
    forall|i: int| 0 <= i < args.len() ==> argument_ok(#[trigger] args[i], n)
}

pub open spec fn where_ok(w: Where, n: int) -> bool {
    extent_ok(w.name, n) && extent_ok(w.bounds, n)
}

pub open spec fn wheres_ok(ws: Seq<Where>, n: int) -> bool {
    forall|i: int| 0 <= i < ws.len() ==> where_ok(#[trigger] ws[i], n)
}

pub open spec fn optional_extent_ok(e: Option<Extent>, n: int) -> bool {
    match e {
        Some(e) => extent_ok(e, n),
        None => true,
    }
}

pub open spec fn header_ok(h: FunctionHeaderModel, n: int) -> bool {
    &&& extent_ok(h.extent, n)
    &&& optional_extent_ok(h.visibility, n)
    &&& extent_ok(h.name, n)
    &&& extents_ok(h.generics, n)
    &&& arguments_ok(h.arguments, n)
    &&& optional_extent_ok(h.return_type, n)
    &&& wheres_ok(h.wheres, n)
}

/// The extents of an expression kind are well formed; the arguments of a
/// macro call may be empty.
pub open spec fn kind_ok(k: ExpressionKindModel, n: int) -> bool
    decreases k,
{
    match k {
        ExpressionKindModel::MacroCall { name, args } => extent_ok(name, n) && args.0 <= args.1 <= n,
        ExpressionKindModel::Let { pattern, value } => extent_ok(pattern, n) && match value {
            Some(v) => expression_ok(*v, n),
            None => true,
        },
        ExpressionKindModel::Value { extent } => extent_ok(extent, n),
        ExpressionKindModel::FunctionCall { name, args } => extent_ok(name, n) && forall|i: int|
            0 <= i < args.len() ==> expression_ok(#[trigger] args[i], n),
        ExpressionKindModel::Loop { body } => body_ok(*body, n),
        ExpressionKindModel::True => true,
    }
}

pub open spec fn expression_ok(e: ExpressionModel, n: int) -> bool
    decreases e,
{
    extent_ok(e.extent, n) && kind_ok(e.kind, n)
}

pub open spec fn body_ok(b: FunctionBodyModel, n: int) -> bool
    decreases b,
{
    &&& extent_ok(b.extent, n)
    &&& forall|i: int| 0 <= i < b.statements.len() ==> expression_ok(#[trigger] b.statements[i].0, n)
    &&& match b.expression {
        Some(e) => expression_ok(e, n),
        None => true,
    }
}

pub open spec fn variant_ok(v: EnumVariantModel, n: int) -> bool {
    extent_ok(v.extent, n) && extent_ok(v.name, n) && extents_ok(v.body, n)
}

pub open spec fn enum_ok(e: EnumModel, n: int) -> bool {
    &&& extent_ok(e.extent, n)
    &&& extent_ok(e.name, n)
    &&& forall|i: int| 0 <= i < e.variants.len() ==> variant_ok(#[trigger] e.variants[i], n)
}

pub open spec fn impl_function_ok(f: ImplFunctionModel, n: int) -> bool {
    &&& extent_ok(f.extent, n)
    &&& header_ok(f.header, n)
    &&& match f.body {
        Some(b) => body_ok(b, n),
        None => true,
    }
}

pub open spec fn impl_ok(i: ImplModel, n: int) -> bool {
    &&& extent_ok(i.extent, n)
    &&& extent_ok(i.trait_name, n)
    &&& extent_ok(i.self_type, n)
    &&& forall|j: int| 0 <= j < i.body.len() ==> impl_function_ok(#[trigger] i.body[j], n)
}

/// Every extent of a top-level item is non-empty and ends within a text of
/// `n` bytes, except the arguments of a macro call, which may be empty.
pub open spec fn item_ok(t: TopLevelModel, n: int) -> bool {
    match t {
        TopLevelModel::Comment(e) => extent_ok(e, n),
        TopLevelModel::Function(f) => extent_ok(f.extent, n) && header_ok(f.header, n) && body_ok(f.body, n),
        TopLevelModel::Enum(e) => enum_ok(e, n),
        TopLevelModel::Trait(t) => extent_ok(t.extent, n) && extent_ok(t.name, n),
        TopLevelModel::Impl(i) => impl_ok(i, n),
        TopLevelModel::Attribute(e) => extent_ok(e, n),
        TopLevelModel::ExternCrate(c) => extent_ok(c.extent, n) && extent_ok(c.name, n),
        TopLevelModel::TypeAlias(t) => extent_ok(t.extent, n) && extent_ok(t.name, n) && extent_ok(t.defn, n),
        TopLevelModel::Whitespace(e) => extent_ok(e, n),
    }
}

/// An extent that lies within `[lo, hi]`.
pub open spec fn extent_within(e: Extent, lo: int, hi: int) -> bool {
    lo <= e.0 && e.1 <= hi
}

pub open spec fn extents_within(es: Seq<Extent>, lo: int, hi: int) -> bool {
    forall|i: int| 0 <= i < es.len() ==> extent_within(#[trigger] es[i], lo, hi)
}

pub open spec fn argument_within(a: Argument, lo: int, hi: int) -> bool {
    match a {
        Argument::SelfArgument => true,
        Argument::Named { name, typ } => extent_within(name, lo, hi) && extent_within(typ, lo, hi),
    }
}

pub open spec fn arguments_within(args: Seq<Argument>, lo: int, hi: int) -> bool {
    forall|i: int| 0 <= i < args.len() ==> argument_within(#[trigger] args[i], lo, hi)
}

pub open spec fn where_within(w: Where, lo: int, hi: int) -> bool {
    extent_within(w.name, lo, hi) && extent_within(w.bounds, lo, hi)
}

pub open spec fn wheres_within(ws: Seq<Where>, lo: int, hi: int) -> bool {
    forall|i: int| 0 <= i < ws.len() ==> where_within(#[trigger] ws[i], lo, hi)
}

/// The parts of a function header that ends at `hi`, parsed from `lo`: its
/// name lies past `lo`, and its name, generic parameters, arguments, return
/// type and `where` bounds all lie within `[lo, hi]`.
pub open spec fn header_parts_within(h: FunctionHeaderModel, lo: int, hi: int) -> bool {
    &&& lo < h.name.0 < h.name.1 <= hi
    &&& extents_within(h.generics, lo, hi)
    &&& arguments_within(h.arguments, lo, hi)
    &&& match h.return_type {
        Some(t) => extent_within(t, lo, hi),
        None => true,
    }
    &&& wheres_within(h.wheres, lo, hi)
}

// ---------------------------------------------------------------------------
// Views
// ---------------------------------------------------------------------------

/// The model of an expression.
pub open spec fn expression_model(e: Expression) -> ExpressionModel
    decreases e,
{
    ExpressionModel {
        extent: e.extent,
        kind: match e.kind {
            ExpressionKind::MacroCall { name, args } => ExpressionKindModel::MacroCall { name, args },
            ExpressionKind::Let { pattern, value } => ExpressionKindModel::Let {
                pattern,
                value: match value {
                    Some(v) => Some(Box::new(expression_model(*v))),
                    None => None,
                },
            },
            ExpressionKind::Value { extent } => ExpressionKindModel::Value { extent },
            ExpressionKind::FunctionCall { name, args } => ExpressionKindModel::FunctionCall {
                name,
                args: Seq::new(
                    args@.len(),
                    |i: int|
                        if 0 <= i < args@.len() {
                            expression_model(args@[i])
                        } else {
                            arbitrary()
                        },
                ),
            },
            ExpressionKind::Loop { body } => ExpressionKindModel::Loop {
                body: Box::new(body_model(*body)),
            },
            ExpressionKind::True => ExpressionKindModel::True,
        },
    }
}

/// The model of a function body.
pub open spec fn body_model(b: FunctionBody) -> FunctionBodyModel
    decreases b,
{
    FunctionBodyModel {
        extent: b.extent,
        statements: Seq::new(
            b.statements@.len(),
            |i: int|
                if 0 <= i < b.statements@.len() {
                    StatementModel(expression_model(b.statements@[i].0))
                } else {
                    arbitrary()
                },
        ),
        expression: match b.expression {
            Some(e) => Some(expression_model(e)),
            None => None,
        },
    }
}

/// The models of a sequence of values.
pub open spec fn models<T: View>(v: Seq<T>) -> Seq<T::V> {
    v.map_values(|x: T| x@)
}

pub proof fn lemma_models_push<T: View>(v: Seq<T>, x: T)
    ensures
        models(v.push(x)) == models(v).push(x@),
{
    assert(models(v.push(x)) =~= models(v).push(x@));
}

pub proof fn lemma_models_empty<T: View>()
    ensures
        models(Seq::<T>::empty()) == Seq::<T::V>::empty(),
{
    assert(models(Seq::<T>::empty()) =~= Seq::<T::V>::empty());
}

/// An expression's model is its extent and the model of its kind.
pub proof fn lemma_expression_view(e: Expression)
    ensures
        e@ == (ExpressionModel { extent: e.extent, kind: e.kind@ }),
{
}

/// The model of a call holds the models of its arguments.
pub proof fn lemma_call_view(name: Extent, args: Vec<Expression>)
    ensures
        (ExpressionKind::FunctionCall { name, args })@ == (ExpressionKindModel::FunctionCall {
            name,
            args: models(args@),
        }),
{
    let k = ExpressionKind::FunctionCall { name, args };
    assert(k@->FunctionCall_args =~= models(args@));
}

/// The model of a body holds the models of its statements.
pub proof fn lemma_body_view(b: FunctionBody)
    ensures
        b@ == (FunctionBodyModel {
            extent: b.extent,
            statements: models(b.statements@),
            expression: match b.expression {
                Some(e) => Some(e@),
                None => None,
            },
        }),
{
    assert(b@.statements =~= models(b.statements@));
}

/// The model of a `loop` holds the model of its body.
pub proof fn lemma_loop_view(b: FunctionBody)
    ensures
        (ExpressionKind::Loop { body: Box::new(b) })@ == (ExpressionKindModel::Loop { body: Box::new(b@) }),
{
}

impl View for Expression {
    type V = ExpressionModel;

    open spec fn view(&self) -> ExpressionModel {
        expression_model(*self)
    }
}

impl View for ExpressionKind {
    type V = ExpressionKindModel;

    open spec fn view(&self) -> ExpressionKindModel {
        expression_model(Expression { extent: (0, 0), kind: *self }).kind
    }
}

impl View for Statement {
    type V = StatementModel;

    open spec fn view(&self) -> StatementModel {
        StatementModel(self.0@)
    }
}

impl View for FunctionBody {
    type V = FunctionBodyModel;

    open spec fn view(&self) -> FunctionBodyModel {
        body_model(*self)
    }
}

impl View for FunctionHeader {
    type V = FunctionHeaderModel;

    open spec fn view(&self) -> FunctionHeaderModel {
        FunctionHeaderModel {
            extent: self.extent,
            visibility: self.visibility,
            name: self.name,
            generics: self.generics@,
            arguments: self.arguments@,
            return_type: self.return_type,
            wheres: self.wheres@,
        }
    }
}

impl View for Function {
    type V = FunctionModel;

    open spec fn view(&self) -> FunctionModel {
        FunctionModel { extent: self.extent, header: self.header@, body: self.body@ }
    }
}

impl View for EnumVariant {
    type V = EnumVariantModel;

    open spec fn view(&self) -> EnumVariantModel {
        EnumVariantModel { extent: self.extent, name: self.name, body: self.body@ }
    }
}

impl View for Enum {
    type V = EnumModel;

    open spec fn view(&self) -> EnumModel {
        EnumModel { extent: self.extent, name: self.name, variants: models(self.variants@) }
    }
}

impl View for ImplFunction {
    type V = ImplFunctionModel;

    open spec fn view(&self) -> ImplFunctionModel {
        ImplFunctionModel {
            extent: self.extent,
            header: self.header@,
            body: match self.body {
                Some(b) => Some(b@),
                None => None,
            },
        }
    }
}

impl View for Impl {
    type V = ImplModel;

    open spec fn view(&self) -> ImplModel {
        ImplModel {
            extent: self.extent,
            trait_name: self.trait_name,
            self_type: self.self_type,
            body: models(self.body@),
        }
    }
}

impl View for Argument {
    type V = Argument;

    open spec fn view(&self) -> Argument {
        *self
    }
}

impl View for Where {
    type V = Where;

    open spec fn view(&self) -> Where {
        *self
    }
}

impl View for Trait {
    type V = Trait;

    open spec fn view(&self) -> Trait {
        *self
    }
}

impl View for Crate {
    type V = Crate;

    open spec fn view(&self) -> Crate {
        *self
    }
}

impl View for TypeAlias {
    type V = TypeAlias;

    open spec fn view(&self) -> TypeAlias {
        *self
    }
}

impl View for TopLevel {
    type V = TopLevelModel;

    open spec fn view(&self) -> TopLevelModel {
        match self {
            TopLevel::Comment(e) => TopLevelModel::Comment(*e),
            TopLevel::Function(f) => TopLevelModel::Function(f@),
            TopLevel::Enum(e) => TopLevelModel::Enum(e@),
            TopLevel::Trait(t) => TopLevelModel::Trait(*t),
            TopLevel::Impl(i) => TopLevelModel::Impl(i@),
            TopLevel::Attribute(e) => TopLevelModel::Attribute(*e),
            TopLevel::ExternCrate(c) => TopLevelModel::ExternCrate(*c),
            TopLevel::TypeAlias(t) => TopLevelModel::TypeAlias(*t),
            TopLevel::Whitespace(e) => TopLevelModel::Whitespace(*e),
        }
    }
}

} // verus!
