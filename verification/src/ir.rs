//! The intermediate representation the phases operate on.
//!
//! A compilation job holds a root view and its embedded views; each view holds a
//! list of creation operations and a list of update operations. Operations hold
//! IR expressions. Every expression has a mathematical view ([`Expr`]) in which
//! the child lists are sequences, so that the phases that rewrite expressions
//! can state their result exactly.

use vstd::prelude::*;

verus! {

/// Cross-reference id of an IR entity (element, view, pipe, ...).
#[derive(Clone, Copy, Debug, PartialEq, Eq, Structural)]
pub struct XrefId(pub u32);

/// A slot index in the runtime's data array.
#[derive(Clone, Copy, Debug, PartialEq, Eq, Structural)]
pub struct SlotId(pub u32);

/// Kinds of bindings.
#[derive(Clone, Copy, Debug, PartialEq, Eq, Structural)]
pub enum BindingKind {
    Attribute,
    ClassName,
    StyleProperty,
    Property,
    Template,
    I18n,
    LegacyAnimation,
    TwoWayProperty,
    Animation,
}

/// Security contexts attached to extracted attributes.
#[derive(Clone, Copy, Debug, PartialEq, Eq, Structural)]
pub enum SecurityContext {
    NoContext,
    Html,
    Style,
    Script,
    Url,
    ResourceUrl,
}

/// Kinds of templates.
#[derive(Clone, Copy, Debug, PartialEq, Eq, Structural)]
pub enum TemplateKind {
    NgTemplate,
    StructuralDirective,
    Block,
}

/// Literal values.
#[derive(Clone, Debug, PartialEq, Eq)]
pub enum LiteralValue {
    String(String),
    /// A number; the numbers the phases create are whole.
    Number(i64),
    Boolean(bool),
    Null,
    Undefined,
}

/// Expressions of the parsed template syntax that the IR has not converted.
#[derive(Debug, PartialEq)]
pub enum AngularExpression {
    LiteralPrimitive(LiteralValue),
    ImplicitReceiver,
    PropertyRead { receiver: Box<AngularExpression>, name: String },
    Interpolation { strings: Vec<String>, expressions: Vec<AngularExpression> },
}

/// Output (JavaScript) expressions.
#[derive(Debug, PartialEq)]
pub enum OutputExpression {
    Literal(LiteralValue),
    ReadVar(String),
    WrappedIrNode(Box<IrExpression>),
    BinaryOperator { lhs: Box<OutputExpression>, rhs: Box<OutputExpression> },
    Conditional {
        condition: Box<OutputExpression>,
        true_case: Box<OutputExpression>,
        false_case: Option<Box<OutputExpression>>,
    },
    InvokeFunction { fn_expr: Box<OutputExpression>, args: Vec<OutputExpression> },
    LiteralArray(Vec<OutputExpression>),
}

/// Output (JavaScript) statements.
#[derive(Debug, PartialEq)]
pub enum OutputStatement {
    DeclareVar { name: String, value: Option<OutputExpression> },
    Expression(OutputExpression),
    Return(OutputExpression),
    If { condition: OutputExpression, true_case: Vec<OutputStatement>, false_case: Vec<OutputStatement> },
}

/// Binary operators.
#[derive(Clone, Copy, Debug, PartialEq, Eq, Structural)]
pub enum BinaryOperator {
    Equals,
    NotEquals,
    Identical,
    NotIdentical,
    Minus,
    Plus,
    Divide,
    Multiply,
    Modulo,
    And,
    Or,
    BitwiseOr,
    BitwiseAnd,
    Lower,
    LowerEquals,
    Bigger,
    BiggerEquals,
    NullishCoalesce,
    Exponentiation,
    In,
    Assign,
}

/// Expressions of the template IR.
#[derive(Debug, PartialEq)]
pub enum IrExpression {
    /// A read of a name from the lexical scope.
    LexicalRead(String),
    /// A read of an IR variable.
    ReadVariable(XrefId),
    /// The current context.
    Context,
    /// The empty expression.
    Empty,
    /// A call whose receiver has been resolved.
    ResolvedCall { receiver: Box<IrExpression>, args: Vec<IrExpression> },
    /// A property read on a resolved receiver.
    ResolvedPropertyRead { receiver: Box<IrExpression>, name: String },
    /// A binary expression.
    Binary { operator: BinaryOperator, lhs: Box<IrExpression>, rhs: Box<IrExpression> },
    /// A conditional expression.
    Ternary { condition: Box<IrExpression>, true_expr: Box<IrExpression>, false_expr: Box<IrExpression> },
    /// A negation.
    Not(Box<IrExpression>),
    /// An interpolation `s0 {{e0}} s1 ... sn`, with the i18n placeholder names
    /// of its expressions (where it has them).
    Interpolation { strings: Vec<String>, expressions: Vec<IrExpression>, i18n_placeholders: Vec<String> },
    /// An expression of the parsed template syntax.
    Ast(Box<AngularExpression>),
    /// An output expression.
    OutputExpr(Box<OutputExpression>),
    /// A pipe application with its arguments.
    PipeBinding {
        target: XrefId,
        target_slot: Option<SlotId>,
        name: String,
        args: Vec<IrExpression>,
        var_offset: Option<u32>,
    },
    /// A pipe application with its arguments packed into one array.
    PipeBindingVariadic {
        target: XrefId,
        target_slot: Option<SlotId>,
        name: String,
        args: Box<IrExpression>,
        num_args: u32,
        var_offset: Option<u32>,
    },
    /// An array literal whose entries are derived from IR expressions.
    DerivedLiteralArray { entries: Vec<IrExpression>, spreads: Vec<bool> },
    /// An expression to be hoisted into the constant pool.
    ConstCollected(Box<IrExpression>),
    /// A reference to an entry of the constant pool.
    ConstReference(u32),
    /// A store to a `@let` declaration.
    StoreLet { target: XrefId, value: Box<IrExpression> },
    /// A literal slot index, maybe tied to the slot of an element.
    SlotLiteral { target_xref: Option<XrefId>, slot: Option<SlotId> },
    /// An array literal.
    LiteralArray(Vec<IrExpression>),
    /// Steps up the runtime's context stack by the given number of views.
    NextContext(u32),
    /// The current view, saved for a listener to restore.
    GetCurrentView,
    /// A local reference: the entity at an offset from the slot of its target.
    Reference { target: XrefId, target_slot: Option<SlotId>, offset: u32 },
    /// A `@let` value read from an enclosing view.
    ContextLetReference { target: XrefId, target_slot: Option<SlotId> },
}

/// The mathematical view of an IR expression: child lists become sequences.
pub enum Expr {
    LexicalRead(String),
    ReadVariable(XrefId),
    Context,
    Empty,
    ResolvedCall { receiver: Box<Expr>, args: Seq<Expr> },
    ResolvedPropertyRead { receiver: Box<Expr>, name: String },
    Binary { operator: BinaryOperator, lhs: Box<Expr>, rhs: Box<Expr> },
    Ternary { condition: Box<Expr>, true_expr: Box<Expr>, false_expr: Box<Expr> },
    Not(Box<Expr>),
    Interpolation { strings: Seq<String>, expressions: Seq<Expr>, i18n_placeholders: Seq<String> },
    Ast(AngularExpression),
    OutputExpr(OutputExpression),
    PipeBinding { target: XrefId, target_slot: Option<SlotId>, name: String, args: Seq<Expr>, var_offset: Option<u32> },
    PipeBindingVariadic {
        target: XrefId,
        target_slot: Option<SlotId>,
        name: String,
        args: Box<Expr>,
        num_args: u32,
        var_offset: Option<u32>,
    },
    DerivedLiteralArray { entries: Seq<Expr>, spreads: Seq<bool> },
    ConstCollected(Box<Expr>),
    ConstReference(u32),
    StoreLet { target: XrefId, value: Box<Expr> },
    SlotLiteral { target_xref: Option<XrefId>, slot: Option<SlotId> },
    LiteralArray(Seq<Expr>),
    NextContext(u32),
    GetCurrentView,
    Reference { target: XrefId, target_slot: Option<SlotId>, offset: u32 },
    ContextLetReference { target: XrefId, target_slot: Option<SlotId> },
}

/// The view of an expression.
pub open spec fn ev(e: IrExpression) -> Expr
    decreases e, 1nat,
{
    match e {
        IrExpression::LexicalRead(s) => Expr::LexicalRead(s),
        IrExpression::ReadVariable(x) => Expr::ReadVariable(x),
        IrExpression::Context => Expr::Context,
        IrExpression::Empty => Expr::Empty,
        IrExpression::ResolvedCall { receiver, args } => Expr::ResolvedCall {
            receiver: Box::new(ev(*receiver)),
            args: ev_list(args@),
        },
        IrExpression::ResolvedPropertyRead { receiver, name } => Expr::ResolvedPropertyRead {
            receiver: Box::new(ev(*receiver)),
            name,
        },
        IrExpression::Binary { operator, lhs, rhs } => Expr::Binary { operator, lhs: Box::new(ev(*lhs)), rhs: Box::new(ev(*rhs)) },
        IrExpression::Ternary { condition, true_expr, false_expr } => Expr::Ternary {
            condition: Box::new(ev(*condition)),
            true_expr: Box::new(ev(*true_expr)),
            false_expr: Box::new(ev(*false_expr)),
        },
        IrExpression::Not(x) => Expr::Not(Box::new(ev(*x))),
        IrExpression::Interpolation { strings, expressions, i18n_placeholders } => Expr::Interpolation {
            strings: strings@,
            expressions: ev_list(expressions@),
            i18n_placeholders: i18n_placeholders@,
        },
        IrExpression::Ast(a) => Expr::Ast(*a),
        IrExpression::OutputExpr(o) => Expr::OutputExpr(*o),
        IrExpression::PipeBinding { target, target_slot, name, args, var_offset } => Expr::PipeBinding {
            target,
            target_slot,
            name,
            args: ev_list(args@),
            var_offset,
        },
        IrExpression::PipeBindingVariadic { target, target_slot, name, args, num_args, var_offset } =>
            Expr::PipeBindingVariadic { target, target_slot, name, args: Box::new(ev(*args)), num_args, var_offset },
        IrExpression::DerivedLiteralArray { entries, spreads } => Expr::DerivedLiteralArray {
            entries: ev_list(entries@),
            spreads: spreads@,
        },
        IrExpression::ConstCollected(x) => Expr::ConstCollected(Box::new(ev(*x))),
        IrExpression::ConstReference(i) => Expr::ConstReference(i),
        IrExpression::StoreLet { target, value } => Expr::StoreLet { target, value: Box::new(ev(*value)) },
        IrExpression::SlotLiteral { target_xref, slot } => Expr::SlotLiteral { target_xref, slot },
        IrExpression::LiteralArray(v) => Expr::LiteralArray(ev_list(v@)),
        IrExpression::NextContext(n) => Expr::NextContext(n),
        IrExpression::GetCurrentView => Expr::GetCurrentView,
        IrExpression::Reference { target, target_slot, offset } => Expr::Reference { target, target_slot, offset },
        IrExpression::ContextLetReference { target, target_slot } => Expr::ContextLetReference { target, target_slot },
    }
}

/// The view of a list of expressions.
pub open spec fn ev_list(s: Seq<IrExpression>) -> Seq<Expr>
    decreases s, 0nat,
{
    if s.len() == 0 {
        seq![]
    } else {
        ev_list(s.drop_last()).push(ev(s.last()))
    }
}

impl View for IrExpression {
    type V = Expr;

    open spec fn view(&self) -> Expr {
        ev(*self)
    }
}

/// The view of a list of expressions is taken element by element.
pub proof fn lemma_ev_list(s: Seq<IrExpression>)
    ensures
        ev_list(s).len() == s.len(),
        forall|i: int| 0 <= i < s.len() ==> #[trigger] ev_list(s)[i] == ev(s[i]),
    decreases s.len(),
{
    if s.len() > 0 {
        lemma_ev_list(s.drop_last());
        assert forall|i: int| 0 <= i < s.len() implies #[trigger] ev_list(s)[i] == ev(s[i]) by {
            if i < s.len() - 1 {
                assert(s.drop_last()[i] == s[i]);
            }
        }
    }
}

/// Operation kinds.
#[derive(Clone, Copy, Debug, PartialEq, Eq, Structural)]
pub enum OpKind {
    Listener,
    TwoWayListener,
    AnimationListener,
    Animation,
    AnimationString,
    ElementStart,
    Element,
    ElementEnd,
    Template,
    ContainerStart,
    Container,
    ContainerEnd,
    Text,
    Pipe,
    Projection,
    ConditionalCreate,
    ConditionalBranchCreate,
    RepeaterCreate,
    Defer,
    DeclareLet,
    I18nStart,
    I18n,
    I18nEnd,
    IcuStart,
    IcuEnd,
    IcuPlaceholder,
    I18nAttributes,
    SourceLocation,
    ExtractedAttribute,
    I18nContext,
    Property,
    TwoWayProperty,
    DomProperty,
    Attribute,
    StyleProp,
    ClassProp,
    StyleMap,
    ClassMap,
    Control,
    Binding,
    InterpolateText,
    I18nExpression,
    AnimationBinding,
    Repeater,
    Conditional,
    StoreLet,
    DeferWhen,
    Variable,
    Statement,
    Advance,
    ListEnd,
    I18nApply,
}

/// An update operation that binds an expression to a target.
#[derive(Debug, PartialEq)]
pub struct UpdateBindingOp {
    /// The element (or other entity) the binding applies to.
    pub target: XrefId,
    /// The kind of binding the operation comes from. For an animation binding,
    /// `Attribute` marks a string-valued binding (`animate.x="..."`) and
    /// `Animation` a value binding.
    pub kind: BindingKind,
    /// The bound name.
    pub name: String,
    /// A unit suffix (such as `px`).
    pub unit: Option<String>,
    /// The bound expression.
    pub expression: IrExpression,
    /// The security context of the bound value.
    pub security_context: SecurityContext,
    /// Whether the binding comes from a static attribute of the template.
    pub is_text_attribute: bool,
    /// Whether the binding is an attribute of a structural template.
    pub is_structural_template_attribute: bool,
    /// The attribute's namespace, if any.
    pub namespace: Option<String>,
    /// The i18n message of the binding, if it is translated.
    pub i18n_message: Option<u32>,
    /// The i18n context of the binding, if any.
    pub i18n_context: Option<XrefId>,
}

/// Kinds of semantic variables.
#[derive(Clone, Copy, Debug, PartialEq, Eq, Structural)]
pub enum SemanticVariableKind {
    /// The context of a view.
    Context,
    /// A named value (a local reference, a context property, a `@let` value).
    Identifier,
    /// An alias computed from other variables.
    Alias,
    /// The view saved for a listener to restore.
    SavedView,
}

/// An update operation declaring a variable.
#[derive(Debug, PartialEq)]
pub struct UpdateVariableOp {
    pub xref: XrefId,
    pub kind: SemanticVariableKind,
    pub name: String,
    pub initializer: IrExpression,
    /// Whether the variable belongs to its view alone.
    pub local: bool,
}

/// An operation that moves the runtime's slot pointer forward.
#[derive(Clone, Copy, Debug, PartialEq, Eq, Structural)]
pub struct AdvanceOp {
    pub delta: u32,
    pub slot: SlotId,
}

/// Update operations.
#[derive(Debug, PartialEq)]
pub enum UpdateOp {
    Property(UpdateBindingOp),
    TwoWayProperty(UpdateBindingOp),
    DomProperty(UpdateBindingOp),
    Attribute(UpdateBindingOp),
    StyleProp(UpdateBindingOp),
    ClassProp(UpdateBindingOp),
    StyleMap(UpdateBindingOp),
    ClassMap(UpdateBindingOp),
    Control(UpdateBindingOp),
    Binding(UpdateBindingOp),
    InterpolateText(UpdateBindingOp),
    I18nExpression(I18nExpressionOp),
    AnimationBinding(UpdateBindingOp),
    Repeater(UpdateBindingOp),
    Conditional(UpdateBindingOp),
    StoreLet(UpdateBindingOp),
    /// The target of a `DeferWhen` is the defer block.
    DeferWhen(UpdateBindingOp),
    Variable(UpdateVariableOp),
    Statement(OutputStatement),
    Advance(AdvanceOp),
    ListEnd,
    I18nApply(I18nApplyOp),
}

/// Applies the expressions of an i18n block.
#[derive(Clone, Copy, Debug, PartialEq, Eq, Structural)]
pub struct I18nApplyOp {
    /// The i18n block whose expressions are applied.
    pub i18n_owner: XrefId,
    /// The slot of that block.
    pub handle: SlotId,
}

/// The kinds of animations.
#[derive(Clone, Copy, Debug, PartialEq, Eq, Structural)]
pub enum AnimationKind {
    Enter,
    Leave,
}

/// A listener (or animation) creation operation.
#[derive(Debug, PartialEq)]
pub struct ListenerOp {
    pub target: XrefId,
    /// The slot of the target, once slots are allocated.
    pub target_slot: Option<SlotId>,
    pub name: String,
    pub host_listener: bool,
    pub is_animation_listener: bool,
    /// The phase of a legacy animation listener (`start` or `done`).
    pub legacy_animation_phase: Option<String>,
    pub handler_expression: Option<IrExpression>,
    /// The operations of the handler function, where it has a body of
    /// operations (`None` where the handler is only its expression).
    pub handler_ops: Option<Vec<UpdateOp>>,
    /// For an enter or leave animation, which of the two it is.
    pub animation_kind: Option<AnimationKind>,
}

/// A local reference (`#name` or `#name="target"`) declared on an element or template.
#[derive(Debug, PartialEq)]
pub struct LocalRef {
    pub name: String,
    /// The directive the reference points to (empty for the element itself).
    pub target: String,
}

/// A creation operation that occupies a slot.
#[derive(Debug, PartialEq)]
pub struct SlotOp {
    pub xref: XrefId,
    pub slot: Option<SlotId>,
    /// The tag name (for a `@let` declaration, the declared name).
    pub name: String,
    /// The local references declared on it.
    pub local_refs: Vec<LocalRef>,
    /// The constant-pool entry that holds its local references, once lifted.
    pub local_refs_index: Option<u32>,
    /// Whether its content is excluded from binding (`ngNonBindable`).
    pub non_bindable: bool,
    /// The offset in the template source where it starts, if known.
    pub source_start: Option<u32>,
    /// The constant-pool entry that holds its static attributes, once collected.
    pub attributes: Option<u32>,
}

/// A content projection.
#[derive(Debug, PartialEq)]
pub struct ProjectionOp {
    pub xref: XrefId,
    pub slot: Option<SlotId>,
    /// The view of the fallback content, if any.
    pub fallback: Option<XrefId>,
    /// Whether the fallback content is a placeholder of an i18n message.
    pub fallback_has_i18n_placeholder: bool,
    /// Its static attributes as a literal array, once collected.
    pub attributes: Option<OutputExpression>,
}

/// A `@defer` block.
#[derive(Debug, PartialEq)]
pub struct DeferOp {
    pub xref: XrefId,
    pub slot: Option<SlotId>,
    /// The templates of the main, loading, placeholder and error content.
    pub main_view: Option<XrefId>,
    pub loading_view: Option<XrefId>,
    pub placeholder_view: Option<XrefId>,
    pub error_view: Option<XrefId>,
    /// The slots of those templates, once slots are allocated.
    pub main_slot: Option<SlotId>,
    pub loading_slot: Option<SlotId>,
    pub placeholder_slot: Option<SlotId>,
    pub error_slot: Option<SlotId>,
    /// The minimum time the placeholder shows, if set.
    pub placeholder_minimum_time: Option<u32>,
    /// The minimum time the loading content shows, if set.
    pub loading_minimum_time: Option<u32>,
    /// The time after which the loading content shows, if set.
    pub loading_after_time: Option<u32>,
    /// The timing configuration of the placeholder, once configured.
    pub placeholder_config: Option<IrExpression>,
    /// The timing configuration of the loading content, once configured.
    pub loading_config: Option<IrExpression>,
}

/// A pipe creation operation.
#[derive(Debug, PartialEq)]
pub struct PipeOp {
    pub xref: XrefId,
    pub slot: Option<SlotId>,
    pub name: String,
    /// The number of arguments the pipe is applied to (its input included).
    pub num_args: u32,
}

/// A template creation operation.
#[derive(Debug, PartialEq)]
pub struct TemplateOp {
    pub xref: XrefId,
    pub slot: Option<SlotId>,
    /// The view it declares (for a repeater, the view of the repeated body).
    pub embedded_view: XrefId,
    pub template_kind: TemplateKind,
    pub has_i18n_placeholder: bool,
    /// The local references declared on it.
    pub local_refs: Vec<LocalRef>,
    /// The constant-pool entry that holds its local references, once lifted.
    pub local_refs_index: Option<u32>,
    /// For a repeater, the view shown when the collection is empty.
    pub empty_view: Option<XrefId>,
    /// Whether that view is a placeholder of an i18n message.
    pub empty_has_i18n_placeholder: bool,
    /// The number of slots the declared view uses, once known.
    pub decls: Option<u32>,
    /// The number of slots the empty view uses, once known.
    pub empty_decls: Option<u32>,
    /// The constant-pool entry that holds the static attributes of the
    /// declared view (for a repeater, of its body), once collected.
    pub attributes: Option<u32>,
    /// For a repeater, the constant-pool entry of the empty view's static attributes.
    pub empty_attributes: Option<u32>,
}

/// A text node creation operation.
#[derive(Debug, PartialEq)]
pub struct TextOp {
    pub xref: XrefId,
    pub slot: Option<SlotId>,
    pub initial_value: String,
    pub icu_placeholder: Option<String>,
}

/// The start of an i18n block.
#[derive(Debug, PartialEq)]
pub struct I18nStartOp {
    pub xref: XrefId,
    pub slot: Option<SlotId>,
    pub context: Option<XrefId>,
    pub root: Option<XrefId>,
    pub message: Option<u32>,
    pub sub_template_index: Option<u32>,
}

/// A placeholder for a text node inside an ICU expression.
#[derive(Debug, PartialEq)]
pub struct IcuPlaceholderOp {
    pub xref: XrefId,
    /// The placeholder's name.
    pub name: String,
    /// The static strings around the placeholder's expressions.
    pub strings: Vec<String>,
}

/// When the value of an i18n parameter is resolved.
#[derive(Clone, Copy, Debug, PartialEq, Eq, Structural)]
pub enum I18nParamResolutionTime {
    Creation,
    Postprocessing,
}

/// What an i18n expression is for.
#[derive(Clone, Copy, Debug, PartialEq, Eq, Structural)]
pub enum I18nExpressionFor {
    I18nText,
    I18nAttribute,
}

/// An update operation that feeds one expression into an i18n message.
#[derive(Debug, PartialEq)]
pub struct I18nExpressionOp {
    /// The i18n block that owns the expression.
    pub i18n_owner: XrefId,
    pub target: XrefId,
    /// The i18n context the expression's value goes to.
    pub context: XrefId,
    /// The slot of the owning i18n block.
    pub handle: SlotId,
    pub expression: IrExpression,
    pub resolution_time: I18nParamResolutionTime,
    pub usage: I18nExpressionFor,
    pub name: String,
    pub i18n_placeholder: Option<String>,
    /// The ICU placeholder the expression belongs to, if any.
    pub icu_placeholder: Option<XrefId>,
}

/// An attribute extracted onto an element.
#[derive(Debug, PartialEq)]
pub struct ExtractedAttributeOp {
    pub target: XrefId,
    pub binding_kind: BindingKind,
    pub namespace: Option<String>,
    pub name: String,
    pub value: Option<IrExpression>,
    pub security_context: SecurityContext,
    /// Whether the value is an expression to be tested for truth.
    pub truthy_expression: bool,
    pub i18n_context: Option<XrefId>,
    pub i18n_message: Option<u32>,
}

/// An enter or leave animation given by a string-valued binding (`animate.enter="cls"`).
#[derive(Debug, PartialEq)]
pub struct AnimationStringOp {
    pub target: XrefId,
    /// `animate.enter` (an enter animation) or another name (a leave animation).
    pub name: String,
    pub expression: IrExpression,
    /// Whether it is an enter or a leave animation.
    pub animation_kind: AnimationKind,
}

/// The i18n attributes of an element: the translated attribute bindings of
/// its target feed this block.
#[derive(Clone, Copy, Debug, PartialEq, Eq, Structural)]
pub struct I18nAttributesOp {
    pub xref: XrefId,
    /// The element whose attributes are translated.
    pub target: XrefId,
    /// The slot of the block.
    pub handle: SlotId,
}

/// The place in the template source of an element, for debugging.
#[derive(Debug, PartialEq)]
pub struct SourceLocationOp {
    pub target: XrefId,
    /// The template's path.
    pub template_url: String,
    /// The line, counted from 1.
    pub line: u32,
    /// The column, counted from 0.
    pub column: u32,
}

/// Kinds of i18n contexts.
#[derive(Clone, Copy, Debug, PartialEq, Eq, Structural)]
pub enum I18nContextKind {
    /// The context of a root i18n block.
    RootI18n,
    /// The context of an ICU expression.
    Icu,
    /// The context of translated attributes.
    Attr,
}

/// A helper context from which an i18n message is generated.
#[derive(Clone, Copy, Debug, PartialEq)]
pub struct I18nContextOp {
    pub xref: XrefId,
    pub context_kind: I18nContextKind,
    /// The i18n block the context belongs to, if any (attribute contexts have none).
    pub i18n_block: Option<XrefId>,
    /// The i18n message of the context.
    pub message: Option<u32>,
}

/// Creation operations.
#[derive(Debug, PartialEq)]
pub enum CreateOp {
    Listener(ListenerOp),
    TwoWayListener(ListenerOp),
    AnimationListener(ListenerOp),
    /// An enter or leave animation whose handler returns the bound value.
    Animation(ListenerOp),
    AnimationString(AnimationStringOp),
    ElementStart(SlotOp),
    Element(SlotOp),
    ElementEnd(XrefId),
    Template(TemplateOp),
    ContainerStart(SlotOp),
    Container(SlotOp),
    ContainerEnd(XrefId),
    Text(TextOp),
    Pipe(PipeOp),
    Projection(ProjectionOp),
    Conditional(TemplateOp),
    ConditionalBranch(TemplateOp),
    RepeaterCreate(TemplateOp),
    Defer(DeferOp),
    DeclareLet(SlotOp),
    I18nStart(I18nStartOp),
    I18n(I18nStartOp),
    I18nEnd(XrefId),
    IcuStart(I18nStartOp),
    IcuEnd(XrefId),
    IcuPlaceholder(IcuPlaceholderOp),
    I18nAttributes(I18nAttributesOp),
    SourceLocation(SourceLocationOp),
    ExtractedAttribute(ExtractedAttributeOp),
    I18nContext(I18nContextOp),
}

impl UpdateOp {
    /// The kind of an update operation.
    pub open spec fn spec_kind(&self) -> OpKind {
        match self {
            UpdateOp::Property(_) => OpKind::Property,
            UpdateOp::TwoWayProperty(_) => OpKind::TwoWayProperty,
            UpdateOp::DomProperty(_) => OpKind::DomProperty,
            UpdateOp::Attribute(_) => OpKind::Attribute,
            UpdateOp::StyleProp(_) => OpKind::StyleProp,
            UpdateOp::ClassProp(_) => OpKind::ClassProp,
            UpdateOp::StyleMap(_) => OpKind::StyleMap,
            UpdateOp::ClassMap(_) => OpKind::ClassMap,
            UpdateOp::Control(_) => OpKind::Control,
            UpdateOp::Binding(_) => OpKind::Binding,
            UpdateOp::InterpolateText(_) => OpKind::InterpolateText,
            UpdateOp::I18nExpression(_) => OpKind::I18nExpression,
            UpdateOp::AnimationBinding(_) => OpKind::AnimationBinding,
            UpdateOp::Repeater(_) => OpKind::Repeater,
            UpdateOp::Conditional(_) => OpKind::Conditional,
            UpdateOp::StoreLet(_) => OpKind::StoreLet,
            UpdateOp::DeferWhen(_) => OpKind::DeferWhen,
            UpdateOp::Variable(_) => OpKind::Variable,
            UpdateOp::Statement(_) => OpKind::Statement,
            UpdateOp::Advance(_) => OpKind::Advance,
            UpdateOp::ListEnd => OpKind::ListEnd,
            UpdateOp::I18nApply(_) => OpKind::I18nApply,
        }
    }

    /// The kind of an update operation.
    #[verifier::when_used_as_spec(spec_kind)]
    pub fn kind(&self) -> (k: OpKind)
        ensures
            k == self.spec_kind(),
    {
        match self {
            UpdateOp::Property(_) => OpKind::Property,
            UpdateOp::TwoWayProperty(_) => OpKind::TwoWayProperty,
            UpdateOp::DomProperty(_) => OpKind::DomProperty,
            UpdateOp::Attribute(_) => OpKind::Attribute,
            UpdateOp::StyleProp(_) => OpKind::StyleProp,
            UpdateOp::ClassProp(_) => OpKind::ClassProp,
            UpdateOp::StyleMap(_) => OpKind::StyleMap,
            UpdateOp::ClassMap(_) => OpKind::ClassMap,
            UpdateOp::Control(_) => OpKind::Control,
            UpdateOp::Binding(_) => OpKind::Binding,
            UpdateOp::InterpolateText(_) => OpKind::InterpolateText,
            UpdateOp::I18nExpression(_) => OpKind::I18nExpression,
            UpdateOp::AnimationBinding(_) => OpKind::AnimationBinding,
            UpdateOp::Repeater(_) => OpKind::Repeater,
            UpdateOp::Conditional(_) => OpKind::Conditional,
            UpdateOp::StoreLet(_) => OpKind::StoreLet,
            UpdateOp::DeferWhen(_) => OpKind::DeferWhen,
            UpdateOp::Variable(_) => OpKind::Variable,
            UpdateOp::Statement(_) => OpKind::Statement,
            UpdateOp::Advance(_) => OpKind::Advance,
            UpdateOp::ListEnd => OpKind::ListEnd,
            UpdateOp::I18nApply(_) => OpKind::I18nApply,
        }
    }
}

impl CreateOp {
    /// The kind of a creation operation.
    pub open spec fn spec_kind(&self) -> OpKind {
        match self {
            CreateOp::Listener(_) => OpKind::Listener,
            CreateOp::TwoWayListener(_) => OpKind::TwoWayListener,
            CreateOp::AnimationListener(_) => OpKind::AnimationListener,
            CreateOp::Animation(_) => OpKind::Animation,
            CreateOp::AnimationString(_) => OpKind::AnimationString,
            CreateOp::ElementStart(_) => OpKind::ElementStart,
            CreateOp::Element(_) => OpKind::Element,
            CreateOp::ElementEnd(_) => OpKind::ElementEnd,
            CreateOp::Template(_) => OpKind::Template,
            CreateOp::ContainerStart(_) => OpKind::ContainerStart,
            CreateOp::Container(_) => OpKind::Container,
            CreateOp::ContainerEnd(_) => OpKind::ContainerEnd,
            CreateOp::Text(_) => OpKind::Text,
            CreateOp::Pipe(_) => OpKind::Pipe,
            CreateOp::Projection(_) => OpKind::Projection,
            CreateOp::Conditional(_) => OpKind::ConditionalCreate,
            CreateOp::ConditionalBranch(_) => OpKind::ConditionalBranchCreate,
            CreateOp::RepeaterCreate(_) => OpKind::RepeaterCreate,
            CreateOp::Defer(_) => OpKind::Defer,
            CreateOp::DeclareLet(_) => OpKind::DeclareLet,
            CreateOp::I18nStart(_) => OpKind::I18nStart,
            CreateOp::I18n(_) => OpKind::I18n,
            CreateOp::I18nEnd(_) => OpKind::I18nEnd,
            CreateOp::IcuStart(_) => OpKind::IcuStart,
            CreateOp::IcuEnd(_) => OpKind::IcuEnd,
            CreateOp::IcuPlaceholder(_) => OpKind::IcuPlaceholder,
            CreateOp::I18nAttributes(_) => OpKind::I18nAttributes,
            CreateOp::SourceLocation(_) => OpKind::SourceLocation,
            CreateOp::ExtractedAttribute(_) => OpKind::ExtractedAttribute,
            CreateOp::I18nContext(_) => OpKind::I18nContext,
        }
    }

    /// The kind of a creation operation.
    #[verifier::when_used_as_spec(spec_kind)]
    pub fn kind(&self) -> (k: OpKind)
        ensures
            k == self.spec_kind(),
    {
        match self {
            CreateOp::Listener(_) => OpKind::Listener,
            CreateOp::TwoWayListener(_) => OpKind::TwoWayListener,
            CreateOp::AnimationListener(_) => OpKind::AnimationListener,
            CreateOp::Animation(_) => OpKind::Animation,
            CreateOp::AnimationString(_) => OpKind::AnimationString,
            CreateOp::ElementStart(_) => OpKind::ElementStart,
            CreateOp::Element(_) => OpKind::Element,
            CreateOp::ElementEnd(_) => OpKind::ElementEnd,
            CreateOp::Template(_) => OpKind::Template,
            CreateOp::ContainerStart(_) => OpKind::ContainerStart,
            CreateOp::Container(_) => OpKind::Container,
            CreateOp::ContainerEnd(_) => OpKind::ContainerEnd,
            CreateOp::Text(_) => OpKind::Text,
            CreateOp::Pipe(_) => OpKind::Pipe,
            CreateOp::Projection(_) => OpKind::Projection,
            CreateOp::Conditional(_) => OpKind::ConditionalCreate,
            CreateOp::ConditionalBranch(_) => OpKind::ConditionalBranchCreate,
            CreateOp::RepeaterCreate(_) => OpKind::RepeaterCreate,
            CreateOp::Defer(_) => OpKind::Defer,
            CreateOp::DeclareLet(_) => OpKind::DeclareLet,
            CreateOp::I18nStart(_) => OpKind::I18nStart,
            CreateOp::I18n(_) => OpKind::I18n,
            CreateOp::I18nEnd(_) => OpKind::I18nEnd,
            CreateOp::IcuStart(_) => OpKind::IcuStart,
            CreateOp::IcuEnd(_) => OpKind::IcuEnd,
            CreateOp::IcuPlaceholder(_) => OpKind::IcuPlaceholder,
            CreateOp::I18nAttributes(_) => OpKind::I18nAttributes,
            CreateOp::SourceLocation(_) => OpKind::SourceLocation,
            CreateOp::ExtractedAttribute(_) => OpKind::ExtractedAttribute,
            CreateOp::I18nContext(_) => OpKind::I18nContext,
        }
    }
}

/// A constant-pool entry.
#[derive(Debug, PartialEq)]
pub enum ConstValue {
    /// A marker number.
    Number(i64),
    Expression(IrExpression),
    String(String),
    Array(Vec<ConstValue>),
}

/// A view of a component template (or its root).
#[derive(Debug, PartialEq)]
pub struct ViewCompilationUnit {
    pub xref: XrefId,
    /// The number of slots the view uses, once allocated.
    pub decl_count: Option<u32>,
    pub create: Vec<CreateOp>,
    pub update: Vec<UpdateOp>,
    /// The operation lists of the arrow functions declared in this view.
    pub functions: Vec<Vec<UpdateOp>>,
}

/// A warning raised by a phase.
#[derive(Debug, PartialEq)]
pub enum Diagnostic {
    /// The slot counter would have to move backwards between two update operations.
    SlotCounterMovedBackwards { from: u32, to: u32 },
    /// No element with the target of the named animation was found in its view.
    AnimationTargetNotFound { name: String },
    /// A static attribute of a host binding targets another element than the host.
    HostAttributeNotOnRoot,
}

/// Whether the output must match the older template compiler exactly.
#[derive(Clone, Copy, Debug, PartialEq, Eq, Structural)]
pub enum CompatibilityMode {
    Normal,
    TemplateDefinitionBuilder,
}

/// What the compiled template may rely on at runtime.
#[derive(Clone, Copy, Debug, PartialEq, Eq, Structural)]
pub enum TemplateCompilationMode {
    /// The full runtime, with directive matching.
    Full,
    /// DOM-only output: no directives, so properties named like ARIA attributes are attributes.
    DomOnly,
}

/// The compilation of a component template.
#[derive(Debug, PartialEq)]
pub struct ComponentCompilationJob {
    pub compatibility_mode: CompatibilityMode,
    pub mode: TemplateCompilationMode,
    pub root: ViewCompilationUnit,
    pub views: Vec<ViewCompilationUnit>,
    pub consts: Vec<ConstValue>,
    pub diagnostics: Vec<Diagnostic>,
    pub next_xref: u32,
    /// Whether to record the source location of elements.
    pub enable_debug_locations: bool,
    /// The template's path, relative to the project.
    pub relative_template_path: Option<String>,
    /// The template's source text.
    pub template_source: Option<String>,
}

/// The unit of a host-binding compilation.
#[derive(Debug, PartialEq)]
pub struct HostBindingCompilationUnit {
    pub xref: XrefId,
    pub create: Vec<CreateOp>,
    pub update: Vec<UpdateOp>,
    /// The host's static attributes as a literal array, once collected.
    pub attributes: Option<OutputExpression>,
}

/// The compilation of a component's host bindings.
#[derive(Debug, PartialEq)]
pub struct HostBindingCompilationJob {
    pub compatibility_mode: CompatibilityMode,
    pub root: HostBindingCompilationUnit,
    pub diagnostics: Vec<Diagnostic>,
}

/// Whether a pass over host bindings left the job's settings and the host's
/// identity and attribute array as they were.
pub open spec fn host_frame_kept(before: HostBindingCompilationJob, after: HostBindingCompilationJob) -> bool {
    &&& after.compatibility_mode == before.compatibility_mode
    &&& after.root.xref == before.root.xref
    &&& after.root.attributes == before.root.attributes
}

} // verus!
