//! The definitions of the ucg AST and Tokens.
use vstd::prelude::*;
use vstd::std_specs::cmp::PartialEqSpec;
use std::rc::Rc;

use crate::build::Val;
use crate::text::{i64_to_text, usize_to_text, int_text, nat_text};

verus! {

/// Represents a line and a column position in UCG code.
///
/// It is used for generating error messages mostly. Most all
/// parts of the UCG AST have a positioned associated with them.
#[derive(Debug, PartialEq, Eq, Structural, Clone, Copy, PartialOrd, Ord, Hash)]
pub struct Position {
    pub line: usize,
    pub column: usize,
    pub offset: usize,
}

impl Position {
    /// Construct a new Position.
    pub fn new(line: usize, column: usize, offset: usize) -> (r: Self)
        ensures
            r.line == line,
            r.column == column,
            r.offset == offset,
    {
        Position { line: line, column: column, offset: offset }
    }
}

/// Defines the types of tokens in UCG syntax.
#[derive(Debug, PartialEq, Eq, Structural, Clone, Copy, PartialOrd, Ord, Hash)]
pub enum TokenType {
    EMPTY,
    BOOLEAN,
    END,
    WS,
    COMMENT,
    QUOTED,
    PIPEQUOTE,
    DIGIT,
    BAREWORD,
    PUNCT,
}

/// Defines a Token representing a building block of UCG syntax.
///
/// Token's are passed to the parser stage to be parsed into an AST.
#[derive(Debug, PartialEq, Eq, Clone, PartialOrd, Ord, Hash)]
pub struct Token {
    pub typ: TokenType,
    pub fragment: String,
    pub pos: Position,
}

impl Token {
    /// Constructs a new Token with a type and line and column information.
    pub fn new(f: &str, typ: TokenType, p: Position) -> (r: Self)
        ensures
            r.fragment@ == f@,
            r.typ == typ,
            r.pos == p,
    {
        Self::new_with_pos(f, typ, p)
    }

    /// Constructs a new Token with a type and a Position.
    pub fn new_with_pos(f: &str, typ: TokenType, pos: Position) -> (r: Self)
        ensures
            r.fragment@ == f@,
            r.typ == typ,
            r.pos == pos,
    {
        Token { typ: typ, fragment: f.to_owned(), pos: pos }
    }

    /// A copy of this token that Verus knows to be equal to it.
    pub fn copy(&self) -> (r: Self)
        ensures
            r == *self,
    {
        Token { typ: self.typ, fragment: self.fragment.clone(), pos: self.pos }
    }
}

/// Adds position information to any type `T`.
#[derive(Debug, Clone)]
pub struct PositionedItem<T> {
    pub pos: Position,
    pub val: T,
}

impl<T> PositionedItem<T> {
    /// Constructs a new Positioned<T> with a value, line, and column information.
    pub fn new(v: T, p: Position) -> (r: Self)
        ensures
            r.val == v,
            r.pos == p,
    {
        Self::new_with_pos(v, p)
    }

    /// Constructs a new Positioned<T> with a value and a Position.
    pub fn new_with_pos(v: T, pos: Position) -> (r: Self)
        ensures
            r.val == v,
            r.pos == pos,
    {
        PositionedItem { pos: pos, val: v }
    }
}

impl PositionedItem<String> {
    /// The positioned name that a token stands for: its fragment at its position.
    pub fn from_token(t: &Token) -> (r: Self)
        ensures
            r.pos == t.pos,
            r.val == t.fragment,
    {
        PositionedItem { pos: t.pos, val: t.fragment.clone() }
    }

    /// A copy of this item that Verus knows to be equal to it.
    pub fn copy(&self) -> (r: Self)
        ensures
            r == *self,
    {
        PositionedItem { pos: self.pos, val: self.val.clone() }
    }

    /// The text that shows the item: its value.
    pub fn display_text(&self) -> (r: String)
        ensures
            r@ == self.val@,
    {
        self.val.clone()
    }
}

/// Two positioned items are equal when their values are: the position is ignored.
impl<T: PartialEq> PartialEq for PositionedItem<T> {
    fn eq(&self, other: &Self) -> (r: bool) {
        self.val == other.val
    }
}

impl<T: PartialEq> vstd::std_specs::cmp::PartialEqSpecImpl for PositionedItem<T> {
    open spec fn obeys_eq_spec() -> bool {
        T::obeys_eq_spec()
    }

    open spec fn eq_spec(&self, other: &Self) -> bool {
        self.val.eq_spec(&other.val)
    }
}

impl<T: Eq> Eq for PositionedItem<T> {

}

/// Equality of positioned items ignores where they stand: two items are equal
/// exactly when their values are, and moving either one to another position
/// does not change that.
pub proof fn law_positioned_equality_ignores_position<T: PartialEq>(
    a: PositionedItem<T>,
    b: PositionedItem<T>,
    p: Position,
    q: Position,
)
    ensures
        a.eq_spec(&b) == a.val.eq_spec(&b.val),
        (PositionedItem { pos: p, val: a.val }).eq_spec(&PositionedItem { pos: q, val: b.val }) == a.eq_spec(&b),
{
}


/// An Expression with a series of symbols specifying the key
/// with which to descend into the result of the expression.
///
/// The expression must evaluate to either a tuple or an array. The token must
/// evaluate to either a bareword Symbol or an Int.
#[derive(Debug, PartialEq)]
pub struct SelectorList {
    pub head: Box<Expression>,
    pub tail: Option<Vec<Token>>,
}

impl SelectorList {
    /// Returns a stringified version of a SelectorList: its head, then
    /// `.<fragment>` for each token of its tail.
    pub fn to_string(&self) -> (r: String)
        ensures
            r@ == selector_text(*self),
        decreases *self, 2int,
    {
        self.display_text()
    }
}

/// An ordered list of Name = Value pairs.
///
/// This is usually used as the body of a tuple in the UCG AST.
pub type FieldList = Vec<(Token, Expression)>;

/// Encodes a selector expression in the UCG AST.
#[derive(Debug, PartialEq)]
pub struct SelectorDef {
    pub pos: Position,
    pub sel: SelectorList,
}

impl SelectorDef {
    /// Constructs a new SelectorDef.
    pub fn new(sel: SelectorList, p: Position) -> (r: Self)
        ensures
            r.pos == p,
            r.sel == sel,
    {
        SelectorDef { pos: p, sel: sel }
    }
}

/// Represents a Value in the UCG parsed AST.
///
/// A float literal is kept as the decimal text it was written as.
#[derive(Debug, PartialEq)]
pub enum Value {
    // Constant Values
    Empty(Position),
    Boolean(PositionedItem<bool>),
    Int(PositionedItem<i64>),
    Float(PositionedItem<String>),
    Str(PositionedItem<String>),
    Symbol(PositionedItem<String>),
    // Complex Values
    Tuple(PositionedItem<FieldList>),
    List(ListDef),
    Selector(SelectorDef),
}

/// The lines that show the field names of a tuple, one `\t<name>\n` per field.
pub open spec fn fields_lines(fs: Seq<(Token, Expression)>) -> Seq<char>
    decreases fs.len(),
{
    if fs.len() == 0 {
        Seq::empty()
    } else {
        fields_lines(fs.drop_last()) + "\t"@ + fs.last().0.fragment@ + "\n"@
    }
}

/// The name of a value's type.
pub open spec fn value_typ_name(v: Value) -> Seq<char> {
    match v {
        Value::Empty(_) => "EmptyValue"@,
        Value::Boolean(_) => "Boolean"@,
        Value::Int(_) => "Integer"@,
        Value::Float(_) => "Float"@,
        Value::Str(_) => "String"@,
        Value::Symbol(_) => "Symbol"@,
        Value::Tuple(_) => "Tuple"@,
        Value::List(_) => "List"@,
        Value::Selector(_) => "Selector"@,
    }
}

/// The text that shows a value.
pub open spec fn value_text(v: Value) -> Seq<char>
    decreases v,
{
    match v {
        Value::Empty(_) => "EmptyValue"@,
        Value::Boolean(b) => if b.val { "true"@ } else { "false"@ },
        Value::Int(i) => int_text(i.val as int),
        Value::Float(f) => f.val@,
        Value::Str(s) => s.val@,
        Value::Symbol(s) => s.val@,
        Value::Tuple(fs) => "{\n"@ + fields_lines(fs.val@) + "}"@,
        Value::List(def) => "["@ + nat_text(def.elems@.len()) + "]"@,
        Value::Selector(s) => selector_text(s.sel),
    }
}

/// Whether two values are of the same variant.
pub open spec fn same_value_type(a: Value, b: Value) -> bool {
    match (a, b) {
        (Value::Empty(_), Value::Empty(_)) => true,
        (Value::Boolean(_), Value::Boolean(_)) => true,
        (Value::Int(_), Value::Int(_)) => true,
        (Value::Float(_), Value::Float(_)) => true,
        (Value::Str(_), Value::Str(_)) => true,
        (Value::Symbol(_), Value::Symbol(_)) => true,
        (Value::Tuple(_), Value::Tuple(_)) => true,
        (Value::List(_), Value::List(_)) => true,
        (Value::Selector(_), Value::Selector(_)) => true,
        _ => false,
    }
}

impl Value {
    /// The position of a value.
    pub open spec fn position(self) -> Position {
        match self {
            Value::Empty(pos) => pos,
            Value::Boolean(b) => b.pos,
            Value::Int(i) => i.pos,
            Value::Float(f) => f.pos,
            Value::Str(s) => s.pos,
            Value::Symbol(s) => s.pos,
            Value::Tuple(fs) => fs.pos,
            Value::List(def) => def.pos,
            Value::Selector(v) => v.pos,
        }
    }

    /// Returns the type name of the Value it is called on as a string.
    pub fn typ_name(&self) -> (r: String)
        ensures
            r@ == value_typ_name(*self),
    {
        match self {
            Value::Empty(_) => "EmptyValue".to_owned(),
            Value::Boolean(_) => "Boolean".to_owned(),
            Value::Int(_) => "Integer".to_owned(),
            Value::Float(_) => "Float".to_owned(),
            Value::Str(_) => "String".to_owned(),
            Value::Symbol(_) => "Symbol".to_owned(),
            Value::Tuple(_) => "Tuple".to_owned(),
            Value::List(_) => "List".to_owned(),
            Value::Selector(_) => "Selector".to_owned(),
        }
    }

    fn fields_to_string(v: &FieldList) -> (r: String)
        ensures
            r@ == "{\n"@ + fields_lines(v@) + "}"@,
    {
        let mut buf = String::new();
        buf.append("{\n");
        let mut i: usize = 0;
        while i < v.len()
            invariant
                i <= v@.len(),
                buf@ == "{\n"@ + fields_lines(v@.take(i as int)),
            decreases v@.len() - i,
        {
            let ghost before = buf@;
            buf.append("\t");
            buf.append(v[i].0.fragment.as_str());
            buf.append("\n");
            proof {
                assert(v@.take(i + 1).drop_last() =~= v@.take(i as int));
                assert(buf@ =~= "{\n"@ + fields_lines(v@.take(i + 1)));
            }
            i = i + 1;
        }
        buf.append("}");
        assert(v@.take(v@.len() as int) =~= v@);
        buf
    }

    fn elems_to_string(v: &Vec<Expression>) -> (r: String)
        ensures
            r@ == nat_text(v@.len()),
    {
        usize_to_text(v.len())
    }

    /// Returns a stringified version of the Value.
    pub fn to_string(&self) -> (r: String)
        ensures
            r@ == value_text(*self),
        decreases *self, 0int,
    {
        match self {
            Value::Empty(_) => "EmptyValue".to_owned(),
            Value::Boolean(b) => if b.val { "true".to_owned() } else { "false".to_owned() },
            Value::Int(i) => i64_to_text(i.val),
            Value::Float(f) => f.val.clone(),
            Value::Str(s) => s.val.clone(),
            Value::Symbol(s) => s.val.clone(),
            Value::Tuple(fs) => Self::fields_to_string(&fs.val),
            Value::List(def) => {
                let mut out = "[".to_owned();
                let n = Self::elems_to_string(&def.elems);
                out.append(n.as_str());
                out.append("]");
                out
            },
            Value::Selector(v) => v.sel.to_string(),
        }
    }

    /// Returns the position for a Value.
    pub fn pos(&self) -> (r: &Position)
        ensures
            *r == self.position(),
    {
        match self {
            Value::Empty(pos) => pos,
            Value::Boolean(b) => &b.pos,
            Value::Int(i) => &i.pos,
            Value::Float(f) => &f.pos,
            Value::Str(s) => &s.pos,
            Value::Symbol(s) => &s.pos,
            Value::Tuple(fs) => &fs.pos,
            Value::List(def) => &def.pos,
            Value::Selector(v) => &v.pos,
        }
    }

    /// Returns true if called on a Value that is the same type as itself.
    pub fn type_equal(&self, target: &Self) -> (r: bool)
        ensures
            r == same_value_type(*self, *target),
    {
        match (self, target) {
            (Value::Empty(_), Value::Empty(_)) => true,
            (Value::Boolean(_), Value::Boolean(_)) => true,
            (Value::Int(_), Value::Int(_)) => true,
            (Value::Float(_), Value::Float(_)) => true,
            (Value::Str(_), Value::Str(_)) => true,
            (Value::Symbol(_), Value::Symbol(_)) => true,
            (Value::Tuple(_), Value::Tuple(_)) => true,
            (Value::List(_), Value::List(_)) => true,
            (Value::Selector(_), Value::Selector(_)) => true,
            _ => false,
        }
    }
}

/// Represents an expansion of a Macro that is expected to already have been
/// defined.
#[derive(PartialEq, Debug)]
pub struct CallDef {
    pub macroref: SelectorDef,
    pub arglist: Vec<Expression>,
    pub pos: Position,
}

/// Encodes a select expression in the UCG AST.
#[derive(PartialEq, Debug)]
pub struct SelectDef {
    pub val: Box<Expression>,
    pub default: Box<Expression>,
    pub tuple: FieldList,
    pub pos: Position,
}

/// Encodes a macro expression in the UCG AST..
///
/// A macro is a pure function over a tuple.
/// MacroDefs are not closures. They can not reference
/// any values except what is defined in their arguments.
#[derive(PartialEq, Debug)]
pub struct MacroDef {
    pub argdefs: Vec<PositionedItem<String>>,
    pub fields: FieldList,
    pub pos: Position,
}

/// Specifies the types of binary operations supported in
/// UCG expression.
#[derive(Debug, PartialEq, Eq, Structural, Clone, Copy)]
pub enum BinaryExprType {
    Add,
    Sub,
    Mul,
    Div,
    // Comparison
    Equal,
    GT,
    LT,
    NotEqual,
    GTEqual,
    LTEqual,
}

/// Represents an expression with a left and a right side.
#[derive(Debug, PartialEq)]
pub struct BinaryOpDef {
    pub kind: BinaryExprType,
    pub left: Box<Expression>,
    pub right: Box<Expression>,
    pub pos: Position,
}

/// Encodes a tuple Copy expression in the UCG AST.
#[derive(Debug, PartialEq)]
pub struct CopyDef {
    pub selector: SelectorDef,
    pub fields: FieldList,
    pub pos: Position,
}

/// Encodes a format expression in the UCG AST.
#[derive(Debug, PartialEq)]
pub struct FormatDef {
    pub template: String,
    pub args: Vec<Expression>,
    pub pos: Position,
}

/// Encodes a list expression in the UCG AST.
#[derive(Debug, PartialEq)]
pub struct ListDef {
    pub elems: Vec<Expression>,
    pub pos: Position,
}

/// ListOpType represents the type of list operation for a ListOpDef.
#[derive(Debug, PartialEq, Eq, Structural, Clone, Copy)]
pub enum ListOpType {
    /// Maps each item to a field of the macro's result.
    MapOp,
    Filter,
}

/// ListOpDef implements the list operations in the UCG AST.
#[derive(Debug, PartialEq)]
pub struct ListOpDef {
    pub typ: ListOpType,
    pub mac: SelectorDef,
    pub field: String,
    pub target: Box<Expression>,
    pub pos: Position,
}

/// A module definition: its parameters, their default tuple once evaluated,
/// and its statements.
#[derive(Debug, PartialEq)]
pub struct ModuleDef {
    pub pos: Position,
    pub arg_set: FieldList,
    pub arg_tuple: Option<Rc<Val>>,
    pub statements: Vec<Statement>,
}

impl ModuleDef {
    /// Constructs a module definition whose default tuple is not evaluated yet.
    pub fn new(arg_set: FieldList, stmts: Vec<Statement>, pos: Position) -> (r: Self)
        ensures
            r.pos == pos,
            r.arg_set == arg_set,
            r.arg_tuple is None,
            r.statements == stmts,
    {
        ModuleDef { pos: pos, arg_set: arg_set, arg_tuple: None, statements: stmts }
    }
}

/// Encodes a ucg expression. Expressions compute a value from.
#[derive(Debug, PartialEq)]
pub enum Expression {
    // Base Expression
    Simple(Value),
    // Binary expressions
    Binary(BinaryOpDef),
    // Complex Expressions
    Copy(CopyDef),
    Grouped(Box<Expression>),
    Format(FormatDef),
    Call(CallDef),
    Macro(MacroDef),
    Select(SelectDef),
    ListOp(ListOpDef),
    Module(ModuleDef),
}

impl Expression {
    /// The position of an expression: that of its value, its inner expression
    /// when grouped, or its own.
    pub open spec fn position(self) -> Position
        decreases self,
    {
        match self {
            Expression::Simple(v) => v.position(),
            Expression::Binary(def) => def.pos,
            Expression::Copy(def) => def.pos,
            Expression::Grouped(expr) => expr.position(),
            Expression::Format(def) => def.pos,
            Expression::Call(def) => def.pos,
            Expression::Macro(def) => def.pos,
            Expression::Module(def) => def.pos,
            Expression::Select(def) => def.pos,
            Expression::ListOp(def) => def.pos,
        }
    }

    /// Returns the position of the Expression.
    pub fn pos(&self) -> (r: &Position)
        ensures
            *r == self.position(),
        decreases self,
    {
        match self {
            Expression::Simple(v) => v.pos(),
            Expression::Binary(def) => &def.pos,
            Expression::Copy(def) => &def.pos,
            Expression::Grouped(expr) => expr.pos(),
            Expression::Format(def) => &def.pos,
            Expression::Call(def) => &def.pos,
            Expression::Macro(def) => &def.pos,
            Expression::Module(def) => &def.pos,
            Expression::Select(def) => &def.pos,
            Expression::ListOp(def) => &def.pos,
        }
    }
}

/// The text that shows an expression: a simple one shows its value, the others
/// a placeholder for their kind.
pub open spec fn expression_text(e: Expression) -> Seq<char>
    decreases e,
{
    match e {
        Expression::Simple(v) => value_text(v),
        Expression::Binary(_) => "<Expr>"@,
        Expression::ListOp(_) => "<Expr>"@,
        Expression::Copy(_) => "<Copy>"@,
        Expression::Grouped(_) => "(<Expr>)"@,
        Expression::Format(_) => "<Format Expr>"@,
        Expression::Call(_) => "<MacroCall>"@,
        Expression::Macro(_) => "<Macro>"@,
        Expression::Module(_) => "<Module>"@,
        Expression::Select(_) => "<Select>"@,
    }
}

/// The `.<fragment>` suffixes that show the tail of a selector.
pub open spec fn selector_tail_text(toks: Seq<Token>) -> Seq<char>
    decreases toks.len(),
{
    if toks.len() == 0 {
        Seq::empty()
    } else {
        selector_tail_text(toks.drop_last()) + "."@ + toks.last().fragment@
    }
}

/// The text that shows a selector: its head, then `.<fragment>` for each tail token.
pub open spec fn selector_text(sl: SelectorList) -> Seq<char>
    decreases sl,
{
    expression_text(*sl.head) + match sl.tail {
        Some(toks) => selector_tail_text(toks@),
        None => Seq::empty(),
    }
}

impl Expression {
    /// Returns the text that shows the expression.
    pub fn display_text(&self) -> (r: String)
        ensures
            r@ == expression_text(*self),
        decreases *self, 0int,
    {
        match self {
            Expression::Simple(v) => v.to_string(),
            Expression::Binary(_) => "<Expr>".to_owned(),
            Expression::ListOp(_) => "<Expr>".to_owned(),
            Expression::Copy(_) => "<Copy>".to_owned(),
            Expression::Grouped(_) => "(<Expr>)".to_owned(),
            Expression::Format(_) => "<Format Expr>".to_owned(),
            Expression::Call(_) => "<MacroCall>".to_owned(),
            Expression::Macro(_) => "<Macro>".to_owned(),
            Expression::Module(_) => "<Module>".to_owned(),
            Expression::Select(_) => "<Select>".to_owned(),
        }
    }
}

impl SelectorList {
    /// Returns the text that shows the selector path.
    pub fn display_text(&self) -> (r: String)
        ensures
            r@ == selector_text(*self),
        decreases *self, 1int,
    {
        let mut w = self.head.display_text();
        let ghost head = w@;
        if let Some(tok_vec) = &self.tail {
            let mut i: usize = 0;
            while i < tok_vec.len()
                invariant
                    i <= tok_vec@.len(),
                    w@ == head + selector_tail_text(tok_vec@.take(i as int)),
                decreases tok_vec@.len() - i,
            {
                w.append(".");
                w.append(tok_vec[i].fragment.as_str());
                proof {
                    assert(tok_vec@.take(i + 1).drop_last() =~= tok_vec@.take(i as int));
                }
                i = i + 1;
            }
            assert(tok_vec@.take(tok_vec@.len() as int) =~= tok_vec@);
        }
        w
    }
}

/// Encodes a let statement in the UCG AST.
#[derive(Debug, PartialEq)]
pub struct LetDef {
    pub name: Token,
    pub value: Expression,
}

/// Encodes an import statement in the UCG AST.
#[derive(Debug, PartialEq, Clone)]
pub struct ImportDef {
    pub path: Token,
    pub name: Token,
}

/// Encodes a parsed statement in the UCG AST.
#[derive(Debug, PartialEq)]
pub enum Statement {
    // simple expression
    Expression(Expression),
    // Named bindings
    Let(LetDef),
    // Import a file.
    Import(ImportDef),
    // Assert statement
    Assert(Token),
    // Identify an Expression for output.
    Output(Token, Expression),
}

} // verus!
