use vstd::prelude::*;

verus! {

/// A resolved tree that breaks an invariant the resolver promises. This marks a
/// defect upstream; it is reported, never resolved by an arbitrary pick.
#[derive(Clone, Copy, Debug, PartialEq, Eq, Structural)]
pub enum AstInvariantViolation {
    /// More than one identifier range holds the queried offset.
    OverlappingIdentifiers,
    /// More than one literal of the queried kind holds the queried offset.
    OverlappingLiterals,
    /// Two tokens whose ranges share a byte.
    OverlappingTokens,
    /// A reference whose id no declaration carries.
    MissingDeclaration(u64),
    /// An id that more than one declaration carries.
    DuplicateDeclaration(u64),
}

/// Half-open byte range `[start, end)` of a token in the document.
#[derive(Clone, Copy, Debug, PartialEq, Eq, Structural)]
pub struct SourceLocation {
    pub start: usize,
    pub end: usize,
}

impl SourceLocation {
    pub fn new(start: usize, end: usize) -> (r: SourceLocation)
        ensures
            r.start == start,
            r.end == end,
    {
        SourceLocation { start, end }
    }

    /// Whether `offset` lies inside this range.
    pub open spec fn spec_contains(self, offset: int) -> bool {
        self.start <= offset < self.end
    }

    pub fn contains(&self, offset: usize) -> (r: bool)
        ensures
            r == self.spec_contains(offset as int),
    {
        self.start <= offset && offset < self.end
    }
}

/// The role that scope resolution gave an identifier occurrence.
#[derive(Clone, Copy, Debug, PartialEq, Eq, Structural)]
pub enum IdentifierRole {
    /// Introduces the binding with this id.
    Declaration(u64),
    /// Uses the binding introduced by the declaration with this id.
    Reference(u64),
    /// Names a built-in of the language.
    BuiltinReference,
    /// Resolution could not bind this occurrence.
    UnresolvedReference,
}

pub struct Identifier {
    pub name: String,
    pub role: IdentifierRole,
    pub location: Option<SourceLocation>,
}

impl Clone for Identifier {
    fn clone(&self) -> (r: Self)
        ensures
            r == *self,
    {
        Identifier { name: self.name.clone(), role: self.role, location: self.location }
    }
}

impl Identifier {
    pub fn new(name: String, role: IdentifierRole, location: Option<SourceLocation>) -> (r:
        Identifier)
        ensures
            r.name == name,
            r.role == role,
            r.location == location,
    {
        Identifier { name, role, location }
    }

    /// Whether this occurrence has a location that holds `offset`.
    pub open spec fn covers(self, offset: int) -> bool {
        match self.location {
            Some(loc) => loc.spec_contains(offset),
            None => false,
        }
    }
}

pub struct Literal {
    /// Raw text of the literal, such as `0x70a08231`.
    pub literal: String,
    pub location: Option<SourceLocation>,
}

impl Clone for Literal {
    fn clone(&self) -> (r: Self)
        ensures
            r == *self,
    {
        Literal { literal: self.literal.clone(), location: self.location }
    }
}

impl Literal {
    pub fn new(literal: String, location: Option<SourceLocation>) -> (r: Literal)
        ensures
            r.literal == literal,
            r.location == location,
    {
        Literal { literal, location }
    }

    /// Whether this literal has a location that holds `offset`.
    pub open spec fn covers(self, offset: int) -> bool {
        match self.location {
            Some(loc) => loc.spec_contains(offset),
            None => false,
        }
    }
}

pub struct FunctionCall {
    pub function_name: Identifier,
    pub arguments: Vec<Expression>,
}

pub enum Expression {
    Literal(Literal),
    Identifier(Identifier),
    FunctionCall(FunctionCall),
}

pub struct FunctionDefinition {
    pub name: Identifier,
    pub parameters: Vec<Identifier>,
    pub returns: Vec<Identifier>,
    pub body: Block,
}

pub struct VariableDeclaration {
    pub variables: Vec<Identifier>,
    pub value: Option<Expression>,
}

pub struct Assignment {
    pub variables: Vec<Identifier>,
    pub value: Expression,
}

pub struct If {
    pub condition: Expression,
    pub body: Block,
}

pub struct Case {
    /// `None` for the `default` case.
    pub literal: Option<Literal>,
    pub body: Block,
}

pub struct Switch {
    pub expression: Expression,
    pub cases: Vec<Case>,
}

pub struct ForLoop {
    pub pre: Block,
    pub condition: Expression,
    pub post: Block,
    pub body: Block,
}

pub enum Statement {
    Block(Block),
    FunctionDefinition(FunctionDefinition),
    VariableDeclaration(VariableDeclaration),
    Assignment(Assignment),
    Expression(Expression),
    If(If),
    Switch(Switch),
    ForLoop(ForLoop),
    Break,
    Continue,
    Leave,
}

pub struct Block {
    pub statements: Vec<Statement>,
}

/// A leaf of the tree: what position queries look at.
pub enum Token {
    Identifier(Identifier),
    Literal(Literal),
}

impl Clone for Token {
    fn clone(&self) -> (r: Self)
        ensures
            r == *self,
    {
        match self {
            Token::Identifier(i) => Token::Identifier(i.clone()),
            Token::Literal(l) => Token::Literal(l.clone()),
        }
    }
}

impl Token {
    pub open spec fn location(self) -> Option<SourceLocation> {
        match self {
            Token::Identifier(i) => i.location,
            Token::Literal(l) => l.location,
        }
    }

    /// Whether this token has a location that holds `offset`.
    pub open spec fn covers(self, offset: int) -> bool {
        match self.location() {
            Some(loc) => loc.spec_contains(offset),
            None => false,
        }
    }

    /// The name of an identifier, the raw text of a literal.
    pub open spec fn text(self) -> Seq<char> {
        match self {
            Token::Identifier(i) => i.name@,
            Token::Literal(l) => l.literal@,
        }
    }

    /// Whether this token is an identifier that refers to the binding `id`.
    pub open spec fn refers_to(self, id: u64) -> bool {
        self matches Token::Identifier(i) && i.role == IdentifierRole::Reference(id)
    }

    /// Whether this token is an identifier that declares the binding `id`.
    pub open spec fn declares(self, id: u64) -> bool {
        self matches Token::Identifier(i) && i.role == IdentifierRole::Declaration(id)
    }
}

/// Whether two ranges share a byte.
pub open spec fn ranges_overlap(a: SourceLocation, b: SourceLocation) -> bool {
    a.start < a.end && b.start < b.end && a.start < b.end && b.start < a.end
}

/// No two distinct tokens of `ts` have ranges that share a byte.
pub open spec fn tokens_disjoint(ts: Seq<Token>) -> bool {
    forall|i: int, j: int|
        0 <= i < ts.len() && 0 <= j < ts.len() && i != j && (#[trigger] ts[i].location()) is Some
            && (#[trigger] ts[j].location()) is Some ==> !ranges_overlap(
            ts[i].location()->0,
            ts[j].location()->0,
        )
}

/// Every binding id is declared by at most one identifier, and every reference
/// has a declaration with its id and its name.
pub open spec fn tokens_scoped(ts: Seq<Token>) -> bool {
    declarations_unique(ts) && references_bound(ts)
}

/// Every binding id is declared by at most one identifier of `ts`.
pub open spec fn declarations_unique(ts: Seq<Token>) -> bool {
    forall|i: int, j: int, id: u64|
        0 <= i < ts.len() && 0 <= j < ts.len() && #[trigger] ts[i].declares(id)
            && #[trigger] ts[j].declares(id) ==> i == j
}

/// Whether some identifier of `ts` declares `id` under the name `name`.
pub open spec fn declared_as(ts: Seq<Token>, id: u64, name: Seq<char>) -> bool {
    exists|j: int| 0 <= j < ts.len() && #[trigger] ts[j].declares(id) && ts[j].text() == name
}

/// Every reference of `ts` has a declaration with its id and its name.
pub open spec fn references_bound(ts: Seq<Token>) -> bool {
    forall|i: int, id: u64|
        0 <= i < ts.len() && #[trigger] ts[i].refers_to(id) ==> declared_as(ts, id, ts[i].text())
}

/// A tree as the parser delivers it: the ranges of its tokens never overlap.
pub open spec fn well_formed(b: Block) -> bool {
    tokens_disjoint(block_tokens(b))
}

/// A tree as scope resolution delivers it: declarations are unique per id and
/// every reference is bound.
pub open spec fn well_scoped(b: Block) -> bool {
    tokens_scoped(block_tokens(b))
}

/// The identifiers of a list, as tokens, in order.
pub open spec fn identifiers_tokens(ids: Seq<Identifier>) -> Seq<Token> {
    ids.map_values(|i: Identifier| Token::Identifier(i))
}

/// The tokens of an expression, in document order.
pub open spec fn expression_tokens(e: Expression) -> Seq<Token>
    decreases e,
{
    match e {
        Expression::Literal(l) => seq![Token::Literal(l)],
        Expression::Identifier(i) => seq![Token::Identifier(i)],
        Expression::FunctionCall(c) => seq![Token::Identifier(c.function_name)]
            + expressions_tokens(c.arguments@),
    }
}

/// The tokens of a list of expressions, in document order.
pub open spec fn expressions_tokens(es: Seq<Expression>) -> Seq<Token>
    decreases es,
{
    if es.len() == 0 {
        seq![]
    } else {
        expressions_tokens(es.drop_last()) + expression_tokens(es.last())
    }
}

/// The tokens of an optional expression.
pub open spec fn option_expression_tokens(e: Option<Expression>) -> Seq<Token> {
    match e {
        Some(e) => expression_tokens(e),
        None => seq![],
    }
}

/// The tokens of a statement, in document order.
pub open spec fn statement_tokens(s: Statement) -> Seq<Token>
    decreases s,
{
    match s {
        Statement::Block(b) => block_tokens(b),
        Statement::FunctionDefinition(f) => seq![Token::Identifier(f.name)]
            + identifiers_tokens(f.parameters@) + identifiers_tokens(f.returns@)
            + block_tokens(f.body),
        Statement::VariableDeclaration(d) => identifiers_tokens(d.variables@)
            + option_expression_tokens(d.value),
        Statement::Assignment(a) => identifiers_tokens(a.variables@) + expression_tokens(a.value),
        Statement::Expression(e) => expression_tokens(e),
        Statement::If(i) => expression_tokens(i.condition) + block_tokens(i.body),
        Statement::Switch(w) => expression_tokens(w.expression) + cases_tokens(w.cases@),
        Statement::ForLoop(f) => block_tokens(f.pre) + expression_tokens(f.condition)
            + block_tokens(f.post) + block_tokens(f.body),
        Statement::Break => seq![],
        Statement::Continue => seq![],
        Statement::Leave => seq![],
    }
}

/// The tokens of the cases of a switch, in document order.
pub open spec fn cases_tokens(cs: Seq<Case>) -> Seq<Token>
    decreases cs,
{
    if cs.len() == 0 {
        seq![]
    } else {
        let c = cs.last();
        let head = match c.literal {
            Some(l) => seq![Token::Literal(l)],
            None => seq![],
        };
        cases_tokens(cs.drop_last()) + head + block_tokens(c.body)
    }
}

/// The tokens of a list of statements, in document order.
pub open spec fn statements_tokens(ss: Seq<Statement>) -> Seq<Token>
    decreases ss,
{
    if ss.len() == 0 {
        seq![]
    } else {
        statements_tokens(ss.drop_last()) + statement_tokens(ss.last())
    }
}

/// The tokens of a block, in document order: every identifier and literal of
/// the tree under it.
pub open spec fn block_tokens(b: Block) -> Seq<Token>
    decreases b,
{
    statements_tokens(b.statements@)
}

/// Appends the identifiers of a list, as tokens.
fn walk_identifiers(ids: &Vec<Identifier>, out: &mut Vec<Token>)
    ensures
        final(out)@ == old(out)@ + identifiers_tokens(ids@),
{
    let ghost start = out@;
    let mut i: usize = 0;
    while i < ids.len()
        invariant
            i <= ids.len(),
            out@ == start + identifiers_tokens(ids@.take(i as int)),
        decreases ids.len() - i,
    {
        out.push(Token::Identifier(ids[i].clone()));
        proof {
            assert(identifiers_tokens(ids@.take(i + 1)) =~= identifiers_tokens(ids@.take(i as int))
                .push(Token::Identifier(ids@[i as int])));
        }
        i = i + 1;
    }
    assert(ids@.take(ids.len() as int) =~= ids@);
}

/// Appends the tokens of an expression.
fn walk_expression(e: &Expression, out: &mut Vec<Token>)
    ensures
        final(out)@ == old(out)@ + expression_tokens(*e),
    decreases e,
{
    match e {
        Expression::Literal(l) => {
            out.push(Token::Literal(l.clone()));
        },
        Expression::Identifier(i) => {
            out.push(Token::Identifier(i.clone()));
        },
        Expression::FunctionCall(c) => {
            out.push(Token::Identifier(c.function_name.clone()));
            walk_expressions(&c.arguments, out);
        },
    }
}

/// Appends the tokens of a list of expressions.
fn walk_expressions(es: &Vec<Expression>, out: &mut Vec<Token>)
    ensures
        final(out)@ == old(out)@ + expressions_tokens(es@),
    decreases es,
{
    let ghost start = out@;
    let mut i: usize = 0;
    while i < es.len()
        invariant
            i <= es.len(),
            out@ == start + expressions_tokens(es@.take(i as int)),
        decreases es.len() - i,
    {
        walk_expression(&es[i], out);
        proof {
            assert(es@.take(i + 1).drop_last() =~= es@.take(i as int));
        }
        i = i + 1;
    }
    assert(es@.take(es.len() as int) =~= es@);
}

/// Appends the tokens of a statement.
fn walk_statement(s: &Statement, out: &mut Vec<Token>)
    ensures
        final(out)@ == old(out)@ + statement_tokens(*s),
    decreases s,
{
    match s {
        Statement::Block(b) => {
            walk_block(b, out);
        },
        Statement::FunctionDefinition(f) => {
            out.push(Token::Identifier(f.name.clone()));
            walk_identifiers(&f.parameters, out);
            walk_identifiers(&f.returns, out);
            walk_block(&f.body, out);
        },
        Statement::VariableDeclaration(d) => {
            walk_identifiers(&d.variables, out);
            match &d.value {
                Some(e) => walk_expression(e, out),
                None => {},
            }
        },
        Statement::Assignment(a) => {
            walk_identifiers(&a.variables, out);
            walk_expression(&a.value, out);
        },
        Statement::Expression(e) => {
            walk_expression(e, out);
        },
        Statement::If(i) => {
            walk_expression(&i.condition, out);
            walk_block(&i.body, out);
        },
        Statement::Switch(w) => {
            walk_expression(&w.expression, out);
            walk_cases(&w.cases, out);
        },
        Statement::ForLoop(f) => {
            walk_block(&f.pre, out);
            walk_expression(&f.condition, out);
            walk_block(&f.post, out);
            walk_block(&f.body, out);
        },
        Statement::Break => {},
        Statement::Continue => {},
        Statement::Leave => {},
    }
}

/// Appends the tokens of the cases of a switch.
fn walk_cases(cs: &Vec<Case>, out: &mut Vec<Token>)
    ensures
        final(out)@ == old(out)@ + cases_tokens(cs@),
    decreases cs,
{
    let ghost start = out@;
    let mut i: usize = 0;
    while i < cs.len()
        invariant
            i <= cs.len(),
            out@ == start + cases_tokens(cs@.take(i as int)),
        decreases cs.len() - i,
    {
        let c = &cs[i];
        match &c.literal {
            Some(l) => out.push(Token::Literal(l.clone())),
            None => {},
        }
        walk_block(&c.body, out);
        proof {
            assert(cs@.take(i + 1).drop_last() =~= cs@.take(i as int));
        }
        i = i + 1;
    }
    assert(cs@.take(cs.len() as int) =~= cs@);
}

/// Appends the tokens of a block.
fn walk_block(b: &Block, out: &mut Vec<Token>)
    ensures
        final(out)@ == old(out)@ + block_tokens(*b),
    decreases b,
{
    let ghost start = out@;
    let mut i: usize = 0;
    while i < b.statements.len()
        invariant
            i <= b.statements.len(),
            out@ == start + statements_tokens(b.statements@.take(i as int)),
        decreases b.statements.len() - i,
    {
        walk_statement(&b.statements[i], out);
        proof {
            assert(b.statements@.take(i + 1).drop_last() =~= b.statements@.take(i as int));
        }
        i = i + 1;
    }
    assert(b.statements@.take(b.statements.len() as int) =~= b.statements@);
}

impl Block {
    pub fn new(statements: Vec<Statement>) -> (r: Block)
        ensures
            r.statements == statements,
    {
        Block { statements }
    }

    /// Every identifier and literal of the tree, in document order.
    pub fn tokens(&self) -> (r: Vec<Token>)
        ensures
            r@ == block_tokens(*self),
    {
        let mut out: Vec<Token> = Vec::new();
        walk_block(self, &mut out);
        assert(out@ =~= block_tokens(*self));
        out
    }
}

} // verus!
