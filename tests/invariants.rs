use yul_lsp::ast::{
    Assignment, AstInvariantViolation, Block, Expression, FunctionDefinition, Identifier,
    IdentifierRole, SourceLocation, Statement, VariableDeclaration,
};
use yul_lsp::definition_finder::find_definition;
use yul_lsp::invariants::{check_layout, check_scoping};

fn ident(name: &str, role: IdentifierRole, start: usize, end: usize) -> Identifier {
    Identifier::new(name.to_string(), role, Some(SourceLocation::new(start, end)))
}

fn declare(name: &str, id: u64, start: usize) -> Statement {
    Statement::VariableDeclaration(VariableDeclaration {
        variables: vec![ident(name, IdentifierRole::Declaration(id), start, start + name.len())],
        value: None,
    })
}

fn use_of(name: &str, id: u64, start: usize) -> Statement {
    Statement::Expression(Expression::Identifier(ident(
        name,
        IdentifierRole::Reference(id),
        start,
        start + name.len(),
    )))
}

/// A generated well-scoped program: `depth` nested functions, each declaring
/// `width` variables and then using every variable declared so far.
fn generated(depth: usize, width: usize) -> (Block, Vec<(usize, u64, String)>) {
    let mut next_id: u64 = 0;
    let mut offset: usize = 0;
    let mut declared: Vec<(u64, String, usize)> = Vec::new();
    let mut uses: Vec<(usize, u64, String)> = Vec::new();
    let mut levels: Vec<(Identifier, Vec<Statement>)> = Vec::new();
    for level in 0..depth {
        let name = format!("f{}", level);
        let f = ident(&name, IdentifierRole::Declaration(next_id), offset, offset + name.len());
        next_id += 1;
        offset += 10;
        let mut body = Vec::new();
        for k in 0..width {
            let v = format!("v{}_{}", level, k);
            body.push(declare(&v, next_id, offset));
            declared.push((next_id, v, offset));
            next_id += 1;
            offset += 10;
        }
        for (id, v, _) in declared.iter() {
            body.push(use_of(v, *id, offset));
            uses.push((offset, *id, v.clone()));
            offset += 10;
        }
        levels.push((f, body));
    }
    let mut inner: Vec<Statement> = Vec::new();
    while let Some((f, mut body)) = levels.pop() {
        body.extend(inner);
        inner = vec![Statement::FunctionDefinition(FunctionDefinition {
            name: f,
            parameters: vec![],
            returns: vec![],
            body: Block::new(body),
        })];
    }
    (Block::new(inner), uses)
}

#[test]
fn generated_programs_declare_each_id_once() {
    for depth in 1..4usize {
        for width in 0..4usize {
            let (ast, uses) = generated(depth, width);
            assert_eq!(check_scoping(&ast), Ok(()));
            assert_eq!(check_layout(&ast), Ok(()));
            for (offset, id, name) in uses {
                let def = find_definition(&ast, offset).unwrap().unwrap();
                assert_eq!(def.role, IdentifierRole::Declaration(id));
                assert_eq!(def.name, name);
            }
        }
    }
}

#[test]
fn duplicate_declaration_fails_the_scoping_check() {
    let ast = Block::new(vec![declare("a", 4, 0), declare("b", 4, 10)]);
    assert_eq!(check_scoping(&ast), Err(AstInvariantViolation::DuplicateDeclaration(4)));
}

#[test]
fn unbound_reference_fails_the_scoping_check() {
    let ast = Block::new(vec![declare("a", 1, 0), use_of("b", 2, 10)]);
    assert_eq!(check_scoping(&ast), Err(AstInvariantViolation::MissingDeclaration(2)));
}

#[test]
fn reference_with_another_name_fails_the_scoping_check() {
    let ast = Block::new(vec![declare("a", 1, 0), use_of("b", 1, 10)]);
    assert_eq!(check_scoping(&ast), Err(AstInvariantViolation::MissingDeclaration(1)));
}

#[test]
fn empty_tree_passes_both_checks() {
    let ast = Block::new(vec![]);
    assert_eq!(check_scoping(&ast), Ok(()));
    assert_eq!(check_layout(&ast), Ok(()));
}

#[test]
fn overlapping_ranges_fail_the_layout_check() {
    let ast = Block::new(vec![
        Statement::Assignment(Assignment {
            variables: vec![ident("abc", IdentifierRole::UnresolvedReference, 0, 3)],
            value: Expression::Identifier(ident("bcd", IdentifierRole::UnresolvedReference, 2, 5)),
        }),
    ]);
    assert_eq!(check_layout(&ast), Err(AstInvariantViolation::OverlappingTokens));
}

#[test]
fn adjacent_and_empty_ranges_pass_the_layout_check() {
    let ast = Block::new(vec![
        Statement::Expression(Expression::Identifier(ident("ab", IdentifierRole::UnresolvedReference, 0, 2))),
        Statement::Expression(Expression::Identifier(ident("cd", IdentifierRole::UnresolvedReference, 2, 4))),
        Statement::Expression(Expression::Identifier(ident("", IdentifierRole::UnresolvedReference, 1, 1))),
    ]);
    assert_eq!(check_layout(&ast), Ok(()));
}
