use yul_lsp::ast::{AstInvariantViolation, Identifier, IdentifierRole, Literal, SourceLocation};
use yul_lsp::definition_finder::DefinitionFinder;
use yul_lsp::identifier_finder::IdentifierFinder;
use yul_lsp::literal_finder::{LiteralFinder, LiteralKind};

fn ident(name: &str, role: IdentifierRole, start: usize, end: usize) -> Identifier {
    Identifier::new(name.to_string(), role, Some(SourceLocation::new(start, end)))
}

#[test]
fn between_is_half_open() {
    let finder = LiteralFinder::new(5, LiteralKind::Selector);
    assert!(finder.between(&SourceLocation::new(5, 6)));
    assert!(finder.between(&SourceLocation::new(0, 10)));
    assert!(!finder.between(&SourceLocation::new(0, 5)));
    assert!(!finder.between(&SourceLocation::new(6, 10)));
    assert!(!finder.between(&SourceLocation::new(5, 5)));
}

#[test]
fn literal_finder_records_one_match() {
    let mut finder = LiteralFinder::new(25, LiteralKind::Selector);
    let far = Literal::new("0x70a08231".to_string(), Some(SourceLocation::new(0, 10)));
    assert_eq!(finder.visit_literal(&far), Ok(()));
    assert!(finder.found_literal.is_none());
    let here = Literal::new("0x70a08231".to_string(), Some(SourceLocation::new(20, 30)));
    assert_eq!(finder.visit_literal(&here), Ok(()));
    assert_eq!(finder.found_literal.as_ref().unwrap().location, Some(SourceLocation::new(20, 30)));
    assert_eq!(finder.visit_literal(&here), Err(AstInvariantViolation::OverlappingLiterals));
}

#[test]
fn identifier_finder_records_one_match() {
    let mut finder = IdentifierFinder::new(3);
    assert_eq!(finder.visit_identifier(&ident("x", IdentifierRole::Declaration(1), 0, 2)), Ok(()));
    assert!(finder.found_identifier.is_none());
    assert_eq!(finder.visit_identifier(&ident("yy", IdentifierRole::Reference(1), 2, 4)), Ok(()));
    assert_eq!(finder.found_identifier.as_ref().unwrap().name, "yy");
    assert_eq!(
        finder.visit_identifier(&ident("z", IdentifierRole::BuiltinReference, 3, 4)),
        Err(AstInvariantViolation::OverlappingIdentifiers)
    );
    assert_eq!(finder.found_identifier.as_ref().unwrap().name, "yy");
}

#[test]
fn definition_finder_records_the_declaration() {
    let mut finder = DefinitionFinder::new(7);
    assert_eq!(finder.visit_identifier(&ident("v", IdentifierRole::Reference(7), 0, 1)), Ok(()));
    assert_eq!(finder.visit_identifier(&ident("w", IdentifierRole::Declaration(8), 2, 3)), Ok(()));
    assert!(finder.found_identifier.is_none());
    assert_eq!(finder.visit_identifier(&ident("v", IdentifierRole::Declaration(7), 4, 5)), Ok(()));
    assert_eq!(finder.found_identifier.as_ref().unwrap().location, Some(SourceLocation::new(4, 5)));
    assert_eq!(
        finder.visit_identifier(&ident("v", IdentifierRole::Declaration(7), 6, 7)),
        Err(AstInvariantViolation::DuplicateDeclaration(7))
    );
}
