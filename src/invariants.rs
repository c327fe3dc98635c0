use crate::ast::{
    block_tokens, declarations_unique, declared_as, ranges_overlap, references_bound,
    tokens_disjoint, well_formed, well_scoped, AstInvariantViolation, Block, IdentifierRole, SourceLocation, Token,
};
use vstd::prelude::*;

verus! {

/// Checks that each binding id is declared at most once and that every
/// reference has a declaration with its id and its name. The error names the
/// first id found declared twice, or else the id of the first reference left
/// without such a declaration.
pub fn check_scoping(ast: &Block) -> (r: Result<(), AstInvariantViolation>)
    ensures
        r is Ok <==> well_scoped(*ast),
        r matches Err(e) ==> (e is DuplicateDeclaration || e is MissingDeclaration),
        r matches Err(AstInvariantViolation::DuplicateDeclaration(_)) ==> !declarations_unique(
            block_tokens(*ast),
        ),
        r matches Err(AstInvariantViolation::MissingDeclaration(_)) ==> !references_bound(
            block_tokens(*ast),
        ),
{
    let tokens = ast.tokens();
    let ghost ts = tokens@;
    let n = tokens.len();
    let mut j: usize = 0;
    while j < n
        invariant
            j <= n,
            n == ts.len(),
            ts == tokens@,
            ts == block_tokens(*ast),
            forall|a: int, b: int, id: u64|
                0 <= a < j && 0 <= b < j && #[trigger] ts[a].declares(id) && #[trigger] ts[b].declares(id)
                    ==> a == b,
        decreases n - j,
    {
        if let Token::Identifier(d) = &tokens[j] {
            if let IdentifierRole::Declaration(id) = d.role {
                let mut i: usize = 0;
                while i < j
                    invariant
                        i <= j < n,
                        n == ts.len(),
                        ts == tokens@,
                        ts == block_tokens(*ast),
                        ts[j as int].declares(id),
                        forall|a: int| 0 <= a < i ==> !(#[trigger] ts[a]).declares(id),
                    decreases j - i,
                {
                    if let Token::Identifier(e) = &tokens[i] {
                        if e.role == IdentifierRole::Declaration(id) {
                            assert(ts[i as int].declares(id) && ts[j as int].declares(id));
                            assert(!declarations_unique(ts));
                            return Err(AstInvariantViolation::DuplicateDeclaration(id));
                        }
                    }
                    i = i + 1;
                }
                assert forall|a: int, b: int, k: u64|
                    0 <= a < j + 1 && 0 <= b < j + 1 && #[trigger] ts[a].declares(k)
                        && #[trigger] ts[b].declares(k) implies a == b by {
                    if a == j && b < j {
                        assert(k == id);
                    }
                    if b == j && a < j {
                        assert(k == id);
                    }
                }
            }
        }
        j = j + 1;
    }
    assert(declarations_unique(ts));

    let mut i: usize = 0;
    while i < n
        invariant
            i <= n,
            n == ts.len(),
            ts == tokens@,
            ts == block_tokens(*ast),
            declarations_unique(ts),
            forall|a: int, id: u64|
                0 <= a < i && #[trigger] ts[a].refers_to(id) ==> declared_as(ts, id, ts[a].text()),
        decreases n - i,
    {
        if let Token::Identifier(r) = &tokens[i] {
            if let IdentifierRole::Reference(id) = r.role {
                let mut found = false;
                let mut k: usize = 0;
                while k < n
                    invariant
                        k <= n,
                        i < n,
                        n == ts.len(),
                        ts == tokens@,
                        ts == block_tokens(*ast),
                        ts[i as int] == Token::Identifier(*r),
                        r.role == IdentifierRole::Reference(id),
                        found ==> declared_as(ts, id, ts[i as int].text()),
                        !found ==> forall|b: int|
                            0 <= b < k ==> !(#[trigger] ts[b].declares(id) && ts[b].text()
                                == ts[i as int].text()),
                    decreases n - k,
                {
                    if let Token::Identifier(d) = &tokens[k] {
                        if d.role == IdentifierRole::Declaration(id) && d.name == r.name {
                            assert(ts[k as int].declares(id) && ts[k as int].text() == ts[i as int].text());
                            found = true;
                        }
                    }
                    k = k + 1;
                }
                if !found {
                    assert(!declared_as(ts, id, ts[i as int].text()));
                    assert(ts[i as int].refers_to(id));
                    assert(!references_bound(ts));
                    return Err(AstInvariantViolation::MissingDeclaration(id));
                }
            }
        }
        i = i + 1;
    }
    Ok(())
}

/// Whether two ranges share a byte.
fn overlaps(a: SourceLocation, b: SourceLocation) -> (r: bool)
    ensures
        r == ranges_overlap(a, b),
{
    a.start < a.end && b.start < b.end && a.start < b.end && b.start < a.end
}

/// Checks that no two tokens of the tree have ranges that share a byte.
pub fn check_layout(ast: &Block) -> (r: Result<(), AstInvariantViolation>)
    ensures
        r is Ok <==> well_formed(*ast),
        r is Err ==> r == Err::<(), AstInvariantViolation>(AstInvariantViolation::OverlappingTokens),
{
    let tokens = ast.tokens();
    let ghost ts = tokens@;
    let n = tokens.len();
    let mut j: usize = 0;
    while j < n
        invariant
            j <= n,
            n == ts.len(),
            ts == tokens@,
            ts == block_tokens(*ast),
            forall|a: int, b: int|
                0 <= a < j && 0 <= b < j && a != b && (#[trigger] ts[a].location()) is Some
                    && (#[trigger] ts[b].location()) is Some ==> !ranges_overlap(
                    ts[a].location()->0,
                    ts[b].location()->0,
                ),
        decreases n - j,
    {
        let here = match &tokens[j] {
            Token::Identifier(i) => i.location,
            Token::Literal(l) => l.location,
        };
        if let Some(b) = here {
            let mut i: usize = 0;
            while i < j
                invariant
                    i <= j < n,
                    n == ts.len(),
                    ts == tokens@,
                    ts == block_tokens(*ast),
                    ts[j as int].location() == Some(b),
                    forall|a: int|
                        0 <= a < i && (#[trigger] ts[a].location()) is Some ==> !ranges_overlap(
                            ts[a].location()->0,
                            b,
                        ),
                decreases j - i,
            {
                let there = match &tokens[i] {
                    Token::Identifier(x) => x.location,
                    Token::Literal(x) => x.location,
                };
                if let Some(a) = there {
                    if overlaps(a, b) {
                        assert(ts[i as int].location() is Some && ts[j as int].location() is Some);
                        assert(!tokens_disjoint(ts));
                        return Err(AstInvariantViolation::OverlappingTokens);
                    }
                }
                i = i + 1;
            }
        }
        assert forall|a: int, c: int|
            0 <= a < j + 1 && 0 <= c < j + 1 && a != c && (#[trigger] ts[a].location()) is Some
                && (#[trigger] ts[c].location()) is Some implies !ranges_overlap(
            ts[a].location()->0,
            ts[c].location()->0,
        ) by {
            if a == j || c == j {
                let x = ts[a].location()->0;
                let y = ts[c].location()->0;
                assert(ranges_overlap(x, y) == ranges_overlap(y, x));
            }
        }
        j = j + 1;
    }
    Ok(())
}

} // verus!
