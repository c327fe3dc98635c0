use crate::ast::{
    block_tokens, declarations_unique, well_formed, well_scoped, AstInvariantViolation, Block,
    Identifier, IdentifierRole, Token,
};
use crate::identifier_finder::{
    find_identifier, identifier_at, lemma_locate_inside, lemma_locate_never_overlaps,
};
use vstd::prelude::*;

verus! {

/// The identifiers among `ts` that declare the binding `id`, in order.
pub open spec fn declaration_hits(ts: Seq<Token>, id: u64) -> Seq<Identifier>
    decreases ts.len(),
{
    if ts.len() == 0 {
        seq![]
    } else {
        let rest = declaration_hits(ts.drop_last(), id);
        match ts.last() {
            Token::Identifier(i) => if i.role == IdentifierRole::Declaration(id) {
                rest.push(i)
            } else {
                rest
            },
            Token::Literal(_) => rest,
        }
    }
}

/// The declaration of the binding `id` in `ast`, or the violation when there is
/// none or more than one.
pub open spec fn declaration_of(ast: Block, id: u64) -> Result<
    Option<Identifier>,
    AstInvariantViolation,
> {
    let hits = declaration_hits(block_tokens(ast), id);
    if hits.len() == 1 {
        Ok(Some(hits[0]))
    } else if hits.len() == 0 {
        Err(AstInvariantViolation::MissingDeclaration(id))
    } else {
        Err(AstInvariantViolation::DuplicateDeclaration(id))
    }
}

/// Where "go to definition" at `offset` leads: a declaration under the cursor
/// is its own definition, a reference leads to the declaration with its id,
/// and a built-in or unresolved name, or no identifier at all, leads nowhere.
pub open spec fn definition_at(ast: Block, offset: int) -> Result<
    Option<Identifier>,
    AstInvariantViolation,
> {
    match identifier_at(ast, offset) {
        Err(e) => Err(e),
        Ok(None) => Ok(None),
        Ok(Some(found)) => match found.role {
            IdentifierRole::Declaration(_) => Ok(Some(found)),
            IdentifierRole::Reference(id) => declaration_of(ast, id),
            IdentifierRole::BuiltinReference => Ok(None),
            IdentifierRole::UnresolvedReference => Ok(None),
        },
    }
}

/// The hits of a prefix are no more than the hits of the whole.
pub proof fn lemma_declaration_hits_prefix(ts: Seq<Token>, j: int, id: u64)
    requires
        0 <= j <= ts.len(),
    ensures
        declaration_hits(ts.take(j), id).len() <= declaration_hits(ts, id).len(),
    decreases ts.len(),
{
    if j == ts.len() {
        assert(ts.take(j) =~= ts);
    } else {
        assert(ts.drop_last().take(j) =~= ts.take(j));
        lemma_declaration_hits_prefix(ts.drop_last(), j, id);
    }
}

/// Visitor state of the search for the declaration of one binding.
pub struct DefinitionFinder {
    pub reference_id: u64,
    pub found_identifier: Option<Identifier>,
}

impl DefinitionFinder {
    pub fn new(reference_id: u64) -> (r: DefinitionFinder)
        ensures
            r.reference_id == reference_id,
            r.found_identifier is None,
    {
        DefinitionFinder { reference_id, found_identifier: None }
    }

    /// Takes in the next identifier in document order. A declaration of the
    /// binding is recorded; a second one is a violation, and leaves the state
    /// as it was.
    pub fn visit_identifier(&mut self, identifier: &Identifier) -> (r: Result<
        (),
        AstInvariantViolation,
    >)
        ensures
            final(self).reference_id == old(self).reference_id,
            identifier.role != IdentifierRole::Declaration(old(self).reference_id) ==> r is Ok
                && *final(self) == *old(self),
            identifier.role == IdentifierRole::Declaration(old(self).reference_id)
                && old(self).found_identifier is Some ==> r == Err::<(), AstInvariantViolation>(
                AstInvariantViolation::DuplicateDeclaration(old(self).reference_id),
            ) && *final(self) == *old(self),
            identifier.role == IdentifierRole::Declaration(old(self).reference_id)
                && old(self).found_identifier is None ==> r is Ok && final(self).found_identifier
                == Some(*identifier),
    {
        if identifier.role == IdentifierRole::Declaration(self.reference_id) {
            if self.found_identifier.is_some() {
                return Err(AstInvariantViolation::DuplicateDeclaration(self.reference_id));
            }
            self.found_identifier = Some(identifier.clone());
        }
        Ok(())
    }
}

/// Runs a `DefinitionFinder` over every identifier of the tree, in document
/// order, to find the single declaration of the binding `id`.
pub fn find_declaration(ast: &Block, id: u64) -> (r: Result<Option<Identifier>, AstInvariantViolation>)
    ensures
        r == declaration_of(*ast, id),
{
    let tokens = ast.tokens();
    let mut finder = DefinitionFinder::new(id);
    let mut i: usize = 0;
    while i < tokens.len()
        invariant
            i <= tokens.len(),
            tokens@ == block_tokens(*ast),
            finder.reference_id == id,
            declaration_hits(tokens@.take(i as int), id).len() <= 1,
            declaration_hits(tokens@.take(i as int), id).len() == 0
                ==> finder.found_identifier is None,
            declaration_hits(tokens@.take(i as int), id).len() == 1
                ==> finder.found_identifier == Some(
                declaration_hits(tokens@.take(i as int), id)[0],
            ),
        decreases tokens.len() - i,
    {
        proof {
            assert(tokens@.take(i + 1).drop_last() =~= tokens@.take(i as int));
        }
        if let Token::Identifier(ident) = &tokens[i] {
            if let Err(e) = finder.visit_identifier(ident) {
                proof {
                    lemma_declaration_hits_prefix(tokens@, i + 1, id);
                }
                return Err(e);
            }
        }
        i = i + 1;
    }
    assert(tokens@.take(tokens.len() as int) =~= tokens@);
    match finder.found_identifier {
        Some(d) => Ok(Some(d)),
        None => Err(AstInvariantViolation::MissingDeclaration(id)),
    }
}

/// Finds the declaration that binds the identifier at `cursor_position`.
pub fn find_definition(ast: &Block, cursor_position: usize) -> (r: Result<
    Option<Identifier>,
    AstInvariantViolation,
>)
    ensures
        r == definition_at(*ast, cursor_position as int),
        r matches Ok(Some(d)) ==> d.role is Declaration,
{
    match find_identifier(ast, cursor_position) {
        Err(e) => Err(e),
        Ok(None) => Ok(None),
        Ok(Some(found)) => match found.role {
            IdentifierRole::Declaration(_) => Ok(Some(found)),
            IdentifierRole::Reference(id) => {
                let r = find_declaration(ast, id);
                proof {
                    lemma_declaration_hit_role(block_tokens(*ast), id);
                }
                r
            },
            IdentifierRole::BuiltinReference => Ok(None),
            IdentifierRole::UnresolvedReference => Ok(None),
        },
    }
}

/// Every declaration hit for `id` declares `id`.
pub proof fn lemma_declaration_hit_role(ts: Seq<Token>, id: u64)
    ensures
        forall|j: int|
            0 <= j < declaration_hits(ts, id).len() ==> #[trigger] declaration_hits(ts, id)[j].role
                == IdentifierRole::Declaration(id),
    decreases ts.len(),
{
    if ts.len() > 0 {
        lemma_declaration_hit_role(ts.drop_last(), id);
    }
}

/// Where no token declares `id`, there is no declaration hit.
proof fn lemma_declaration_hits_none(ts: Seq<Token>, id: u64)
    requires
        forall|i: int| 0 <= i < ts.len() ==> !(#[trigger] ts[i]).declares(id),
    ensures
        declaration_hits(ts, id).len() == 0,
    decreases ts.len(),
{
    if ts.len() > 0 {
        assert(!ts[ts.len() - 1].declares(id));
        lemma_declaration_hits_none(ts.drop_last(), id);
    }
}

/// Where one token alone declares `id`, it is the one declaration hit.
proof fn lemma_declaration_hits_single(ts: Seq<Token>, j: int, d: Identifier, id: u64)
    requires
        0 <= j < ts.len(),
        ts[j] == Token::Identifier(d),
        d.role == IdentifierRole::Declaration(id),
        forall|i: int| 0 <= i < ts.len() && i != j ==> !(#[trigger] ts[i]).declares(id),
    ensures
        declaration_hits(ts, id) == seq![d],
    decreases ts.len(),
{
    let last = ts.len() - 1;
    if j == last {
        assert forall|i: int| 0 <= i < ts.drop_last().len() implies !(
        #[trigger] ts.drop_last()[i]).declares(id) by {
            assert(ts.drop_last()[i] == ts[i]);
        }
        lemma_declaration_hits_none(ts.drop_last(), id);
        assert(declaration_hits(ts, id) =~= seq![d]);
    } else {
        assert(!ts[last].declares(id));
        lemma_declaration_hits_single(ts.drop_last(), j, d, id);
    }
}

/// In a tree where each id is declared at most once (as in every well-scoped
/// tree), an id that some identifier declares is declared by exactly that one
/// identifier, and the declaration search finds it without a violation.
pub proof fn lemma_declaration_unique(ast: Block, j: int, d: Identifier, id: u64)
    requires
        declarations_unique(block_tokens(ast)),
        0 <= j < block_tokens(ast).len(),
        block_tokens(ast)[j] == Token::Identifier(d),
        d.role == IdentifierRole::Declaration(id),
    ensures
        declaration_hits(block_tokens(ast), id) == seq![d],
        declaration_of(ast, id) == Ok::<Option<Identifier>, AstInvariantViolation>(Some(d)),
{
    let ts = block_tokens(ast);
    assert(ts[j].declares(id));
    lemma_declaration_hits_single(ts, j, d, id);
}

/// In a well-formed tree, going to the definition from a declaration stays on
/// that same declaration.
pub proof fn lemma_definition_of_declaration(ast: Block, k: int, d: Identifier, offset: int)
    requires
        well_formed(ast),
        0 <= k < block_tokens(ast).len(),
        block_tokens(ast)[k] == Token::Identifier(d),
        d.covers(offset),
        d.role is Declaration,
    ensures
        definition_at(ast, offset) == Ok::<Option<Identifier>, AstInvariantViolation>(Some(d)),
{
    lemma_locate_inside(ast, k, d, offset);
}

/// In a well-formed, well-scoped tree, going to the definition from a reference
/// to `id` leads to a declaration of `id` with the reference's name.
pub proof fn lemma_definition_of_reference(ast: Block, k: int, r: Identifier, id: u64, offset: int)
    requires
        well_formed(ast),
        well_scoped(ast),
        0 <= k < block_tokens(ast).len(),
        block_tokens(ast)[k] == Token::Identifier(r),
        r.covers(offset),
        r.role == IdentifierRole::Reference(id),
    ensures
        definition_at(ast, offset) matches Ok(Some(d)) && d.role == IdentifierRole::Declaration(id)
            && d.name@ == r.name@,
{
    let ts = block_tokens(ast);
    lemma_locate_inside(ast, k, r, offset);
    assert(ts[k].refers_to(id));
    let j = choose|j: int| 0 <= j < ts.len() && #[trigger] ts[j].declares(id) && ts[j].text() == ts[k].text();
    let d = ts[j]->Identifier_0;
    lemma_declaration_unique(ast, j, d, id);
}

/// In a well-formed, well-scoped tree, going to the definition never reports a
/// violation, at any offset.
pub proof fn lemma_definition_never_fails(ast: Block, offset: int)
    requires
        well_formed(ast),
        well_scoped(ast),
    ensures
        definition_at(ast, offset) is Ok,
{
    lemma_locate_never_overlaps(ast, offset);
    if let Ok(Some(r)) = identifier_at(ast, offset) {
        if let IdentifierRole::Reference(id) = r.role {
            let k = choose|k: int|
                0 <= k < block_tokens(ast).len() && block_tokens(ast)[k] == Token::Identifier(r)
                    && r.covers(offset);
            lemma_definition_of_reference(ast, k, r, id, offset);
        }
    }
}

} // verus!
