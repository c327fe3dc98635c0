use crate::ast::{
    block_tokens, ranges_overlap, tokens_disjoint, well_formed, AstInvariantViolation, Block,
    Identifier, Token,
};
use vstd::prelude::*;

verus! {

/// The identifiers among `ts` whose range holds `offset`, in order.
pub open spec fn identifier_hits(ts: Seq<Token>, offset: int) -> Seq<Identifier>
    decreases ts.len(),
{
    if ts.len() == 0 {
        seq![]
    } else {
        let rest = identifier_hits(ts.drop_last(), offset);
        match ts.last() {
            Token::Identifier(i) => if i.covers(offset) {
                rest.push(i)
            } else {
                rest
            },
            Token::Literal(_) => rest,
        }
    }
}

/// The identifier of `ast` under `offset`: none when no range holds it, the one
/// whose range does, and a violation when several do.
pub open spec fn identifier_at(ast: Block, offset: int) -> Result<
    Option<Identifier>,
    AstInvariantViolation,
> {
    let hits = identifier_hits(block_tokens(ast), offset);
    if hits.len() == 0 {
        Ok(None)
    } else if hits.len() == 1 {
        Ok(Some(hits[0]))
    } else {
        Err(AstInvariantViolation::OverlappingIdentifiers)
    }
}

/// The hits of a prefix are no more than the hits of the whole.
pub proof fn lemma_identifier_hits_prefix(ts: Seq<Token>, j: int, offset: int)
    requires
        0 <= j <= ts.len(),
    ensures
        identifier_hits(ts.take(j), offset).len() <= identifier_hits(ts, offset).len(),
    decreases ts.len(),
{
    if j == ts.len() {
        assert(ts.take(j) =~= ts);
    } else {
        assert(ts.drop_last().take(j) =~= ts.take(j));
        lemma_identifier_hits_prefix(ts.drop_last(), j, offset);
    }
}

/// Visitor state of the search for the identifier under a cursor.
pub struct IdentifierFinder {
    pub cursor_location: usize,
    pub found_identifier: Option<Identifier>,
}

impl IdentifierFinder {
    pub fn new(cursor_location: usize) -> (r: IdentifierFinder)
        ensures
            r.cursor_location == cursor_location,
            r.found_identifier is None,
    {
        IdentifierFinder { cursor_location, found_identifier: None }
    }

    /// Takes in the next identifier in document order. One whose range holds
    /// the cursor is recorded; a second one is a violation, and leaves the
    /// state as it was.
    pub fn visit_identifier(&mut self, identifier: &Identifier) -> (r: Result<
        (),
        AstInvariantViolation,
    >)
        ensures
            final(self).cursor_location == old(self).cursor_location,
            !identifier.covers(old(self).cursor_location as int) ==> r is Ok && *final(self)
                == *old(self),
            identifier.covers(old(self).cursor_location as int) && old(self).found_identifier is Some
                ==> r == Err::<(), AstInvariantViolation>(
                AstInvariantViolation::OverlappingIdentifiers,
            ) && *final(self) == *old(self),
            identifier.covers(old(self).cursor_location as int) && old(self).found_identifier is None
                ==> r is Ok && final(self).found_identifier == Some(*identifier),
    {
        let hit = match &identifier.location {
            Some(location) => location.contains(self.cursor_location),
            None => false,
        };
        if hit {
            if self.found_identifier.is_some() {
                return Err(AstInvariantViolation::OverlappingIdentifiers);
            }
            self.found_identifier = Some(identifier.clone());
        }
        Ok(())
    }
}

/// Finds the identifier whose range holds `cursor_position`.
pub fn find_identifier(ast: &Block, cursor_position: usize) -> (r: Result<
    Option<Identifier>,
    AstInvariantViolation,
>)
    ensures
        r == identifier_at(*ast, cursor_position as int),
{
    let tokens = ast.tokens();
    let ghost offset = cursor_position as int;
    let mut finder = IdentifierFinder::new(cursor_position);
    let mut i: usize = 0;
    while i < tokens.len()
        invariant
            i <= tokens.len(),
            tokens@ == block_tokens(*ast),
            offset == cursor_position as int,
            finder.cursor_location == cursor_position,
            identifier_hits(tokens@.take(i as int), offset).len() <= 1,
            identifier_hits(tokens@.take(i as int), offset).len() == 0
                ==> finder.found_identifier is None,
            identifier_hits(tokens@.take(i as int), offset).len() == 1
                ==> finder.found_identifier == Some(
                identifier_hits(tokens@.take(i as int), offset)[0],
            ),
        decreases tokens.len() - i,
    {
        proof {
            assert(tokens@.take(i + 1).drop_last() =~= tokens@.take(i as int));
        }
        if let Token::Identifier(id) = &tokens[i] {
            if let Err(e) = finder.visit_identifier(id) {
                proof {
                    lemma_identifier_hits_prefix(tokens@, i + 1, offset);
                }
                return Err(e);
            }
        }
        i = i + 1;
    }
    assert(tokens@.take(tokens.len() as int) =~= tokens@);
    Ok(finder.found_identifier)
}

/// Where no token holds `offset`, no identifier is hit.
pub proof fn lemma_identifier_hits_none(ts: Seq<Token>, offset: int)
    requires
        forall|k: int| 0 <= k < ts.len() ==> !(#[trigger] ts[k]).covers(offset),
    ensures
        identifier_hits(ts, offset).len() == 0,
    decreases ts.len(),
{
    if ts.len() > 0 {
        assert(!ts[ts.len() - 1].covers(offset));
        lemma_identifier_hits_none(ts.drop_last(), offset);
    }
}

/// Among disjoint tokens, an identifier whose range holds `offset` is the one
/// and only hit.
pub proof fn lemma_identifier_hits_single(ts: Seq<Token>, k: int, id: Identifier, offset: int)
    requires
        tokens_disjoint(ts),
        0 <= k < ts.len(),
        ts[k] == Token::Identifier(id),
        id.covers(offset),
    ensures
        identifier_hits(ts, offset) == seq![id],
    decreases ts.len(),
{
    let last = ts.len() - 1;
    if k == last {
        assert forall|j: int| 0 <= j < ts.drop_last().len() implies !(
        #[trigger] ts.drop_last()[j]).covers(offset) by {
            if ts[j].covers(offset) {
                assert(ranges_overlap(ts[j].location()->0, ts[k].location()->0));
            }
        }
        lemma_identifier_hits_none(ts.drop_last(), offset);
        assert(identifier_hits(ts, offset) =~= seq![id]);
    } else {
        assert(tokens_disjoint(ts.drop_last()));
        lemma_identifier_hits_single(ts.drop_last(), k, id, offset);
        if ts[last].covers(offset) {
            assert(ranges_overlap(ts[last].location()->0, ts[k].location()->0));
        }
    }
}

/// In a well-formed tree, every offset inside an identifier's range locates
/// that identifier.
pub proof fn lemma_locate_inside(ast: Block, k: int, id: Identifier, offset: int)
    requires
        well_formed(ast),
        0 <= k < block_tokens(ast).len(),
        block_tokens(ast)[k] == Token::Identifier(id),
        id.covers(offset),
    ensures
        identifier_at(ast, offset) == Ok::<Option<Identifier>, AstInvariantViolation>(Some(id)),
{
    lemma_identifier_hits_single(block_tokens(ast), k, id, offset);
}

/// An offset that no token's range holds locates nothing.
pub proof fn lemma_locate_outside(ast: Block, offset: int)
    requires
        forall|k: int|
            0 <= k < block_tokens(ast).len() ==> !(#[trigger] block_tokens(ast)[k]).covers(offset),
    ensures
        identifier_at(ast, offset) == Ok::<Option<Identifier>, AstInvariantViolation>(None),
{
    lemma_identifier_hits_none(block_tokens(ast), offset);
}

/// The first hit, if any, is an identifier of `ts` whose range holds `offset`.
pub proof fn lemma_identifier_hit_source(ts: Seq<Token>, offset: int)
    ensures
        identifier_hits(ts, offset).len() > 0 ==> exists|k: int|
            0 <= k < ts.len() && ts[k] == Token::Identifier(identifier_hits(ts, offset)[0])
                && identifier_hits(ts, offset)[0].covers(offset),
    decreases ts.len(),
{
    if ts.len() > 0 {
        let rest = ts.drop_last();
        lemma_identifier_hit_source(rest, offset);
        if identifier_hits(rest, offset).len() > 0 {
            let k = choose|k: int|
                0 <= k < rest.len() && rest[k] == Token::Identifier(identifier_hits(rest, offset)[0])
                    && identifier_hits(rest, offset)[0].covers(offset);
            assert(ts[k] == rest[k]);
        } else if identifier_hits(ts, offset).len() > 0 {
            assert(ts[ts.len() - 1] == Token::Identifier(identifier_hits(ts, offset)[0]));
        }
    }
}

/// In a well-formed tree an offset never hits two identifiers.
pub proof fn lemma_locate_never_overlaps(ast: Block, offset: int)
    requires
        well_formed(ast),
    ensures
        identifier_at(ast, offset) is Ok,
        identifier_at(ast, offset) matches Ok(Some(id)) ==> exists|k: int|
            0 <= k < block_tokens(ast).len() && block_tokens(ast)[k] == Token::Identifier(id)
                && id.covers(offset),
{
    let ts = block_tokens(ast);
    lemma_identifier_hit_source(ts, offset);
    if identifier_hits(ts, offset).len() > 0 {
        let id = identifier_hits(ts, offset)[0];
        let k = choose|k: int| 0 <= k < ts.len() && ts[k] == Token::Identifier(id) && id.covers(offset);
        lemma_identifier_hits_single(ts, k, id, offset);
    }
}

} // verus!
