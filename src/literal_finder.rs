use crate::ast::{block_tokens, AstInvariantViolation, Block, Literal, SourceLocation, Token};
use vstd::prelude::*;

verus! {

/// The two shapes of literal that hover can explain.
#[derive(Clone, Copy, Debug, PartialEq, Eq, Hash, Structural)]
pub enum LiteralKind {
    /// A 4-byte function selector: `0x` and 8 hex digits.
    Selector,
    /// A 20-byte account address: `0x` and 40 hex digits.
    Address,
}

/// Number of characters of a literal of this kind.
pub open spec fn kind_length(kind: LiteralKind) -> nat {
    match kind {
        LiteralKind::Selector => 10,
        LiteralKind::Address => 42,
    }
}

/// Whether `l` is a literal of `kind` whose range holds `offset`. Both
/// conditions are required, for either kind.
pub open spec fn literal_matches(l: Literal, offset: int, kind: LiteralKind) -> bool {
    l.covers(offset) && l.literal@.len() == kind_length(kind)
}

/// The literals among `ts` that match `offset` and `kind`, in order.
pub open spec fn literal_hits(ts: Seq<Token>, offset: int, kind: LiteralKind) -> Seq<Literal>
    decreases ts.len(),
{
    if ts.len() == 0 {
        seq![]
    } else {
        let rest = literal_hits(ts.drop_last(), offset, kind);
        match ts.last() {
            Token::Literal(l) => if literal_matches(l, offset, kind) {
                rest.push(l)
            } else {
                rest
            },
            Token::Identifier(_) => rest,
        }
    }
}

/// The literal of `kind` under `offset` in `ast`: none, the single one, or a
/// violation when several match.
pub open spec fn literal_at(ast: Block, offset: int, kind: LiteralKind) -> Result<
    Option<Literal>,
    AstInvariantViolation,
> {
    let hits = literal_hits(block_tokens(ast), offset, kind);
    if hits.len() == 0 {
        Ok(None)
    } else if hits.len() == 1 {
        Ok(Some(hits[0]))
    } else {
        Err(AstInvariantViolation::OverlappingLiterals)
    }
}

/// The hits of a prefix are no more than the hits of the whole.
pub proof fn lemma_literal_hits_prefix(ts: Seq<Token>, j: int, offset: int, kind: LiteralKind)
    requires
        0 <= j <= ts.len(),
    ensures
        literal_hits(ts.take(j), offset, kind).len() <= literal_hits(ts, offset, kind).len(),
    decreases ts.len(),
{
    if j == ts.len() {
        assert(ts.take(j) =~= ts);
    } else {
        assert(ts.drop_last().take(j) =~= ts.take(j));
        lemma_literal_hits_prefix(ts.drop_last(), j, offset, kind);
    }
}

/// Number of characters a literal of `kind` has.
fn literal_length(kind: LiteralKind) -> (r: usize)
    ensures
        r == kind_length(kind),
{
    match kind {
        LiteralKind::Selector => 10,
        LiteralKind::Address => 42,
    }
}

/// Visitor state of the search for the literal of one kind under a cursor.
pub struct LiteralFinder {
    pub cursor_location: usize,
    pub literal_kind: LiteralKind,
    pub found_literal: Option<Literal>,
}

impl LiteralFinder {
    pub fn new(cursor_location: usize, literal_kind: LiteralKind) -> (r: LiteralFinder)
        ensures
            r.cursor_location == cursor_location,
            r.literal_kind == literal_kind,
            r.found_literal is None,
    {
        LiteralFinder { cursor_location, literal_kind, found_literal: None }
    }

    /// Whether `location` holds the cursor.
    pub fn between(&self, location: &SourceLocation) -> (r: bool)
        ensures
            r == location.spec_contains(self.cursor_location as int),
    {
        location.start <= self.cursor_location && self.cursor_location < location.end
    }

    /// Takes in the next literal in document order. One whose range holds the
    /// cursor and whose length is the kind's is recorded; a second one is a
    /// violation, and leaves the state as it was.
    pub fn visit_literal(&mut self, literal: &Literal) -> (r: Result<(), AstInvariantViolation>)
        ensures
            final(self).cursor_location == old(self).cursor_location,
            final(self).literal_kind == old(self).literal_kind,
            !literal_matches(*literal, old(self).cursor_location as int, old(self).literal_kind)
                ==> r is Ok && *final(self) == *old(self),
            literal_matches(*literal, old(self).cursor_location as int, old(self).literal_kind)
                && old(self).found_literal is Some ==> r == Err::<(), AstInvariantViolation>(
                AstInvariantViolation::OverlappingLiterals,
            ) && *final(self) == *old(self),
            literal_matches(*literal, old(self).cursor_location as int, old(self).literal_kind)
                && old(self).found_literal is None ==> r is Ok && final(self).found_literal == Some(
                *literal,
            ),
    {
        let inside = match &literal.location {
            Some(location) => self.between(location),
            None => false,
        };
        if inside && literal.literal.as_str().unicode_len() == literal_length(self.literal_kind) {
            if self.found_literal.is_some() {
                return Err(AstInvariantViolation::OverlappingLiterals);
            }
            self.found_literal = Some(literal.clone());
        }
        Ok(())
    }
}

/// Finds the literal of `literal_kind` whose range holds `cursor_position`.
pub fn find_literal(ast: &Block, cursor_position: usize, literal_kind: LiteralKind) -> (r: Result<
    Option<Literal>,
    AstInvariantViolation,
>)
    ensures
        r == literal_at(*ast, cursor_position as int, literal_kind),
{
    let tokens = ast.tokens();
    let ghost offset = cursor_position as int;
    let mut finder = LiteralFinder::new(cursor_position, literal_kind);
    let mut i: usize = 0;
    while i < tokens.len()
        invariant
            i <= tokens.len(),
            tokens@ == block_tokens(*ast),
            offset == cursor_position as int,
            finder.cursor_location == cursor_position,
            finder.literal_kind == literal_kind,
            literal_hits(tokens@.take(i as int), offset, literal_kind).len() <= 1,
            literal_hits(tokens@.take(i as int), offset, literal_kind).len() == 0
                ==> finder.found_literal is None,
            literal_hits(tokens@.take(i as int), offset, literal_kind).len() == 1
                ==> finder.found_literal == Some(
                literal_hits(tokens@.take(i as int), offset, literal_kind)[0],
            ),
        decreases tokens.len() - i,
    {
        proof {
            assert(tokens@.take(i + 1).drop_last() =~= tokens@.take(i as int));
        }
        if let Token::Literal(l) = &tokens[i] {
            if let Err(e) = finder.visit_literal(l) {
                proof {
                    lemma_literal_hits_prefix(tokens@, i + 1, offset, literal_kind);
                }
                return Err(e);
            }
        }
        i = i + 1;
    }
    assert(tokens@.take(tokens.len() as int) =~= tokens@);
    Ok(finder.found_literal)
}

/// How hover classifies the literal under `offset`: a selector if one is there,
/// else an address if one is there, else nothing.
pub open spec fn classification_at(ast: Block, offset: int) -> Result<
    Option<(Literal, LiteralKind)>,
    AstInvariantViolation,
> {
    match literal_at(ast, offset, LiteralKind::Selector) {
        Err(e) => Err(e),
        Ok(Some(l)) => Ok(Some((l, LiteralKind::Selector))),
        Ok(None) => match literal_at(ast, offset, LiteralKind::Address) {
            Err(e) => Err(e),
            Ok(Some(l)) => Ok(Some((l, LiteralKind::Address))),
            Ok(None) => Ok(None),
        },
    }
}

/// Classifies the literal under `cursor_position` as a selector or an address.
pub fn classify_literal(ast: &Block, cursor_position: usize) -> (r: Result<
    Option<(Literal, LiteralKind)>,
    AstInvariantViolation,
>)
    ensures
        r == classification_at(*ast, cursor_position as int),
{
    match find_literal(ast, cursor_position, LiteralKind::Selector) {
        Err(e) => Err(e),
        Ok(Some(l)) => Ok(Some((l, LiteralKind::Selector))),
        Ok(None) => match find_literal(ast, cursor_position, LiteralKind::Address) {
            Err(e) => Err(e),
            Ok(Some(l)) => Ok(Some((l, LiteralKind::Address))),
            Ok(None) => Ok(None),
        },
    }
}

/// Every hit matches both the offset and the kind.
proof fn lemma_literal_hits_match(ts: Seq<Token>, offset: int, kind: LiteralKind)
    ensures
        forall|j: int|
            0 <= j < literal_hits(ts, offset, kind).len() ==> literal_matches(
                #[trigger] literal_hits(ts, offset, kind)[j],
                offset,
                kind,
            ),
    decreases ts.len(),
{
    if ts.len() > 0 {
        let rest = ts.drop_last();
        lemma_literal_hits_match(rest, offset, kind);
        assert forall|j: int| 0 <= j < literal_hits(ts, offset, kind).len() implies literal_matches(
            #[trigger] literal_hits(ts, offset, kind)[j],
            offset,
            kind,
        ) by {
            if j < literal_hits(rest, offset, kind).len() {
                assert(literal_matches(literal_hits(rest, offset, kind)[j], offset, kind));
            }
        }
    }
}

/// A literal is reported for a kind only where its range holds the offset and
/// its length is the kind's, whichever the kind: an address whose range does not
/// hold the offset is never reported.
pub proof fn lemma_literal_needs_containment_and_length(
    ast: Block,
    offset: int,
    kind: LiteralKind,
    l: Literal,
)
    requires
        literal_at(ast, offset, kind) == Ok::<Option<Literal>, AstInvariantViolation>(Some(l)),
    ensures
        l.covers(offset),
        l.literal@.len() == kind_length(kind),
{
    lemma_literal_hits_match(block_tokens(ast), offset, kind);
}

} // verus!
