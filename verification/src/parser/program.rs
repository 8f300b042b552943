//! Top level of the grammar: a program is any interleaving of map
//! declarations and unit declarations, ending at end-of-file.

use vstd::prelude::*;
use crate::ast::{MapDecl, Program, Unit};
use crate::parser::{ParseError, Parser};
use crate::parser::map::parse_map;
use crate::parser::unit::parse_unit;
use crate::token::TokenKind;

verus! {

broadcast use crate::parser::lemma_parser_remaining;

/// Parses declarations until end-of-file. Anything that is neither a map
/// nor a unit declaration fails the whole parse.
#[verifier::loop_isolation(false)]
pub fn parse_program(parser: &mut Parser) -> (r: Result<Program, ParseError>)
    requires
        old(parser).wf(),
    ensures
        final(parser).wf(),
        r is Ok ==> final(parser).cur().kind == TokenKind::Eof,
        old(parser).cur().kind == TokenKind::Eof ==> (r matches Ok(p) && p.maps@.len() == 0
            && p.units@.len() == 0),
{
    let mut maps: Vec<MapDecl> = Vec::new();
    let mut units: Vec<Unit> = Vec::new();

    while !parser.check(TokenKind::Eof)
        invariant
            parser.wf(),
            old(parser).cur().kind == TokenKind::Eof ==> parser.cur().kind == TokenKind::Eof
                && maps@.len() == 0 && units@.len() == 0,
        decreases parser.remaining(),
    {
        if parser.match_token(TokenKind::KeywordMap)? {
            let m = parse_map(parser)?;
            maps.push(m);
        } else if parser.check(TokenKind::KeywordUnit) {
            let u = parse_unit(parser)?;
            units.push(u);
        } else {
            return Err(parser.error_with_help(
                "Expected 'map' or 'unit'",
                "Programs must start with map declarations or unit definitions",
            ));
        }
    }

    Ok(Program { maps, units })
}

} // verus!
