//! The whole way from source text to the bytes of an object file.

use crate::elf::elf64::Elf;
use crate::elf::image::object_bytes;
use crate::elf::tables::spec_tables;
use crate::encoder::initial_state;
use crate::encoder::statement::parse;
use crate::error::AsmError;
use crate::lexer::{spec_tokenize, token_views, tokenize, Token, TokenView};
use vstd::prelude::*;

verus! {

/// The object file of a token sequence: the tokens are encoded,
/// addresses are assigned, and the tables are built and laid out.
pub open spec fn spec_assemble_tokens(tokens: Seq<TokenView>, keep_locals: bool) -> Result<
    Seq<u8>,
    AsmError,
> {
    match initial_state(tokens).encode() {
        Err(e) => Err(e),
        Ok(encoded) => match encoded.assign_addresses() {
            Err(e) => Err(e),
            Ok(laid) => match spec_tables(laid.ctx, keep_locals) {
                Err(e) => Err(AsmError { kind: e, loc: None }),
                Ok(t) => Ok(object_bytes(laid.ctx, t)),
            },
        },
    }
}

/// The object file of a source text.
pub open spec fn spec_assemble(source: Seq<char>, keep_locals: bool) -> Result<Seq<u8>, AsmError> {
    match spec_tokenize(source) {
        Err(e) => Err(e),
        Ok(tokens) => spec_assemble_tokens(tokens, keep_locals),
    }
}

/// Whether `r` is what assembling the tokens gives.
pub open spec fn assembles_to(
    tokens: Seq<TokenView>,
    keep_locals: bool,
    r: Result<Vec<u8>, AsmError>,
) -> bool {
    match spec_assemble_tokens(tokens, keep_locals) {
        Ok(bytes) => r is Ok && r->Ok_0@ == bytes,
        Err(e) => r is Err && r->Err_0 == e,
    }
}

/// Assembles a token sequence into the bytes of a relocatable object
/// file. Local labels get no symbol unless `keep_locals` is set.
pub fn assemble_tokens(tokens: Vec<Token>, keep_locals: bool) -> (r: Result<Vec<u8>, AsmError>)
    ensures
        assembles_to(token_views(tokens@), keep_locals, r),
{
    let mut encoder = parse(tokens)?;
    encoder.assign_addresses()?;
    let elf = Elf::build(encoder.into_context(), keep_locals)?;
    Ok(elf.to_bytes())
}

/// Assembles a source text into the bytes of a relocatable object file.
pub fn assemble(source: &str, keep_locals: bool) -> (r: Result<Vec<u8>, AsmError>)
    ensures
        match spec_assemble(source@, keep_locals) {
            Ok(bytes) => r is Ok && r->Ok_0@ == bytes,
            Err(e) => r is Err && r->Err_0 == e,
        },
{
    let tokens = tokenize(source)?;
    assemble_tokens(tokens, keep_locals)
}

/// Determinism. Two runs on token sequences with the same values end
/// alike: both fail with the same error, or both give files with the
/// same bytes.
pub proof fn lemma_same_tokens_same_file(
    first: Seq<Token>,
    second: Seq<Token>,
    keep_locals: bool,
    r1: Result<Vec<u8>, AsmError>,
    r2: Result<Vec<u8>, AsmError>,
)
    requires
        token_views(first) == token_views(second),
        assembles_to(token_views(first), keep_locals, r1),
        assembles_to(token_views(second), keep_locals, r2),
    ensures
        r1 is Ok <==> r2 is Ok,
        r1 is Ok ==> r1->Ok_0@ == r2->Ok_0@,
        r1 is Err ==> r1->Err_0 == r2->Err_0,
{
}

} // verus!
