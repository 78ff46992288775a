//! A streaming JSON repairer.
//!
//! The crate ingests an arbitrary prefix of a JSON document — possibly cut
//! off in the middle of a token, a string, or a container — and produces a
//! syntactically valid JSON document that keeps the longest fully parseable
//! prefix of the input, discarding any trailing partial structure that
//! cannot be safely completed.

use vstd::prelude::*;
use vstd::utf8::{encode_utf8, valid_utf8};

pub mod builder;
pub mod table;
pub mod validator;

pub use builder::{Builder, Options, Source};
pub use validator::Verifier;

use builder::{lemma_completed_parses, spec_completed_bytes};
use validator::{lemma_prefix_stability, spec_feed, spec_init, spec_rewind};

verus! {

/// The status of the JSON object.
#[derive(Debug, Clone, Copy, PartialEq, Eq, Structural)]
pub enum Status {
    /// More input is needed to complete the JSON object.
    Continue,
    /// The JSON object is complete and valid.
    Valid,
}

/// Errors that can occur while parsing JSON.
#[derive(Debug, Clone, Copy, PartialEq, Eq, Structural)]
pub enum Error {
    /// The input stream is not valid JSON.
    Invalid,
    /// Conversion to a string failed because the input stream is not a valid
    /// UTF-8 sequence.
    Utf8,
    /// The input stream contained an object exceeding the maximum specified
    /// depth.
    Exceeded,
}

/// The repaired form of a byte sequence: the bytes that [`repair`] decodes
/// as UTF-8, or the error of the first byte that no valid JSON prefix can
/// absorb.
pub open spec fn spec_repair_bytes(s: Seq<u8>) -> Result<Seq<u8>, Error> {
    let fed = spec_feed(spec_init(usize::MAX as nat), s);
    match fed.1 {
        Ok(()) => Ok(spec_completed_bytes(s, fed.0)),
        Err(e) => Err(e),
    }
}

/// Repairs the provided JSON object: feeds the input to a fresh builder and
/// returns its completed text.
///
/// # Errors
///
/// Returns an error if the JSON object cannot be repaired: the error of the
/// first rejected byte, or the UTF-8 error when the repaired bytes are not
/// a UTF-8 sequence.
pub fn repair<I: Source>(input: I) -> (r: Result<String, Error>)
    ensures
        (match spec_repair_bytes(input.stream_spec()) {
            Ok(bytes) => (match r {
                Ok(s) => valid_utf8(bytes) && encode_utf8(s@) == bytes,
                Err(e) => !valid_utf8(bytes) && e == Error::Utf8,
            }),
            Err(e) => r == Err::<String, Error>(e),
        }),
{
    let stream = input.stream();
    let _n: usize = stream.len();
    let mut builder = Builder::new();
    proof {
        assert(builder@.data.len() + input.stream_spec().len() <= usize::MAX);
    }
    match builder.update(&input) {
        Ok(()) => {},
        Err(e) => {
            return Err(e);
        },
    }
    proof {
        lemma_prefix_stability(spec_init(usize::MAX as nat), input.stream_spec());
        assert(builder@.data =~= input.stream_spec());
    }
    builder.completed_string()
}

/// Idempotence of repair on valid JSON: a byte sequence that a fresh
/// validator accepts whole and reports valid repairs to itself, byte for
/// byte.
pub proof fn lemma_repair_idempotent_on_valid(s: Seq<u8>)
    requires
        spec_feed(spec_init(usize::MAX as nat), s).1 is Ok,
        spec_feed(spec_init(usize::MAX as nat), s).0.is_valid(),
    ensures
        spec_repair_bytes(s) == Ok::<Seq<u8>, Error>(s),
{
}

/// Repair output parses: on an input the validator accepts wholly — and
/// outside the whitespace-prefix family named at
/// [`lemma_completed_parses`] — the repaired bytes feed a fresh validator
/// to a valid document, and repairing them again returns them unchanged.
pub proof fn lemma_repair_output_is_valid(s: Seq<u8>)
    requires
        spec_repair_bytes(s) is Ok,
        ({
            let fed = spec_feed(spec_init(usize::MAX as nat), s);
            ||| fed.0.is_valid()
            ||| spec_rewind(fed.0) is None
            ||| fed.0.last_ok > 0
            ||| s.len() > 0 && s[0] == 123
        }),
    ensures
        ({
            let out = spec_repair_bytes(s).unwrap();
            let refed = spec_feed(spec_init(usize::MAX as nat), out);
            &&& refed.1 is Ok
            &&& refed.0.is_valid()
            &&& spec_repair_bytes(out) == Ok::<Seq<u8>, Error>(out)
        }),
{
    lemma_completed_parses(s);
    lemma_repair_idempotent_on_valid(spec_repair_bytes(s).unwrap());
}

} // verus!
