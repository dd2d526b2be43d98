//! Quotes for remote attestation on confidential-computing platforms, produced by
//! driving a kernel interface shaped like a directory tree (configfs-tsm).
//!
//! The session protocol (naming, generation tracking, provider checks and the
//! output rules) is verified here; the file access itself comes from a
//! [`Transport`] supplied by the caller. Every call goes through a [`Recorder`],
//! whose record lets the contracts say which resources are touched, in what
//! order, and how each result follows from what the transport handed back.
use vstd::prelude::*;

pub mod error;
pub mod naming;
pub mod session;
pub mod text;
pub mod transport;

pub use error::QuoteGenerationError;
pub use naming::{bytes_to_hex, create_quote_name};
pub use session::{checked_output, is_accepted, generation_from_text, provider_verdict, OpenQuote};
pub use text::{parse_u32, trim_newline};
pub use transport::{Call, ContainerError, Recorder, Transport};

use naming::hex_of;
use session::{
    exchange_calls, exchange_outcome, extends, is_create, is_text_read, lemma_since_concat, opened,
    lemma_since_push, provider_check, same_outcome, since, write_len,
};
use text::trimmed;

verus! {

/// The calls of making a quote in the session `name`: its container is created
/// and, only if that succeeded, one exchange follows.
pub open spec fn quote_calls(name: Seq<char>, input: Seq<u8>, run: Seq<Call>) -> bool {
    &&& run.len() >= 1
    &&& is_create(run[0], name)
    &&& opened(name, run[0]->Create_created) is Err ==> run.len() == 1
    &&& opened(name, run[0]->Create_created) is Ok ==> exchange_calls(name, input, run.drop_first())
}

/// What making a quote comes to: the output of the exchange, or the first error.
pub open spec fn quote_outcome(name: Seq<char>, run: Seq<Call>) -> Result<Seq<u8>, QuoteGenerationError> {
    match opened(name, run[0]->Create_created) {
        Err(e) => Err(e),
        Ok(_) => exchange_outcome(run.drop_first()),
    }
}

/// Whether the provider read by `c` is among the accepted values.
pub open spec fn provider_accepted(c: Call, accepted: Seq<&str>) -> bool {
    c->ReadText_text_read is Ok && is_accepted(trimmed(c->ReadText_text_read->Ok_0), accepted)
}

/// The calls of making a quote with a provider check: the container is created,
/// then the provider is read, and only an accepted provider lets the exchange
/// follow. A refused provider ends the run before anything is written.
pub open spec fn provider_quote_calls(
    name: Seq<char>,
    input: Seq<u8>,
    accepted: Seq<&str>,
    run: Seq<Call>,
) -> bool {
    &&& run.len() >= 1
    &&& is_create(run[0], name)
    &&& opened(name, run[0]->Create_created) is Err ==> run.len() == 1
    &&& opened(name, run[0]->Create_created) is Ok ==> {
        &&& run.len() >= 2
        &&& is_text_read(run[1], name, "provider"@)
        &&& provider_accepted(run[1], accepted) ==> exchange_calls(name, input, run.skip(2))
        &&& !provider_accepted(run[1], accepted) ==> run.len() == 2
    }
}

/// What making a quote with a provider check comes to.
pub open spec fn provider_quote_result(
    name: Seq<char>,
    accepted: Seq<&str>,
    run: Seq<Call>,
    r: Result<Vec<u8>, QuoteGenerationError>,
) -> bool {
    match opened(name, run[0]->Create_created) {
        Err(e) => r == Err::<Vec<u8>, QuoteGenerationError>(e),
        Ok(_) => if provider_accepted(run[1], accepted) {
            same_outcome(r, exchange_outcome(run.skip(2)))
        } else {
            provider_check(run[1], accepted, r)
        },
    }
}

/// Writes the input and, if that succeeded, reads the output back.
fn exchange<T: Transport>(quote: &mut OpenQuote, transport: &mut Recorder<T>, input: [u8; 64]) -> (r:
    Result<Vec<u8>, QuoteGenerationError>)
    ensures
        extends(old(transport).calls(), final(transport).calls()),
        exchange_calls(
            old(quote)@.name,
            input@,
            since(old(transport).calls(), final(transport).calls()),
        ),
        same_outcome(r, exchange_outcome(since(old(transport).calls(), final(transport).calls()))),
{
    let ghost c0 = transport.calls();
    let ghost s0 = quote@;
    let written = quote.write_input(transport, input);
    let ghost c1 = transport.calls();
    let ghost w = since(c0, c1);
    assert(write_len(w) == w.len());
    assert(w.take(w.len() as int) =~= w);
    if let Err(e) = written {
        assert(w.skip(w.len() as int) =~= Seq::<Call>::empty());
        return Err(e);
    }
    let r = quote.read_output(transport);
    proof {
        lemma_since_concat(c0, c1, transport.calls());
        let run = since(c0, transport.calls());
        assert(run.take(w.len() as int) =~= w);
        assert(run.skip(w.len() as int) =~= since(c1, transport.calls()));
    }
    r
}

/// Creates a quote for `input`, in the session named after it.
pub fn create_quote<T: Transport>(transport: &mut Recorder<T>, input: [u8; 64]) -> (r: Result<
    Vec<u8>,
    QuoteGenerationError,
>)
    ensures
        extends(old(transport).calls(), final(transport).calls()),
        quote_calls(hex_of(input@), input@, since(old(transport).calls(), final(transport).calls())),
        same_outcome(
            r,
            quote_outcome(hex_of(input@), since(old(transport).calls(), final(transport).calls())),
        ),
{
    let ghost c0 = transport.calls();
    let quote_name = create_quote_name(&input);
    let quote = OpenQuote::new(transport, quote_name.as_str());
    let ghost c1 = transport.calls();
    let mut quote = match quote {
        Ok(q) => q,
        Err(e) => {
            return Err(e);
        },
    };
    let r = exchange(&mut quote, transport, input);
    proof {
        lemma_since_concat(c0, c1, transport.calls());
        assert(since(c0, transport.calls()).drop_first() =~= since(c1, transport.calls()));
    }
    r
}

/// Creates a quote for `input` as `create_quote` does, but only on a provider
/// (the platform's attestation backend) among `accepted_providers`, which is
/// checked before the input is written.
pub fn create_quote_with_providers<T: Transport>(
    transport: &mut Recorder<T>,
    input: [u8; 64],
    accepted_providers: Vec<&str>,
) -> (r: Result<Vec<u8>, QuoteGenerationError>)
    ensures
        extends(old(transport).calls(), final(transport).calls()),
        provider_quote_calls(
            hex_of(input@),
            input@,
            accepted_providers@,
            since(old(transport).calls(), final(transport).calls()),
        ),
        provider_quote_result(
            hex_of(input@),
            accepted_providers@,
            since(old(transport).calls(), final(transport).calls()),
            r,
        ),
{
    let ghost c0 = transport.calls();
    let ghost accepted = accepted_providers@;
    let quote_name = create_quote_name(&input);
    let quote = OpenQuote::new(transport, quote_name.as_str());
    let ghost c1 = transport.calls();
    let mut quote = match quote {
        Ok(q) => q,
        Err(e) => {
            return Err(e);
        },
    };
    let checked = quote.check_provider(transport, accepted_providers);
    let ghost c2 = transport.calls();
    proof {
        lemma_since_push(c1, c2.last());
        lemma_since_concat(c0, c1, c2);
        assert(since(c0, c2) =~= seq![since(c0, c2)[0], c2.last()]);
    }
    if let Err(e) = checked {
        return Err(e);
    }
    let r = exchange(&mut quote, transport, input);
    proof {
        lemma_since_concat(c0, c2, transport.calls());
        assert(since(c0, transport.calls()).skip(2) =~= since(c2, transport.calls()));
    }
    r
}

/// Creates a quote for `input` on Intel TDX only: the provider must be
/// `tdx_guest`. It is `create_quote_with_providers` with that one value.
pub fn create_tdx_quote<T: Transport>(transport: &mut Recorder<T>, input: [u8; 64]) -> (r: Result<
    Vec<u8>,
    QuoteGenerationError,
>)
    ensures
        extends(old(transport).calls(), final(transport).calls()),
        provider_quote_calls(
            hex_of(input@),
            input@,
            seq!["tdx_guest"],
            since(old(transport).calls(), final(transport).calls()),
        ),
        provider_quote_result(
            hex_of(input@),
            seq!["tdx_guest"],
            since(old(transport).calls(), final(transport).calls()),
            r,
        ),
{
    let accepted = vec!["tdx_guest"];
    assert(accepted@ =~= seq!["tdx_guest"]);
    create_quote_with_providers(transport, input, accepted)
}

} // verus!
