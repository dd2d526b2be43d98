//! One attestation session: its container, the input written to it, the
//! generation counter that detects interference, and the output read back.
use vstd::prelude::*;

use crate::error::QuoteGenerationError;
use crate::text::{is_u32_text, parse_u32, trim_newline, trimmed, u32_of_text};
use crate::transport::{Call, ContainerError, Recorder, Transport};

verus! {

/// What a session is, to the protocol: the name of its container and the
/// generation it expects to read with the output.
pub struct QuoteState {
    pub name: Seq<char>,
    pub expected_generation: nat,
}

/// The session state after an attempt to create the container: a container that
/// already exists is reused.
pub open spec fn opened(name: Seq<char>, created: Result<(), ContainerError>) -> Result<
    QuoteState,
    QuoteGenerationError,
> {
    match created {
        Ok(()) => Ok(QuoteState { name, expected_generation: 0 }),
        Err(ContainerError::AlreadyExists) => Ok(QuoteState { name, expected_generation: 0 }),
        Err(ContainerError::NotFound) => Err(QuoteGenerationError::CannotFindTsmDir),
        Err(ContainerError::Io(e)) => Err(QuoteGenerationError::IO(e)),
    }
}

/// The generation that the text of the generation resource gives.
pub open spec fn generation_of(text: Seq<char>) -> Result<u32, QuoteGenerationError> {
    if is_u32_text(trimmed(text)) {
        Ok(u32_of_text(trimmed(text)) as u32)
    } else {
        Err(QuoteGenerationError::ParseInt)
    }
}

/// Whether the provider is one of the accepted values.
pub open spec fn is_accepted(provider: Seq<char>, accepted: Seq<&str>) -> bool {
    exists|i: int| 0 <= i < accepted.len() && (#[trigger] accepted[i])@ == provider
}

/// Creating the container again for a session whose container already exists
/// succeeds, and opens the very session that creating it afresh does: a session
/// name can be reused any number of times.
pub proof fn lemma_existing_container_reused(name: Seq<char>)
    ensures
        opened(name, Err(ContainerError::AlreadyExists)) is Ok,
        opened(name, Err(ContainerError::AlreadyExists)) == opened(name, Ok(())),
        opened(name, Ok(())) == Ok::<QuoteState, QuoteGenerationError>(
            QuoteState { name, expected_generation: 0 },
        ),
{
}

/// The generation resource's text as a number: its line terminator is dropped
/// and the rest must be an unsigned decimal number that fits in a `u32`.
pub fn generation_from_text(text: String) -> (r: Result<u32, QuoteGenerationError>)
    ensures
        r == generation_of(text@),
{
    let mut text = text;
    trim_newline(&mut text);
    match parse_u32(text.as_str()) {
        Some(g) => Ok(g),
        None => Err(QuoteGenerationError::ParseInt),
    }
}

/// Decides on the provider's text: its line terminator is dropped and the rest
/// must be one of the accepted values.
pub fn provider_verdict(provider: String, accepted_values: &Vec<&str>) -> (r: Result<
    (),
    QuoteGenerationError,
>)
    ensures
        is_accepted(trimmed(provider@), accepted_values@) ==> r is Ok,
        !is_accepted(trimmed(provider@), accepted_values@) ==> (r matches Err(
            QuoteGenerationError::BadProvider(p),
        ) && p@ == trimmed(provider@)),
{
    let mut text = provider;
    trim_newline(&mut text);
    let mut i: usize = 0;
    while i < accepted_values.len()
        invariant
            i <= accepted_values@.len(),
            text@ == trimmed(provider@),
            forall|j: int| 0 <= j < i ==> (#[trigger] accepted_values@[j])@ != text@,
        decreases accepted_values@.len() - i,
    {
        let candidate = String::from_str(accepted_values[i]);
        if candidate == text {
            assert(accepted_values@[i as int]@ == trimmed(provider@));
            assert(is_accepted(trimmed(provider@), accepted_values@));
            return Ok(());
        }
        i += 1;
    }
    Err(QuoteGenerationError::BadProvider(text))
}

/// What is decided on the output read back after the input: it stands only where
/// the generation read is the one expected and the output is not empty. A wrong
/// generation is reported first.
pub open spec fn output_verdict(expected: nat, output: Seq<u8>, actual: u32) -> Result<
    Seq<u8>,
    QuoteGenerationError,
> {
    if actual as nat != expected {
        Err(QuoteGenerationError::Generation(expected as u64, actual))
    } else if output.len() == 0 {
        Err(QuoteGenerationError::EmptyQuote)
    } else {
        Ok(output)
    }
}

/// The session once its input is written over the generation `baseline`: an
/// uncontended write advances the counter by exactly one.
pub open spec fn after_write(s: QuoteState, baseline: u32) -> QuoteState {
    QuoteState { name: s.name, expected_generation: baseline as nat + 1 }
}

/// After input is written over the generation `baseline`, the output stands exactly
/// when the counter then reads `baseline + 1` and the output is not empty. Any other
/// reading is a conflict that reports `(baseline + 1, actual)` and hands out no bytes.
pub proof fn lemma_exchange_after_write(
    s: QuoteState,
    baseline: u32,
    output: Seq<u8>,
    actual: u32,
)
    ensures
        actual as nat == baseline as nat + 1 && output.len() > 0 ==> output_verdict(
            after_write(s, baseline).expected_generation,
            output,
            actual,
        ) == Ok::<Seq<u8>, QuoteGenerationError>(output),
        actual as nat == baseline as nat + 1 && output.len() == 0 ==> output_verdict(
            after_write(s, baseline).expected_generation,
            output,
            actual,
        ) == Err::<Seq<u8>, QuoteGenerationError>(QuoteGenerationError::EmptyQuote),
        actual as nat != baseline as nat + 1 ==> output_verdict(
            after_write(s, baseline).expected_generation,
            output,
            actual,
        ) == Err::<Seq<u8>, QuoteGenerationError>(
            QuoteGenerationError::Generation((baseline as nat + 1) as u64, actual),
        ),
{
}

/// Decides on what was read back after the input, as `output_verdict` says.
pub fn checked_output(expected: u64, output: Vec<u8>, actual: u32) -> (r: Result<
    Vec<u8>,
    QuoteGenerationError,
>)
    ensures
        output_verdict(expected as nat, output@, actual) is Ok ==> r == Ok::<
            Vec<u8>,
            QuoteGenerationError,
        >(output),
        output_verdict(expected as nat, output@, actual) is Err ==> r == Err::<
            Vec<u8>,
            QuoteGenerationError,
        >(output_verdict(expected as nat, output@, actual)->Err_0),
{
    if expected != actual as u64 {
        return Err(QuoteGenerationError::Generation(expected, actual));
    }
    if output.len() == 0 {
        return Err(QuoteGenerationError::EmptyQuote);
    }
    Ok(output)
}

/// The calls made after `before`, where `after` extends it.
pub open spec fn since(before: Seq<Call>, after: Seq<Call>) -> Seq<Call> {
    after.subrange(before.len() as int, after.len() as int)
}

/// Whether `after` is `before` with more calls at its end.
pub open spec fn extends(before: Seq<Call>, after: Seq<Call>) -> bool {
    before.len() <= after.len() && after.subrange(0, before.len() as int) == before
}

/// The calls made across two steps are those of the first, then those of the second.
pub proof fn lemma_since_concat(a: Seq<Call>, b: Seq<Call>, c: Seq<Call>)
    requires
        extends(a, b),
        extends(b, c),
    ensures
        extends(a, c),
        since(a, c) == since(a, b) + since(b, c),
{
    assert(c.subrange(0, a.len() as int) =~= b.subrange(0, a.len() as int));
    assert(since(a, c) =~= since(a, b) + since(b, c));
}

/// One more call extends the record by exactly that call.
pub proof fn lemma_since_push(a: Seq<Call>, c: Call)
    ensures
        extends(a, a.push(c)),
        since(a, a.push(c)) == seq![c],
{
    assert(a.push(c).subrange(0, a.len() as int) =~= a);
    assert(since(a, a.push(c)) =~= seq![c]);
}

/// Whether the call creates the container of `session`.
pub open spec fn is_create(c: Call, session: Seq<char>) -> bool {
    c is Create && c->Create_session == session
}

/// Whether the call reads resource `name` of `session` as text.
pub open spec fn is_text_read(c: Call, session: Seq<char>, name: Seq<char>) -> bool {
    c is ReadText && c->ReadText_session == session && c->ReadText_name == name
}

/// Whether the call reads resource `name` of `session` as bytes.
pub open spec fn is_bytes_read(c: Call, session: Seq<char>, name: Seq<char>) -> bool {
    c is ReadBytes && c->ReadBytes_session == session && c->ReadBytes_name == name
}

/// Whether the call writes `bytes` as resource `name` of `session`.
pub open spec fn is_write(c: Call, session: Seq<char>, name: Seq<char>, bytes: Seq<u8>) -> bool {
    c is Write && c->Write_session == session && c->Write_name == name && c->Write_bytes == bytes
}

/// The generation that a read of the generation resource gives.
pub open spec fn generation_read(c: Call) -> Result<u32, QuoteGenerationError> {
    match c->ReadText_text_read {
        Ok(text) => generation_of(text),
        Err(e) => Err(QuoteGenerationError::IO(e)),
    }
}

/// The calls of writing `input` into the session `name`: the generation is read,
/// and only if it parsed is the input written.
pub open spec fn write_calls(name: Seq<char>, input: Seq<u8>, run: Seq<Call>) -> bool {
    &&& run.len() >= 1
    &&& is_text_read(run[0], name, "generation"@)
    &&& generation_read(run[0]) is Err ==> run.len() == 1
    &&& generation_read(run[0]) is Ok ==> run.len() == 2 && is_write(run[1], name, "inblob"@, input)
}

/// What writing the input comes to: the generation it was written over, or the
/// first error.
pub open spec fn write_outcome(run: Seq<Call>) -> Result<u32, QuoteGenerationError> {
    match generation_read(run[0]) {
        Err(e) => Err(e),
        Ok(g) => match run[1]->Write_written {
            Ok(()) => Ok(g),
            Err(e) => Err(QuoteGenerationError::IO(e)),
        },
    }
}

/// The calls of reading the output of the session `name`: the output, then,
/// only if that read succeeded, the generation.
pub open spec fn output_calls(name: Seq<char>, run: Seq<Call>) -> bool {
    &&& run.len() >= 1
    &&& is_bytes_read(run[0], name, "outblob"@)
    &&& run[0]->ReadBytes_bytes_read is Err ==> run.len() == 1
    &&& run[0]->ReadBytes_bytes_read is Ok ==> run.len() == 2 && is_text_read(
        run[1],
        name,
        "generation"@,
    )
}

/// What reading the output comes to, for the generation expected.
pub open spec fn output_outcome(expected: nat, run: Seq<Call>) -> Result<Seq<u8>, QuoteGenerationError> {
    match run[0]->ReadBytes_bytes_read {
        Err(e) => Err(QuoteGenerationError::IO(e)),
        Ok(output) => match generation_read(run[1]) {
            Err(e) => Err(e),
            Ok(actual) => output_verdict(expected, output, actual),
        },
    }
}

/// How many calls writing the input takes, by the first of them.
pub open spec fn write_len(run: Seq<Call>) -> int {
    if generation_read(run[0]) is Ok {
        2
    } else {
        1
    }
}

/// The calls of one exchange on the session `name`: the input is written and,
/// only if that succeeded, the output is read.
pub open spec fn exchange_calls(name: Seq<char>, input: Seq<u8>, run: Seq<Call>) -> bool {
    let w = write_len(run);
    &&& run.len() >= 1
    &&& run.len() >= w
    &&& write_calls(name, input, run.take(w))
    &&& write_outcome(run.take(w)) is Err ==> run.len() == w
    &&& write_outcome(run.take(w)) is Ok ==> output_calls(name, run.skip(w))
}

/// What one exchange comes to: the output read back over the generation written,
/// or the first error.
pub open spec fn exchange_outcome(run: Seq<Call>) -> Result<Seq<u8>, QuoteGenerationError> {
    let w = write_len(run);
    match write_outcome(run.take(w)) {
        Err(e) => Err(e),
        Ok(g) => output_outcome(g as nat + 1, run.skip(w)),
    }
}

/// Whether an exec result is the outcome that the spec gives.
pub open spec fn same_outcome(
    r: Result<Vec<u8>, QuoteGenerationError>,
    outcome: Result<Seq<u8>, QuoteGenerationError>,
) -> bool {
    match outcome {
        Ok(o) => r is Ok && r->Ok_0@ == o,
        Err(e) => r == Err::<Vec<u8>, QuoteGenerationError>(e),
    }
}

/// Whether `r` is what checking the provider read by `c` against `accepted`
/// gives: success where the trimmed text is accepted, and otherwise the error
/// that names it.
pub open spec fn provider_check<A>(c: Call, accepted: Seq<&str>, r: Result<A, QuoteGenerationError>) -> bool {
    match c->ReadText_text_read {
        Err(e) => r == Err::<A, QuoteGenerationError>(QuoteGenerationError::IO(e)),
        Ok(text) => if is_accepted(trimmed(text), accepted) {
            r is Ok
        } else {
            r matches Err(QuoteGenerationError::BadProvider(p)) && p@ == trimmed(text)
        },
    }
}

/// A pending quote: a session whose container exists.
pub struct OpenQuote {
    /// The name of the session's container.
    name: String,
    /// The generation expected with the output. It runs one past a `u32`, so
    /// that a counter at its largest value shows as a conflict.
    expected_generation: u64,
}

impl View for OpenQuote {
    type V = QuoteState;

    closed spec fn view(&self) -> QuoteState {
        QuoteState { name: self.name@, expected_generation: self.expected_generation as nat }
    }
}

impl OpenQuote {
    /// The session once the attempt to create its container has given `created`.
    pub fn open(quote_name: &str, created: Result<(), ContainerError>) -> (r: Result<
        OpenQuote,
        QuoteGenerationError,
    >)
        ensures
            opened(quote_name@, created) is Ok ==> r is Ok && r->Ok_0@ == opened(
                quote_name@,
                created,
            )->Ok_0,
            opened(quote_name@, created) is Err ==> r is Err && r->Err_0 == opened(
                quote_name@,
                created,
            )->Err_0,
    {
        match created {
            Ok(()) => {},
            Err(ContainerError::AlreadyExists) => {},
            Err(ContainerError::NotFound) => {
                return Err(QuoteGenerationError::CannotFindTsmDir);
            },
            Err(ContainerError::Io(e)) => {
                return Err(QuoteGenerationError::IO(e));
            },
        }
        Ok(OpenQuote { name: String::from_str(quote_name), expected_generation: 0 })
    }

    /// Opens the session `quote_name`, creating its container unless it exists.
    pub fn new<T: Transport>(transport: &mut Recorder<T>, quote_name: &str) -> (r: Result<
        OpenQuote,
        QuoteGenerationError,
    >)
        ensures
            ({
                let run = since(old(transport).calls(), final(transport).calls());
                &&& extends(old(transport).calls(), final(transport).calls())
                &&& run.len() == 1 && is_create(run[0], quote_name@)
                &&& opened(quote_name@, run[0]->Create_created) is Ok ==> r is Ok && r->Ok_0@
                    == opened(quote_name@, run[0]->Create_created)->Ok_0
                &&& opened(quote_name@, run[0]->Create_created) is Err ==> r is Err && r->Err_0
                    == opened(quote_name@, run[0]->Create_created)->Err_0
            }),
    {
        let ghost before = transport.calls();
        let created = transport.create_container(quote_name);
        proof {
            lemma_since_push(before, transport.calls().last());
        }
        OpenQuote::open(quote_name, created)
    }

    /// Writes the input, expecting the generation to advance by one from the one
    /// read just before.
    pub fn write_input<T: Transport>(
        &mut self,
        transport: &mut Recorder<T>,
        input: [u8; 64],
    ) -> (r: Result<(), QuoteGenerationError>)
        ensures
            ({
                let run = since(old(transport).calls(), final(transport).calls());
                &&& extends(old(transport).calls(), final(transport).calls())
                &&& write_calls(old(self)@.name, input@, run)
                &&& write_outcome(run) is Ok ==> r is Ok && final(self)@ == after_write(
                    old(self)@,
                    write_outcome(run)->Ok_0,
                )
                &&& write_outcome(run) is Err ==> r == Err::<(), QuoteGenerationError>(
                    write_outcome(run)->Err_0,
                )
                &&& generation_read(run[0]) is Err ==> final(self)@ == old(self)@
                &&& generation_read(run[0]) is Ok ==> final(self)@.name == old(self)@.name
            }),
    {
        let ghost before = transport.calls();
        let baseline = self.update_generation(transport);
        let ghost read = transport.calls();
        proof {
            lemma_since_push(before, read.last());
        }
        let baseline = baseline?;
        let written = transport.write_bytes(self.name.as_str(), "inblob", input.as_slice());
        proof {
            lemma_since_push(read, transport.calls().last());
            lemma_since_concat(before, read, transport.calls());
        }
        if let Err(e) = written {
            return Err(QuoteGenerationError::IO(e));
        }
        self.input_written(baseline);
        Ok(())
    }

    /// Records that the input was written over the generation `baseline`.
    pub fn input_written(&mut self, baseline: u32)
        ensures
            final(self)@ == after_write(old(self)@, baseline),
    {
        self.expected_generation = baseline as u64 + 1;
    }

    /// Reads the output, which stands only if the generation is the one expected
    /// and the output is not empty.
    pub fn read_output<T: Transport>(&self, transport: &mut Recorder<T>) -> (r: Result<
        Vec<u8>,
        QuoteGenerationError,
    >)
        ensures
            ({
                let run = since(old(transport).calls(), final(transport).calls());
                &&& extends(old(transport).calls(), final(transport).calls())
                &&& output_calls(self@.name, run)
                &&& same_outcome(r, output_outcome(self@.expected_generation, run))
            }),
    {
        let ghost before = transport.calls();
        let output = transport.read_bytes(self.name.as_str(), "outblob");
        let ghost read = transport.calls();
        proof {
            lemma_since_push(before, read.last());
        }
        let output = match output {
            Ok(bytes) => bytes,
            Err(e) => {
                return Err(QuoteGenerationError::IO(e));
            },
        };
        let actual = self.read_generation(transport);
        proof {
            lemma_since_push(read, transport.calls().last());
            lemma_since_concat(before, read, transport.calls());
        }
        let actual = actual?;
        checked_output(self.expected_generation, output, actual)
    }

    /// Reads the current generation.
    pub fn read_generation<T: Transport>(&self, transport: &mut Recorder<T>) -> (r: Result<
        u32,
        QuoteGenerationError,
    >)
        ensures
            final(transport).calls() == old(transport).calls().push(final(transport).calls().last()),
            is_text_read(final(transport).calls().last(), self@.name, "generation"@),
            r == generation_read(final(transport).calls().last()),
    {
        match transport.read_text(self.name.as_str(), "generation") {
            Ok(text) => generation_from_text(text),
            Err(e) => Err(QuoteGenerationError::IO(e)),
        }
    }

    /// Checks that the session's provider is one of the accepted values.
    pub fn check_provider<T: Transport>(
        &self,
        transport: &mut Recorder<T>,
        accepted_values: Vec<&str>,
    ) -> (r: Result<(), QuoteGenerationError>)
        ensures
            final(transport).calls() == old(transport).calls().push(final(transport).calls().last()),
            is_text_read(final(transport).calls().last(), self@.name, "provider"@),
            provider_check(final(transport).calls().last(), accepted_values@, r),
    {
        match transport.read_text(self.name.as_str(), "provider") {
            Ok(provider) => provider_verdict(provider, &accepted_values),
            Err(e) => Err(QuoteGenerationError::IO(e)),
        }
    }

    /// Makes the generation read now the one expected, and returns it.
    fn update_generation<T: Transport>(&mut self, transport: &mut Recorder<T>) -> (r: Result<
        u32,
        QuoteGenerationError,
    >)
        ensures
            final(transport).calls() == old(transport).calls().push(final(transport).calls().last()),
            is_text_read(final(transport).calls().last(), old(self)@.name, "generation"@),
            r == generation_read(final(transport).calls().last()),
            r is Ok ==> final(self)@ == (QuoteState {
                name: old(self)@.name,
                expected_generation: r->Ok_0 as nat,
            }),
            r is Err ==> final(self)@ == old(self)@,
    {
        let g = self.read_generation(transport)?;
        self.expected_generation = g as u64;
        Ok(g)
    }
}

} // verus!
