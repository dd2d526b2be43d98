use configfs_tsm::{
    bytes_to_hex, checked_output, create_quote, create_quote_name, create_quote_with_providers,
    create_tdx_quote, generation_from_text, parse_u32, provider_verdict, trim_newline,
    ContainerError, OpenQuote, QuoteGenerationError, Recorder, Transport,
};

/// An interface kept in memory, whose answers each test sets.
struct FakeTransport {
    /// What creating a container reports: `None` for success.
    create_failure: Option<fn() -> ContainerError>,
    /// Successive texts of the generation resource; the last one repeats.
    generations: Vec<String>,
    generation_reads: usize,
    provider: String,
    outblob: Vec<u8>,
    /// Every call, in order, as "operation session/resource".
    calls: Vec<String>,
    inblob: Option<Vec<u8>>,
    fail_reads: bool,
    fail_writes: bool,
}

impl FakeTransport {
    fn new(generations: &[&str], provider: &str, outblob: Vec<u8>) -> FakeTransport {
        FakeTransport {
            create_failure: None,
            generations: generations.iter().map(|g| g.to_string()).collect(),
            generation_reads: 0,
            provider: provider.to_string(),
            outblob,
            calls: Vec::new(),
            inblob: None,
            fail_reads: false,
            fail_writes: false,
        }
    }
}

fn already_exists() -> ContainerError {
    ContainerError::AlreadyExists
}

fn not_found() -> ContainerError {
    ContainerError::NotFound
}

fn denied() -> ContainerError {
    ContainerError::Io(std::io::Error::new(std::io::ErrorKind::PermissionDenied, "denied"))
}

impl Transport for FakeTransport {
    fn create_container(&mut self, session: &str) -> Result<(), ContainerError> {
        self.calls.push(format!("create {}", session));
        match self.create_failure {
            Some(f) => Err(f()),
            None => Ok(()),
        }
    }

    fn write_bytes(&mut self, session: &str, name: &str, bytes: &[u8]) -> Result<(), std::io::Error> {
        self.calls.push(format!("write {}/{}", session, name));
        if self.fail_writes {
            return Err(std::io::Error::new(std::io::ErrorKind::Other, "read-only"));
        }
        self.inblob = Some(bytes.to_vec());
        Ok(())
    }

    fn read_bytes(&mut self, session: &str, name: &str) -> Result<Vec<u8>, std::io::Error> {
        self.calls.push(format!("read {}/{}", session, name));
        if self.fail_reads {
            return Err(std::io::Error::new(std::io::ErrorKind::Other, "broken"));
        }
        Ok(self.outblob.clone())
    }

    fn read_text(&mut self, session: &str, name: &str) -> Result<String, std::io::Error> {
        self.calls.push(format!("read {}/{}", session, name));
        if self.fail_reads {
            return Err(std::io::Error::new(std::io::ErrorKind::Other, "broken"));
        }
        if name == "provider" {
            return Ok(self.provider.clone());
        }
        let i = self.generation_reads.min(self.generations.len() - 1);
        self.generation_reads += 1;
        Ok(self.generations[i].clone())
    }
}

#[test]
fn session_name_is_hex_of_input() {
    let name = create_quote_name(&[0u8; 64]);
    assert_eq!(name, "00".repeat(64));
    assert_eq!(name.len(), 128);
    let mut input = [0u8; 64];
    input[0] = 0xab;
    input[63] = 0x0f;
    let name = create_quote_name(&input);
    assert!(name.starts_with("ab00"));
    assert!(name.ends_with("000f"));
}

#[test]
fn session_name_is_deterministic_and_distinct() {
    let mut input = [7u8; 64];
    assert_eq!(create_quote_name(&input), create_quote_name(&input));
    let before = create_quote_name(&input);
    input[31] = 8;
    assert_ne!(create_quote_name(&input), before);
}

#[test]
fn bytes_to_hex_exact() {
    assert_eq!(bytes_to_hex(&[0x00, 0x0f, 0xa5, 0xff, 0x10]), "000fa5ff10");
    assert_eq!(bytes_to_hex(&[]), "");
}

#[test]
fn create_twice_on_existing_container() {
    let mut t = FakeTransport::new(&["0"], "tdx_guest", vec![1]);
    t.create_failure = Some(already_exists);
    let mut t = Recorder::new(t);
    assert!(OpenQuote::new(&mut t, "session").is_ok());
    assert!(OpenQuote::new(&mut t, "session").is_ok());
    assert_eq!(t.transport().calls, vec!["create session", "create session"]);
}

#[test]
fn missing_interface_is_reported() {
    let mut t = FakeTransport::new(&["0"], "tdx_guest", vec![1]);
    t.create_failure = Some(not_found);
    let mut t = Recorder::new(t);
    assert!(matches!(
        OpenQuote::new(&mut t, "session"),
        Err(QuoteGenerationError::CannotFindTsmDir)
    ));
}

#[test]
fn other_creation_failure_is_io() {
    let mut t = FakeTransport::new(&["0"], "tdx_guest", vec![1]);
    t.create_failure = Some(denied);
    let mut t = Recorder::new(t);
    match OpenQuote::new(&mut t, "session") {
        Err(QuoteGenerationError::IO(e)) => {
            assert_eq!(e.kind(), std::io::ErrorKind::PermissionDenied)
        }
        _ => panic!("expected an I/O error"),
    }
}

#[test]
fn generation_conflict_is_detected() {
    let mut t = FakeTransport::new(&["5", "7"], "tdx_guest", vec![9, 9, 9]);
    let mut t = Recorder::new(t);
    let mut quote = OpenQuote::new(&mut t, "s").unwrap();
    quote.write_input(&mut t, [1u8; 64]).unwrap();
    assert!(matches!(
        quote.read_output(&mut t),
        Err(QuoteGenerationError::Generation(6, 7))
    ));
}

#[test]
fn empty_output_is_an_error() {
    let mut t = FakeTransport::new(&["5", "6"], "tdx_guest", Vec::new());
    let mut t = Recorder::new(t);
    let mut quote = OpenQuote::new(&mut t, "s").unwrap();
    quote.write_input(&mut t, [1u8; 64]).unwrap();
    assert!(matches!(
        quote.read_output(&mut t),
        Err(QuoteGenerationError::EmptyQuote)
    ));
}

#[test]
fn provider_is_rejected() {
    let mut t = FakeTransport::new(&["0"], "sev\n", vec![1]);
    let mut t = Recorder::new(t);
    let quote = OpenQuote::new(&mut t, "s").unwrap();
    match quote.check_provider(&mut t, vec!["tdx_guest"]) {
        Err(QuoteGenerationError::BadProvider(p)) => assert_eq!(p, "sev"),
        _ => panic!("expected a rejected provider"),
    }
}

#[test]
fn provider_is_accepted() {
    let mut t = FakeTransport::new(&["0"], "sev\r\n", vec![1]);
    let mut t = Recorder::new(t);
    let quote = OpenQuote::new(&mut t, "s").unwrap();
    assert!(quote.check_provider(&mut t, vec!["tdx_guest", "sev"]).is_ok());
}

#[test]
fn text_trimming() {
    for raw in ["5\n", "5\r\n", "5"] {
        let mut s = raw.to_string();
        trim_newline(&mut s);
        assert_eq!(s, "5");
    }
    let mut s = "5\r".to_string();
    trim_newline(&mut s);
    assert_eq!(s, "5\r");
    let mut s = "5\n\n".to_string();
    trim_newline(&mut s);
    assert_eq!(s, "5\n");
    let mut s = String::new();
    trim_newline(&mut s);
    assert_eq!(s, "");
}

#[test]
fn generation_read_through_transport() {
    for raw in ["5\n", "5\r\n", "5"] {
        let mut t = FakeTransport::new(&[raw], "tdx_guest", vec![1]);
        let mut t = Recorder::new(t);
        let quote = OpenQuote::new(&mut t, "s").unwrap();
        assert_eq!(quote.read_generation(&mut t).unwrap(), 5);
    }
}

#[test]
fn end_to_end_quote() {
    let mut t = FakeTransport::new(&["0", "1"], "tdx_guest", vec![0xAA; 32]);
    let mut t = Recorder::new(t);
    assert_eq!(create_quote(&mut t, [0u8; 64]).unwrap(), vec![0xAA; 32]);
    assert_eq!(t.transport().inblob, Some(vec![0u8; 64]));
    let name = "00".repeat(64);
    assert_eq!(
        t.transport().calls,
        vec![
            format!("create {}", name),
            format!("read {}/generation", name),
            format!("write {}/inblob", name),
            format!("read {}/outblob", name),
            format!("read {}/generation", name),
        ]
    );
}

#[test]
fn end_to_end_tdx_quote() {
    let mut t = FakeTransport::new(&["3\n", "4\n"], "tdx_guest\n", vec![0x55; 10]);
    let mut t = Recorder::new(t);
    assert_eq!(create_tdx_quote(&mut t, [2u8; 64]).unwrap(), vec![0x55; 10]);
    assert_eq!(t.transport().inblob, Some(vec![2u8; 64]));
}

#[test]
fn provider_checked_before_input_is_written() {
    let mut t = FakeTransport::new(&["0", "1"], "sev\n", vec![0xAA; 32]);
    let mut t = Recorder::new(t);
    match create_tdx_quote(&mut t, [0u8; 64]) {
        Err(QuoteGenerationError::BadProvider(p)) => assert_eq!(p, "sev"),
        _ => panic!("expected a rejected provider"),
    }
    assert_eq!(t.transport().inblob, None);
}

#[test]
fn quote_with_providers_accepts_listed_provider() {
    let mut t = FakeTransport::new(&["0", "1"], "sev_guest", vec![1, 2]);
    let mut t = Recorder::new(t);
    let r = create_quote_with_providers(&mut t, [0u8; 64], vec!["tdx_guest", "sev_guest"]);
    assert_eq!(r.unwrap(), vec![1, 2]);
}

#[test]
fn malformed_generation_is_parse_error() {
    for raw in ["abc", "", "\n", "+", "-1", " 5", "4294967296"] {
        let mut t = FakeTransport::new(&[raw], "tdx_guest", vec![1]);
        let mut t = Recorder::new(t);
        let mut quote = OpenQuote::new(&mut t, "s").unwrap();
        assert!(matches!(
            quote.write_input(&mut t, [0u8; 64]),
            Err(QuoteGenerationError::ParseInt)
        ));
        assert_eq!(t.transport().inblob, None);
    }
}

#[test]
fn transport_failure_is_io() {
    let mut t = FakeTransport::new(&["0"], "tdx_guest", vec![1]);
    t.fail_reads = true;
    let mut t = Recorder::new(t);
    let quote = OpenQuote::new(&mut t, "s").unwrap();
    assert!(matches!(
        quote.read_output(&mut t),
        Err(QuoteGenerationError::IO(_))
    ));
}

#[test]
fn largest_generation_shows_as_conflict() {
    let mut t = FakeTransport::new(&["4294967295"], "tdx_guest", vec![1]);
    let mut t = Recorder::new(t);
    let mut quote = OpenQuote::new(&mut t, "s").unwrap();
    quote.write_input(&mut t, [0u8; 64]).unwrap();
    assert!(matches!(
        quote.read_output(&mut t),
        Err(QuoteGenerationError::Generation(4294967296, 4294967295))
    ));
}

#[test]
fn parse_u32_cases() {
    assert_eq!(parse_u32("0"), Some(0));
    assert_eq!(parse_u32("+7"), Some(7));
    assert_eq!(parse_u32("0042"), Some(42));
    assert_eq!(parse_u32("4294967295"), Some(u32::MAX));
    assert_eq!(parse_u32("4294967296"), None);
    assert_eq!(parse_u32("99999999999999999999"), None);
    assert_eq!(parse_u32("12a"), None);
    assert_eq!(parse_u32(""), None);
    assert_eq!(parse_u32("+"), None);
    assert_eq!(parse_u32("-0"), None);
}

#[test]
fn generation_from_text_cases() {
    assert_eq!(generation_from_text("17\r\n".to_string()).unwrap(), 17);
    assert!(matches!(
        generation_from_text("17\n\n".to_string()),
        Err(QuoteGenerationError::ParseInt)
    ));
}

#[test]
fn checked_output_cases() {
    assert!(matches!(
        checked_output(6, vec![1], 7),
        Err(QuoteGenerationError::Generation(6, 7))
    ));
    assert!(matches!(
        checked_output(6, Vec::new(), 7),
        Err(QuoteGenerationError::Generation(6, 7))
    ));
    assert!(matches!(
        checked_output(6, Vec::new(), 6),
        Err(QuoteGenerationError::EmptyQuote)
    ));
    assert_eq!(checked_output(6, vec![3, 4], 6).unwrap(), vec![3, 4]);
}

#[test]
fn provider_verdict_cases() {
    assert!(provider_verdict("tdx_guest\n".to_string(), &vec!["tdx_guest"]).is_ok());
    assert!(matches!(
        provider_verdict("tdx_guest".to_string(), &Vec::new()),
        Err(QuoteGenerationError::BadProvider(_))
    ));
    match provider_verdict("sev\r\n".to_string(), &vec!["tdx_guest"]) {
        Err(QuoteGenerationError::BadProvider(p)) => assert_eq!(p, "sev"),
        _ => panic!("expected a rejected provider"),
    }
}

#[test]
fn open_from_creation_outcome() {
    assert!(OpenQuote::open("s", Ok(())).is_ok());
    assert!(OpenQuote::open("s", Err(ContainerError::AlreadyExists)).is_ok());
    assert!(matches!(
        OpenQuote::open("s", Err(ContainerError::NotFound)),
        Err(QuoteGenerationError::CannotFindTsmDir)
    ));
    assert!(matches!(
        OpenQuote::open("s", Err(denied())),
        Err(QuoteGenerationError::IO(_))
    ));
}

#[test]
fn error_messages() {
    assert_eq!(
        QuoteGenerationError::Generation(6, 7).message(),
        "Wrong generation number - possible conflict. Expected: 6 Actual: 7"
    );
    assert_eq!(
        QuoteGenerationError::Generation(4294967296, 0).message(),
        "Wrong generation number - possible conflict. Expected: 4294967296 Actual: 0"
    );
    assert_eq!(
        QuoteGenerationError::BadProvider("sev".to_string()).message(),
        "Quote has provider which is not allowed: sev"
    );
    assert_eq!(
        QuoteGenerationError::ParseInt.message(),
        "Could not parse integer when reading generation value"
    );
    assert_eq!(
        QuoteGenerationError::EmptyQuote.message(),
        "Empty quote. This could be an authorization issue with the quote generation socket."
    );
    assert_eq!(
        QuoteGenerationError::CannotFindTsmDir.message(),
        "Cannot find configfs-tsm directory - maybe your hardware does not support it"
    );
    let io = QuoteGenerationError::from(std::io::Error::new(std::io::ErrorKind::Other, "boom"));
    assert_eq!(io.message(), "boom");
    assert!(io.source().is_some());
    assert!(QuoteGenerationError::EmptyQuote.source().is_none());
}

#[test]
fn input_written_expects_one_past_baseline() {
    let mut t = FakeTransport::new(&["6"], "tdx_guest", vec![4, 2]);
    let mut t = Recorder::new(t);
    let mut quote = OpenQuote::new(&mut t, "s").unwrap();
    quote.input_written(5);
    assert_eq!(quote.read_output(&mut t).unwrap(), vec![4, 2]);
    quote.input_written(6);
    assert!(matches!(
        quote.read_output(&mut t),
        Err(QuoteGenerationError::Generation(7, 6))
    ));
}

#[test]
fn failed_input_write_is_io() {
    let mut t = FakeTransport::new(&["5"], "tdx_guest", vec![1]);
    t.fail_writes = true;
    let mut t = Recorder::new(t);
    let mut quote = OpenQuote::new(&mut t, "s").unwrap();
    match quote.write_input(&mut t, [0u8; 64]) {
        Err(QuoteGenerationError::IO(e)) => assert_eq!(e.to_string(), "read-only"),
        _ => panic!("expected an I/O error"),
    }
    assert_eq!(t.transport().inblob, None);
}

#[test]
fn parse_int_error_converts() {
    let e = "x".parse::<u32>().unwrap_err();
    assert!(matches!(
        QuoteGenerationError::from(e),
        QuoteGenerationError::ParseInt
    ));
}

#[test]
fn message_numbers_in_decimal() {
    assert_eq!(
        QuoteGenerationError::Generation(0, 10).message(),
        "Wrong generation number - possible conflict. Expected: 0 Actual: 10"
    );
    assert_eq!(
        QuoteGenerationError::Generation(4294967296, 4294967295).message(),
        "Wrong generation number - possible conflict. Expected: 4294967296 Actual: 4294967295"
    );
}
