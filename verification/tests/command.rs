use urlcode::cli::{
    all_presets, option_kind, preset_named, step, Args, CliArg, CliError, OptionKind,
    ParseOutcome, Preset, Settings, SpaceOption, Step,
};
use urlcode::command::run;
use urlcode::AsciiCharset;

fn parse(args: &[&str]) -> Result<ParseOutcome, CliError> {
    let mut parser = lexopt::Parser::from_args(args.iter().copied());
    Args::try_parse(&mut parser)
}

fn parsed(args: &[&str]) -> Args {
    match parse(args) {
        Ok(ParseOutcome::Run(args)) => args,
        _ => panic!("expected arguments to run with"),
    }
}

/// What `urlcode ARGS` writes for `input`.
fn urlcode(args: &[&str], input: &[u8]) -> Vec<u8> {
    run(&parsed(args), input)
}

#[test]
fn option_kinds() {
    let short = |c| option_kind(&CliArg::Short(c));
    let long = |s: &str| option_kind(&CliArg::Long(s.as_bytes().to_vec()));
    assert_eq!(short('d'), OptionKind::Decode);
    assert_eq!(long("decode"), OptionKind::Decode);
    assert_eq!(short('p'), OptionKind::Preset);
    assert_eq!(long("preset"), OptionKind::Preset);
    assert_eq!(short('l'), OptionKind::ListPresets);
    assert_eq!(long("list-presets"), OptionKind::ListPresets);
    assert_eq!(short('e'), OptionKind::Encoded);
    assert_eq!(long("encoded"), OptionKind::Encoded);
    assert_eq!(short('u'), OptionKind::Unencoded);
    assert_eq!(long("unencoded"), OptionKind::Unencoded);
    assert_eq!(short('s'), OptionKind::SpacePlus);
    assert_eq!(long("space-plus"), OptionKind::SpacePlus);
    assert_eq!(short('S'), OptionKind::NoSpacePlus);
    assert_eq!(long("no-space-plus"), OptionKind::NoSpacePlus);
    assert_eq!(long("ascii-only"), OptionKind::AsciiOnly);
    assert_eq!(short('h'), OptionKind::Help);
    assert_eq!(long("help"), OptionKind::Help);
    assert_eq!(short('V'), OptionKind::Version);
    assert_eq!(long("version"), OptionKind::Version);
    assert_eq!(short('v'), OptionKind::Unexpected);
    assert_eq!(short('a'), OptionKind::Unexpected);
    assert_eq!(long("decod"), OptionKind::Unexpected);
    assert_eq!(option_kind(&CliArg::Value(b"-d".to_vec())), OptionKind::Unexpected);
}

#[test]
fn preset_names() {
    for p in all_presets() {
        assert_eq!(preset_named(p.name().as_bytes()), Some(p));
    }
    assert_eq!(all_presets().len(), 11);
    assert_eq!(preset_named(b"urlencoded"), Some(Preset::Urlencoded));
    assert_eq!(preset_named(b"special-query"), Some(Preset::SpecialQuery));
    assert_eq!(preset_named(b"none"), Some(Preset::Empty));
    assert_eq!(preset_named(b"non_alphanumeric"), Some(Preset::NonAlphanumeric));
    assert_eq!(preset_named(b"non-alphanumeric"), None);
    assert_eq!(preset_named(b""), None);
    assert_eq!(preset_named(b"All"), None);
}

#[test]
fn readme_examples() {
    assert_eq!(
        urlcode(&[], b"hello there/ asd23@#%23"),
        b"hello+there%2F+asd23%40%23%2523".to_vec()
    );
    assert_eq!(
        urlcode(&["-d"], b"hello+there%2F+asd23%40%23%2523"),
        b"hello there/ asd23@#%23".to_vec()
    );
    assert_eq!(urlcode(&["-pall"], b"a sdf"), b"%61%20%73%64%66".to_vec());
    assert_eq!(urlcode(&["-pall", "-s"], b"a sdf"), b"%61+%73%64%66".to_vec());
    assert_eq!(urlcode(&["-pnone", "-ead"], b"a sdf"), b"%61 s%64f".to_vec());
    assert_eq!(urlcode(&[], "abc αβγ".as_bytes()), "abc+αβγ".as_bytes().to_vec());
    assert_eq!(
        urlcode(&["--ascii-only"], "abc αβγ".as_bytes()),
        b"abc+%CE%B1%CE%B2%CE%B3".to_vec()
    );
}

#[test]
fn options_on_top_of_the_preset() {
    // Marks and unmarks: for each character the last option that names it counts.
    assert_eq!(urlcode(&["-pnone", "-eab", "-ub"], b"abc"), b"%61bc".to_vec());
    assert_eq!(urlcode(&["-pnone", "-ub", "-eab"], b"abc"), b"%61%62c".to_vec());
    // The preset gives the base wherever it stands.
    assert_eq!(urlcode(&["-ea", "-pnone"], b"ab"), b"%61b".to_vec());
    assert_eq!(urlcode(&["-s", "-pnone", "-e", " "], b"a b"), b"a+b".to_vec());
    assert_eq!(urlcode(&["-S"], b"a b"), b"a%20b".to_vec());
    assert_eq!(urlcode(&["--unencoded=/"], b"a/b c"), b"a/b+c".to_vec());
    assert_eq!(urlcode(&["-pcontrol"], b"a b\x00\x7f\xc3"), b"a b%00%7F\xc3".to_vec());
    assert_eq!(
        urlcode(&["-p", "non_alphanumeric"], b"foo bar?Z9_\xc3"),
        b"foo%20bar%3FZ9%5F\xc3".to_vec()
    );
    assert_eq!(urlcode(&["-p", "path", "--ascii-only"], b"?\xc3"), b"%3F%C3".to_vec());
    assert_eq!(urlcode(&["-pnone", "-d"], b"a+%41"), b"a+A".to_vec());
    let args = parsed(&["-d", "--preset=query", "-S", "--encoded=%", "--ascii-only"]);
    assert!(args.decode);
    assert!(!args.preset.space_as_plus());
    assert!(args.preset.ascii_only());
    assert_eq!(args.preset.encode_charset(), AsciiCharset::query().add(b'%'));
}

#[test]
fn stops_and_refusals() {
    assert!(matches!(parse(&["-h", "--bogus"]), Ok(ParseOutcome::Help)));
    assert!(matches!(parse(&["--version"]), Ok(ParseOutcome::Version)));
    assert!(matches!(parse(&["-dV"]), Ok(ParseOutcome::Version)));
    assert!(matches!(parse(&["-l", "x"]), Ok(ParseOutcome::ListPresets)));
    match parse(&["-p", "nope"]) {
        Err(CliError::UnknownPreset(name)) => assert_eq!(name, b"nope".to_vec()),
        _ => panic!("expected an unknown preset"),
    }
    match parse(&["-e", "é"]) {
        Err(CliError::NonAsciiCharacters(v)) => assert_eq!(v, "é".as_bytes().to_vec()),
        _ => panic!("expected non-ascii characters"),
    }
    match parse(&["-x"]) {
        Err(CliError::Unexpected(CliArg::Short(c))) => assert_eq!(c, 'x'),
        _ => panic!("expected an unexpected option"),
    }
    match parse(&["file.txt"]) {
        Err(CliError::Unexpected(CliArg::Value(v))) => assert_eq!(v, b"file.txt".to_vec()),
        _ => panic!("expected an unexpected argument"),
    }
    assert!(matches!(parse(&["-p"]), Err(CliError::Lexopt(_))));
    assert!(matches!(parse(&["--decode=yes"]), Err(CliError::Lexopt(_))));
}

#[test]
fn steps() {
    let start = Settings::initial();
    assert_eq!(start.preset, Preset::Urlencoded);
    assert_eq!(start.space, SpaceOption::FromPreset);
    match step(start, CliArg::Long(b"decode".to_vec()), None) {
        Step::Next(s) => assert_eq!(s, Settings { decode: true, ..start }),
        _ => panic!("expected to go on"),
    }
    match step(start, CliArg::Short('p'), Some(b"all".to_vec())) {
        Step::Next(s) => assert_eq!(s, Settings { preset: Preset::All, ..start }),
        _ => panic!("expected to go on"),
    }
    match step(start, CliArg::Short('s'), None) {
        Step::Next(s) => assert_eq!(s, Settings { space: SpaceOption::Plus, ..start }),
        _ => panic!("expected to go on"),
    }
    match step(start, CliArg::Short('e'), Some(b"ab".to_vec())) {
        Step::Next(s) => {
            assert_eq!(s.encoded, AsciiCharset::new(b"ab"));
            assert_eq!(s.unencoded, AsciiCharset::empty());
        }
        _ => panic!("expected to go on"),
    }
    match step(start, CliArg::Short('p'), Some(b"ALL".to_vec())) {
        Step::Fail(CliError::UnknownPreset(v)) => assert_eq!(v, b"ALL".to_vec()),
        _ => panic!("expected an unknown preset"),
    }
    assert!(matches!(step(start, CliArg::Short('h'), None), Step::Done(ParseOutcome::Help)));
    assert!(matches!(
        step(start, CliArg::Long(b"list-presets".to_vec()), None),
        Step::Done(ParseOutcome::ListPresets)
    ));
    assert!(matches!(
        step(start, CliArg::Long(b"verbose".to_vec()), None),
        Step::Fail(CliError::Unexpected(CliArg::Long(_)))
    ));
}
