//! The command line of the `urlcode` tool, read with `lexopt`.
//!
//! ```text
//! USAGE:
//!     urlcode [-d] [-p PRESET] [OPTIONS...]
//!
//! OPTIONS:
//!   -d, --decode              Enable decoding mode.
//!   -p, --preset=PRESET       Define charset based on percent-encode set (default: urlencoded).
//!   -l, --list-presets        List available presets.
//!   -e, --encoded=CHARS       Mark ascii characters for percent-encoding.
//!   -u, --unencoded=CHARS     Unmark ascii characters for percent-encoding.
//!   -s, --space-plus          Encode spaces with a single '+'.
//!   -S, --no-space-plus       Do not encode spaces with a single '+'.
//!       --ascii-only          Encode all non-ascii characters.
//!
//!   -h, --help                Print help information.
//!   -V, --version             Print version information.
//! ```
//!
//! The preset gives the base: its charset and its flags. `-e` and `-u` then mark and unmark
//! characters (for each character the last of them that names it counts), `-s` and `-S` set
//! how spaces are encoded (the last one counts), and `--ascii-only` turns on the encoding of
//! non-ascii bytes, wherever they stand on the command line.
use vstd::prelude::*;
use vstd::string::StringSliceAdditionalSpecFns;

use crate::codec::{lemma_encode_all_escapes_every_byte, PERCENT};
use crate::hex::hex_digit;
use crate::charset::{
    all_ascii, ascii_bytes, bytes_of, component_set, control_set, fragment_set,
    is_ascii_alphanumeric, lemma_only_ascii, non_alphanumeric_set, path_set, query_set, special_query_set, userinfo_set, x_www_form_urlencoded_set, AsciiCharset,
};

verus! {

#[verifier::external_type_specification]
#[verifier::external_body]
pub struct ExParser(lexopt::Parser);

#[verifier::external_type_specification]
#[verifier::external_body]
pub struct ExLexoptError(lexopt::Error);

/// What the tool should do, as the command line says: decode or encode, with this preset.
pub struct Args {
    pub decode: bool,
    pub preset: crate::preset::Preset,
}

/// The presets that `--preset` names.
#[derive(Clone, Copy, PartialEq, Eq, Debug, Structural)]
pub enum Preset {
    Control,
    NonAlphanumeric,
    Fragment,
    Query,
    SpecialQuery,
    Path,
    Userinfo,
    Component,
    Urlencoded,
    All,
    Empty,
}

/// How spaces are to be encoded: as the preset says, or as `+`, or not as `+`.
#[derive(Clone, Copy, PartialEq, Eq, Debug, Structural)]
pub enum SpaceOption {
    FromPreset,
    Plus,
    NoPlus,
}

/// The settings read so far from the command line.
#[derive(Clone, Copy, PartialEq, Eq, Debug, Structural)]
pub struct Settings {
    pub decode: bool,
    pub preset: Preset,
    /// Characters marked by `-e` (and not unmarked by a later `-u`).
    pub encoded: AsciiCharset,
    /// Characters unmarked by `-u` (and not marked by a later `-e`).
    pub unencoded: AsciiCharset,
    pub space: SpaceOption,
    pub ascii_only: bool,
}

/// One command line argument, as `lexopt` splits it: a short option such as `-d`, a long
/// option such as `--decode` (its name without the dashes), or a positional argument.
pub enum CliArg {
    Short(char),
    Long(Vec<u8>),
    Value(Vec<u8>),
}

/// One command line argument as plain values: a short option, the bytes of a long option's
/// name, or the raw bytes of a positional argument.
pub enum ArgToken {
    Short(char),
    Long(Seq<u8>),
    Value(Seq<u8>),
}

impl View for CliArg {
    type V = ArgToken;

    open spec fn view(&self) -> ArgToken {
        match self {
            CliArg::Short(c) => ArgToken::Short(*c),
            CliArg::Long(name) => ArgToken::Long(name@),
            CliArg::Value(v) => ArgToken::Value(v@),
        }
    }
}

/// What an option asks for.
#[derive(Clone, Copy, PartialEq, Eq, Debug, Structural)]
pub enum OptionKind {
    Decode,
    Preset,
    ListPresets,
    Encoded,
    Unencoded,
    SpacePlus,
    NoSpacePlus,
    AsciiOnly,
    Help,
    Version,
    Unexpected,
}

/// How parsing the command line ends when it does not fail.
pub enum ParseOutcome {
    /// Run the tool with these arguments.
    Run(Args),
    /// Print the help text and stop.
    Help,
    /// Print the version and stop.
    Version,
    /// Print the names of the presets and stop.
    ListPresets,
}

/// Why the command line was refused.
pub enum CliError {
    /// The argument reader failed (a missing option value, a value where none was expected).
    Lexopt(lexopt::Error),
    /// The value of `--preset` names no preset.
    UnknownPreset(Vec<u8>),
    /// The value of `--encoded` or `--unencoded` holds a byte that is not ascii.
    NonAsciiCharacters(Vec<u8>),
    /// An option or argument that the tool does not take.
    Unexpected(CliArg),
}

/// A number that measures how much of the command line `parser` has still to read: the bytes
/// of the arguments it has not taken yet, with one for each such argument, and the bytes left
/// of the argument it is in the middle of.
pub uninterp spec fn unread_input(parser: lexopt::Parser) -> nat;

/// What `lexopt::Parser::next` makes of a parser in this state: the argument it hands out
/// (`None` for an error, `Some(None)` at the end of the command line) and the parser's state
/// afterwards.
pub uninterp spec fn lexopt_next(parser: lexopt::Parser) -> (Option<Option<ArgToken>>, lexopt::Parser);

/// What `lexopt::Parser::value` makes of a parser in this state: the bytes of the value it
/// hands out (`None` for an error) and the parser's state afterwards.
pub uninterp spec fn lexopt_value(parser: lexopt::Parser) -> (Option<Seq<u8>>, lexopt::Parser);

/// Reads the next argument.
///
/// Calls `lexopt::Parser::next` and hands the argument out as a [`CliArg`]: a long option by
/// the bytes of its name, a positional argument by its raw bytes. What it hands out and the
/// state it leaves the parser in are a function of the parser's state, named
/// [`lexopt_next`]; the rules by which lexopt splits the command line are not stated. Each
/// call that yields an argument has read at least one more byte of the command line.
#[verifier::external_body]
fn next_arg(parser: &mut lexopt::Parser) -> (r: Result<Option<CliArg>, lexopt::Error>)
    ensures
        *final(parser) == lexopt_next(*old(parser)).1,
        r is Err <==> lexopt_next(*old(parser)).0 is None,
        r matches Ok(None) ==> lexopt_next(*old(parser)).0 == Some(Option::<ArgToken>::None),
        r matches Ok(Some(a)) ==> lexopt_next(*old(parser)).0 == Some(Some(a@)),
        r matches Ok(Some(_)) ==> unread_input(*final(parser)) < unread_input(*old(parser)),
{
    match parser.next() {
        Ok(Some(lexopt::Arg::Short(c))) => Ok(Some(CliArg::Short(c))),
        Ok(Some(lexopt::Arg::Long(name))) => Ok(Some(CliArg::Long(name.as_bytes().to_vec()))),
        Ok(Some(lexopt::Arg::Value(v))) => Ok(Some(CliArg::Value(v.as_encoded_bytes().to_vec()))),
        Ok(None) => Ok(None),
        Err(e) => Err(e),
    }
}

/// Reads the value of the option just seen.
///
/// Calls `lexopt::Parser::value` and hands the value out by its raw bytes. What it hands out
/// and the state it leaves the parser in are a function of the parser's state, named
/// [`lexopt_value`]; which bytes lexopt takes as the value is not stated. The value is taken
/// from what the parser had not read yet, so the unread input does not grow.
#[verifier::external_body]
fn option_value(parser: &mut lexopt::Parser) -> (r: Result<Vec<u8>, lexopt::Error>)
    ensures
        *final(parser) == lexopt_value(*old(parser)).1,
        r is Err <==> lexopt_value(*old(parser)).0 is None,
        r matches Ok(v) ==> lexopt_value(*old(parser)).0 == Some(v@),
        unread_input(*final(parser)) <= unread_input(*old(parser)),
{
    match parser.value() {
        Ok(v) => Ok(v.as_encoded_bytes().to_vec()),
        Err(e) => Err(e),
    }
}

/// Whether two byte strings are equal.
fn bytes_eq(a: &[u8], b: &[u8]) -> (r: bool)
    ensures
        r == (a@ == b@),
{
    if a.len() != b.len() {
        return false;
    }
    let mut i: usize = 0;
    while i < a.len()
        invariant
            i <= a.len(),
            a.len() == b.len(),
            forall|j: int| 0 <= j < i ==> a@[j] == b@[j],
        decreases a.len() - i,
    {
        if a[i] != b[i] {
            return false;
        }
        i = i + 1;
    }
    assert(a@ =~= b@);
    true
}


/// What an argument asks for: `-d`/`--decode`, `-p`/`--preset`, `-l`/`--list-presets`,
/// `-e`/`--encoded`, `-u`/`--unencoded`, `-s`/`--space-plus`, `-S`/`--no-space-plus`,
/// `--ascii-only`, `-h`/`--help`, `-V`/`--version`; anything else is unexpected.
pub open spec fn spec_token_kind(arg: ArgToken) -> OptionKind {
    match arg {
        ArgToken::Short(c) => if c == 'd' {
            OptionKind::Decode
        } else if c == 'p' {
            OptionKind::Preset
        } else if c == 'l' {
            OptionKind::ListPresets
        } else if c == 'e' {
            OptionKind::Encoded
        } else if c == 'u' {
            OptionKind::Unencoded
        } else if c == 's' {
            OptionKind::SpacePlus
        } else if c == 'S' {
            OptionKind::NoSpacePlus
        } else if c == 'h' {
            OptionKind::Help
        } else if c == 'V' {
            OptionKind::Version
        } else {
            OptionKind::Unexpected
        },
        ArgToken::Long(name) => if name == "decode".spec_bytes() {
            OptionKind::Decode
        } else if name == "preset".spec_bytes() {
            OptionKind::Preset
        } else if name == "list-presets".spec_bytes() {
            OptionKind::ListPresets
        } else if name == "encoded".spec_bytes() {
            OptionKind::Encoded
        } else if name == "unencoded".spec_bytes() {
            OptionKind::Unencoded
        } else if name == "space-plus".spec_bytes() {
            OptionKind::SpacePlus
        } else if name == "no-space-plus".spec_bytes() {
            OptionKind::NoSpacePlus
        } else if name == "ascii-only".spec_bytes() {
            OptionKind::AsciiOnly
        } else if name == "help".spec_bytes() {
            OptionKind::Help
        } else if name == "version".spec_bytes() {
            OptionKind::Version
        } else {
            OptionKind::Unexpected
        },
        ArgToken::Value(_) => OptionKind::Unexpected,
    }
}

/// What an argument asks for.
pub open spec fn spec_option_kind(arg: CliArg) -> OptionKind {
    spec_token_kind(arg@)
}

/// The options that take a value: `--preset`, `--encoded` and `--unencoded`.
pub open spec fn takes_value(kind: OptionKind) -> bool {
    kind == OptionKind::Preset || kind == OptionKind::Encoded || kind == OptionKind::Unencoded
}

/// The name of a preset on the command line.
pub open spec fn preset_word(p: Preset) -> Seq<u8> {
    match p {
        Preset::Control => "control".spec_bytes(),
        Preset::NonAlphanumeric => "non_alphanumeric".spec_bytes(),
        Preset::Fragment => "fragment".spec_bytes(),
        Preset::Query => "query".spec_bytes(),
        Preset::SpecialQuery => "special-query".spec_bytes(),
        Preset::Path => "path".spec_bytes(),
        Preset::Userinfo => "userinfo".spec_bytes(),
        Preset::Component => "component".spec_bytes(),
        Preset::Urlencoded => "urlencoded".spec_bytes(),
        Preset::All => "all".spec_bytes(),
        Preset::Empty => "none".spec_bytes(),
    }
}

/// The preset that a `--preset` value names, if any.
pub open spec fn spec_preset_named(name: Seq<u8>) -> Option<Preset> {
    spec_preset_named_from(name, 0)
}

/// Each preset is reached by its own name: `--preset control` picks `control`,
/// `--preset userinfo` picks `userinfo`, and so on for every preset.
pub proof fn lemma_preset_names()
    ensures
        spec_preset_named("control".spec_bytes()) == Some(Preset::Control),
        spec_preset_named("non_alphanumeric".spec_bytes()) == Some(Preset::NonAlphanumeric),
        spec_preset_named("fragment".spec_bytes()) == Some(Preset::Fragment),
        spec_preset_named("query".spec_bytes()) == Some(Preset::Query),
        spec_preset_named("special-query".spec_bytes()) == Some(Preset::SpecialQuery),
        spec_preset_named("path".spec_bytes()) == Some(Preset::Path),
        spec_preset_named("userinfo".spec_bytes()) == Some(Preset::Userinfo),
        spec_preset_named("component".spec_bytes()) == Some(Preset::Component),
        spec_preset_named("urlencoded".spec_bytes()) == Some(Preset::Urlencoded),
        spec_preset_named("all".spec_bytes()) == Some(Preset::All),
        spec_preset_named("none".spec_bytes()) == Some(Preset::Empty),
{
    broadcast use vstd::string::group_string_axioms;

    reveal_strlit("control");
    assert("control"@ =~= seq!['c', 'o', 'n', 't', 'r', 'o', 'l']);
    assert(vstd::string::is_ascii("control"));
    assert("control".spec_bytes() =~= seq![0x63u8, 0x6Fu8, 0x6Eu8, 0x74u8, 0x72u8, 0x6Fu8, 0x6Cu8]);
    reveal_strlit("non_alphanumeric");
    assert("non_alphanumeric"@ =~= seq!['n', 'o', 'n', '_', 'a', 'l', 'p', 'h', 'a', 'n', 'u', 'm', 'e', 'r', 'i', 'c']);
    assert(vstd::string::is_ascii("non_alphanumeric"));
    assert("non_alphanumeric".spec_bytes() =~= seq![0x6Eu8, 0x6Fu8, 0x6Eu8, 0x5Fu8, 0x61u8, 0x6Cu8, 0x70u8, 0x68u8, 0x61u8, 0x6Eu8, 0x75u8, 0x6Du8, 0x65u8, 0x72u8, 0x69u8, 0x63u8]);
    reveal_strlit("fragment");
    assert("fragment"@ =~= seq!['f', 'r', 'a', 'g', 'm', 'e', 'n', 't']);
    assert(vstd::string::is_ascii("fragment"));
    assert("fragment".spec_bytes() =~= seq![0x66u8, 0x72u8, 0x61u8, 0x67u8, 0x6Du8, 0x65u8, 0x6Eu8, 0x74u8]);
    reveal_strlit("query");
    assert("query"@ =~= seq!['q', 'u', 'e', 'r', 'y']);
    assert(vstd::string::is_ascii("query"));
    assert("query".spec_bytes() =~= seq![0x71u8, 0x75u8, 0x65u8, 0x72u8, 0x79u8]);
    reveal_strlit("special-query");
    assert("special-query"@ =~= seq!['s', 'p', 'e', 'c', 'i', 'a', 'l', '-', 'q', 'u', 'e', 'r', 'y']);
    assert(vstd::string::is_ascii("special-query"));
    assert("special-query".spec_bytes() =~= seq![0x73u8, 0x70u8, 0x65u8, 0x63u8, 0x69u8, 0x61u8, 0x6Cu8, 0x2Du8, 0x71u8, 0x75u8, 0x65u8, 0x72u8, 0x79u8]);
    reveal_strlit("path");
    assert("path"@ =~= seq!['p', 'a', 't', 'h']);
    assert(vstd::string::is_ascii("path"));
    assert("path".spec_bytes() =~= seq![0x70u8, 0x61u8, 0x74u8, 0x68u8]);
    reveal_strlit("userinfo");
    assert("userinfo"@ =~= seq!['u', 's', 'e', 'r', 'i', 'n', 'f', 'o']);
    assert(vstd::string::is_ascii("userinfo"));
    assert("userinfo".spec_bytes() =~= seq![0x75u8, 0x73u8, 0x65u8, 0x72u8, 0x69u8, 0x6Eu8, 0x66u8, 0x6Fu8]);
    reveal_strlit("component");
    assert("component"@ =~= seq!['c', 'o', 'm', 'p', 'o', 'n', 'e', 'n', 't']);
    assert(vstd::string::is_ascii("component"));
    assert("component".spec_bytes() =~= seq![0x63u8, 0x6Fu8, 0x6Du8, 0x70u8, 0x6Fu8, 0x6Eu8, 0x65u8, 0x6Eu8, 0x74u8]);
    reveal_strlit("urlencoded");
    assert("urlencoded"@ =~= seq!['u', 'r', 'l', 'e', 'n', 'c', 'o', 'd', 'e', 'd']);
    assert(vstd::string::is_ascii("urlencoded"));
    assert("urlencoded".spec_bytes() =~= seq![0x75u8, 0x72u8, 0x6Cu8, 0x65u8, 0x6Eu8, 0x63u8, 0x6Fu8, 0x64u8, 0x65u8, 0x64u8]);
    reveal_strlit("all");
    assert("all"@ =~= seq!['a', 'l', 'l']);
    assert(vstd::string::is_ascii("all"));
    assert("all".spec_bytes() =~= seq![0x61u8, 0x6Cu8, 0x6Cu8]);
    reveal_strlit("none");
    assert("none"@ =~= seq!['n', 'o', 'n', 'e']);
    assert(vstd::string::is_ascii("none"));
    assert("none".spec_bytes() =~= seq![0x6Eu8, 0x6Fu8, 0x6Eu8, 0x65u8]);
    reveal_with_fuel(spec_preset_named_from, 12);
}

/// Looking up the name of a preset gives the preset back.
pub proof fn lemma_preset_name_lookup(p: Preset)
    ensures
        spec_preset_named(preset_word(p)) == Some(p),
{
    lemma_preset_names();
}

/// Tells what an argument asks for.
pub fn option_kind(arg: &CliArg) -> (r: OptionKind)
    ensures
        r == spec_option_kind(*arg),
{
    match arg {
        CliArg::Short(c) => {
            let c = *c;
            if c == 'd' {
                OptionKind::Decode
            } else if c == 'p' {
                OptionKind::Preset
            } else if c == 'l' {
                OptionKind::ListPresets
            } else if c == 'e' {
                OptionKind::Encoded
            } else if c == 'u' {
                OptionKind::Unencoded
            } else if c == 's' {
                OptionKind::SpacePlus
            } else if c == 'S' {
                OptionKind::NoSpacePlus
            } else if c == 'h' {
                OptionKind::Help
            } else if c == 'V' {
                OptionKind::Version
            } else {
                OptionKind::Unexpected
            }
        },
        CliArg::Long(name) => {
            let name = name.as_slice();
            if bytes_eq(name, "decode".as_bytes()) {
                OptionKind::Decode
            } else if bytes_eq(name, "preset".as_bytes()) {
                OptionKind::Preset
            } else if bytes_eq(name, "list-presets".as_bytes()) {
                OptionKind::ListPresets
            } else if bytes_eq(name, "encoded".as_bytes()) {
                OptionKind::Encoded
            } else if bytes_eq(name, "unencoded".as_bytes()) {
                OptionKind::Unencoded
            } else if bytes_eq(name, "space-plus".as_bytes()) {
                OptionKind::SpacePlus
            } else if bytes_eq(name, "no-space-plus".as_bytes()) {
                OptionKind::NoSpacePlus
            } else if bytes_eq(name, "ascii-only".as_bytes()) {
                OptionKind::AsciiOnly
            } else if bytes_eq(name, "help".as_bytes()) {
                OptionKind::Help
            } else if bytes_eq(name, "version".as_bytes()) {
                OptionKind::Version
            } else {
                OptionKind::Unexpected
            }
        },
        CliArg::Value(_) => OptionKind::Unexpected,
    }
}

impl Preset {
    /// The name of the preset on the command line.
    pub fn name(&self) -> (r: &str)
        ensures
            r.spec_bytes() == preset_word(*self),
    {
        match self {
            Preset::Control => "control",
            Preset::NonAlphanumeric => "non_alphanumeric",
            Preset::Fragment => "fragment",
            Preset::Query => "query",
            Preset::SpecialQuery => "special-query",
            Preset::Path => "path",
            Preset::Userinfo => "userinfo",
            Preset::Component => "component",
            Preset::Urlencoded => "urlencoded",
            Preset::All => "all",
            Preset::Empty => "none",
        }
    }
}

/// All presets, in the order in which `--list-presets` shows them.
pub fn all_presets() -> (r: Vec<Preset>)
    ensures
        r@ == seq![
            Preset::Control,
            Preset::NonAlphanumeric,
            Preset::Fragment,
            Preset::Query,
            Preset::SpecialQuery,
            Preset::Path,
            Preset::Userinfo,
            Preset::Component,
            Preset::Urlencoded,
            Preset::All,
            Preset::Empty,
        ],
{
    let r = vec![
        Preset::Control,
        Preset::NonAlphanumeric,
        Preset::Fragment,
        Preset::Query,
        Preset::SpecialQuery,
        Preset::Path,
        Preset::Userinfo,
        Preset::Component,
        Preset::Urlencoded,
        Preset::All,
        Preset::Empty,
    ];
    assert(r@ =~= seq![
        Preset::Control,
        Preset::NonAlphanumeric,
        Preset::Fragment,
        Preset::Query,
        Preset::SpecialQuery,
        Preset::Path,
        Preset::Userinfo,
        Preset::Component,
        Preset::Urlencoded,
        Preset::All,
        Preset::Empty,
    ]);
    r
}

/// The preset that a `--preset` value names: `control`, `non_alphanumeric`, `fragment`, `query`, `special-query`,
/// `path`, `userinfo`, `component`, `urlencoded`, `all` or `none`.
pub fn preset_named(name: &[u8]) -> (r: Option<Preset>)
    ensures
        r == spec_preset_named(name@),
{
    let mut i: usize = 0;
    let presets = all_presets();
    while i < presets.len()
        invariant
            presets@ == all_presets_seq(),
            i <= presets.len(),
            spec_preset_named(name@) == spec_preset_named_from(name@, i as int),
        decreases presets.len() - i,
    {
        let p = presets[i];
        let word = p.name();
        if bytes_eq(name, word.as_bytes()) {
            return Some(p);
        }
        i = i + 1;
    }
    None
}

/// The presets in the order of [`all_presets`].
pub open spec fn all_presets_seq() -> Seq<Preset> {
    seq![
        Preset::Control,
        Preset::NonAlphanumeric,
        Preset::Fragment,
        Preset::Query,
        Preset::SpecialQuery,
        Preset::Path,
        Preset::Userinfo,
        Preset::Component,
        Preset::Urlencoded,
        Preset::All,
        Preset::Empty,
    ]
}

/// The first preset from position `i` of [`all_presets_seq`] on whose name is `name`.
pub open spec fn spec_preset_named_from(name: Seq<u8>, i: int) -> Option<Preset>
    decreases 11 - i,
{
    if i < 0 || i >= 11 {
        None
    } else if name == preset_word(all_presets_seq()[i]) {
        Some(all_presets_seq()[i])
    } else {
        spec_preset_named_from(name, i + 1)
    }
}

/// The bytes that a preset encodes.
pub open spec fn preset_charset(p: Preset) -> Set<u8> {
    match p {
        Preset::Control => control_set(),
        Preset::NonAlphanumeric => non_alphanumeric_set(),
        Preset::Fragment => fragment_set(),
        Preset::Query => query_set(),
        Preset::SpecialQuery => special_query_set(),
        Preset::Path => path_set(),
        Preset::Userinfo => userinfo_set(),
        Preset::Component => component_set(),
        Preset::Urlencoded => x_www_form_urlencoded_set(),
        Preset::All => ascii_bytes(),
        Preset::Empty => Set::empty(),
    }
}

/// What each preset encodes, as its documentation gives it: `control` the C0 controls and DEL;
/// `fragment` and `query` add to it space, `"`, `<`, `>`, and `` ` `` or `#`; `special-query`
/// adds `'` to `query`, `path` adds `?`, `^`, `` ` ``, `{`, `}`; `userinfo` adds to `path` `/`,
/// `:`, `;`, `=`, `@`, `[`, `\`, `]`, `|`; `component` adds `$`, `%`, `&`, `+`, `,`;
/// `urlencoded` adds `!`, `'`, `(`, `)`, `~`; `all` is every ascii byte, `none` no byte, and
/// `non_alphanumeric` every ascii byte but letters and digits.
pub proof fn lemma_preset_charsets()
    ensures
        preset_charset(Preset::Control) == Set::new(|c: u8| c < 0x20 || c == 0x7F),
        preset_charset(Preset::Fragment) == preset_charset(Preset::Control).union(
            set![0x20u8, 0x22u8, 0x3Cu8, 0x3Eu8, 0x60u8],
        ),
        preset_charset(Preset::Query) == preset_charset(Preset::Control).union(
            set![0x20u8, 0x22u8, 0x23u8, 0x3Cu8, 0x3Eu8],
        ),
        preset_charset(Preset::SpecialQuery) == preset_charset(Preset::Query).insert(0x27u8),
        preset_charset(Preset::Path) == preset_charset(Preset::Query).union(
            set![0x3Fu8, 0x5Eu8, 0x60u8, 0x7Bu8, 0x7Du8],
        ),
        preset_charset(Preset::Userinfo) == preset_charset(Preset::Path).union(
            set![0x2Fu8, 0x3Au8, 0x3Bu8, 0x3Du8, 0x40u8, 0x5Bu8, 0x5Cu8, 0x5Du8, 0x7Cu8],
        ),
        preset_charset(Preset::Component) == preset_charset(Preset::Userinfo).union(
            set![0x24u8, 0x25u8, 0x26u8, 0x2Bu8, 0x2Cu8],
        ),
        preset_charset(Preset::Urlencoded) == preset_charset(Preset::Component).union(
            set![0x21u8, 0x27u8, 0x28u8, 0x29u8, 0x7Eu8],
        ),
        preset_charset(Preset::All) == Set::new(|c: u8| c < 128),
        preset_charset(Preset::Empty) == Set::<u8>::empty(),
        preset_charset(Preset::NonAlphanumeric) == Set::new(
            |c: u8| c < 128 && !is_ascii_alphanumeric(c),
        ),
{
}

/// Whether a preset writes spaces as `+`: only `urlencoded` does.
pub open spec fn preset_space_as_plus(p: Preset) -> bool {
    p == Preset::Urlencoded
}

/// Whether a preset encodes non-ascii bytes: only `all` does.
pub open spec fn preset_ascii_only(p: Preset) -> bool {
    p == Preset::All
}

/// The library's preset that a command line preset stands for.
pub fn library_preset(p: Preset) -> (r: crate::preset::Preset)
    ensures
        r.spec_encode_charset() == preset_charset(p),
        r.spec_space_as_plus() == preset_space_as_plus(p),
        r.spec_ascii_only() == preset_ascii_only(p),
        p == Preset::All ==> r.spec_ascii_only() && !r.spec_space_as_plus()
            && r.spec_encode_charset() == ascii_bytes(),
{
    match p {
        Preset::Control => crate::preset::Preset::control(),
        Preset::NonAlphanumeric => crate::preset::Preset::new(AsciiCharset::non_alphanumeric()),
        Preset::Fragment => crate::preset::Preset::fragment(),
        Preset::Query => crate::preset::Preset::query(),
        Preset::SpecialQuery => crate::preset::Preset::special_query(),
        Preset::Path => crate::preset::Preset::path(),
        Preset::Userinfo => crate::preset::Preset::userinfo(),
        Preset::Component => crate::preset::Preset::component(),
        Preset::Urlencoded => crate::preset::Preset::x_www_form_urlencoded(),
        Preset::All => crate::preset::Preset::all(),
        Preset::Empty => crate::preset::Preset::none(),
    }
}

/// The settings before any option: encode with the `urlencoded` preset as it is.
pub open spec fn initial_settings() -> Settings {
    Settings {
        decode: false,
        preset: Preset::Urlencoded,
        encoded: AsciiCharset::from_members(Set::empty()),
        unencoded: AsciiCharset::from_members(Set::empty()),
        space: SpaceOption::FromPreset,
        ascii_only: false,
    }
}

/// The bytes that the settings encode: the preset's, with the marked ones added and the
/// unmarked ones taken out.
pub open spec fn settings_charset(s: Settings) -> Set<u8> {
    preset_charset(s.preset).union(s.encoded@).difference(s.unencoded@)
}

/// Whether the settings write spaces as `+`.
pub open spec fn settings_space_as_plus(s: Settings) -> bool {
    match s.space {
        SpaceOption::FromPreset => preset_space_as_plus(s.preset),
        SpaceOption::Plus => true,
        SpaceOption::NoPlus => false,
    }
}

/// Whether the settings encode non-ascii bytes.
pub open spec fn settings_ascii_only(s: Settings) -> bool {
    s.ascii_only || preset_ascii_only(s.preset)
}

/// The arguments are what the settings ask for.
pub open spec fn args_of_settings(a: Args, s: Settings) -> bool {
    &&& a.decode == s.decode
    &&& a.preset.spec_encode_charset() == settings_charset(s)
    &&& a.preset.spec_space_as_plus() == settings_space_as_plus(s)
    &&& a.preset.spec_ascii_only() == settings_ascii_only(s)
}

/// The settings after an option that does not end the reading; `value` is the option's value
/// for `--preset`, `--encoded` and `--unencoded`. `-e` marks its characters (and so takes
/// them out of the unmarked ones), `-u` the other way round.
pub open spec fn apply_option(state: Settings, kind: OptionKind, value: Seq<u8>) -> Settings {
    match kind {
        OptionKind::Decode => Settings { decode: true, ..state },
        OptionKind::Preset => Settings { preset: spec_preset_named(value)->0, ..state },
        OptionKind::Encoded => Settings {
            encoded: AsciiCharset::from_members(state.encoded@.union(bytes_of(value))),
            unencoded: AsciiCharset::from_members(state.unencoded@.difference(bytes_of(value))),
            ..state
        },
        OptionKind::Unencoded => Settings {
            encoded: AsciiCharset::from_members(state.encoded@.difference(bytes_of(value))),
            unencoded: AsciiCharset::from_members(state.unencoded@.union(bytes_of(value))),
            ..state
        },
        OptionKind::SpacePlus => Settings { space: SpaceOption::Plus, ..state },
        OptionKind::NoSpacePlus => Settings { space: SpaceOption::NoPlus, ..state },
        OptionKind::AsciiOnly => Settings { ascii_only: true, ..state },
        _ => state,
    }
}

/// Whether an option's value is refused: a `--preset` value that names no preset, or an
/// `--encoded` or `--unencoded` value with a non-ascii byte.
pub open spec fn value_refused(kind: OptionKind, value: Seq<u8>) -> bool {
    ||| kind == OptionKind::Preset && spec_preset_named(value) is None
    ||| (kind == OptionKind::Encoded || kind == OptionKind::Unencoded) && !all_ascii(value)
}

/// What reading one more argument leads to.
pub enum Step {
    /// Go on reading, with these settings.
    Next(Settings),
    /// Stop reading: the command line is done with.
    Done(ParseOutcome),
    /// Stop reading: the command line is refused.
    Fail(CliError),
}

/// The error for a refused option value.
pub open spec fn value_error(kind: OptionKind, value: Vec<u8>) -> CliError {
    if kind == OptionKind::Preset {
        CliError::UnknownPreset(value)
    } else {
        CliError::NonAsciiCharacters(value)
    }
}

/// The rule for one argument, given the settings so far and, for an option that takes one,
/// its value: `-h`, `-V` and `-l` end the reading, an unexpected argument or a refused value
/// is refused, and any other option changes the settings as [`apply_option`] says.
pub open spec fn spec_step(state: Settings, arg: CliArg, value: Option<Vec<u8>>) -> Step {
    let kind = spec_option_kind(arg);
    if kind == OptionKind::Help {
        Step::Done(ParseOutcome::Help)
    } else if kind == OptionKind::Version {
        Step::Done(ParseOutcome::Version)
    } else if kind == OptionKind::ListPresets {
        Step::Done(ParseOutcome::ListPresets)
    } else if kind == OptionKind::Unexpected {
        Step::Fail(CliError::Unexpected(arg))
    } else if takes_value(kind) {
        if value_refused(kind, value->0@) {
            Step::Fail(value_error(kind, value->0))
        } else {
            Step::Next(apply_option(state, kind, value->0@))
        }
    } else {
        Step::Next(apply_option(state, kind, Seq::empty()))
    }
}

/// Whether every byte is ascii.
fn is_all_ascii(v: &[u8]) -> (r: bool)
    ensures
        r == all_ascii(v@),
{
    let mut i: usize = 0;
    while i < v.len()
        invariant
            i <= v.len(),
            forall|j: int| 0 <= j < i ==> v@[j] < 128,
        decreases v.len() - i,
    {
        if v[i] >= 128 {
            return false;
        }
        i = i + 1;
    }
    true
}

impl Settings {
    /// The settings before any option: encode with the `urlencoded` preset as it is.
    pub fn initial() -> (r: Self)
        ensures
            r == initial_settings(),
    {
        let none = AsciiCharset::empty();
        proof { none.lemma_from_members(); }
        Settings {
            decode: false,
            preset: Preset::Urlencoded,
            encoded: none,
            unencoded: none,
            space: SpaceOption::FromPreset,
            ascii_only: false,
        }
    }

    /// The arguments that the settings ask for.
    pub fn into_args(self) -> (r: Args)
        ensures
            args_of_settings(r, self),
    {
        let mut preset = library_preset(self.preset);
        let charset = preset.encode_charset().union(self.encoded).difference(self.unencoded);
        preset.set_encode_charset(charset);
        match self.space {
            SpaceOption::FromPreset => {},
            SpaceOption::Plus => preset.set_space_as_plus(true),
            SpaceOption::NoPlus => preset.set_space_as_plus(false),
        }
        if self.ascii_only {
            preset.set_ascii_only(true);
        }
        Args { decode: self.decode, preset }
    }
}

/// Applies the rule for one argument; `value` is the value read for an option that takes
/// one, and is given exactly for those options.
pub fn step(state: Settings, arg: CliArg, value: Option<Vec<u8>>) -> (r: Step)
    requires
        takes_value(spec_option_kind(arg)) == (value is Some),
    ensures
        r == spec_step(state, arg, value),
{
    let kind = option_kind(&arg);
    match kind {
        OptionKind::Help => Step::Done(ParseOutcome::Help),
        OptionKind::Version => Step::Done(ParseOutcome::Version),
        OptionKind::ListPresets => Step::Done(ParseOutcome::ListPresets),
        OptionKind::Unexpected => Step::Fail(CliError::Unexpected(arg)),
        OptionKind::Decode => Step::Next(Settings { decode: true, ..state }),
        OptionKind::SpacePlus => Step::Next(Settings { space: SpaceOption::Plus, ..state }),
        OptionKind::NoSpacePlus => Step::Next(Settings { space: SpaceOption::NoPlus, ..state }),
        OptionKind::AsciiOnly => Step::Next(Settings { ascii_only: true, ..state }),
        OptionKind::Preset => {
            let value = match value {
                Some(v) => v,
                None => return Step::Fail(CliError::Unexpected(arg)),
            };
            match preset_named(value.as_slice()) {
                Some(p) => Step::Next(Settings { preset: p, ..state }),
                None => Step::Fail(CliError::UnknownPreset(value)),
            }
        },
        OptionKind::Encoded => {
            let value = match value {
                Some(v) => v,
                None => return Step::Fail(CliError::Unexpected(arg)),
            };
            if !is_all_ascii(value.as_slice()) {
                return Step::Fail(CliError::NonAsciiCharacters(value));
            }
            let encoded = state.encoded.add_all(value.as_slice());
            let unencoded = state.unencoded.remove_all(value.as_slice());
            proof {
                encoded.lemma_from_members();
                unencoded.lemma_from_members();
            }
            Step::Next(Settings { encoded, unencoded, ..state })
        },
        OptionKind::Unencoded => {
            let value = match value {
                Some(v) => v,
                None => return Step::Fail(CliError::Unexpected(arg)),
            };
            if !is_all_ascii(value.as_slice()) {
                return Step::Fail(CliError::NonAsciiCharacters(value));
            }
            let encoded = state.encoded.remove_all(value.as_slice());
            let unencoded = state.unencoded.add_all(value.as_slice());
            proof {
                encoded.lemma_from_members();
                unencoded.lemma_from_members();
            }
            Step::Next(Settings { encoded, unencoded, ..state })
        },
    }
}

/// How reading a command line ends, as plain values.
pub enum ParseModel {
    /// Run the tool with the arguments that these settings ask for.
    Run(Settings),
    /// Print the help text.
    Help,
    /// Print the version.
    Version,
    /// Print the names of the presets.
    ListPresets,
    /// The argument reader failed.
    ReadError,
    /// The value of `--preset` names no preset.
    UnknownPreset(Seq<u8>),
    /// The value of `--encoded` or `--unencoded` holds a non-ascii byte.
    NonAsciiCharacters(Seq<u8>),
    /// An argument that the tool does not take.
    Unexpected(ArgToken),
}

/// A result of [`Args::try_parse`] is the end that the model gives.
pub open spec fn outcome_matches(r: Result<ParseOutcome, CliError>, m: ParseModel) -> bool {
    match r {
        Ok(ParseOutcome::Run(args)) => m matches ParseModel::Run(s) && args_of_settings(args, s),
        Ok(ParseOutcome::Help) => m == ParseModel::Help,
        Ok(ParseOutcome::Version) => m == ParseModel::Version,
        Ok(ParseOutcome::ListPresets) => m == ParseModel::ListPresets,
        Err(CliError::Lexopt(_)) => m == ParseModel::ReadError,
        Err(CliError::UnknownPreset(v)) => m == ParseModel::UnknownPreset(v@),
        Err(CliError::NonAsciiCharacters(v)) => m == ParseModel::NonAsciiCharacters(v@),
        Err(CliError::Unexpected(arg)) => m == ParseModel::Unexpected(arg@),
    }
}

/// How reading the command line from `parser` ends, with the settings `state` so far: lexopt
/// hands out arguments one by one ([`lexopt_next`]), the value of an option that takes one
/// is read right after it ([`lexopt_value`]), and each argument is dealt with by the rule of
/// [`spec_step`]. A parser that hands out an argument has less left to read; the reading goes
/// on only while it does.
pub open spec fn spec_parse(parser: lexopt::Parser, state: Settings) -> ParseModel
    decreases unread_input(parser),
{
    let (next, after) = lexopt_next(parser);
    match next {
        None => ParseModel::ReadError,
        Some(None) => ParseModel::Run(state),
        Some(Some(arg)) => {
            let kind = spec_token_kind(arg);
            if kind == OptionKind::Help {
                ParseModel::Help
            } else if kind == OptionKind::Version {
                ParseModel::Version
            } else if kind == OptionKind::ListPresets {
                ParseModel::ListPresets
            } else if kind == OptionKind::Unexpected {
                ParseModel::Unexpected(arg)
            } else if takes_value(kind) {
                let (value, after_value) = lexopt_value(after);
                match value {
                    None => ParseModel::ReadError,
                    Some(v) => if kind == OptionKind::Preset && spec_preset_named(v) is None {
                        ParseModel::UnknownPreset(v)
                    } else if kind != OptionKind::Preset && !all_ascii(v) {
                        ParseModel::NonAsciiCharacters(v)
                    } else if unread_input(after_value) < unread_input(parser) {
                        spec_parse(after_value, apply_option(state, kind, v))
                    } else {
                        ParseModel::ReadError
                    },
                }
            } else if unread_input(after) < unread_input(parser) {
                spec_parse(after, apply_option(state, kind, Seq::empty()))
            } else {
                ParseModel::ReadError
            }
        },
    }
}

impl Args {
    /// Reads the command line from `parser` (see the module's documentation). Each argument is
    /// dealt with by [`step`]; `-h`, `-V` and `-l` stop at once.
    pub fn try_parse(parser: &mut lexopt::Parser) -> (r: Result<ParseOutcome, CliError>)
        ensures
            outcome_matches(r, spec_parse(*old(parser), initial_settings())),
    {
        let mut state = Settings::initial();
        loop
            invariant
                spec_parse(*old(parser), initial_settings()) == spec_parse(*parser, state),
            decreases unread_input(*parser),
        {
            let ghost before = *parser;
            let ghost start = state;
            let arg = match next_arg(parser) {
                Err(e) => return Err(CliError::Lexopt(e)),
                Ok(None) => return Ok(ParseOutcome::Run(state.into_args())),
                Ok(Some(arg)) => arg,
            };
            let kind = option_kind(&arg);
            let value = if kind == OptionKind::Preset || kind == OptionKind::Encoded || kind
                == OptionKind::Unencoded {
                match option_value(parser) {
                    Err(e) => return Err(CliError::Lexopt(e)),
                    Ok(v) => Some(v),
                }
            } else {
                None
            };
            assert(unread_input(*parser) < unread_input(before));
            match step(state, arg, value) {
                Step::Next(next) => state = next,
                Step::Done(outcome) => return Ok(outcome),
                Step::Fail(err) => return Err(err),
            }
            assert(spec_parse(before, start) == spec_parse(*parser, state));
        }
    }
}

/// `urlcode -pall` encodes every byte, non-ascii ones too, as `%` and its two upper-case hex
/// digits, as long as no `-u` unmarks a character and no `-s` turns spaces into `+`.
pub proof fn lemma_all_preset_escapes_every_byte(a: Args, s: Settings, x: Seq<u8>)
    requires
        args_of_settings(a, s),
        s.preset == Preset::All,
        s.unencoded@ == Set::<u8>::empty(),
        s.space != SpaceOption::Plus,
    ensures
        a.preset.spec_ascii_only(),
        !a.preset.spec_space_as_plus(),
        a.preset.spec_encode(x).len() == 3 * x.len(),
        forall|i: int|
            0 <= i < x.len() ==> a.preset.spec_encode(x).subrange(3 * i, 3 * i + 3) == seq![
                PERCENT,
                hex_digit(x[i] / 16),
                hex_digit(x[i] % 16),
            ],
{
    lemma_only_ascii(s.encoded);
    assert(settings_charset(s) =~= ascii_bytes());
    lemma_encode_all_escapes_every_byte(x);
}

} // verus!
