//! What the `urlcode` tool does with its input: percent-decode it, or percent-encode it, with
//! the preset that the command line builds.
use vstd::prelude::*;

use crate::cli::{args_of_settings, initial_settings, settings_charset, Args, Settings};
use crate::codec::{decoded, encoded, lemma_decode_inverts_encode, PERCENT, PLUS};

verus! {

/// What the tool writes for an input: its percent-decoding when decoding, else its
/// percent-encoding, both with the preset of the arguments.
pub open spec fn spec_output(args: Args, input: Seq<u8>) -> Seq<u8> {
    if args.decode {
        args.preset.spec_decode(input)
    } else {
        args.preset.spec_encode(input)
    }
}

/// Computes what the tool writes for an input.
pub fn run(args: &Args, input: &[u8]) -> (r: Vec<u8>)
    ensures
        r@ == spec_output(*args, input@),
        args.decode ==> r@ == decoded(input@, args.preset.spec_space_as_plus()),
        !args.decode ==> r@ == encoded(
            args.preset.spec_encode_charset(),
            args.preset.spec_space_as_plus(),
            args.preset.spec_ascii_only(),
            input@,
        ),
{
    let mut out: Vec<u8> = Vec::new();
    if args.decode {
        args.preset.decode_into(input, &mut out);
    } else {
        args.preset.encode_into(input, &mut out);
    }
    assert(out@ =~= spec_output(*args, input@));
    out
}

/// With the settings of a command line without options, `urlcode -d` gives back what
/// `urlcode` was given: the `urlencoded` preset encodes both `%` and `+`.
pub proof fn lemma_default_roundtrip(encode: Args, decode: Args, input: Seq<u8>)
    requires
        args_of_settings(encode, initial_settings()),
        args_of_settings(decode, Settings { decode: true, ..initial_settings() }),
    ensures
        spec_output(decode, spec_output(encode, input)) == input,
{
    let s = initial_settings();
    crate::charset::AsciiCharset::lemma_from_no_members();
    assert(settings_charset(s).contains(PERCENT));
    assert(settings_charset(s).contains(PLUS));
    lemma_decode_inverts_encode(
        settings_charset(s),
        encode.preset.spec_space_as_plus(),
        encode.preset.spec_ascii_only(),
        input,
    );
}

/// With `-d` the tool writes the percent-decoding of its input, whatever the preset's charset
/// and its other flags: only whether `+` stands for a space matters.
pub proof fn lemma_decode_mode(args: Args, input: Seq<u8>)
    requires
        args.decode,
    ensures
        spec_output(args, input) == decoded(input, args.preset.spec_space_as_plus()),
{
}

/// Without `-d` the tool writes the percent-encoding of its input with the preset's charset
/// and flags.
pub proof fn lemma_encode_mode(args: Args, input: Seq<u8>)
    requires
        !args.decode,
    ensures
        spec_output(args, input) == encoded(
            args.preset.spec_encode_charset(),
            args.preset.spec_space_as_plus(),
            args.preset.spec_ascii_only(),
            input,
        ),
{
}

/// Decoding what the tool wrote, with the same way of writing spaces, gives the input back,
/// for every preset that encodes `%` (and `+`, when spaces are written as `+`).
pub proof fn lemma_tool_roundtrip(encode: Args, decode: Args, input: Seq<u8>)
    requires
        !encode.decode,
        decode.decode,
        decode.preset.spec_space_as_plus() == encode.preset.spec_space_as_plus(),
        encode.preset.spec_encode_charset().contains(PERCENT),
        encode.preset.spec_space_as_plus() ==> encode.preset.spec_encode_charset().contains(PLUS),
    ensures
        spec_output(decode, spec_output(encode, input)) == input,
{
    lemma_decode_inverts_encode(
        encode.preset.spec_encode_charset(),
        encode.preset.spec_space_as_plus(),
        encode.preset.spec_ascii_only(),
        input,
    );
}

} // verus!
