//! Output of child processes.

use vstd::prelude::*;
use vstd::utf8::{decode_utf8, valid_utf8};
use vstd::string::StringExecFns;
use crate::text::{append_str, chars_of, join_strings, spec_join_sep, spec_split, split_chars, string_of, views};

verus! {

/// The text of process output: the characters that the bytes encode as
/// UTF-8, or empty when they are not valid UTF-8.
pub open spec fn spec_output_text(bytes: Seq<u8>) -> Seq<char> {
    if valid_utf8(bytes) {
        decode_utf8(bytes)
    } else {
        Seq::empty()
    }
}

/// Decodes bytes as UTF-8 with `String::from_utf8`. Claimed, as its
/// documentation says: a string exactly when the bytes are valid UTF-8,
/// and then the string they encode.
#[verifier::external_body]
fn decode_utf8_string(data: &[u8]) -> (r: Option<String>)
    ensures
        r is Some <==> valid_utf8(data@),
        r matches Some(s) ==> s@ == decode_utf8(data@),
{
    String::from_utf8(data.to_vec()).ok()
}

/// The text of process output: the bytes decoded as UTF-8, or an empty
/// string when they are not UTF-8.
pub fn output_to_string(data: &[u8]) -> (r: String)
    ensures
        r@ == spec_output_text(data@),
{
    match decode_utf8_string(data) {
        Some(s) => s,
        None => String::new(),
    }
}

/// The UTF-8 bytes of a text.
pub fn utf8_bytes(s: &str) -> (r: Vec<u8>)
    ensures
        r@ == vstd::utf8::encode_utf8(s@),
{
    use_bytes(s)
}

fn use_bytes(s: &str) -> (r: Vec<u8>)
    ensures
        r@ == vstd::utf8::encode_utf8(s@),
{
    let b = s.as_bytes();
    let mut v: Vec<u8> = Vec::new();
    let mut i: usize = 0;
    while i < b.len()
        invariant
            i <= b@.len(),
            b@ == vstd::utf8::encode_utf8(s@),
            v@ == b@.take(i as int),
        decreases b@.len() - i,
    {
        v.push(b[i]);
        assert(b@.take(i + 1) =~= b@.take(i as int).push(b@[i as int]));
        i = i + 1;
    }
    assert(b@.take(i as int) =~= b@);
    v
}

/// Text encoded as UTF-8 reads back as the same text.
pub proof fn lemma_output_text_of_encoding(s: Seq<char>)
    ensures
        spec_output_text(vstd::utf8::encode_utf8(s)) == s,
{
    vstd::utf8::encode_utf8_valid_utf8(s);
    vstd::utf8::encode_utf8_decode_utf8(s);
}

/// `s` with `to` before, between and after each of its characters (what
/// replacing the empty text gives).
pub open spec fn spec_interleave(s: Seq<char>, to: Seq<char>) -> Seq<char>
    decreases s.len(),
{
    if s.len() == 0 {
        to
    } else {
        spec_interleave(s.drop_last(), to) + seq![s.last()] + to
    }
}

/// `s` with every occurrence of `from`, left to right, replaced by `to`
/// (`str::replace`).
pub open spec fn spec_replace(s: Seq<char>, from: Seq<char>, to: Seq<char>) -> Seq<char> {
    if from.len() == 0 {
        spec_interleave(s, to)
    } else {
        spec_join_sep(spec_split(s, from), to)
    }
}

/// Replaces every occurrence of `from` in `s` by `to`.
pub fn replace_all(s: &str, from: &str, to: &str) -> (r: String)
    ensures
        r@ == spec_replace(s@, from@, to@),
{
    let sc = chars_of(s);
    let fc = chars_of(from);
    if fc.len() == 0 {
        let mut out: Vec<char> = Vec::new();
        append_str(&mut out, to);
        let mut i: usize = 0;
        while i < sc.len()
            invariant
                i <= sc.len(),
                out@ == spec_interleave(sc@.take(i as int), to@),
            decreases sc.len() - i,
        {
            assert(sc@.take(i + 1).drop_last() =~= sc@.take(i as int));
            out.push(sc[i]);
            append_str(&mut out, to);
            i = i + 1;
        }
        assert(sc@.take(i as int) =~= sc@);
        return string_of(&out);
    }
    let parts = split_chars(&sc, &fc);
    let mut strs: Vec<String> = Vec::new();
    let mut i: usize = 0;
    while i < parts.len()
        invariant
            i <= parts.len(),
            strs.deep_view() =~= views(parts@).take(i as int),
        decreases parts.len() - i,
    {
        let ghost before = strs.deep_view();
        strs.push(string_of(&parts[i]));
        assert(strs.deep_view() =~= before.push(parts@[i as int]@));
        i = i + 1;
    }
    assert(views(parts@).take(i as int) =~= views(parts@));
    join_strings(&strs, to)
}

/// The command line a command is logged with: the program and its
/// arguments separated by spaces, with the home folder written `~`.
pub open spec fn spec_command_line(bin: Seq<char>, args: Seq<Seq<char>>, home: Seq<char>) -> Seq<char> {
    spec_replace(bin + " "@ + spec_join_sep(args, " "@), home, "~"@)
}

/// The command line a command is logged with.
pub fn command_line(bin: &str, args: &Vec<String>, home: &str) -> (r: String)
    ensures
        r@ == spec_command_line(bin@, args.deep_view(), home@),
{
    let joined = join_strings(args, " ");
    let line = bin.to_owned().concat(" ").concat(joined.as_str());
    replace_all(line.as_str(), home, "~")
}

/// The captured bytes of a stream: what the process wrote to it, or, when
/// that is empty, the lines read from it while it ran, joined.
pub fn captured_stream(raw: Vec<u8>, lines: &Vec<String>) -> (r: Vec<u8>)
    ensures
        r@ == if raw@.len() == 0 {
            vstd::utf8::encode_utf8(spec_join_sep(lines.deep_view(), Seq::empty()))
        } else {
            raw@
        },
{
    if raw.len() == 0 {
        let joined = join_strings(lines, "");
        proof {
            reveal_strlit("");
            assert(""@ =~= Seq::<char>::empty());
        }
        utf8_bytes(joined.as_str())
    } else {
        raw
    }
}

} // verus!
