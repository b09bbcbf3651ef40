//! Framing of the messages that client and server exchange over TCP.

use vstd::prelude::*;
use vstd::string::StringSliceAdditionalSpecFns;
use vstd::utf8::*;
use vstd::std_specs::iter::IteratorSpec;
use encoding::Encoding;

verus! {

broadcast use group_utf8_lib, vstd::string::group_string_axioms;

/// `c` is an ASCII graphic character: `'!'` (U+0021) through `'~'` (U+007E).
pub open spec fn is_ascii_graphic(c: char) -> bool {
    '!' <= c <= '~'
}

/// The ASCII graphic characters of `s`, in order.
pub open spec fn graphic_chars(s: Seq<char>) -> Seq<char> {
    s.filter(|c: char| is_ascii_graphic(c))
}

/// The text that a received frame carries: the frame decoded as UTF-8, keeping
/// only its ASCII graphic characters (so the trailing `'\r'`, blanks and other
/// control or non-ASCII characters are dropped).
pub open spec fn decoded_message(frame: Seq<u8>) -> Seq<char> {
    graphic_chars(decode_utf8(frame))
}

/// `std::str::from_utf8`, read as an `Option`: it succeeds exactly on valid
/// UTF-8, and the string it gives back has those very bytes.
#[verifier::external_body]
fn utf8_str(bytes: &[u8]) -> (r: Option<&str>)
    ensures
        r is Some <==> valid_utf8(bytes@),
        r matches Some(s) ==> s.spec_bytes() == bytes@,
{
    std::str::from_utf8(bytes).ok()
}

/// `String::push`: appends one character.
#[verifier::external_body]
pub(crate) fn push_char(s: &mut String, c: char)
    ensures
        final(s)@ == old(s)@.push(c),
{
    s.push(c)
}

proof fn lemma_graphic_chars_step(s: Seq<char>, i: int)
    requires
        0 <= i < s.len(),
    ensures
        graphic_chars(s.take(i + 1)) == if is_ascii_graphic(s[i]) {
            graphic_chars(s.take(i)).push(s[i])
        } else {
            graphic_chars(s.take(i))
        },
{
    reveal_with_fuel(Seq::filter, 1);
    assert(s.take(i + 1).drop_last() =~= s.take(i));
}

/// Decodes a frame, or gives `None` when it is not valid UTF-8.
pub fn try_decode_message(buf: &[u8]) -> (r: Option<String>)
    ensures
        r is Some <==> valid_utf8(buf@),
        r matches Some(m) ==> m@ == decoded_message(buf@),
{
    match utf8_str(buf) {
        None => None,
        Some(s) => {
            proof {
                encode_utf8_decode_utf8(s@);
            }
            let ghost chars = s@;
            let mut out = String::new();
            let mut it = s.chars();
            let ghost mut i: int = 0;
            loop
                invariant
                    chars == s@,
                    it.remaining() == chars.skip(i),
                    0 <= i <= chars.len(),
                    out@ == graphic_chars(chars.take(i)),
                ensures
                    out@ == graphic_chars(chars),
                decreases chars.len() - i,
            {
                match it.next() {
                    None => {
                        assert(chars.take(i) =~= chars);
                        break;
                    }
                    Some(c) => {
                        proof {
                            lemma_graphic_chars_step(chars, i);
                        }
                        if '!' <= c && c <= '~' {
                            push_char(&mut out, c);
                        }
                        proof {
                            assert(chars.skip(i).drop_first() =~= chars.skip(i + 1));
                            i = i + 1;
                        }
                    }
                }
            }
            Some(out)
        }
    }
}

/// Decodes a received frame into its text. The frame must be valid UTF-8.
pub fn decode_message(buf: &mut [u8]) -> (r: String)
    requires
        valid_utf8(old(buf)@),
    ensures
        final(buf)@ == old(buf)@,
        r@ == decoded_message(old(buf)@),
{
    match try_decode_message(buf) {
        Some(m) => m,
        None => String::new(),
    }
}

/// The frame sent for a text: its UTF-8 bytes followed by a carriage return.
pub open spec fn framed(text: Seq<char>) -> Seq<u8> {
    encode_utf8(text).push(0x0du8)
}

/// The cause reported when a text holds a character outside ASCII.
pub open spec fn unrepresentable_cause() -> Seq<char> {
    "unrepresentable character"@
}

/// Why a text could not be framed.
#[derive(Debug)]
pub struct EncodeError {
    pub cause: String,
}

/// `Encoding::encode` of the `encoding` crate's `ASCII` encoding with
/// `EncoderTrap::Strict`: it succeeds exactly when every character is ASCII, and
/// then yields the text's bytes; otherwise it fails with the cause
/// "unrepresentable character".
#[verifier::external_body]
fn ascii_encode_strict(text: &str) -> (r: Result<Vec<u8>, String>)
    ensures
        r is Ok <==> is_ascii_chars(text@),
        r matches Ok(v) ==> v@ == text.spec_bytes(),
        r matches Err(e) ==> e@ == unrepresentable_cause(),
{
    encoding::all::ASCII.encode(text, encoding::EncoderTrap::Strict).map_err(|cause| cause.into_owned())
}

/// Frames a text for sending: ASCII bytes then `'\r'`. A text with a character
/// outside ASCII is refused.
pub fn encode_message(cmd: &str) -> (r: Result<Vec<u8>, EncodeError>)
    ensures
        r is Ok <==> is_ascii_chars(cmd@),
        r matches Ok(v) ==> v@ == framed(cmd@),
        r matches Err(e) ==> e.cause@ == unrepresentable_cause(),
{
    match ascii_encode_strict(cmd) {
        Ok(mut bytes) => {
            bytes.push(0x0du8);
            Ok(bytes)
        },
        Err(cause) => Err(EncodeError { cause }),
    }
}

proof fn lemma_encode_utf8_push(text: Seq<char>, c: char)
    ensures
        encode_utf8(text.push(c)) == encode_utf8(text) + encode_scalar(c as u32),
    decreases text.len(),
{
    if text.len() == 0 {
        assert(text.push(c).drop_first() =~= Seq::<char>::empty());
        assert(encode_utf8(Seq::<char>::empty()) =~= Seq::<u8>::empty());
        assert(encode_scalar(c as u32) + Seq::<u8>::empty() =~= encode_scalar(c as u32));
        assert(Seq::<u8>::empty() + encode_scalar(c as u32) =~= encode_scalar(c as u32));
    } else {
        assert(text.push(c).drop_first() =~= text.drop_first().push(c));
        lemma_encode_utf8_push(text.drop_first(), c);
        assert(encode_utf8(text.push(c)) =~= encode_utf8(text) + encode_scalar(c as u32));
    }
}

proof fn lemma_graphic_chars_all(text: Seq<char>)
    requires
        forall|i: int| 0 <= i < text.len() ==> is_ascii_graphic(#[trigger] text[i]),
    ensures
        graphic_chars(text) == text,
    decreases text.len(),
{
    reveal_with_fuel(Seq::filter, 1);
    if text.len() > 0 {
        lemma_graphic_chars_all(text.drop_last());
        assert(text.drop_last().push(text.last()) =~= text);
    }
}

/// A frame holds its text: the frame of any text is valid UTF-8, and reading it
/// back gives the text's ASCII graphic characters, in order; a text made only of
/// graphic characters comes back unchanged.
pub proof fn law_frame_round_trip(text: Seq<char>)
    ensures
        valid_utf8(framed(text)),
        decoded_message(framed(text)) == graphic_chars(text),
        (forall|i: int| 0 <= i < text.len() ==> is_ascii_graphic(#[trigger] text[i]))
            ==> decoded_message(framed(text)) == text,
{
    let cr = '\r';
    lemma_encode_utf8_push(text, cr);
    assert(encode_scalar(cr as u32) =~= seq![0x0du8]) by {
        assert(has_width_1_encoding(cr as u32));
        let v: u32 = cr as u32;
        assert(v == 13);
        assert(((v & 0x7F) as u8) == 0x0du8) by (bit_vector)
            requires
                v == 13,
        ;
    }
    assert(framed(text) =~= encode_utf8(text.push(cr)));
    encode_utf8_decode_utf8(text.push(cr));
    reveal_with_fuel(Seq::filter, 1);
    assert(text.push(cr).drop_last() =~= text);
    if forall|i: int| 0 <= i < text.len() ==> is_ascii_graphic(#[trigger] text[i]) {
        lemma_graphic_chars_all(text);
    }
}

/// Decoding keeps exactly the printable ASCII range: every character of the
/// decoded frame of a text lies in U+0021..=U+007E, none is invented (the result
/// is no longer than the text), and a text whose characters all lie in that
/// range (quotes, braces and colons included) is decoded back unchanged.
pub proof fn law_decoding_keeps_printable_ascii(text: Seq<char>)
    ensures
        forall|i: int|
            0 <= i < decoded_message(framed(text)).len() ==> 0x21 <= (#[trigger] decoded_message(
                framed(text),
            )[i]) as int <= 0x7e,
        decoded_message(framed(text)).len() <= text.len(),
        (forall|i: int| 0 <= i < text.len() ==> 0x21 <= (#[trigger] text[i]) as int <= 0x7e)
            ==> decoded_message(framed(text)) == text,
{
    law_frame_round_trip(text);
    let pred = |c: char| is_ascii_graphic(c);
    let out = text.filter(pred);
    assert forall|i: int| 0 <= i < out.len() implies 0x21 <= (#[trigger] out[i]) as int <= 0x7e by {
        text.lemma_filter_pred(pred, i);
    }
    text.lemma_filter_len(pred);
    if forall|i: int| 0 <= i < text.len() ==> 0x21 <= (#[trigger] text[i]) as int <= 0x7e {
        assert forall|i: int| 0 <= i < text.len() implies is_ascii_graphic(#[trigger] text[i]) by {
            let c = text[i];
            assert(0x21 <= c as int <= 0x7e);
            assert('!' <= c <= '~');
        }
        lemma_graphic_chars_all(text);
    }
}

} // verus!
