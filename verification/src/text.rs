//! Text that crosses the boundary as a null-terminated byte sequence.
//!
//! Text is encoded as UTF-8 and closed by one zero byte. A reader finds the
//! end of the text at the first zero byte, so text that itself holds a NUL
//! character cannot cross the boundary in this form.

use vstd::prelude::*;
use vstd::slice::slice_subrange;
use vstd::utf8::*;

verus! {

/// No character of `chars` is NUL.
pub open spec fn nul_free(chars: Seq<char>) -> bool {
    forall|i: int| 0 <= i < chars.len() ==> chars[i] != '\0'
}

/// No byte of `bytes` is zero.
pub open spec fn zero_free(bytes: Seq<u8>) -> bool {
    forall|i: int| 0 <= i < bytes.len() ==> bytes[i] != 0u8
}

/// The form in which `chars` crosses the boundary: its UTF-8 encoding,
/// followed by the terminating zero byte.
pub open spec fn terminated(chars: Seq<char>) -> Seq<u8> {
    encode_utf8(chars).push(0u8)
}

/// Where a reader of `bytes` finds the end of the text: the position of the
/// first zero byte, or the length of `bytes` if there is none.
pub open spec fn terminator_index(bytes: Seq<u8>) -> int
    decreases bytes.len(),
{
    if bytes.len() == 0 || bytes[0] == 0u8 {
        0
    } else {
        1 + terminator_index(bytes.drop_first())
    }
}

/// The bytes of the text in `bytes`: everything before the terminator.
pub open spec fn payload(bytes: Seq<u8>) -> Seq<u8> {
    bytes.subrange(0, terminator_index(bytes))
}

/// The text that a reader takes from `bytes` when it reads them as a
/// null-terminated UTF-8 sequence.
pub open spec fn decode_terminated(bytes: Seq<u8>) -> Seq<char> {
    decode_utf8(payload(bytes))
}

/// The terminator lies within `bytes`, or just behind them if no byte is
/// zero, and no byte before it is zero.
pub proof fn lemma_terminator_index_bounds(bytes: Seq<u8>)
    ensures
        0 <= terminator_index(bytes) <= bytes.len(),
        zero_free(payload(bytes)),
        terminator_index(bytes) < bytes.len() ==> bytes[terminator_index(bytes)] == 0u8,
    decreases bytes.len(),
{
    if bytes.len() == 0 || bytes[0] == 0u8 {
    } else {
        let rest = bytes.drop_first();
        lemma_terminator_index_bounds(rest);
        let text = payload(bytes);
        assert forall|i: int| 0 <= i < text.len() implies text[i] != 0u8 by {
            if i > 0 {
                assert(text[i] == payload(rest)[i - 1]);
            }
        }
    }
}

/// The first zero byte is the terminator: if no byte before position `n` is
/// zero, and `n` is the end of `bytes` or holds a zero byte, then `n` is the
/// terminator.
pub proof fn lemma_terminator_index_is(bytes: Seq<u8>, n: int)
    requires
        0 <= n <= bytes.len(),
        zero_free(bytes.subrange(0, n)),
        n < bytes.len() ==> bytes[n] == 0u8,
    ensures
        terminator_index(bytes) == n,
    decreases bytes.len(),
{
    if bytes.len() == 0 {
    } else if bytes[0] == 0u8 {
        if n > 0 {
            assert(bytes.subrange(0, n)[0] == 0u8);
        }
    } else {
        let rest = bytes.drop_first();
        let head = rest.subrange(0, n - 1);
        assert forall|i: int| 0 <= i < head.len() implies head[i] != 0u8 by {
            assert(head[i] == bytes.subrange(0, n)[i + 1]);
        }
        lemma_terminator_index_is(rest, n - 1);
    }
}

/// A one-byte encoding is the zero byte only for the scalar zero.
proof fn lemma_single_byte_zero(scalar: u32)
    by (bit_vector)
    requires
        has_width_1_encoding(scalar),
    ensures
        leading_byte_width_1(scalar) == 0u8 <==> scalar == 0u32,
{
}

/// Leading bytes of longer encodings and continuation bytes carry a marker
/// bit, so none of them is zero.
proof fn lemma_multi_byte_nonzero(scalar: u32)
    by (bit_vector)
    ensures
        leading_byte_width_2(scalar) != 0u8,
        leading_byte_width_3(scalar) != 0u8,
        leading_byte_width_4(scalar) != 0u8,
        last_continuation_byte(scalar) != 0u8,
        second_last_continuation_byte(scalar) != 0u8,
        third_last_continuation_byte(scalar) != 0u8,
{
}

/// The UTF-8 encoding of one character holds a zero byte exactly if the
/// character is NUL.
pub proof fn lemma_char_encoding_zero_free(c: char)
    ensures
        zero_free(encode_scalar(c as u32)) <==> c != '\0',
        encode_scalar(c as u32).len() >= 1,
{
    let scalar = c as u32;
    let bytes = encode_scalar(scalar);
    char_is_scalar(c);
    lemma_multi_byte_nonzero(scalar);
    if has_width_1_encoding(scalar) {
        lemma_single_byte_zero(scalar);
        assert(bytes[0] == leading_byte_width_1(scalar));
        if c == '\0' {
            assert(scalar == 0u32);
            assert(bytes[0] == 0u8);
        } else {
            assert(scalar != 0u32);
        }
    }
}

/// Text without a NUL character is exactly the text whose UTF-8 encoding holds
/// no zero byte.
pub proof fn lemma_encoding_zero_free(chars: Seq<char>)
    ensures
        zero_free(encode_utf8(chars)) <==> nul_free(chars),
    decreases chars.len(),
{
    if chars.len() == 0 {
    } else {
        let first = encode_scalar(chars[0] as u32);
        let rest = chars.drop_first();
        let tail = encode_utf8(rest);
        let all = encode_utf8(chars);
        lemma_char_encoding_zero_free(chars[0]);
        lemma_encoding_zero_free(rest);
        assert(all == first + tail);
        if nul_free(chars) {
            assert forall|i: int| 0 <= i < rest.len() implies rest[i] != '\0' by {
                assert(rest[i] == chars[i + 1]);
            }
            assert forall|i: int| 0 <= i < all.len() implies all[i] != 0u8 by {
                if i < first.len() {
                    assert(all[i] == first[i]);
                } else {
                    assert(all[i] == tail[i - first.len()]);
                }
            }
        }
        if zero_free(all) {
            assert forall|i: int| 0 <= i < first.len() implies first[i] != 0u8 by {
                assert(first[i] == all[i]);
            }
            assert forall|i: int| 0 <= i < tail.len() implies tail[i] != 0u8 by {
                assert(tail[i] == all[i + first.len()]);
            }
            assert forall|i: int| 0 <= i < chars.len() implies chars[i] != '\0' by {
                if i > 0 {
                    assert(chars[i] == rest[i - 1]);
                }
            }
        }
    }
}

/// Reading the terminated form of `chars` gives `chars` back, provided that
/// `chars` holds no NUL character: the terminator is found right behind the
/// encoding, and the bytes before it decode to `chars`.
pub proof fn lemma_terminated_round_trip(chars: Seq<char>)
    requires
        nul_free(chars),
    ensures
        terminator_index(terminated(chars)) == encode_utf8(chars).len(),
        payload(terminated(chars)) == encode_utf8(chars),
        decode_terminated(terminated(chars)) == chars,
{
    let encoded = encode_utf8(chars);
    let bytes = terminated(chars);
    lemma_encoding_zero_free(chars);
    assert(bytes.subrange(0, encoded.len() as int) =~= encoded);
    lemma_terminator_index_is(bytes, encoded.len() as int);
    encode_utf8_decode_utf8(chars);
}

/// Text with a NUL character does not survive the crossing: a reader of its
/// terminated form stops inside the encoding, at the first NUL, and so sees
/// fewer bytes than were written.
pub proof fn lemma_embedded_nul_truncates(chars: Seq<char>)
    requires
        !nul_free(chars),
    ensures
        terminator_index(terminated(chars)) < encode_utf8(chars).len(),
        payload(terminated(chars)) != encode_utf8(chars),
{
    let encoded = encode_utf8(chars);
    let bytes = terminated(chars);
    lemma_encoding_zero_free(chars);
    lemma_terminator_index_bounds(bytes);
    let n = terminator_index(bytes);
    let i = choose|i: int| 0 <= i < encoded.len() && encoded[i] == 0u8;
    if n >= encoded.len() {
        assert(payload(bytes)[i] == encoded[i]);
    }
}

/// `bytes` are the terminated form of some text: they end in their only zero
/// byte, and the bytes before it are valid UTF-8.
pub open spec fn is_terminated_text(bytes: Seq<u8>) -> bool {
    &&& bytes.len() > 0
    &&& terminator_index(bytes) == bytes.len() - 1
    &&& valid_utf8(payload(bytes))
}

/// The byte sequences that are the terminated form of some text are exactly
/// those that `terminated` makes from the text that is read from them, where
/// that text holds no NUL character.
pub proof fn lemma_terminated_text(bytes: Seq<u8>)
    ensures
        is_terminated_text(bytes) <==> (nul_free(decode_terminated(bytes)) && bytes == terminated(
            decode_terminated(bytes),
        )),
{
    let chars = decode_terminated(bytes);
    if is_terminated_text(bytes) {
        lemma_terminator_index_bounds(bytes);
        decode_utf8_encode_utf8(payload(bytes));
        assert(bytes =~= terminated(chars));
        lemma_encoding_zero_free(chars);
    }
    if nul_free(chars) && bytes == terminated(chars) {
        lemma_terminated_round_trip(chars);
        encode_utf8_valid_utf8(chars);
    }
}

/// `core::str::from_utf8`: accepts exactly the byte sequences that are valid
/// UTF-8, and gives the text that they encode. Which error it reports for
/// other bytes is not stated.
#[verifier::external_body]
fn str_from_utf8<'a>(bytes: &'a [u8]) -> (text: Option<&'a str>)
    ensures
        text is Some <==> valid_utf8(bytes@),
        text matches Some(s) ==> s@ == decode_utf8(bytes@),
{
    core::str::from_utf8(bytes).ok()
}

/// Finds the end of the text in a null-terminated view: the position of the
/// first zero byte, or the length of `bytes` if there is none.
pub fn find_terminator(bytes: &[u8]) -> (n: usize)
    ensures
        n == terminator_index(bytes@),
        n <= bytes@.len(),
{
    let mut i: usize = 0;
    while i < bytes.len() && bytes[i] != 0u8
        invariant
            i <= bytes@.len(),
            zero_free(bytes@.subrange(0, i as int)),
        decreases bytes@.len() - i,
    {
        i += 1;
        assert forall|j: int| 0 <= j < i implies bytes@.subrange(0, i as int)[j] != 0u8 by {
            if j < i - 1 {
                assert(bytes@.subrange(0, i - 1)[j] != 0u8);
            }
        }
    }
    proof {
        lemma_terminator_index_is(bytes@, i as int);
    }
    i
}

/// The bytes of the text in a null-terminated view, without the terminator
/// and whatever follows it.
pub fn text_bytes<'a>(bytes: &'a [u8]) -> (text: &'a [u8])
    ensures
        text@ == payload(bytes@),
{
    let n = find_terminator(bytes);
    slice_subrange(bytes, 0, n)
}

/// Reads a null-terminated view as text. There is text to read exactly if
/// the bytes before the terminator are valid UTF-8.
pub fn read_terminated<'a>(bytes: &'a [u8]) -> (text: Option<&'a str>)
    ensures
        text is Some <==> valid_utf8(payload(bytes@)),
        text matches Some(s) ==> s@ == decode_terminated(bytes@),
{
    str_from_utf8(text_bytes(bytes))
}

/// Text in its terminated form, owned by whoever holds the handle.
///
/// The handle is not `Clone`. It is made on this side of the boundary and
/// moves to the caller, who gives it back by moving it again.
pub struct OwnedText {
    bytes: Vec<u8>,
}

impl View for OwnedText {
    type V = Seq<char>;

    /// The text that a reader takes from the handle's bytes.
    open spec fn view(&self) -> Seq<char> {
        decode_terminated(self.spec_bytes())
    }
}

impl OwnedText {
    /// The bytes that cross the boundary, terminator included.
    pub closed spec fn spec_bytes(&self) -> Seq<u8> {
        self.bytes@
    }

    /// The bytes are the terminated form of the text that is read from them,
    /// and the only zero byte is the terminator. Every handle that this
    /// module hands out is well formed.
    pub open spec fn wf(&self) -> bool {
        &&& nul_free(self@)
        &&& self.spec_bytes() == terminated(self@)
    }

    /// The bytes that cross the boundary, terminator included.
    pub fn as_bytes_with_nul(&self) -> (bytes: &[u8])
        ensures
            bytes@ == self.spec_bytes(),
    {
        self.bytes.as_slice()
    }

    /// Gives up the handle for its bytes, terminator included.
    /// `from_bytes_with_nul` makes the handle again.
    pub fn into_bytes_with_nul(self) -> (bytes: Vec<u8>)
        ensures
            bytes@ == self.spec_bytes(),
    {
        self.bytes
    }

    /// Makes a handle from bytes that came back over the boundary. There is
    /// a handle exactly for the terminated form of some text.
    pub fn from_bytes_with_nul(bytes: Vec<u8>) -> (made: Option<OwnedText>)
        ensures
            made is Some <==> is_terminated_text(bytes@),
            made matches Some(text) ==> text.wf() && text.spec_bytes() == bytes@,
    {
        let n = find_terminator(bytes.as_slice());
        if bytes.len() == 0 || n != bytes.len() - 1 {
            return None;
        }
        let valid = str_from_utf8(slice_subrange(bytes.as_slice(), 0, n)).is_some();
        proof {
            lemma_terminated_text(bytes@);
        }
        if valid {
            Some(OwnedText { bytes })
        } else {
            None
        }
    }

    /// Reads the text back from the handle's bytes.
    pub fn as_str(&self) -> (text: &str)
        requires
            self.wf(),
        ensures
            text@ == self@,
    {
        proof {
            lemma_terminated_round_trip(self@);
            encode_utf8_valid_utf8(self@);
        }
        match read_terminated(self.bytes.as_slice()) {
            Some(text) => text,
            None => vstd::pervasive::unreached(),
        }
    }
}

/// Makes the owned, terminated form of `content`, for a caller to take over.
///
/// `content` must hold no NUL character: such text has no terminated form
/// that reads back as itself. `try_produce_owned_text` tests this first.
pub fn produce_owned_text(content: &str) -> (text: OwnedText)
    requires
        nul_free(content@),
    ensures
        text.wf(),
        text@ == content@,
        text.spec_bytes() == terminated(content@),
{
    let mut bytes: Vec<u8> = Vec::new();
    bytes.extend_from_slice(content.as_bytes());
    bytes.push(0u8);
    proof {
        assert(bytes@ =~= terminated(content@));
        lemma_terminated_round_trip(content@);
    }
    OwnedText { bytes }
}

/// Makes the owned, terminated form of `content` if `content` holds no NUL
/// character, and nothing otherwise.
pub fn try_produce_owned_text(content: &str) -> (made: Option<OwnedText>)
    ensures
        made is Some <==> nul_free(content@),
        made matches Some(text) ==> text.wf() && text@ == content@ && text.spec_bytes()
            == terminated(content@),
{
    let bytes = content.as_bytes();
    let n = find_terminator(bytes);
    proof {
        lemma_encoding_zero_free(content@);
        lemma_terminator_index_bounds(bytes@);
        if n == bytes@.len() {
            assert(payload(bytes@) =~= bytes@);
        }
    }
    if n == bytes.len() {
        Some(produce_owned_text(content))
    } else {
        None
    }
}

/// Gives owned text back. The handle is consumed, so the text cannot be
/// reached afterwards, and it cannot be given back a second time.
pub fn reclaim_text(text: OwnedText)
    requires
        text.wf(),
{
    let OwnedText { bytes: _ } = text;
}

/// Passes owned text through unchanged: the handle that comes in is the
/// handle that goes out, and with it the ownership of the text.
pub fn echo_owned(text: OwnedText) -> (echoed: OwnedText)
    ensures
        echoed == text,
        echoed@ == text@,
        echoed.spec_bytes() == text.spec_bytes(),
        echoed.wf() == text.wf(),
{
    text
}

/// Passes a borrowed view through unchanged. The view stays the caller's: it
/// is neither kept nor changed here.
pub fn echo_borrowed<'a>(view: &'a str) -> (echoed: &'a str)
    ensures
        echoed == view,
        echoed@ == view@,
{
    view
}

} // verus!
