//! Texts on their way into the engine: cutting a text to size without splitting a
//! character, and the C string that carries it.
use vstd::prelude::*;
use vstd::slice::slice_subrange;
use vstd::utf8::*;

verus! {

/// The most bytes of a message that the engine takes over.
pub const MESSAGE_BYTES: usize = 255;

/// How many characters of `text` fit whole into `max` bytes of UTF-8.
pub open spec fn fitting(text: Seq<char>, max: int) -> nat
    decreases text.len(),
{
    if text.len() == 0 || encode_scalar(text[0] as u32).len() > max {
        0
    } else {
        1 + fitting(text.drop_first(), max - encode_scalar(text[0] as u32).len())
    }
}

/// The longest prefix of `text` that takes at most `max` bytes of UTF-8.
pub open spec fn fitting_prefix(text: Seq<char>, max: int) -> Seq<char> {
    text.take(fitting(text, max) as int)
}

/// `bytes` ends at index `len` or a character can start there, and no character starts
/// between `len` and `max`.
pub open spec fn is_cut(bytes: Seq<u8>, max: int, len: int) -> bool {
    if bytes.len() <= max {
        len == bytes.len()
    } else {
        &&& 0 <= len <= max
        &&& !is_continuation_byte(bytes[len])
        &&& forall|i: int| len < i <= max ==> is_continuation_byte(#[trigger] bytes[i])
    }
}

/// The longest prefix of `bytes` that takes at most `max` bytes and does not end inside
/// a UTF-8 sequence.
///
/// On bytes that are longer than `max`, some byte up to index `max` must be one that a
/// character can start with.
pub fn truncate_str(max: usize, bytes: &[u8]) -> (prefix: &[u8])
    requires
        max < bytes.len() ==> exists|i: int|
            0 <= i <= max && !is_continuation_byte(#[trigger] bytes[i]),
    ensures
        prefix@ == bytes@.take(prefix.len() as int),
        is_cut(bytes@, max as int, prefix.len() as int),
{
    if bytes.len() <= max {
        assert(bytes@.take(bytes.len() as int) =~= bytes@);
        return bytes;
    }
    let mut len: usize = max;
    proof {
        utf8_byte_ranges_bitwise(bytes[len as int]);
    }
    while (bytes[len] & 0b1100_0000) == 0b1000_0000
        invariant
            len <= max < bytes.len(),
            exists|i: int| 0 <= i <= max && !is_continuation_byte(#[trigger] bytes[i]),
            forall|i: int| len < i <= max ==> is_continuation_byte(#[trigger] bytes[i]),
        decreases len,
    {
        proof {
            utf8_byte_ranges_bitwise(bytes[len as int]);
            assert(is_continuation_byte(bytes[len as int]));
        }
        len = len - 1;
    }
    proof {
        utf8_byte_ranges_bitwise(bytes[len as int]);
    }
    slice_subrange(bytes, 0, len)
}

/// The bytes of a C string: those before the first zero byte, or all where there is none.
pub open spec fn c_bytes(bytes: Seq<u8>) -> Seq<u8>
    decreases bytes.len(),
{
    if bytes.len() == 0 || bytes[0] == 0 {
        Seq::empty()
    } else {
        seq![bytes[0]] + c_bytes(bytes.drop_first())
    }
}

/// The characters before the first NUL character, or all where there is none.
pub open spec fn before_nul(text: Seq<char>) -> Seq<char>
    decreases text.len(),
{
    if text.len() == 0 || text[0] == '\0' {
        Seq::empty()
    } else {
        seq![text[0]] + before_nul(text.drop_first())
    }
}

/// What of a message the engine takes over: the characters that fit whole into
/// [`MESSAGE_BYTES`] bytes, up to the first NUL among them.
pub open spec fn native_text(message: Seq<char>) -> Seq<char> {
    before_nul(fitting_prefix(message, MESSAGE_BYTES as int))
}

/// The first byte of an encoded character is one that a character starts with, the
/// others are not, and none is zero unless the character is NUL.
proof fn lemma_encode_scalar(c: char)
    ensures
        1 <= encode_scalar(c as u32).len() <= 4,
        !is_continuation_byte(encode_scalar(c as u32)[0]),
        forall|i: int|
            1 <= i < encode_scalar(c as u32).len() ==> is_continuation_byte(
                #[trigger] encode_scalar(c as u32)[i],
            ),
        c == '\0' ==> encode_scalar(c as u32) =~= seq![0u8],
        c != '\0' ==> forall|i: int|
            0 <= i < encode_scalar(c as u32).len() ==> #[trigger] encode_scalar(c as u32)[i] != 0,
{
    let s = c as u32;
    assert(s <= 0x7F ==> (s & 0x7F) as u8 == s) by (bit_vector);
    assert(0xC0 <= 0xC0 | ((s >> 6) & 0x1F) as u8) by (bit_vector);
    assert(0xE0 <= 0xE0 | ((s >> 12) & 0x0F) as u8) by (bit_vector);
    assert(0xF0 <= 0xF0 | ((s >> 18) & 0x7) as u8) by (bit_vector);
    assert(0x80 <= 0x80 | (s & 0x3F) as u8 <= 0xBF) by (bit_vector);
    assert(0x80 <= 0x80 | ((s >> 6) & 0x3F) as u8 <= 0xBF) by (bit_vector);
    assert(0x80 <= 0x80 | ((s >> 12) & 0x3F) as u8 <= 0xBF) by (bit_vector);
}

/// The prefix that fits is the longest that does: it fits, and no longer prefix of the
/// text does.
pub proof fn law_fitting_prefix_is_longest(text: Seq<char>, max: int)
    requires
        0 <= max,
    ensures
        fitting(text, max) <= text.len(),
        encode_utf8(fitting_prefix(text, max)).len() <= max,
        forall|k: int|
            fitting(text, max) < k <= text.len() ==> max < encode_utf8(
                #[trigger] text.take(k),
            ).len(),
    decreases text.len(),
{
    if text.len() > 0 {
        let head = encode_scalar(text[0] as u32);
        let tail = text.drop_first();
        lemma_encode_scalar(text[0]);
        assert forall|k: int| fitting(text, max) < k <= text.len() implies max < encode_utf8(
            #[trigger] text.take(k),
        ).len() by {
            assert(text.take(k).drop_first() =~= tail.take(k - 1));
            if head.len() <= max {
                law_fitting_prefix_is_longest(tail, max - head.len());
            }
        }
        if head.len() <= max {
            law_fitting_prefix_is_longest(tail, max - head.len());
            assert(fitting_prefix(text, max).drop_first() =~= fitting_prefix(
                tail,
                max - head.len(),
            ));
        }
    }
}

/// A cut through an encoded text falls behind the last character that fits.
pub proof fn law_cut_keeps_whole_characters(text: Seq<char>, max: int, len: int)
    requires
        is_cut(encode_utf8(text), max, len),
        0 <= max,
    ensures
        encode_utf8(text).take(len) == encode_utf8(fitting_prefix(text, max)),
    decreases text.len(),
{
    let bytes = encode_utf8(text);
    if text.len() == 0 {
        assert(bytes.take(len) =~= bytes);
        assert(fitting_prefix(text, max) =~= text);
    } else {
        let head = encode_scalar(text[0] as u32);
        let tail = text.drop_first();
        let rest = encode_utf8(tail);
        lemma_encode_scalar(text[0]);
        assert(bytes == head + rest);
        if head.len() > max {
            assert(bytes.len() > max);
            if len > 0 {
                assert(bytes[len] == head[len]);
            }
            assert(bytes.take(len) =~= Seq::<u8>::empty());
            assert(fitting_prefix(text, max) =~= Seq::<char>::empty());
        } else {
            let w = head.len() as int;
            if bytes.len() > max {
                assert(bytes[w] == rest[0]);
                lemma_encode_scalar(tail[0]);
                assert(rest == encode_scalar(tail[0] as u32) + encode_utf8(tail.drop_first()));
                assert(len >= w);
                assert forall|i: int| len - w < i <= max - w implies is_continuation_byte(
                    #[trigger] rest[i],
                ) by {
                    assert(rest[i] == bytes[i + w]);
                }
                assert(bytes[len] == rest[len - w]);
            }
            law_cut_keeps_whole_characters(tail, max - w, len - w);
            let kept = fitting_prefix(text, max);
            law_fitting_prefix_is_longest(tail, max - w);
            assert(kept.drop_first() =~= fitting_prefix(tail, max - w));
            assert(bytes.take(len) =~= head + rest.take(len - w));
        }
    }
}

/// A zero byte, or the end, ends a C string, and nothing before it does.
proof fn lemma_c_bytes(bytes: Seq<u8>, len: int)
    requires
        0 <= len <= bytes.len(),
        forall|i: int| 0 <= i < len ==> #[trigger] bytes[i] != 0,
        len < bytes.len() ==> bytes[len] == 0,
    ensures
        c_bytes(bytes) == bytes.take(len),
    decreases len,
{
    if len == 0 {
        assert(bytes.take(len) =~= Seq::<u8>::empty());
    } else {
        let rest = bytes.drop_first();
        assert forall|i: int| 0 <= i < len - 1 implies #[trigger] rest[i] != 0 by {
            assert(rest[i] == bytes[i + 1]);
        }
        lemma_c_bytes(rest, len - 1);
        assert(bytes.take(len) =~= seq![bytes[0]] + rest.take(len - 1));
    }
}

/// Bytes that are not zero go into a C string as they are.
proof fn lemma_c_bytes_add(front: Seq<u8>, back: Seq<u8>)
    requires
        forall|i: int| 0 <= i < front.len() ==> #[trigger] front[i] != 0,
    ensures
        c_bytes(front + back) == front + c_bytes(back),
    decreases front.len(),
{
    if front.len() == 0 {
        assert(front + back =~= back);
    } else {
        let rest = front.drop_first();
        assert((front + back).drop_first() =~= rest + back);
        lemma_c_bytes_add(rest, back);
        assert(front + c_bytes(back) =~= seq![front[0]] + (rest + c_bytes(back)));
    }
}

/// A text that stands in a buffer before a zero byte reads, as a C string, as its
/// characters before the first NUL.
pub proof fn law_c_string_holds_text(text: Seq<char>, padding: Seq<u8>)
    requires
        padding.len() > 0,
        padding[0] == 0,
    ensures
        c_bytes(encode_utf8(text) + padding) == encode_utf8(before_nul(text)),
    decreases text.len(),
{
    if text.len() == 0 {
        assert(encode_utf8(text) + padding =~= padding);
    } else {
        let head = encode_scalar(text[0] as u32);
        let tail = text.drop_first();
        lemma_encode_scalar(text[0]);
        if text[0] == '\0' {
            assert((encode_utf8(text) + padding)[0] == head[0]);
        } else {
            law_c_string_holds_text(tail, padding);
            lemma_c_bytes_add(head, encode_utf8(tail) + padding);
            assert(encode_utf8(text) + padding =~= head + (encode_utf8(tail) + padding));
            let kept = before_nul(text);
            assert(kept.drop_first() =~= before_nul(tail));
            assert(kept[0] == text[0]);
        }
    }
}

/// The C string that hands `message` to the engine: the characters that fit, then zero
/// bytes.
pub fn c_message(message: &str) -> (buffer: [u8; 256])
    ensures
        buffer@ == encode_utf8(fitting_prefix(message@, MESSAGE_BYTES as int)) + Seq::new(
            (256 - encode_utf8(fitting_prefix(message@, MESSAGE_BYTES as int)).len()) as nat,
            |i: int| 0u8,
        ),
        c_bytes(buffer@) == encode_utf8(native_text(message@)),
{
    let bytes: &[u8] = message.as_bytes();
    proof {
        if message@.len() > 0 {
            lemma_encode_scalar(message@[0]);
            assert(!is_continuation_byte(bytes[0]));
        }
    }
    let prefix: &[u8] = truncate_str(MESSAGE_BYTES, bytes);
    let ghost kept = fitting_prefix(message@, MESSAGE_BYTES as int);
    proof {
        law_cut_keeps_whole_characters(message@, MESSAGE_BYTES as int, prefix.len() as int);
        law_fitting_prefix_is_longest(message@, MESSAGE_BYTES as int);
    }
    let mut buffer: [u8; 256] = [0; 256];
    let mut i: usize = 0;
    while i < prefix.len()
        invariant
            i <= prefix.len() <= MESSAGE_BYTES,
            buffer@ =~= prefix@.take(i as int) + Seq::new((256 - i) as nat, |j: int| 0u8),
        decreases prefix.len() - i,
    {
        buffer[i] = prefix[i];
        i = i + 1;
    }
    proof {
        assert(prefix@.take(i as int) =~= prefix@);
        law_c_string_holds_text(kept, Seq::new((256 - i) as nat, |j: int| 0u8));
    }
    buffer
}

/// Calls `core::str::from_utf8`, which accepts exactly the well-formed UTF-8 byte
/// sequences and gives the text that they encode.
#[verifier::external_body]
fn from_utf8(bytes: &[u8]) -> (text: Option<&str>)
    ensures
        text is Some <==> valid_utf8(bytes@),
        text matches Some(text) ==> text@ == decode_utf8(bytes@),
{
    core::str::from_utf8(bytes).ok()
}

/// The text of the C string in `buffer`, or `None` where it is not well-formed UTF-8.
pub fn c_text(buffer: &[u8]) -> (text: Option<&str>)
    ensures
        text is Some <==> valid_utf8(c_bytes(buffer@)),
        text matches Some(text) ==> text@ == decode_utf8(c_bytes(buffer@)),
{
    let mut len: usize = 0;
    while len < buffer.len() && buffer[len] != 0
        invariant
            len <= buffer.len(),
            forall|i: int| 0 <= i < len ==> #[trigger] buffer@[i] != 0,
        decreases buffer.len() - len,
    {
        len = len + 1;
    }
    proof {
        lemma_c_bytes(buffer@, len as int);
    }
    from_utf8(slice_subrange(buffer, 0, len))
}

/// Cutting what was cut already changes nothing.
pub proof fn law_cut_twice(bytes: Seq<u8>, max: int, len: int)
    requires
        is_cut(bytes, max, len),
    ensures
        is_cut(bytes.take(len), max, len),
{
}

/// A prefix that fits is kept whole.
pub proof fn law_fitting_text_is_kept(text: Seq<char>, max: int)
    requires
        encode_utf8(text).len() <= max,
    ensures
        fitting_prefix(text, max) == text,
{
    law_fitting_prefix_is_longest(text, max);
    if fitting(text, max) < text.len() {
        assert(text.take(text.len() as int) =~= text);
    }
    assert(fitting_prefix(text, max) =~= text);
}

proof fn lemma_before_nul(text: Seq<char>)
    ensures
        before_nul(text).is_prefix_of(text),
        !before_nul(text).contains('\0'),
        !text.contains('\0') ==> before_nul(text) == text,
        encode_utf8(before_nul(text)).len() <= encode_utf8(text).len(),
    decreases text.len(),
{
    let kept = before_nul(text);
    if text.len() > 0 && text[0] != '\0' {
        let tail = text.drop_first();
        lemma_before_nul(tail);
        let rest = before_nul(tail);
        assert(kept.drop_first() =~= rest);
        assert(kept =~= text.subrange(0, kept.len() as int));
        if kept.contains('\0') {
            let i = choose|i: int| 0 <= i < kept.len() && kept[i] == '\0';
            assert(rest[i - 1] == '\0');
        }
        if !text.contains('\0') {
            if tail.contains('\0') {
                let i = choose|i: int| 0 <= i < tail.len() && tail[i] == '\0';
                assert(text[i + 1] == '\0');
            }
            assert(kept =~= text);
        }
    } else {
        assert(kept =~= text.subrange(0, 0));
        if text.len() > 0 {
            assert(text[0] == '\0');
        } else {
            assert(kept =~= text);
        }
    }
}

/// The engine takes over a beginning of the message, of at most [`MESSAGE_BYTES`] bytes
/// and without a NUL.
pub proof fn law_native_text_is_a_beginning(message: Seq<char>)
    ensures
        native_text(message).is_prefix_of(message),
        encode_utf8(native_text(message)).len() <= MESSAGE_BYTES,
        !native_text(message).contains('\0'),
{
    let kept = fitting_prefix(message, MESSAGE_BYTES as int);
    law_fitting_prefix_is_longest(message, MESSAGE_BYTES as int);
    lemma_before_nul(kept);
    let text = native_text(message);
    assert(text =~= message.subrange(0, text.len() as int)) by {
        assert(text =~= kept.subrange(0, text.len() as int));
    }
}

/// The engine takes over the whole of a message that fits and holds no NUL.
pub proof fn law_short_message_is_kept(message: Seq<char>)
    requires
        encode_utf8(message).len() <= MESSAGE_BYTES,
        !message.contains('\0'),
    ensures
        native_text(message) == message,
{
    law_fitting_text_is_kept(message, MESSAGE_BYTES as int);
    lemma_before_nul(message);
}

} // verus!
