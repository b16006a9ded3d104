use vstd::prelude::*;

verus! {

/// Calls `std::str::from_utf8`: it returns the decoded text exactly when
/// the bytes are valid UTF-8 (as `vstd::utf8` defines validity and decoding),
/// and nothing otherwise.
#[verifier::external_body]
fn str_from_utf8(bytes: &[u8]) -> (text: Option<&str>)
    ensures
        text is Some <==> vstd::utf8::valid_utf8(bytes@),
        text matches Some(t) ==> t@ == vstd::utf8::decode_utf8(bytes@),
{
    std::str::from_utf8(bytes).ok()
}

/// The text to send to the character display for the bytes `text`, or
/// `None` where they are not valid UTF-8.
pub fn display_text(text: &[u8]) -> (decoded: Option<&str>)
    ensures
        decoded is Some <==> vstd::utf8::valid_utf8(text@),
        decoded matches Some(t) ==> t@ == vstd::utf8::decode_utf8(text@),
{
    str_from_utf8(text)
}

/// Writing text to the display piece by piece shows the same characters as
/// writing it at once: two valid byte strings decode, one after the other,
/// to the decoding of their concatenation (which is valid too), and the empty
/// byte string is valid and decodes to no characters.
pub proof fn lemma_display_text_concat(first: Seq<u8>, second: Seq<u8>)
    requires
        vstd::utf8::valid_utf8(first),
        vstd::utf8::valid_utf8(second),
    ensures
        vstd::utf8::valid_utf8(first + second),
        vstd::utf8::decode_utf8(first + second) == vstd::utf8::decode_utf8(first)
            + vstd::utf8::decode_utf8(second),
        vstd::utf8::valid_utf8(Seq::<u8>::empty()),
        vstd::utf8::decode_utf8(Seq::<u8>::empty()) == Seq::<char>::empty(),
    decreases first.len(),
{
    vstd::utf8::valid_utf8_concat(first, second);
    if first.len() == 0 {
        assert(first + second =~= second);
        assert(vstd::utf8::decode_utf8(first) =~= Seq::<char>::empty());
    } else {
        let both = first + second;
        let rest = vstd::utf8::pop_first_scalar(first);
        let width = vstd::utf8::length_of_first_scalar(first);
        assert(both[0] == first[0]);
        assert(width <= first.len());
        assert(forall|i: int| 0 <= i < width ==> both[i] == first[i]);
        assert(vstd::utf8::length_of_first_scalar(both) == width);
        assert(vstd::utf8::decode_first_scalar(both) == vstd::utf8::decode_first_scalar(first));
        assert(vstd::utf8::pop_first_scalar(both) =~= rest + second);
        assert(rest.len() < first.len());
        lemma_display_text_concat(rest, second);
        assert(vstd::utf8::decode_utf8(both) =~= vstd::utf8::decode_utf8(first)
            + vstd::utf8::decode_utf8(second));
    }
}

/// The arguments for the display driver's cursor call from a menu cursor at
/// column `col_id` and row `row_id`: row first, then column, each cut to its
/// low eight bits.
pub fn cursor_target(col_id: usize, row_id: usize) -> (target: (u8, u8))
    ensures
        target.0 == row_id % 256,
        target.1 == col_id % 256,
{
    ((row_id % 256) as u8, (col_id % 256) as u8)
}

} // verus!
