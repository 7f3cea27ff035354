use vstd::prelude::*;

verus! {

/// The characters of bytes that are all ASCII.
pub open spec fn chars_of(b: Seq<u8>) -> Seq<char> {
    b.map(|i: int, c: u8| c as char)
}

/// Every byte is ASCII.
pub open spec fn is_ascii_bytes(b: Seq<u8>) -> bool {
    forall|j: int| 0 <= j < b.len() ==> #[trigger] b[j] < 128
}

/// The text that `String::from_utf8_lossy` makes of the bytes.
pub uninterp spec fn lossy_text(b: Seq<u8>) -> Seq<char>;

/// Relies on `String::from_utf8_lossy`: the bytes `b[start..end]` as text,
/// each invalid UTF-8 sequence replaced by U+FFFD; valid UTF-8, ASCII in
/// particular, is kept as it is.
#[verifier::external_body]
pub(crate) fn text_of(b: &[u8], start: usize, end: usize) -> (r: String)
    requires
        start <= end <= b@.len(),
    ensures
        r@ == lossy_text(b@.subrange(start as int, end as int)),
        is_ascii_bytes(b@.subrange(start as int, end as int)) ==> r@ == chars_of(
            b@.subrange(start as int, end as int),
        ),
{
    String::from_utf8_lossy(&b[start..end]).into_owned()
}

} // verus!
