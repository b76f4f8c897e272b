//! Market symbols, stored in a fixed slot padded with zero bytes.
use vstd::prelude::*;
use crate::error::PositionError;
use crate::record::MAX_SYMBOL_LENGTH;

verus! {

/// The text that the bytes `b` hold as UTF-8, or `None` where they are not
/// valid UTF-8.
pub uninterp spec fn utf8_text(b: Seq<u8>) -> Option<Seq<char>>;

/// Relies on `std::str::from_utf8`: the text is a function of the bytes, it
/// fails exactly where they are not UTF-8, and no bytes give no text.
#[verifier::external_body]
fn utf8_to_string(b: &[u8]) -> (r: Option<String>)
    ensures
        r is Some <==> utf8_text(b@) is Some,
        r matches Some(t) ==> utf8_text(b@) == Some(t@),
        r matches Some(t) ==> (b@.len() == 0 ==> t@.len() == 0),
        r is None ==> b@.len() > 0,
{
    std::str::from_utf8(b).ok().map(|t| t.to_string())
}

/// Index of the first zero byte of `s` from `i` on, or `s.len()` where there is none.
pub open spec fn first_zero_from(s: Seq<u8>, i: int) -> int
    decreases s.len() - i,
{
    if i >= s.len() {
        s.len() as int
    } else if s[i] == 0 {
        i
    } else {
        first_zero_from(s, i + 1)
    }
}

/// The bytes of a symbol slot before its first zero byte.
pub open spec fn symbol_bytes(slot: Seq<u8>) -> Seq<u8> {
    slot.subrange(0, first_zero_from(slot, 0))
}

proof fn lemma_first_zero_bounds(s: Seq<u8>, i: int)
    requires
        0 <= i <= s.len(),
    ensures
        i <= first_zero_from(s, i) <= s.len(),
    decreases s.len() - i,
{
    if i < s.len() && s[i] != 0 {
        lemma_first_zero_bounds(s, i + 1);
    }
}

/// The symbol held in a zero-padded slot: its bytes up to the first zero,
/// read as UTF-8. Fails where those bytes are not UTF-8.
pub fn fixed_array_to_string(array: &[u8; 32]) -> (r: Result<String, PositionError>)
    ensures
        match utf8_text(symbol_bytes(array@)) {
            Some(t) => r matches Ok(s) && s@ == t,
            None => r == Err::<String, PositionError>(PositionError::CorruptedRecord),
        },
{
    let mut end: usize = 0;
    while end < MAX_SYMBOL_LENGTH && array[end] != 0
        invariant
            end <= MAX_SYMBOL_LENGTH,
            array@.len() == MAX_SYMBOL_LENGTH,
            first_zero_from(array@, 0) == first_zero_from(array@, end as int),
        decreases MAX_SYMBOL_LENGTH - end,
    {
        end = end + 1;
    }
    let mut prefix: Vec<u8> = Vec::new();
    let mut i: usize = 0;
    while i < end
        invariant
            i <= end <= MAX_SYMBOL_LENGTH,
            array@.len() == MAX_SYMBOL_LENGTH,
            prefix@ == array@.subrange(0, i as int),
        decreases end - i,
    {
        prefix.push(array[i]);
        assert(prefix@ =~= array@.subrange(0, i + 1));
        i = i + 1;
    }
    assert(prefix@ =~= symbol_bytes(array@));
    match utf8_to_string(prefix.as_slice()) {
        Some(t) => Ok(t),
        None => Err(PositionError::CorruptedRecord),
    }
}

} // verus!
