//! String manipulation: masking secrets for display.

use vstd::prelude::*;

use crate::text::{chars_of, push_char};

verus! {

/// What a masked key shows: keys of at most eight characters become as many
/// asterisks; longer keys keep their first and last four characters, joined by
/// "...".
pub open spec fn masked(key: Seq<char>) -> Seq<char> {
    if key.len() <= 8 {
        Seq::new(key.len(), |i: int| '*')
    } else {
        key.take(4) + seq!['.', '.', '.'] + key.skip(key.len() - 4)
    }
}

/// Masks an API key by showing only the first and last 4 characters.
///
/// For keys 8 characters or shorter, returns asterisks only. Characters are
/// Unicode scalar values, so multibyte characters count once.
pub fn mask_api_key(key: &str) -> (r: String)
    ensures
        r@ == masked(key@),
{
    let chars = chars_of(key);
    let len = chars.len();
    let mut out = String::new();
    if len <= 8 {
        let mut i: usize = 0;
        while i < len
            invariant
                i <= len,
                out@ == Seq::new(i as nat, |j: int| '*'),
            decreases len - i,
        {
            push_char(&mut out, '*');
            assert(out@ =~= Seq::new((i + 1) as nat, |j: int| '*'));
            i = i + 1;
        }
        return out;
    }
    let mut i: usize = 0;
    while i < 4
        invariant
            i <= 4 < len,
            len == chars@.len(),
            out@ == chars@.take(i as int),
        decreases 4 - i,
    {
        push_char(&mut out, chars[i]);
        assert(out@ =~= chars@.take(i + 1));
        i = i + 1;
    }
    push_char(&mut out, '.');
    push_char(&mut out, '.');
    push_char(&mut out, '.');
    let ghost head = out@;
    let mut j: usize = len - 4;
    while j < len
        invariant
            8 < len,
            len - 4 <= j <= len,
            len == chars@.len(),
            out@ == head + chars@.subrange(len - 4, j as int),
        decreases len - j,
    {
        push_char(&mut out, chars[j]);
        assert(out@ =~= head + chars@.subrange(len - 4, j + 1));
        j = j + 1;
    }
    assert(out@ =~= masked(key@));
    out
}

/// What a mask shows of a key: a key of more than eight characters is shown
/// as its first four characters, three dots and its last four characters (11
/// characters whatever the key's length); a shorter key as as many asterisks
/// as it has characters. So no more than eight characters of a key are ever
/// shown, and none of a short key.
pub proof fn lemma_mask_shows_ends(key: Seq<char>)
    ensures
        key.len() > 8 ==> {
            let r = masked(key);
            &&& r.len() == 11
            &&& r.take(4) == key.take(4)
            &&& r[4] == '.' && r[5] == '.' && r[6] == '.'
            &&& r.skip(7) == key.skip(key.len() - 4)
        },
        key.len() <= 8 ==> {
            let r = masked(key);
            &&& r.len() == key.len()
            &&& forall|i: int| 0 <= i < r.len() ==> r[i] == '*'
        },
{
    if key.len() > 8 {
        let r = masked(key);
        assert(r.take(4) =~= key.take(4));
        assert(r.skip(7) =~= key.skip(key.len() - 4));
    }
}

} // verus!
