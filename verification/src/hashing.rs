//! Content hashes for cache invalidation: texts are fed to std's
//! `DefaultHasher` as `str::hash` feeds them (their UTF-8 bytes, then a
//! `0xff` terminator), and the digest is printed in lower-case hexadecimal.
use std::collections::hash_map::DefaultHasher;
use std::hash::Hasher;

use vstd::prelude::*;
use vstd::std_specs::hash::DefaultHasherAdditionalSpecFns;
use vstd::string::StringSliceAdditionalSpecFns;
use vstd::utf8::encode_utf8;

use crate::text::{hex_of, hex_text};

verus! {

/// The writes that hashing the text `t` makes.
pub open spec fn text_writes(t: Seq<char>) -> Seq<Seq<u8>> {
    seq![encode_utf8(t), seq![0xffu8]]
}

/// The writes that hashing the texts `ts` in order makes.
pub open spec fn texts_writes(ts: Seq<Seq<char>>) -> Seq<Seq<u8>>
    decreases ts.len(),
{
    if ts.len() == 0 {
        seq![]
    } else {
        texts_writes(ts.drop_last()) + text_writes(ts.last())
    }
}

/// The hexadecimal digest of the texts `ts` hashed in order.
pub open spec fn digest_hex(ts: Seq<Seq<char>>) -> Seq<char> {
    hex_of(DefaultHasher::spec_finish(texts_writes(ts)) as nat)
}

/// Feeds the text `s` to the hasher `h`.
pub fn feed_text(h: &mut DefaultHasher, s: &str)
    ensures
        final(h)@ == old(h)@ + text_writes(s@),
{
    h.write(s.as_bytes());
    let end: Vec<u8> = vec![0xffu8];
    h.write(end.as_slice());
    assert(end@ =~= seq![0xffu8]);
    assert(old(h)@.push(s.spec_bytes()).push(end@) =~= old(h)@ + text_writes(s@));
}

/// A fresh hasher.
pub fn new_hasher() -> (h: DefaultHasher)
    ensures
        h@ == texts_writes(Seq::empty()),
{
    DefaultHasher::new()
}

/// The hexadecimal digest of what `h` was fed.
pub fn finish_hex(h: &DefaultHasher) -> (r: String)
    ensures
        r@ == hex_of(DefaultHasher::spec_finish(h@) as nat),
{
    let d = h.finish();
    hex_text(d as u128)
}

/// Feeding one more text extends the writes.
pub proof fn lemma_texts_writes_push(ts: Seq<Seq<char>>, t: Seq<char>)
    ensures
        texts_writes(ts.push(t)) == texts_writes(ts) + text_writes(t),
{
    assert(ts.push(t).drop_last() =~= ts);
}

} // verus!
