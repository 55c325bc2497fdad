//! BLAKE3 content hashing of files, fed chunk by chunk so that large backup
//! files are never held in memory at once.

use vstd::prelude::*;

verus! {

/// The BLAKE3 hash state, declared so that it can be held in a field.
#[verifier::external_type_specification]
#[verifier::external_body]
pub struct ExBlake3Hasher(blake3::Hasher);

/// The bytes a `blake3::Hasher` has been fed so far, in order.
pub uninterp spec fn hasher_input(h: blake3::Hasher) -> Seq<u8>;

/// The 32-byte BLAKE3 hash of `data`.
pub uninterp spec fn blake3_digest(data: Seq<u8>) -> Seq<u8>;

/// Calls `blake3::Hasher::new`. Trusted: the new hasher has been fed nothing.
#[verifier::external_body]
fn hasher_new() -> (h: blake3::Hasher)
    ensures
        hasher_input(h) == Seq::<u8>::empty(),
{
    blake3::Hasher::new()
}

/// Calls `blake3::Hasher::update`. Trusted: the hasher has now been fed
/// what it had been fed before, followed by `data` (blake3's documentation:
/// add input bytes to the hash state, any number of times).
#[verifier::external_body]
fn hasher_update(h: &mut blake3::Hasher, data: &[u8])
    ensures
        hasher_input(*final(h)) == hasher_input(*old(h)) + data@,
{
    h.update(data);
}

/// Calls `blake3::Hasher::finalize` and takes the bytes of the result with
/// `Hash::as_bytes`. Trusted: these are the BLAKE3 hash of all the input fed
/// so far ("the Hash of the input", in blake3's documentation).
#[verifier::external_body]
fn hasher_finalize(h: &blake3::Hasher) -> (d: [u8; 32])
    ensures
        d@ == blake3_digest(hasher_input(*h)),
{
    *h.finalize().as_bytes()
}

/// The sixteen lower-case hexadecimal digits, in order.
pub open spec fn hex_digit(d: nat) -> char {
    seq!['0', '1', '2', '3', '4', '5', '6', '7', '8', '9', 'a', 'b', 'c', 'd', 'e', 'f'][d as int]
}

/// Lower-case hexadecimal text of bytes, two digits per byte, high nibble first.
pub open spec fn lower_hex(bytes: Seq<u8>) -> Seq<char>
    decreases bytes.len(),
{
    if bytes.len() == 0 {
        Seq::empty()
    } else {
        lower_hex(bytes.drop_last()) + seq![
            hex_digit((bytes.last() / 16) as nat),
            hex_digit((bytes.last() % 16) as nat),
        ]
    }
}

/// Two digits per byte.
pub proof fn lemma_lower_hex_len(bytes: Seq<u8>)
    ensures
        lower_hex(bytes).len() == 2 * bytes.len(),
    decreases bytes.len(),
{
    if bytes.len() > 0 {
        lemma_lower_hex_len(bytes.drop_last());
    }
}

/// The text a file's hash is stored as: its BLAKE3 hash in lower-case hex.
pub open spec fn content_hash_text(contents: Seq<u8>) -> Seq<char> {
    lower_hex(blake3_digest(contents))
}

fn push_hex_digit(out: &mut String, d: u8)
    requires
        d < 16,
    ensures
        final(out)@ == old(out)@.push(hex_digit(d as nat)),
{
    proof {
        reveal_strlit("0");
        reveal_strlit("1");
        reveal_strlit("2");
        reveal_strlit("3");
        reveal_strlit("4");
        reveal_strlit("5");
        reveal_strlit("6");
        reveal_strlit("7");
        reveal_strlit("8");
        reveal_strlit("9");
        reveal_strlit("a");
        reveal_strlit("b");
        reveal_strlit("c");
        reveal_strlit("d");
        reveal_strlit("e");
        reveal_strlit("f");
    }
    let s = if d == 0 {
        "0"
    } else if d == 1 {
        "1"
    } else if d == 2 {
        "2"
    } else if d == 3 {
        "3"
    } else if d == 4 {
        "4"
    } else if d == 5 {
        "5"
    } else if d == 6 {
        "6"
    } else if d == 7 {
        "7"
    } else if d == 8 {
        "8"
    } else if d == 9 {
        "9"
    } else if d == 10 {
        "a"
    } else if d == 11 {
        "b"
    } else if d == 12 {
        "c"
    } else if d == 13 {
        "d"
    } else if d == 14 {
        "e"
    } else {
        "f"
    };
    out.append(s);
}

/// Lower-case hexadecimal text of bytes.
pub fn to_lower_hex(bytes: &[u8]) -> (r: String)
    ensures
        r@ == lower_hex(bytes@),
{
    let mut out = String::new();
    let mut i: usize = 0;
    while i < bytes.len()
        invariant
            i <= bytes@.len(),
            out@ == lower_hex(bytes@.take(i as int)),
        decreases bytes.len() - i,
    {
        let b = bytes[i];
        push_hex_digit(&mut out, b / 16);
        push_hex_digit(&mut out, b % 16);
        proof {
            let t = bytes@.take(i + 1);
            assert(t.drop_last() =~= bytes@.take(i as int));
            assert(t.last() == b);
            assert(out@ =~= lower_hex(t));
        }
        i += 1;
    }
    assert(bytes@.take(bytes@.len() as int) =~= bytes@);
    out
}

/// A file's contents hashed as they are read, chunk by chunk.
pub struct ContentHasher {
    state: blake3::Hasher,
}

impl ContentHasher {
    /// The bytes fed so far.
    pub closed spec fn input(self) -> Seq<u8> {
        hasher_input(self.state)
    }

    pub fn new() -> (h: ContentHasher)
        ensures
            h.input() == Seq::<u8>::empty(),
    {
        ContentHasher { state: hasher_new() }
    }

    /// Feeds the next chunk read from the file. An empty chunk marks the end
    /// of the file: the result says whether to keep reading.
    pub fn absorb(&mut self, chunk: &[u8]) -> (more: bool)
        ensures
            more == (chunk@.len() > 0),
            final(self).input() == old(self).input() + chunk@,
    {
        if chunk.len() == 0 {
            assert(old(self).input() + chunk@ =~= old(self).input());
            return false;
        }
        hasher_update(&mut self.state, chunk);
        true
    }

    /// The hash of everything fed, as stored: lower-case hexadecimal text,
    /// 64 characters long.
    pub fn finish_hex(&self) -> (r: String)
        ensures
            r@ == content_hash_text(self.input()),
            r@.len() == 64,
    {
        let digest = hasher_finalize(&self.state);
        proof {
            lemma_lower_hex_len(digest@);
        }
        to_lower_hex(&digest)
    }
}

} // verus!
