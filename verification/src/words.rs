//! The 32-bit words of GPU records and their byte images.

use vstd::prelude::*;

verus! {

/// Four lanes of a GPU record: words, or single-precision numbers as bit patterns.
#[derive(Clone, Copy, Debug, PartialEq, Eq, Structural)]
pub struct Vec4 {
    pub x: u32,
    pub y: u32,
    pub z: u32,
    pub w: u32,
}

/// Two lanes: texture coordinates or a tile scale as single-precision bit patterns.
#[derive(Clone, Copy, Debug, PartialEq, Eq, Structural)]
pub struct Vec2 {
    pub x: u32,
    pub y: u32,
}

/// Three lanes: a point, a direction or a colour as single-precision bit patterns.
#[derive(Clone, Copy, Debug, PartialEq, Eq, Structural)]
pub struct Vec3 {
    pub x: u32,
    pub y: u32,
    pub z: u32,
}

impl Vec3 {
    /// The three lanes with a fourth behind them.
    #[verifier::allow_in_spec]
    pub fn extend(self, w: u32) -> Vec4
        returns
            (Vec4 { x: self.x, y: self.y, z: self.z, w }),
    {
        Vec4 { x: self.x, y: self.y, z: self.z, w }
    }
}

/// All four lanes zero.
#[verifier::allow_in_spec]
pub fn zero4() -> Vec4
    returns
        (Vec4 { x: 0, y: 0, z: 0, w: 0 }),
{
    Vec4 { x: 0, y: 0, z: 0, w: 0 }
}

impl Vec4 {
    pub open spec fn words(self) -> Seq<u32> {
        seq![self.x, self.y, self.z, self.w]
    }

    /// Append the four lanes to a record.
    pub fn push_to(self, out: &mut Vec<u32>)
        ensures
            final(out)@ == old(out)@ + self.words(),
    {
        out.push(self.x);
        out.push(self.y);
        out.push(self.z);
        out.push(self.w);
        assert(out@ =~= old(out)@ + self.words());
    }
}

/// The concatenated lanes of a list of vectors.
pub open spec fn lane_words(vs: Seq<Vec4>) -> Seq<u32> {
    Seq::new(
        4 * vs.len(),
        |n: int|
            {
                let v = vs[n / 4];
                if n % 4 == 0 {
                    v.x
                } else if n % 4 == 1 {
                    v.y
                } else if n % 4 == 2 {
                    v.z
                } else {
                    v.w
                }
            },
    )
}

/// Lay out a list of vectors as words.
pub fn words_of(vs: &Vec<Vec4>) -> (out: Vec<u32>)
    ensures
        out@ == lane_words(vs@),
{
    let mut out: Vec<u32> = Vec::new();
    let mut i: usize = 0;
    assert(out@ =~= lane_words(vs@.take(0)));
    while i < vs.len()
        invariant
            i <= vs@.len(),
            out@ == lane_words(vs@.take(i as int)),
        decreases vs@.len() - i,
    {
        vs[i].push_to(&mut out);
        proof {
            lemma_lane_words_push(vs@.take(i as int), vs@[i as int]);
            assert(vs@.take(i as int).push(vs@[i as int]) =~= vs@.take(i + 1));
        }
        i = i + 1;
    }
    assert(vs@.take(vs@.len() as int) =~= vs@);
    out
}

/// The four lanes of a vector stand in a record from word `at` on, first to last.
pub open spec fn lanes_at(record: Seq<u32>, at: int, v: Vec4) -> bool {
    &&& 0 <= at
    &&& at + 4 <= record.len()
    &&& record[at] == v.x
    &&& record[at + 1] == v.y
    &&& record[at + 2] == v.z
    &&& record[at + 3] == v.w
}

/// Vector `i` of a list takes words 4i to 4i + 3 of its record, and the record ends with the list.
pub proof fn law_vectors_follow_each_other(vs: Seq<Vec4>, i: int)
    requires
        0 <= i < vs.len(),
    ensures
        lane_words(vs).len() == 4 * vs.len(),
        lanes_at(lane_words(vs), 4 * i, vs[i]),
{
    let (a, b, c, d) = (4 * i, 4 * i + 1, 4 * i + 2, 4 * i + 3);
    assert(a / 4 == i && a % 4 == 0 && b / 4 == i && b % 4 == 1);
    assert(c / 4 == i && c % 4 == 2 && d / 4 == i && d % 4 == 3);
}

pub proof fn lemma_lane_words_push(vs: Seq<Vec4>, v: Vec4)
    ensures
        lane_words(vs.push(v)) == lane_words(vs) + v.words(),
{
    let (a, b) = (lane_words(vs.push(v)), lane_words(vs) + v.words());
    assert forall|n: int| 0 <= n < a.len() implies a[n] == b[n] by {
        if n < 4 * vs.len() {
            assert(n / 4 < vs.len());
        } else {
            assert(n / 4 == vs.len());
        }
    }
    assert(a =~= b);
}

/// Byte `j` of a word, counted from the least significant one.
pub open spec fn byte_of(word: u32, j: int) -> u8 {
    if j == 0 {
        (word % 0x100) as u8
    } else if j == 1 {
        (word / 0x100 % 0x100) as u8
    } else if j == 2 {
        (word / 0x1_0000 % 0x100) as u8
    } else {
        (word / 0x100_0000) as u8
    }
}

/// `bytes` are the words with the least significant byte first.
pub open spec fn is_little_image(words: Seq<u32>, bytes: Seq<u8>) -> bool {
    &&& bytes.len() == 4 * words.len()
    &&& forall|n: int|
        0 <= n < bytes.len() ==> #[trigger] bytes[n] == byte_of(words[n / 4], n % 4)
}

/// `bytes` are the words with the most significant byte first.
pub open spec fn is_big_image(words: Seq<u32>, bytes: Seq<u8>) -> bool {
    &&& bytes.len() == 4 * words.len()
    &&& forall|n: int|
        0 <= n < bytes.len() ==> #[trigger] bytes[n] == byte_of(words[n / 4], 3 - n % 4)
}

/// `bytes` are the words as some machine stores them: one byte order throughout.
pub open spec fn is_native_image(words: Seq<u32>, bytes: Seq<u8>) -> bool {
    is_little_image(words, bytes) || is_big_image(words, bytes)
}

proof fn lemma_word_from_bytes(w: u32)
    ensures
        w == byte_of(w, 0) + 0x100 * byte_of(w, 1) + 0x1_0000 * byte_of(w, 2) + 0x100_0000
            * byte_of(w, 3),
{
}

/// Nothing is lost in a byte image: in either byte order, words with the same image are the same.
pub proof fn law_image_is_lossless(a: Seq<u32>, b: Seq<u32>, bytes: Seq<u8>)
    requires
        (is_little_image(a, bytes) && is_little_image(b, bytes)) || (is_big_image(a, bytes)
            && is_big_image(b, bytes)),
    ensures
        a == b,
{
    assert forall|i: int| 0 <= i < a.len() implies a[i] == b[i] by {
        lemma_word_from_bytes(a[i]);
        lemma_word_from_bytes(b[i]);
        let (n0, n1, n2, n3) = (4 * i, 4 * i + 1, 4 * i + 2, 4 * i + 3);
        assert(n0 / 4 == i && n1 / 4 == i && n2 / 4 == i && n3 / 4 == i);
        assert(n0 % 4 == 0 && n1 % 4 == 1 && n2 % 4 == 2 && n3 % 4 == 3);
        if is_little_image(a, bytes) && is_little_image(b, bytes) {
            assert(bytes[n0] == byte_of(a[i], 0) && bytes[n0] == byte_of(b[i], 0));
            assert(bytes[n1] == byte_of(a[i], 1) && bytes[n1] == byte_of(b[i], 1));
            assert(bytes[n2] == byte_of(a[i], 2) && bytes[n2] == byte_of(b[i], 2));
            assert(bytes[n3] == byte_of(a[i], 3) && bytes[n3] == byte_of(b[i], 3));
        } else {
            assert(bytes[n0] == byte_of(a[i], 3) && bytes[n0] == byte_of(b[i], 3));
            assert(bytes[n1] == byte_of(a[i], 2) && bytes[n1] == byte_of(b[i], 2));
            assert(bytes[n2] == byte_of(a[i], 1) && bytes[n2] == byte_of(b[i], 1));
            assert(bytes[n3] == byte_of(a[i], 0) && bytes[n3] == byte_of(b[i], 0));
        }
    }
    assert(a =~= b);
}

/// `bytemuck::cast_slice` from `u32` to `u8`: the same memory seen as bytes. It holds four bytes
/// per word, in the machine's byte order. That order is left open here: which of the two it is
/// depends on the target.
#[verifier::external_body]
fn cast_words(words: &[u32]) -> (bytes: &[u8])
    ensures
        is_native_image(words@, bytes@),
{
    bytemuck::cast_slice(words)
}

/// The bytes of a record as a GPU buffer takes them.
pub fn upload_bytes(words: &[u32]) -> (bytes: &[u8])
    ensures
        is_native_image(words@, bytes@),
{
    cast_words(words)
}

/// The little-endian word at byte offset `o`.
pub open spec fn le_word(data: Seq<u8>, o: int) -> int {
    data[o] + 0x100 * data[o + 1] + 0x1_0000 * data[o + 2] + 0x100_0000 * data[o + 3]
}

/// Read the little-endian word at byte offset `o`.
pub fn read_le(data: &[u8], o: usize) -> (r: u32)
    requires
        o + 4 <= data@.len(),
    ensures
        r == le_word(data@, o as int),
{
    data[o] as u32 + 0x100 * data[o + 1] as u32 + 0x1_0000 * data[o + 2] as u32 + 0x100_0000
        * data[o + 3] as u32
}

/// Reading a little-endian image gives the words back.
pub proof fn law_little_image_reads_back(words: Seq<u32>, bytes: Seq<u8>, i: int)
    requires
        is_little_image(words, bytes),
        0 <= i < words.len(),
    ensures
        le_word(bytes, 4 * i) == words[i],
{
    let (a, b, c, d) = (4 * i, 4 * i + 1, 4 * i + 2, 4 * i + 3);
    assert(a / 4 == i && a % 4 == 0 && b / 4 == i && b % 4 == 1);
    assert(c / 4 == i && c % 4 == 2 && d / 4 == i && d % 4 == 3);
    assert(bytes[a] == byte_of(words[i], 0));
    assert(bytes[b] == byte_of(words[i], 1));
    assert(bytes[c] == byte_of(words[i], 2));
    assert(bytes[d] == byte_of(words[i], 3));
    lemma_word_from_bytes(words[i]);
}

} // verus!
