use vstd::prelude::*;

verus! {

/// Where an assembled program is to be read from.
pub struct Reader {
    path: String,
}

impl View for Reader {
    type V = Seq<char>;

    closed spec fn view(&self) -> Seq<char> {
        self.path@
    }
}

impl Reader {
    pub fn new(path: String) -> (r: Reader)
        ensures
            r@ == path@,
    {
        Reader { path }
    }

    pub fn path(&self) -> (r: &String)
        ensures
            r@ == self@,
    {
        &self.path
    }
}

/// Word `i` of a byte stream read as big-endian pairs; a missing last low
/// byte reads as zero.
pub open spec fn word_at(bytes: Seq<u8>, i: int) -> u16 {
    let lsb: int = if 2 * i + 1 < bytes.len() {
        bytes[2 * i + 1] as int
    } else {
        0
    };
    (bytes[2 * i] * 256 + lsb) as u16
}

/// Turns the bytes of an image file into its words.
pub fn words_from_bytes(bytes: &[u8]) -> (r: Vec<u16>)
    ensures
        r@.len() == (bytes@.len() + 1) / 2,
        forall|i: int| 0 <= i < r@.len() ==> #[trigger] r@[i] == word_at(bytes@, i),
{
    let len = bytes.len();
    let n = len / 2 + len % 2;
    let mut res: Vec<u16> = Vec::new();
    let mut k: usize = 0;
    while k < n
        invariant
            n == (bytes@.len() + 1) / 2,
            len == bytes@.len(),
            k <= n,
            res@.len() == k,
            forall|j: int| 0 <= j < k ==> #[trigger] res@[j] == word_at(bytes@, j),
        decreases n - k,
    {
        assert(2 * k < len) by (nonlinear_arith)
            requires
                k < n,
                n == (len + 1) / 2,
        ;
        let i = 2 * k;
        let high = bytes[i];
        let low: u8 = if i + 1 < bytes.len() {
            bytes[i + 1]
        } else {
            0
        };
        let msb = (high as u16) << 8;
        let word = msb | low as u16;
        assert(word == (high * 256 + low) as u16) by (bit_vector)
            requires
                msb == (high as u16) << 8,
                word == msb | low as u16,
        ;
        res.push(word);
        k += 1;
    }
    res
}

} // verus!
