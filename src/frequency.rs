use vstd::prelude::*;

verus! {

/// Number of distinct byte values, and so of entries in a frequency table.
pub const TABLE_SIZE: usize = 256;

/// A weight for each byte value: how typical that character is of English
/// prose, in hundredths of a percent (`1500` stands for 15.00%). Bytes that
/// plain text does not use weigh `0`.
pub struct FrequencyTable {
    weights: Vec<u16>,
}

impl View for FrequencyTable {
    type V = Seq<u16>;

    closed spec fn view(&self) -> Seq<u16> {
        self.weights@
    }
}

impl FrequencyTable {
    /// One weight for every byte value.
    pub open spec fn wf(&self) -> bool {
        self@.len() == TABLE_SIZE
    }

    /// A table from its weights, indexed by byte value; `None` unless there is
    /// exactly one weight per byte value.
    pub fn from_weights(weights: Vec<u16>) -> (r: Option<FrequencyTable>)
        ensures
            r.is_some() <==> weights@.len() == TABLE_SIZE,
            r matches Some(t) ==> t.wf() && t@ == weights@,
    {
        if weights.len() == TABLE_SIZE {
            Some(FrequencyTable { weights })
        } else {
            None
        }
    }

    /// The weight of byte `b`.
    pub fn weight(&self, b: u8) -> (r: u16)
        requires
            self.wf(),
        ensures
            r == self@[b as int],
    {
        self.weights[b as usize]
    }
}

/// Sum of the weights of the bytes of `s`.
pub open spec fn score(w: Seq<u16>, s: Seq<u8>) -> int
    decreases s.len(),
{
    if s.len() == 0 {
        0
    } else {
        score(w, s.drop_last()) + w[s.last() as int]
    }
}

/// How English-like `decrypted` reads: the sum, over its bytes, of their
/// weights in `table`. Bytes outside the table's alphabet add nothing.
pub fn score_decryption(table: &FrequencyTable, decrypted: &[u8]) -> (r: u128)
    requires
        table.wf(),
    ensures
        r == score(table@, decrypted@),
{
    let mut total: u128 = 0;
    let mut i: usize = 0;
    while i < decrypted.len()
        invariant
            table.wf(),
            i <= decrypted@.len(),
            total == score(table@, decrypted@.take(i as int)),
            total <= 0xffff * i,
        decreases decrypted@.len() - i,
    {
        assert(decrypted@.take(i + 1).drop_last() =~= decrypted@.take(i as int));
        total = total + table.weight(decrypted[i]) as u128;
        i = i + 1;
    }
    assert(decrypted@.take(i as int) =~= decrypted@);
    total
}

/// Letter weights of English text, with space and common punctuation, by byte.
pub open spec fn english_weight(b: u8) -> u16 {
    match b {
        32 => 1500,  // ' '
        33 => 50,  // '!'
        44 => 100,  // ','
        46 => 100,  // '.'
        63 => 50,  // '?'
        97 => 816,  // 'a'
        98 => 149,  // 'b'
        99 => 242,  // 'c'
        100 => 432,  // 'd'
        101 => 1270,  // 'e'
        102 => 209,  // 'f'
        103 => 163,  // 'g'
        104 => 602,  // 'h'
        105 => 700,  // 'i'
        106 => 10,  // 'j'
        107 => 78,  // 'k'
        108 => 400,  // 'l'
        109 => 209,  // 'm'
        110 => 624,  // 'n'
        111 => 757,  // 'o'
        112 => 152,  // 'p'
        113 => 11,  // 'q'
        114 => 599,  // 'r'
        115 => 624,  // 's'
        116 => 906,  // 't'
        117 => 249,  // 'u'
        118 => 98,  // 'v'
        119 => 198,  // 'w'
        120 => 17,  // 'x'
        121 => 159,  // 'y'
        122 => 7,  // 'z'
        _ => 0,
    }
}

/// The English frequency table as a sequence indexed by byte value.
pub open spec fn english_weights() -> Seq<u16> {
    Seq::new(TABLE_SIZE as nat, |i: int| english_weight(i as u8))
}

/// The table of English character frequencies.
pub fn english_char_frequency() -> (r: FrequencyTable)
    ensures
        r.wf(),
        r@ == english_weights(),
{
    let mut w: Vec<u16> = vec![0u16; TABLE_SIZE];
    w.set(32, 1500);  // ' '
    w.set(33, 50);  // '!'
    w.set(44, 100);  // ','
    w.set(46, 100);  // '.'
    w.set(63, 50);  // '?'
    w.set(97, 816);  // 'a'
    w.set(98, 149);  // 'b'
    w.set(99, 242);  // 'c'
    w.set(100, 432);  // 'd'
    w.set(101, 1270);  // 'e'
    w.set(102, 209);  // 'f'
    w.set(103, 163);  // 'g'
    w.set(104, 602);  // 'h'
    w.set(105, 700);  // 'i'
    w.set(106, 10);  // 'j'
    w.set(107, 78);  // 'k'
    w.set(108, 400);  // 'l'
    w.set(109, 209);  // 'm'
    w.set(110, 624);  // 'n'
    w.set(111, 757);  // 'o'
    w.set(112, 152);  // 'p'
    w.set(113, 11);  // 'q'
    w.set(114, 599);  // 'r'
    w.set(115, 624);  // 's'
    w.set(116, 906);  // 't'
    w.set(117, 249);  // 'u'
    w.set(118, 98);  // 'v'
    w.set(119, 198);  // 'w'
    w.set(120, 17);  // 'x'
    w.set(121, 159);  // 'y'
    w.set(122, 7);  // 'z'
    assert(w@ =~= english_weights());
    FrequencyTable { weights: w }
}

} // verus!
