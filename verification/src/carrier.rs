//! The carrier signals of the navigation bands.
use crate::error::Error;
use vstd::prelude::*;

verus! {

/// A carrier signal.
#[derive(Clone, Copy, Debug, PartialEq, Eq, Structural, Hash)]
pub enum Carrier {
    /// L1 (GPS/QZSS/SBAS), same frequency as E1 and B1A/B1C
    L1,
    /// L2 (GPS/QZSS)
    L2,
    /// L5 (GPS/QZSS/SBAS), same frequency as E5A and B2A
    L5,
    /// L6 (GPS/QZSS), same frequency as E6
    L6,
    /// E1 (Galileo)
    E1,
    /// E5 (Galileo), same frequency as B2
    E5,
    /// E5A (Galileo), same frequency as L5
    E5A,
    /// E5B (Galileo), same frequency as B2I/B2B
    E5B,
    /// E6 (Galileo), same frequency as L6
    E6,
    /// B1A/B1C (BDS), same frequency as L1
    B1aB1c,
    /// B1I (BDS)
    B1I,
    /// B2I/B2B (BDS), same frequency as E5B
    B2iB2b,
    /// B2 (BDS), same frequency as E5
    B2,
    /// B2A (BDS), same frequency as L5 and E5A
    B2A,
    /// B3 (BDS)
    B3,
}

impl Default for Carrier {
    fn default() -> (r: Self)
        ensures
            r == Carrier::L1,
    {
        Carrier::L1
    }
}

/// The signal that a solution was resolved from.
#[derive(Clone, Copy, Debug, PartialEq, Eq)]
pub enum Signal {
    /// One carrier
    Single(Carrier),
    /// Two carriers, combined
    Dual((Carrier, Carrier)),
}

impl Default for Signal {
    fn default() -> (r: Self)
        ensures
            r == Signal::Single(Carrier::L1),
    {
        Signal::Single(Carrier::default())
    }
}

impl Signal {
    /// The name of the signal, as it is written: the name of the carrier,
    /// or the names of the two carriers around a slash, the second one first.
    pub open spec fn label(self) -> Seq<char> {
        match self {
            Signal::Single(carrier) => carrier.label(),
            Signal::Dual((lhs, rhs)) => rhs.label() + "/"@ + lhs.label(),
        }
    }

    /// The signal of one carrier.
    pub fn single(carrier: Carrier) -> (s: Self)
        ensures
            s == Signal::Single(carrier),
    {
        Signal::Single(carrier)
    }

    /// The signal of two carriers combined.
    pub fn dual(lhs: Carrier, rhs: Carrier) -> (s: Self)
        ensures
            s == Signal::Dual((lhs, rhs)),
    {
        Signal::Dual((lhs, rhs))
    }

    /// The name of the signal, as it is written.
    pub fn name(&self) -> (s: String)
        ensures
            s@ == self.label(),
    {
        match self {
            Signal::Single(carrier) => carrier.name(),
            Signal::Dual((lhs, rhs)) => {
                let tail = lhs.name();
                rhs.name().concat("/").concat(tail.as_str())
            },
        }
    }
}

/// Whether `c` has the Unicode property White_Space.
pub open spec fn white_space(c: char) -> bool {
    let u = c as u32;
    ||| 0x09 <= u <= 0x0D
    ||| u == 0x20
    ||| u == 0x85
    ||| u == 0xA0
    ||| u == 0x1680
    ||| 0x2000 <= u <= 0x200A
    ||| u == 0x2028
    ||| u == 0x2029
    ||| u == 0x202F
    ||| u == 0x205F
    ||| u == 0x3000
}

/// Calls `char::is_whitespace`. Unproved: it answers by the Unicode property
/// White_Space, whose code points `white_space` lists.
#[verifier::external_body]
fn is_whitespace(c: char) -> (r: bool)
    ensures
        r == white_space(c),
{
    c.is_whitespace()
}

/// `s` without the white space it starts with.
pub open spec fn skip_leading(s: Seq<char>) -> Seq<char>
    decreases s.len(),
{
    if s.len() > 0 && white_space(s[0]) {
        skip_leading(s.drop_first())
    } else {
        s
    }
}

/// `s` without the white space it ends with.
pub open spec fn skip_trailing(s: Seq<char>) -> Seq<char>
    decreases s.len(),
{
    if s.len() > 0 && white_space(s.last()) {
        skip_trailing(s.drop_last())
    } else {
        s
    }
}

/// `s` without the white space around it.
pub open spec fn trimmed(s: Seq<char>) -> Seq<char> {
    skip_trailing(skip_leading(s))
}

/// `word` occurs somewhere in `s`.
pub open spec fn contains(s: Seq<char>, word: Seq<char>) -> bool {
    exists|i: int| 0 <= i && i + word.len() <= s.len() && #[trigger] s.subrange(i, i + word.len()) == word
}

/// The carrier that a trimmed word names, if any: first the exact names,
/// then the BeiDou names that may come in pairs.
pub open spec fn carrier_of(t: Seq<char>) -> Option<Carrier> {
    if t == seq!['L', '1'] {
        Some(Carrier::L1)
    } else if t == seq!['L', '2'] {
        Some(Carrier::L2)
    } else if t == seq!['L', '5'] {
        Some(Carrier::L5)
    } else if t == seq!['L', '6'] {
        Some(Carrier::L6)
    } else if t == seq!['E', '1'] {
        Some(Carrier::E1)
    } else if t == seq!['E', '5'] {
        Some(Carrier::E5)
    } else if t == seq!['E', '6'] {
        Some(Carrier::E6)
    } else if t == seq!['E', '5', 'A'] {
        Some(Carrier::E5A)
    } else if t == seq!['E', '5', 'B'] {
        Some(Carrier::E5B)
    } else if t == seq!['B', '1', 'I'] {
        Some(Carrier::B1I)
    } else if t == seq!['B', '2'] {
        Some(Carrier::B2)
    } else if t == seq!['B', '3'] {
        Some(Carrier::B3)
    } else if t == seq!['B', '2', 'A'] {
        Some(Carrier::B2A)
    } else if contains(t, seq!['B', '1', 'A']) || contains(t, seq!['B', '1', 'C']) {
        Some(Carrier::B1aB1c)
    } else if contains(t, seq!['B', '2', 'I']) || contains(t, seq!['B', '2', 'B']) {
        Some(Carrier::B2iB2b)
    } else {
        None
    }
}

/// The characters of `s`, in order.
fn chars_of(s: &str) -> (v: Vec<char>)
    ensures
        v@ == s@,
{
    let n: usize = s.unicode_len();
    let mut v: Vec<char> = Vec::new();
    let mut i: usize = 0;
    while i < n
        invariant
            n == s@.len(),
            i <= n,
            v@ == s@.subrange(0, i as int),
        decreases n - i,
    {
        v.push(s.get_char(i));
        i += 1;
        assert(v@ =~= s@.subrange(0, i as int));
    }
    assert(s@.subrange(0, n as int) =~= s@);
    v
}

/// Whether the characters of `v` from `lo` up to `hi` are exactly `a`, `b`.
fn is_pair(v: &Vec<char>, lo: usize, hi: usize, a: char, b: char) -> (r: bool)
    requires
        lo <= hi <= v.len(),
    ensures
        r == (v@.subrange(lo as int, hi as int) == seq![a, b]),
{
    if hi - lo == 2 && v[lo] == a && v[lo + 1] == b {
        assert(v@.subrange(lo as int, hi as int) =~= seq![a, b]);
        true
    } else {
        assert(v@.subrange(lo as int, hi as int) != seq![a, b]) by {
            if v@.subrange(lo as int, hi as int) == seq![a, b] {
                assert(seq![a, b].len() == 2);
                assert(v@.subrange(lo as int, hi as int)[0] == a);
                assert(v@.subrange(lo as int, hi as int)[1] == b);
            }
        }
        false
    }
}

/// Whether the three characters of `v` from `at` on are `a`, `b`, `c`.
fn is_triple_at(v: &Vec<char>, at: usize, a: char, b: char, c: char) -> (r: bool)
    requires
        at + 3 <= v.len(),
    ensures
        r == (v@.subrange(at as int, at + 3) == seq![a, b, c]),
{
    if v[at] == a && v[at + 1] == b && v[at + 2] == c {
        assert(v@.subrange(at as int, at + 3) =~= seq![a, b, c]);
        true
    } else {
        assert(v@.subrange(at as int, at + 3) != seq![a, b, c]) by {
            if v@.subrange(at as int, at + 3) == seq![a, b, c] {
                assert(v@.subrange(at as int, at + 3)[0] == a);
                assert(v@.subrange(at as int, at + 3)[1] == b);
                assert(v@.subrange(at as int, at + 3)[2] == c);
            }
        }
        false
    }
}

/// Whether the characters of `v` from `lo` up to `hi` are exactly `a`, `b`, `c`.
fn is_triple(v: &Vec<char>, lo: usize, hi: usize, a: char, b: char, c: char) -> (r: bool)
    requires
        lo <= hi <= v.len(),
    ensures
        r == (v@.subrange(lo as int, hi as int) == seq![a, b, c]),
{
    if hi - lo == 3 {
        is_triple_at(v, lo, a, b, c)
    } else {
        assert(seq![a, b, c].len() == 3);
        false
    }
}

/// Whether `a`, `b`, `c` occur in a row among the characters of `v` from `lo` up to `hi`.
fn has_triple(v: &Vec<char>, lo: usize, hi: usize, a: char, b: char, c: char) -> (r: bool)
    requires
        lo <= hi <= v.len(),
    ensures
        r == contains(v@.subrange(lo as int, hi as int), seq![a, b, c]),
{
    let ghost t = v@.subrange(lo as int, hi as int);
    let ghost word = seq![a, b, c];
    assert(word.len() == 3);
    if hi - lo < 3 {
        return false;
    }
    let mut i: usize = lo;
    while i <= hi - 3
        invariant
            lo <= i,
            i <= hi,
            hi <= v.len(),
            hi - lo >= 3,
            t == v@.subrange(lo as int, hi as int),
            word == seq![a, b, c],
            word.len() == 3,
            forall|k: int| 0 <= k < i - lo ==> #[trigger] t.subrange(k, k + 3) != word,
        decreases hi - i,
    {
        let found = is_triple_at(v, i, a, b, c);
        assert(t.subrange(i - lo, i - lo + 3) =~= v@.subrange(i as int, i + 3));
        if found {
            assert(t.subrange(i - lo, i - lo + word.len()) == word);
            return true;
        }
        i += 1;
    }
    assert(!contains(t, word)) by {
        if contains(t, word) {
            let k = choose|k: int| 0 <= k && k + word.len() <= t.len() && #[trigger] t.subrange(k, k + word.len()) == word;
            assert(t.subrange(k, k + 3) != word);
        }
    }
    false
}

impl Carrier {
    /// The name of the carrier, as it is written.
    pub open spec fn label(self) -> Seq<char> {
        match self {
            Carrier::L1 => "L1"@,
            Carrier::L2 => "L2"@,
            Carrier::L5 => "L5"@,
            Carrier::L6 => "L6"@,
            Carrier::E1 => "E1"@,
            Carrier::E5 => "E5"@,
            Carrier::E5A => "E5A"@,
            Carrier::E5B => "E5B"@,
            Carrier::E6 => "E6"@,
            Carrier::B1I => "B1I"@,
            Carrier::B1aB1c => "B1A/B1C"@,
            Carrier::B2iB2b => "B2I/B2B"@,
            Carrier::B2 => "B2"@,
            Carrier::B3 => "B3"@,
            Carrier::B2A => "B2A"@,
        }
    }

    /// Place of the carrier in the order of declaration.
    pub open spec fn ordinal(self) -> nat {
        match self {
            Carrier::L1 => 0,
            Carrier::L2 => 1,
            Carrier::L5 => 2,
            Carrier::L6 => 3,
            Carrier::E1 => 4,
            Carrier::E5 => 5,
            Carrier::E5A => 6,
            Carrier::E5B => 7,
            Carrier::E6 => 8,
            Carrier::B1aB1c => 9,
            Carrier::B1I => 10,
            Carrier::B2iB2b => 11,
            Carrier::B2 => 12,
            Carrier::B2A => 13,
            Carrier::B3 => 14,
        }
    }

    /// The carrier is one of those that the ambiguities of the first
    /// frequency are counted on.
    pub open spec fn l1_pivot(self) -> bool {
        self == Carrier::L1 || self == Carrier::E1 || self == Carrier::B1aB1c || self
            == Carrier::B1I
    }

    /// The nominal frequency of the carrier, in hertz.
    pub open spec fn hertz(self) -> nat {
        match self {
            Carrier::L1 | Carrier::E1 | Carrier::B1aB1c => 1_575_420_000,
            Carrier::L2 => 1_227_600_000,
            Carrier::L5 | Carrier::E5A | Carrier::B2A => 1_176_450_000,
            Carrier::E5 | Carrier::B2 => 1_191_795_000,
            Carrier::L6 | Carrier::E6 => 1_278_750_000,
            Carrier::B3 => 1_268_520_000,
            Carrier::E5B | Carrier::B2iB2b => 1_207_140_000,
            Carrier::B1I => 1_561_098_000,
        }
    }

    /// Place of the carrier in the order of declaration.
    pub fn index(&self) -> (i: u8)
        ensures
            i == self.ordinal(),
    {
        match self {
            Carrier::L1 => 0,
            Carrier::L2 => 1,
            Carrier::L5 => 2,
            Carrier::L6 => 3,
            Carrier::E1 => 4,
            Carrier::E5 => 5,
            Carrier::E5A => 6,
            Carrier::E5B => 7,
            Carrier::E6 => 8,
            Carrier::B1aB1c => 9,
            Carrier::B1I => 10,
            Carrier::B2iB2b => 11,
            Carrier::B2 => 12,
            Carrier::B2A => 13,
            Carrier::B3 => 14,
        }
    }

    /// Whether the ambiguities of the first frequency are counted on this carrier.
    pub fn is_l1_pivot(&self) -> (r: bool)
        ensures
            r == self.l1_pivot(),
    {
        match self {
            Carrier::L1 | Carrier::E1 | Carrier::B1aB1c | Carrier::B1I => true,
            _ => false,
        }
    }

    /// The nominal frequency of the carrier, in hertz.
    pub fn frequency(&self) -> (f: u64)
        ensures
            f == self.hertz(),
    {
        match self {
            Carrier::L1 | Carrier::E1 | Carrier::B1aB1c => 1_575_420_000,
            Carrier::L2 => 1_227_600_000,
            Carrier::L5 | Carrier::E5A | Carrier::B2A => 1_176_450_000,
            Carrier::E5 | Carrier::B2 => 1_191_795_000,
            Carrier::L6 | Carrier::E6 => 1_278_750_000,
            Carrier::B3 => 1_268_520_000,
            Carrier::E5B | Carrier::B2iB2b => 1_207_140_000,
            Carrier::B1I => 1_561_098_000,
        }
    }

    /// The name of the carrier, as it is written.
    pub fn name(&self) -> (s: String)
        ensures
            s@ == self.label(),
    {
        match self {
            Carrier::L1 => String::from_str("L1"),
            Carrier::L2 => String::from_str("L2"),
            Carrier::L5 => String::from_str("L5"),
            Carrier::L6 => String::from_str("L6"),
            Carrier::E1 => String::from_str("E1"),
            Carrier::E5 => String::from_str("E5"),
            Carrier::E5A => String::from_str("E5A"),
            Carrier::E5B => String::from_str("E5B"),
            Carrier::E6 => String::from_str("E6"),
            Carrier::B1I => String::from_str("B1I"),
            Carrier::B1aB1c => String::from_str("B1A/B1C"),
            Carrier::B2iB2b => String::from_str("B2I/B2B"),
            Carrier::B2 => String::from_str("B2"),
            Carrier::B3 => String::from_str("B3"),
            Carrier::B2A => String::from_str("B2A"),
        }
    }

    /// Reads the name of a carrier. White space around the name is passed
    /// over. The BeiDou signals that come in pairs are recognised by either
    /// name of the pair, anywhere in the word.
    pub fn from_str(s: &str) -> (r: Result<Carrier, Error>)
        ensures
            r == match carrier_of(trimmed(s@)) {
                Some(carrier) => Ok::<Carrier, Error>(carrier),
                None => Err::<Carrier, Error>(Error::InvalidFrequency),
            },
    {
        let v = chars_of(s);
        let n: usize = v.len();
        let mut lo: usize = 0;
        assert(v@.subrange(0, n as int) =~= v@);
        while lo < n && is_whitespace(v[lo])
            invariant
                n == v.len(),
                lo <= n,
                skip_leading(v@) == skip_leading(v@.subrange(lo as int, n as int)),
            decreases n - lo,
        {
            assert(v@.subrange(lo as int, n as int).drop_first() =~= v@.subrange(lo + 1, n as int));
            lo += 1;
        }
        assert(skip_leading(v@) == v@.subrange(lo as int, n as int));
        let mut hi: usize = n;
        while hi > lo && is_whitespace(v[hi - 1])
            invariant
                n == v.len(),
                lo <= hi <= n,
                trimmed(v@) == skip_trailing(v@.subrange(lo as int, hi as int)),
            decreases hi,
        {
            assert(v@.subrange(lo as int, hi as int).drop_last() =~= v@.subrange(lo as int, hi - 1));
            hi -= 1;
        }
        assert(trimmed(v@) == v@.subrange(lo as int, hi as int));
        if is_pair(&v, lo, hi, 'L', '1') {
            Ok(Carrier::L1)
        } else if is_pair(&v, lo, hi, 'L', '2') {
            Ok(Carrier::L2)
        } else if is_pair(&v, lo, hi, 'L', '5') {
            Ok(Carrier::L5)
        } else if is_pair(&v, lo, hi, 'L', '6') {
            Ok(Carrier::L6)
        } else if is_pair(&v, lo, hi, 'E', '1') {
            Ok(Carrier::E1)
        } else if is_pair(&v, lo, hi, 'E', '5') {
            Ok(Carrier::E5)
        } else if is_pair(&v, lo, hi, 'E', '6') {
            Ok(Carrier::E6)
        } else if is_triple(&v, lo, hi, 'E', '5', 'A') {
            Ok(Carrier::E5A)
        } else if is_triple(&v, lo, hi, 'E', '5', 'B') {
            Ok(Carrier::E5B)
        } else if is_triple(&v, lo, hi, 'B', '1', 'I') {
            Ok(Carrier::B1I)
        } else if is_pair(&v, lo, hi, 'B', '2') {
            Ok(Carrier::B2)
        } else if is_pair(&v, lo, hi, 'B', '3') {
            Ok(Carrier::B3)
        } else if is_triple(&v, lo, hi, 'B', '2', 'A') {
            Ok(Carrier::B2A)
        } else if has_triple(&v, lo, hi, 'B', '1', 'A') || has_triple(&v, lo, hi, 'B', '1', 'C') {
            Ok(Carrier::B1aB1c)
        } else if has_triple(&v, lo, hi, 'B', '2', 'I') || has_triple(&v, lo, hi, 'B', '2', 'B') {
            Ok(Carrier::B2iB2b)
        } else {
            Err(Error::InvalidFrequency)
        }
    }
}

/// No name of a carrier starts or ends with white space.
proof fn lemma_label_is_trimmed(carrier: Carrier)
    ensures
        trimmed(carrier.label()) == carrier.label(),
        carrier.label().len() >= 2,
{
    reveal_strlit("L1");
    reveal_strlit("L2");
    reveal_strlit("L5");
    reveal_strlit("L6");
    reveal_strlit("E1");
    reveal_strlit("E5");
    reveal_strlit("E5A");
    reveal_strlit("E5B");
    reveal_strlit("E6");
    reveal_strlit("B1I");
    reveal_strlit("B1A/B1C");
    reveal_strlit("B2I/B2B");
    reveal_strlit("B2");
    reveal_strlit("B3");
    reveal_strlit("B2A");
    let s = carrier.label();
    assert(!white_space(s[0]));
    assert(!white_space(s.last()));
}

/// A word is a given pair of characters where it has two characters, and those.
proof fn lemma_pair(t: Seq<char>, a: char, b: char)
    ensures
        (t == seq![a, b]) <==> (t.len() == 2 && t[0] == a && t[1] == b),
{
    if t.len() == 2 && t[0] == a && t[1] == b {
        assert(t =~= seq![a, b]);
    }
    if t == seq![a, b] {
        assert(seq![a, b].len() == 2);
        assert(seq![a, b][0] == a);
        assert(seq![a, b][1] == b);
    }
}

/// A word is a given triple of characters where it has three characters, and those.
proof fn lemma_triple(t: Seq<char>, a: char, b: char, c: char)
    ensures
        (t == seq![a, b, c]) <==> (t.len() == 3 && t[0] == a && t[1] == b && t[2] == c),
{
    if t.len() == 3 && t[0] == a && t[1] == b && t[2] == c {
        assert(t =~= seq![a, b, c]);
    }
    if t == seq![a, b, c] {
        assert(seq![a, b, c].len() == 3);
        assert(seq![a, b, c][0] == a);
        assert(seq![a, b, c][1] == b);
        assert(seq![a, b, c][2] == c);
    }
}

/// A carrier is read back from its name.
pub proof fn lemma_name_is_read_back(carrier: Carrier)
    ensures
        carrier_of(trimmed(carrier.label())) == Some(carrier),
{
    lemma_label_is_trimmed(carrier);
    let word = carrier.label();
    lemma_pair(word, 'L', '1');
    lemma_pair(word, 'L', '2');
    lemma_pair(word, 'L', '5');
    lemma_pair(word, 'L', '6');
    lemma_pair(word, 'E', '1');
    lemma_pair(word, 'E', '5');
    lemma_pair(word, 'E', '6');
    lemma_triple(word, 'E', '5', 'A');
    lemma_triple(word, 'E', '5', 'B');
    lemma_triple(word, 'B', '1', 'I');
    lemma_pair(word, 'B', '2');
    lemma_pair(word, 'B', '3');
    lemma_triple(word, 'B', '2', 'A');
    reveal_strlit("L1");
    reveal_strlit("L2");
    reveal_strlit("L5");
    reveal_strlit("L6");
    reveal_strlit("E1");
    reveal_strlit("E5");
    reveal_strlit("E5A");
    reveal_strlit("E5B");
    reveal_strlit("E6");
    reveal_strlit("B1I");
    reveal_strlit("B1A/B1C");
    reveal_strlit("B2I/B2B");
    reveal_strlit("B2");
    reveal_strlit("B3");
    reveal_strlit("B2A");
    let t = carrier.label();
    match carrier {
        Carrier::L1 => {
            assert(t =~= seq!['L', '1']);
        },
        Carrier::L2 => {
            assert(t =~= seq!['L', '2']);
        },
        Carrier::L5 => {
            assert(t =~= seq!['L', '5']);
        },
        Carrier::L6 => {
            assert(t =~= seq!['L', '6']);
        },
        Carrier::E1 => {
            assert(t =~= seq!['E', '1']);
        },
        Carrier::E5 => {
            assert(t =~= seq!['E', '5']);
        },
        Carrier::E6 => {
            assert(t =~= seq!['E', '6']);
        },
        Carrier::E5A => {
            assert(t =~= seq!['E', '5', 'A']);
        },
        Carrier::E5B => {
            assert(t =~= seq!['E', '5', 'B']);
        },
        Carrier::B1I => {
            assert(t =~= seq!['B', '1', 'I']);
        },
        Carrier::B2 => {
            assert(t =~= seq!['B', '2']);
        },
        Carrier::B3 => {
            assert(t =~= seq!['B', '3']);
        },
        Carrier::B2A => {
            assert(t =~= seq!['B', '2', 'A']);
        },
        Carrier::B1aB1c => {
            assert(t.len() == 7);
            let w = seq!['B', '1', 'A'];
            assert(w.len() == 3);
            assert(t.subrange(0int, 0int + w.len()) =~= w);
        },
        Carrier::B2iB2b => {
            assert(t.len() == 7);
            let w = seq!['B', '2', 'I'];
            assert(w.len() == 3);
            assert(t.subrange(0int, 0int + w.len()) =~= w);
            assert(!contains(t, seq!['B', '1', 'A'])) by {
                if contains(t, seq!['B', '1', 'A']) {
                    let w = seq!['B', '1', 'A'];
                    let i = choose|i: int| 0 <= i && i + w.len() <= t.len() && #[trigger] t.subrange(i, i + w.len()) == w;
                    assert(t.subrange(i, i + w.len())[1] == '1');
                    assert(t[i + 1] == '1');
                }
            }
            assert(!contains(t, seq!['B', '1', 'C'])) by {
                if contains(t, seq!['B', '1', 'C']) {
                    let w = seq!['B', '1', 'C'];
                    let i = choose|i: int| 0 <= i && i + w.len() <= t.len() && #[trigger] t.subrange(i, i + w.len()) == w;
                    assert(t.subrange(i, i + w.len())[1] == '1');
                    assert(t[i + 1] == '1');
                }
            }
        },
    }
}

} // verus!
