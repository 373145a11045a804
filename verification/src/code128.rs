//! The Code 128 symbol: the pattern of each codeword, the check codeword, a
//! reader that takes a row of modules apart again, and the call that turns
//! text into modules.

use crate::error::EncodingError;
use barcoders::error::Error;
use barcoders::sym::code128::Code128;
use vstd::arithmetic::div_mod::{lemma_add_mod_noop, lemma_add_mod_noop_right, lemma_mul_mod_noop_right};
use vstd::prelude::*;

verus! {

/// Number of codewords in the table: 103 data values and three start codes.
pub const PATTERN_COUNT: u8 = 106;

/// Modules per codeword.
pub const CODEWORD_MODULES: usize = 11;

/// Modules of the stop pattern with its closing bar.
pub const STOP_MODULES: usize = 13;

/// The stop pattern followed by the two-module closing bar, first module in
/// the highest bit.
pub const STOP_PATTERN: u16 = 0x18EB;

/// The check codeword is a sum modulo this number.
pub const CHECK_MODULUS: u32 = 103;

/// The lowest of the three start codes; every codeword below it stands for
/// data, a function or a switch of code set.
pub const FIRST_START: u8 = 103;

/// The widest symbol a text of [`MAX_TEXT_CHARS`] characters can make: one
/// codeword for each character, the check codeword and the stop pattern.
pub const MAX_SYMBOL_MODULES: usize = 70380;

/// The longest text, in characters, that is handed to the symbology encoder:
/// it adds up codeword times position in signed 32-bit arithmetic, and with
/// at most this many codewords of at most 105 the sum stays below 2^31.
pub const MAX_TEXT_CHARS: usize = 6396;

/// The eleven modules of codeword `value`, first module in the highest bit;
/// a set bit is a bar. Zero for a value outside the table.
pub open spec fn pattern(value: int) -> int {
    if value == 0 {
        0x6CC
    } else if value == 1 {
        0x66C
    } else if value == 2 {
        0x666
    } else if value == 3 {
        0x498
    } else if value == 4 {
        0x48C
    } else if value == 5 {
        0x44C
    } else if value == 6 {
        0x4C8
    } else if value == 7 {
        0x4C4
    } else if value == 8 {
        0x464
    } else if value == 9 {
        0x648
    } else if value == 10 {
        0x644
    } else if value == 11 {
        0x624
    } else if value == 12 {
        0x59C
    } else if value == 13 {
        0x4DC
    } else if value == 14 {
        0x4CE
    } else if value == 15 {
        0x5CC
    } else if value == 16 {
        0x4EC
    } else if value == 17 {
        0x4E6
    } else if value == 18 {
        0x672
    } else if value == 19 {
        0x65C
    } else if value == 20 {
        0x64E
    } else if value == 21 {
        0x6E4
    } else if value == 22 {
        0x674
    } else if value == 23 {
        0x76E
    } else if value == 24 {
        0x74C
    } else if value == 25 {
        0x72C
    } else if value == 26 {
        0x726
    } else if value == 27 {
        0x764
    } else if value == 28 {
        0x734
    } else if value == 29 {
        0x732
    } else if value == 30 {
        0x6D8
    } else if value == 31 {
        0x6C6
    } else if value == 32 {
        0x636
    } else if value == 33 {
        0x518
    } else if value == 34 {
        0x458
    } else if value == 35 {
        0x446
    } else if value == 36 {
        0x588
    } else if value == 37 {
        0x468
    } else if value == 38 {
        0x462
    } else if value == 39 {
        0x688
    } else if value == 40 {
        0x628
    } else if value == 41 {
        0x622
    } else if value == 42 {
        0x5B8
    } else if value == 43 {
        0x58E
    } else if value == 44 {
        0x46E
    } else if value == 45 {
        0x5D8
    } else if value == 46 {
        0x5C6
    } else if value == 47 {
        0x476
    } else if value == 48 {
        0x776
    } else if value == 49 {
        0x68E
    } else if value == 50 {
        0x62E
    } else if value == 51 {
        0x6E8
    } else if value == 52 {
        0x6E2
    } else if value == 53 {
        0x6EE
    } else if value == 54 {
        0x758
    } else if value == 55 {
        0x746
    } else if value == 56 {
        0x716
    } else if value == 57 {
        0x768
    } else if value == 58 {
        0x762
    } else if value == 59 {
        0x71A
    } else if value == 60 {
        0x77A
    } else if value == 61 {
        0x642
    } else if value == 62 {
        0x78A
    } else if value == 63 {
        0x530
    } else if value == 64 {
        0x50C
    } else if value == 65 {
        0x4B0
    } else if value == 66 {
        0x486
    } else if value == 67 {
        0x42C
    } else if value == 68 {
        0x426
    } else if value == 69 {
        0x590
    } else if value == 70 {
        0x584
    } else if value == 71 {
        0x4D0
    } else if value == 72 {
        0x4C2
    } else if value == 73 {
        0x434
    } else if value == 74 {
        0x432
    } else if value == 75 {
        0x612
    } else if value == 76 {
        0x650
    } else if value == 77 {
        0x7BA
    } else if value == 78 {
        0x614
    } else if value == 79 {
        0x47A
    } else if value == 80 {
        0x53C
    } else if value == 81 {
        0x4BC
    } else if value == 82 {
        0x49E
    } else if value == 83 {
        0x5E4
    } else if value == 84 {
        0x4F4
    } else if value == 85 {
        0x4F2
    } else if value == 86 {
        0x7A4
    } else if value == 87 {
        0x794
    } else if value == 88 {
        0x792
    } else if value == 89 {
        0x6DE
    } else if value == 90 {
        0x6F6
    } else if value == 91 {
        0x7B6
    } else if value == 92 {
        0x578
    } else if value == 93 {
        0x51E
    } else if value == 94 {
        0x45E
    } else if value == 95 {
        0x5E8
    } else if value == 96 {
        0x5E2
    } else if value == 97 {
        0x7A8
    } else if value == 98 {
        0x7A2
    } else if value == 99 {
        0x5DE
    } else if value == 100 {
        0x5EE
    } else if value == 101 {
        0x75E
    } else if value == 102 {
        0x7AE
    } else if value == 103 {
        0x684
    } else if value == 104 {
        0x690
    } else if value == 105 {
        0x69C
    } else {
        0
    }
}

/// The pattern of a codeword.
pub fn pattern_of(value: u8) -> (bits: u16)
    ensures
        bits == pattern(value as int),
{
    match value {
        0 => 0x6CC,
        1 => 0x66C,
        2 => 0x666,
        3 => 0x498,
        4 => 0x48C,
        5 => 0x44C,
        6 => 0x4C8,
        7 => 0x4C4,
        8 => 0x464,
        9 => 0x648,
        10 => 0x644,
        11 => 0x624,
        12 => 0x59C,
        13 => 0x4DC,
        14 => 0x4CE,
        15 => 0x5CC,
        16 => 0x4EC,
        17 => 0x4E6,
        18 => 0x672,
        19 => 0x65C,
        20 => 0x64E,
        21 => 0x6E4,
        22 => 0x674,
        23 => 0x76E,
        24 => 0x74C,
        25 => 0x72C,
        26 => 0x726,
        27 => 0x764,
        28 => 0x734,
        29 => 0x732,
        30 => 0x6D8,
        31 => 0x6C6,
        32 => 0x636,
        33 => 0x518,
        34 => 0x458,
        35 => 0x446,
        36 => 0x588,
        37 => 0x468,
        38 => 0x462,
        39 => 0x688,
        40 => 0x628,
        41 => 0x622,
        42 => 0x5B8,
        43 => 0x58E,
        44 => 0x46E,
        45 => 0x5D8,
        46 => 0x5C6,
        47 => 0x476,
        48 => 0x776,
        49 => 0x68E,
        50 => 0x62E,
        51 => 0x6E8,
        52 => 0x6E2,
        53 => 0x6EE,
        54 => 0x758,
        55 => 0x746,
        56 => 0x716,
        57 => 0x768,
        58 => 0x762,
        59 => 0x71A,
        60 => 0x77A,
        61 => 0x642,
        62 => 0x78A,
        63 => 0x530,
        64 => 0x50C,
        65 => 0x4B0,
        66 => 0x486,
        67 => 0x42C,
        68 => 0x426,
        69 => 0x590,
        70 => 0x584,
        71 => 0x4D0,
        72 => 0x4C2,
        73 => 0x434,
        74 => 0x432,
        75 => 0x612,
        76 => 0x650,
        77 => 0x7BA,
        78 => 0x614,
        79 => 0x47A,
        80 => 0x53C,
        81 => 0x4BC,
        82 => 0x49E,
        83 => 0x5E4,
        84 => 0x4F4,
        85 => 0x4F2,
        86 => 0x7A4,
        87 => 0x794,
        88 => 0x792,
        89 => 0x6DE,
        90 => 0x6F6,
        91 => 0x7B6,
        92 => 0x578,
        93 => 0x51E,
        94 => 0x45E,
        95 => 0x5E8,
        96 => 0x5E2,
        97 => 0x7A8,
        98 => 0x7A2,
        99 => 0x5DE,
        100 => 0x5EE,
        101 => 0x75E,
        102 => 0x7AE,
        103 => 0x684,
        104 => 0x690,
        105 => 0x69C,
        _ => 0,
    }
}

/// No two codewords share a pattern.
pub proof fn lemma_pattern_injective(a: int, b: int)
    requires
        0 <= a < PATTERN_COUNT,
        0 <= b < PATTERN_COUNT,
        pattern(a) == pattern(b),
    ensures
        a == b,
{
}

/// The number that `count` modules starting at `from` spell, first module in
/// the highest place.
pub open spec fn run_value(modules: Seq<u8>, from: int, count: int) -> int
    decreases count,
{
    if count <= 0 {
        0
    } else {
        2 * run_value(modules, from, count - 1) + modules[from + count - 1]
    }
}

/// Two to the power `k`.
pub open spec fn two_to(k: int) -> int
    decreases k,
{
    if k <= 0 {
        1
    } else {
        2 * two_to(k - 1)
    }
}

/// `modules` is the row of bars and spaces that spells `codewords` and the
/// stop pattern, and nothing else.
pub open spec fn encodes(modules: Seq<u8>, codewords: Seq<u8>) -> bool {
    &&& modules.len() == CODEWORD_MODULES * codewords.len() + STOP_MODULES
    &&& forall|i: int| 0 <= i < modules.len() ==> #[trigger] modules[i] <= 1
    &&& forall|j: int|
        0 <= j < codewords.len() ==> #[trigger] codewords[j] < PATTERN_COUNT && run_value(
            modules,
            CODEWORD_MODULES * j,
            CODEWORD_MODULES as int,
        ) == pattern(codewords[j] as int)
    &&& run_value(modules, CODEWORD_MODULES * codewords.len(), STOP_MODULES as int)
        == STOP_PATTERN
}

/// The weight of the codeword at `position`: one for the start code and for
/// the first codeword after it, then the position.
pub open spec fn weight(position: int) -> int {
    if position < 1 {
        1
    } else {
        position
    }
}

/// The sum of the codewords, each times its weight.
pub open spec fn weighted_sum(codewords: Seq<u8>) -> int
    decreases codewords.len(),
{
    if codewords.len() == 0 {
        0
    } else {
        weighted_sum(codewords.drop_last()) + codewords.last() * weight(codewords.len() - 1)
    }
}

/// The check codeword that belongs behind `codewords`.
pub open spec fn check_value(codewords: Seq<u8>) -> int {
    weighted_sum(codewords) % (CHECK_MODULUS as int)
}

/// The last codeword is the check codeword of those before it.
pub open spec fn checked(codewords: Seq<u8>) -> bool {
    codewords.len() >= 2 && codewords.last() == check_value(codewords.drop_last())
}

/// A start code stands first, and nowhere else.
pub open spec fn framed(codewords: Seq<u8>) -> bool {
    &&& codewords.len() >= 1
    &&& FIRST_START <= codewords[0] < PATTERN_COUNT
    &&& forall|j: int| 1 <= j < codewords.len() ==> #[trigger] codewords[j] < FIRST_START
}

/// `modules` is a complete symbol: it begins with a start code, holds no
/// other, and its check codeword is right.
pub open spec fn valid_symbol(modules: Seq<u8>) -> bool {
    exists|codewords: Seq<u8>|
        #[trigger] encodes(modules, codewords) && framed(codewords) && checked(codewords)
}

/// A row of modules spells at most one sequence of codewords.
pub proof fn lemma_encodes_unique(modules: Seq<u8>, a: Seq<u8>, b: Seq<u8>)
    requires
        encodes(modules, a),
        encodes(modules, b),
    ensures
        a == b,
{
    assert(a.len() == b.len());
    assert forall|j: int| 0 <= j < a.len() implies a[j] == b[j] by {
        lemma_pattern_injective(a[j] as int, b[j] as int);
    }
    assert(a =~= b);
}

/// Reads `count` modules from `from` on as one number, or `None` where one of
/// them is neither 0 nor 1.
fn read_run(modules: &Vec<u8>, from: usize, count: usize) -> (r: Option<u16>)
    requires
        from + count <= modules.len(),
        count <= STOP_MODULES,
    ensures
        r is Some <==> (forall|i: int| from <= i < from + count ==> #[trigger] modules[i] <= 1),
        r matches Some(v) ==> v == run_value(modules@, from as int, count as int),
{
    let mut acc: u16 = 0;
    let mut k: usize = 0;
    while k < count
        invariant
            k <= count,
            count <= STOP_MODULES,
            from + count <= modules.len(),
            forall|i: int| from <= i < from + k ==> #[trigger] modules[i] <= 1,
            acc == run_value(modules@, from as int, k as int),
            acc < two_to(k as int),
        decreases count - k,
    {
        let m = modules[from + k];
        if m > 1 {
            return None;
        }
        proof {
            reveal_with_fuel(two_to, 16);
        }
        acc = 2 * acc + m as u16;
        k = k + 1;
    }
    Some(acc)
}

/// The codeword with the given pattern, or `None` where the table has none.
pub fn find_codeword(bits: u16) -> (r: Option<u8>)
    ensures
        r matches Some(v) ==> v < PATTERN_COUNT && pattern(v as int) == bits,
        r is None ==> forall|v: int| 0 <= v < PATTERN_COUNT ==> #[trigger] pattern(v) != bits,
{
    let mut v: u8 = 0;
    while v < PATTERN_COUNT
        invariant
            v <= PATTERN_COUNT,
            forall|u: int| 0 <= u < v ==> #[trigger] pattern(u) != bits,
        decreases PATTERN_COUNT - v,
    {
        if pattern_of(v) == bits {
            return Some(v);
        }
        v = v + 1;
    }
    None
}

/// Takes a row of modules apart: the codewords it spells, or `None` where it
/// is no row of whole codewords closed by the stop pattern.
pub fn decode_symbol(modules: &Vec<u8>) -> (r: Option<Vec<u8>>)
    ensures
        r matches Some(codewords) ==> encodes(modules@, codewords@),
        r is None ==> forall|codewords: Seq<u8>| !encodes(modules@, codewords),
{
    let n = modules.len();
    if n < STOP_MODULES {
        return None;
    }
    let body = n - STOP_MODULES;
    if body % CODEWORD_MODULES != 0 {
        return None;
    }
    let count = body / CODEWORD_MODULES;
    let mut out: Vec<u8> = Vec::with_capacity(count);
    let mut j: usize = 0;
    while j < count
        invariant
            j <= count,
            n == modules.len(),
            n == CODEWORD_MODULES * count + STOP_MODULES,
            out@.len() == j,
            forall|i: int| 0 <= i < CODEWORD_MODULES * j ==> #[trigger] modules[i] <= 1,
            forall|k: int|
                0 <= k < j ==> #[trigger] out@[k] < PATTERN_COUNT && run_value(
                    modules@,
                    CODEWORD_MODULES * k,
                    CODEWORD_MODULES as int,
                ) == pattern(out@[k] as int),
        decreases count - j,
    {
        let bits = match read_run(modules, CODEWORD_MODULES * j, CODEWORD_MODULES) {
            Some(bits) => bits,
            None => {
                return None;
            },
        };
        let value = match find_codeword(bits) {
            Some(value) => value,
            None => {
                proof {
                    assert forall|codewords: Seq<u8>| !encodes(modules@, codewords) by {
                        if encodes(modules@, codewords) {
                            assert(codewords[j as int] < PATTERN_COUNT);
                        }
                    }
                }
                return None;
            },
        };
        out.push(value);
        j = j + 1;
    }
    match read_run(modules, CODEWORD_MODULES * count, STOP_MODULES) {
        Some(bits) => {
            if bits != STOP_PATTERN {
                return None;
            }
        },
        None => {
            return None;
        },
    }
    Some(out)
}

/// The check codeword that belongs behind the given codewords.
pub fn check_value_of(codewords: &Vec<u8>) -> (r: u8)
    ensures
        r == check_value(codewords@),
{
    let count = codewords.len();
    let mut acc: u32 = 0;
    let mut i: usize = 0;
    while i < count
        invariant
            i <= count,
            count == codewords.len(),
            acc < CHECK_MODULUS,
            acc == weighted_sum(codewords@.take(i as int)) % (CHECK_MODULUS as int),
        decreases count - i,
    {
        let w: u32 = if i < 1 {
            1
        } else {
            (i % (CHECK_MODULUS as usize)) as u32
        };
        let v: u32 = codewords[i] as u32;
        proof {
            let before = codewords@.take(i as int);
            let now = codewords@.take(i + 1);
            assert(now.drop_last() =~= before);
            assert(now.last() == codewords@[i as int]);
            let s = weighted_sum(before);
            let m = CHECK_MODULUS as int;
            assert(w as int == weight(i as int) % m);
            assert(0 <= v * w <= 255 * 102) by (nonlinear_arith)
                requires
                    0 <= v <= 255,
                    0 <= w <= 102,
            ;
            lemma_mul_mod_noop_right(v as int, weight(i as int), m);
            lemma_add_mod_noop(s, v * weight(i as int), m);
            lemma_add_mod_noop_right(s % m, v * (w as int), m);
        }
        acc = (acc + v * w) % CHECK_MODULUS;
        i = i + 1;
    }
    proof {
        assert(codewords@.take(count as int) =~= codewords@);
    }
    acc as u8
}

/// Whether a start code stands first, and nowhere else.
pub fn is_framed(codewords: &Vec<u8>) -> (ok: bool)
    ensures
        ok == framed(codewords@),
{
    let n = codewords.len();
    if n < 1 || codewords[0] < FIRST_START || codewords[0] >= PATTERN_COUNT {
        return false;
    }
    let mut j: usize = 1;
    while j < n
        invariant
            1 <= j <= n,
            n == codewords.len(),
            forall|k: int| 1 <= k < j ==> #[trigger] codewords@[k] < FIRST_START,
        decreases n - j,
    {
        if codewords[j] >= FIRST_START {
            return false;
        }
        j = j + 1;
    }
    true
}

/// Whether a row of modules is a complete symbol: begun by a start code and
/// closed by a correct check codeword and the stop pattern.
pub fn check_symbol(modules: &Vec<u8>) -> (ok: bool)
    ensures
        ok == valid_symbol(modules@),
{
    match decode_symbol(modules) {
        None => false,
        Some(codewords) => {
            let ghost all = codewords@;
            let mut codewords = codewords;
            let ok = if codewords.len() < 2 || !is_framed(&codewords) {
                false
            } else {
                match codewords.pop() {
                    Some(last) => last == check_value_of(&codewords),
                    None => false,
                }
            };
            proof {
                if valid_symbol(modules@) {
                    let other = choose|other: Seq<u8>| #[trigger]
                        encodes(modules@, other) && framed(other) && checked(other);
                    lemma_encodes_unique(modules@, other, all);
                }
            }
            ok
        },
    }
}

/// A complete symbol is at least 35 modules wide, and its first two and its
/// last two modules are bars.
pub proof fn lemma_symbol_edges(modules: Seq<u8>)
    requires
        valid_symbol(modules),
    ensures
        modules.len() >= 35,
        (modules.len() - STOP_MODULES) % (CODEWORD_MODULES as int) == 0,
        modules[0] == 1,
        modules[1] == 1,
        modules[modules.len() - 2] == 1,
        modules[modules.len() - 1] == 1,
{
    let codewords = choose|codewords: Seq<u8>| #[trigger]
        encodes(modules, codewords) && framed(codewords) && checked(codewords);
    reveal_with_fuel(run_value, 14);
    assert(codewords[0] < PATTERN_COUNT);
    assert(run_value(modules, 0, CODEWORD_MODULES as int) == pattern(codewords[0] as int));
    assert(modules[0] <= 1 && modules[1] <= 1);
    let last = modules.len() - 1;
    assert(modules[last] <= 1 && modules[last - 1] <= 1);
}

/// What the symbology encoder makes of a text: the modules of the symbol, one
/// number per module, or the reason why it makes none.
pub uninterp spec fn code128_symbol(text: Seq<char>) -> Result<Seq<u8>, EncodingError>;

/// An outcome of the encoder with the modules as a sequence.
pub open spec fn seen(r: Result<Vec<u8>, EncodingError>) -> Result<Seq<u8>, EncodingError> {
    match r {
        Ok(modules) => Ok(modules@),
        Err(e) => Err(e),
    }
}

/// Calls `barcoders::sym::code128::Code128::new` on the text and, where that
/// gives a symbol, `Code128::encode` on it. Nothing is proved of the outcome:
/// it is only given the name [`code128_symbol`]. Texts longer than
/// [`MAX_TEXT_CHARS`] are kept away because the encoder's check sum can
/// overflow on them.
#[verifier::external_body]
pub(crate) fn encode_text(text: &str) -> (r: Result<Vec<u8>, EncodingError>)
    requires
        text@.len() <= MAX_TEXT_CHARS,
    ensures
        seen(r) == code128_symbol(text@),
{
    match Code128::new(text) {
        Ok(symbol) => Ok(symbol.encode()),
        Err(Error::Character) => Err(EncodingError::Character),
        Err(Error::Length) => Err(EncodingError::Length),
        Err(Error::Generate) => Err(EncodingError::Generate),
        Err(Error::Checksum) => Err(EncodingError::Checksum),
    }
}

} // verus!
