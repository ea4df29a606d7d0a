//! Derivation paths: the text that tells a wallet which key of its tree of
//! keys is meant, and its form on the wire.

use vstd::prelude::*;
use vstd::string::StringSliceAdditionalSpecFns;

verus! {

/// Derivation path template: a piece of data which tells a wallet how to
/// derive a specific key within a tree of keys. 637 is the key of the coin.
pub const DERIVATION_PATH: &'static str = "m/44'/637'/{index}'/0'/0'";

/// The byte `/`, which separates the sections of a path.
pub const SLASH: u8 = 0x2f;

/// The byte `'`, which marks a hardened section.
pub const QUOTE: u8 = 0x27;

/// The byte `+`, which may stand in front of a number.
pub const PLUS: u8 = 0x2b;

/// Added to the number of a hardened section.
pub const HARDENED: u32 = 0x8000_0000;

/// Position of the first `/` in the text; the length of the text if it holds none.
pub open spec fn first_slash(s: Seq<u8>) -> nat
    decreases s.len(),
{
    if s.len() == 0 || s[0] == SLASH {
        0
    } else {
        1 + first_slash(s.subrange(1, s.len() as int))
    }
}

/// The sections of the text: what stands between its `/` bytes, before
/// the first and after the last. A text without `/` is one section.
pub open spec fn sections(s: Seq<u8>) -> Seq<Seq<u8>>
    decreases s.len(),
{
    let p = first_slash(s);
    if p >= s.len() {
        seq![s]
    } else {
        seq![s.subrange(0, p as int)] + sections(s.subrange(p as int + 1, s.len() as int))
    }
}

/// A decimal digit.
pub open spec fn is_digit(b: u8) -> bool {
    0x30 <= b <= 0x39
}

/// Every byte of the text is a decimal digit.
pub open spec fn all_digits(s: Seq<u8>) -> bool {
    forall|i: int| 0 <= i < s.len() ==> is_digit(#[trigger] s[i])
}

/// The number that a byte stands for as a digit.
pub open spec fn digit_value(b: u8) -> nat {
    if is_digit(b) {
        (b - 0x30) as nat
    } else {
        0
    }
}

/// The number that a text of decimal digits stands for.
pub open spec fn digits_value(s: Seq<u8>) -> nat
    decreases s.len(),
{
    if s.len() == 0 {
        0
    } else {
        digits_value(s.drop_last()) * 10 + digit_value(s.last())
    }
}

/// The text without a leading `+`.
pub open spec fn unsigned_body(s: Seq<u8>) -> Seq<u8> {
    if s.len() > 0 && s[0] == PLUS {
        s.subrange(1, s.len() as int)
    } else {
        s
    }
}

/// The number that the text stands for: an optional `+`, then one or more
/// decimal digits, the whole no larger than `u32::MAX`. Any other text
/// stands for no number.
pub open spec fn parse_u32(s: Seq<u8>) -> Option<u32> {
    let body = unsigned_body(s);
    if body.len() > 0 && all_digits(body) && digits_value(body) <= u32::MAX {
        Some(digits_value(body) as u32)
    } else {
        None
    }
}

/// The text without the `'` bytes at its end.
pub open spec fn trim_quotes(s: Seq<u8>) -> Seq<u8>
    decreases s.len(),
{
    if s.len() > 0 && s.last() == QUOTE {
        trim_quotes(s.drop_last())
    } else {
        s
    }
}

/// A section of a derivation path below the coin: it ends in `'`, and
/// what stands before its closing `'` bytes is a number.
pub open spec fn valid_section(s: Seq<u8>) -> bool {
    s.len() > 0 && s.last() == QUOTE && parse_u32(trim_quotes(s)).is_some()
}

/// The bytes of `m/44'/637'/`, which every derivation path of the wallet begins with.
pub open spec fn path_prefix() -> Seq<u8> {
    seq![0x6du8, 0x2f, 0x34, 0x34, 0x27, 0x2f, 0x36, 0x33, 0x37, 0x27, 0x2f]
}

/// A derivation path of the wallet: the prefix, then exactly three
/// hardened sections, as in `m/44'/637'/0'/0'/0'`.
pub open spec fn valid_derivation_path(s: Seq<u8>) -> bool {
    &&& s.len() >= 11
    &&& s.subrange(0, 11) == path_prefix()
    &&& s.last() == QUOTE
    &&& sections(s.subrange(11, s.len() as int)).len() == 3
    &&& forall|i: int|
        0 <= i < 3 ==> valid_section(#[trigger] sections(s.subrange(11, s.len() as int))[i])
}

/// The number of a section on the wire: a hardened section, which ends in
/// one `'`, stands for its number plus `HARDENED`, and the number must be
/// below `HARDENED`; any other section stands for its number.
pub open spec fn part_value(s: Seq<u8>) -> Option<u32> {
    if s.len() > 0 && s.last() == QUOTE {
        match parse_u32(s.drop_last()) {
            Some(v) => if v < HARDENED {
                Some((v + HARDENED) as u32)
            } else {
                None
            },
            None => None,
        }
    } else {
        parse_u32(s)
    }
}

/// The path can be put on the wire: every section after the first stands for a number.
pub open spec fn serializable(s: Seq<u8>) -> bool {
    forall|i: int|
        1 <= i < sections(s).len() ==> part_value(#[trigger] sections(s)[i]).is_some()
}

/// The four bytes of a number, most significant first.
pub open spec fn be_bytes(v: u32) -> Seq<u8> {
    seq![
        (v / 0x100_0000) as u8,
        ((v / 0x1_0000) % 0x100) as u8,
        ((v / 0x100) % 0x100) as u8,
        (v % 0x100) as u8,
    ]
}

/// The numbers of the sections from the second up to, not including, section `upto`, on the wire.
pub open spec fn encoded_parts(secs: Seq<Seq<u8>>, upto: nat) -> Seq<u8>
    decreases upto,
{
    if upto <= 1 {
        Seq::empty()
    } else {
        encoded_parts(secs, (upto - 1) as nat) + be_bytes(part_value(secs[upto - 1]).unwrap())
    }
}

/// The path on the wire: the count of the sections after the first, as one
/// byte, then the number of each of them as four bytes.
pub open spec fn encoding(s: Seq<u8>) -> Seq<u8> {
    let secs = sections(s);
    seq![((secs.len() - 1) % 256) as u8] + encoded_parts(secs, secs.len())
}

proof fn lemma_first_slash(s: Seq<u8>, k: int)
    requires
        0 <= k <= s.len(),
        forall|i: int| 0 <= i < k ==> s[i] != SLASH,
        k == s.len() || s[k] == SLASH,
    ensures
        first_slash(s) == k,
    decreases k,
{
    if k > 0 {
        let rest = s.subrange(1, s.len() as int);
        assert forall|i: int| 0 <= i < k - 1 implies rest[i] != SLASH by {
            assert(rest[i] == s[i + 1]);
        }
        lemma_first_slash(rest, k - 1);
    }
}

/// Position of the first `/` at or after `from`; the length if there is none.
fn find_slash(bytes: &[u8], from: usize) -> (p: usize)
    requires
        from <= bytes.len(),
    ensures
        from <= p <= bytes.len(),
        p - from == first_slash(bytes@.subrange(from as int, bytes.len() as int)),
{
    let mut p = from;
    while p < bytes.len() && bytes[p] != SLASH
        invariant
            from <= p <= bytes.len(),
            forall|i: int| from <= i < p ==> bytes[i] != SLASH,
        decreases bytes.len() - p,
    {
        p = p + 1;
    }
    proof {
        let sub = bytes@.subrange(from as int, bytes.len() as int);
        assert forall|i: int| 0 <= i < p - from implies sub[i] != SLASH by {
            assert(sub[i] == bytes[from + i]);
        }
        lemma_first_slash(sub, p - from);
    }
    p
}

/// The sections that the ranges cut out of the text.
pub open spec fn cut(bytes: Seq<u8>, ranges: Seq<(usize, usize)>) -> Seq<Seq<u8>> {
    Seq::new(ranges.len(), |i: int| bytes.subrange(ranges[i].0 as int, ranges[i].1 as int))
}

/// Splits the text from `from` on into its sections, each given as a range of positions.
pub fn split(bytes: &[u8], from: usize) -> (ranges: Vec<(usize, usize)>)
    requires
        from <= bytes.len(),
    ensures
        forall|i: int|
            0 <= i < ranges.len() ==> from <= (#[trigger] ranges[i]).0 <= ranges[i].1
                <= bytes.len(),
        cut(bytes@, ranges@) == sections(bytes@.subrange(from as int, bytes.len() as int)),
{
    let n = bytes.len();
    let mut ranges: Vec<(usize, usize)> = Vec::new();
    let mut start = from;
    let ghost whole = bytes@.subrange(from as int, n as int);
    loop
        invariant_except_break
            from <= start <= n,
            n == bytes.len(),
            whole == bytes@.subrange(from as int, n as int),
            forall|i: int|
                0 <= i < ranges.len() ==> from <= (#[trigger] ranges[i]).0 <= ranges[i].1 <= n,
            sections(whole) == cut(bytes@, ranges@) + sections(
                bytes@.subrange(start as int, n as int),
            ),
        ensures
            forall|i: int|
                0 <= i < ranges.len() ==> from <= (#[trigger] ranges[i]).0 <= ranges[i].1 <= n,
            sections(whole) == cut(bytes@, ranges@),
        decreases n - start,
    {
        let p = find_slash(bytes, start);
        let ghost rest = bytes@.subrange(start as int, n as int);
        let ghost before = ranges@;
        ranges.push((start, p));
        proof {
            assert(cut(bytes@, ranges@) =~= cut(bytes@, before) + seq![
                bytes@.subrange(start as int, p as int),
            ]);
            assert(rest.subrange(0, p - start) =~= bytes@.subrange(start as int, p as int));
        }
        if p == n {
            proof {
                assert(bytes@.subrange(start as int, p as int) =~= rest);
                assert(sections(rest) == seq![rest]);
            }
            break ;
        }
        proof {
            assert(rest.subrange(p - start + 1, rest.len() as int) =~= bytes@.subrange(
                p + 1,
                n as int,
            ));
            assert(sections(rest) == seq![rest.subrange(0, p - start)] + sections(
                bytes@.subrange(p + 1, n as int),
            ));
            assert(cut(bytes@, before) + (seq![rest.subrange(0, p - start)] + sections(
                bytes@.subrange(p + 1, n as int),
            )) =~= cut(bytes@, ranges@) + sections(bytes@.subrange(p + 1, n as int)));
        }
        start = p + 1;
    }
    ranges
}

proof fn lemma_digits_prefix(s: Seq<u8>, k: int)
    requires
        0 <= k <= s.len(),
    ensures
        digits_value(s.take(k)) <= digits_value(s),
    decreases s.len() - k,
{
    if k < s.len() {
        assert(s.drop_last().take(k) =~= s.take(k));
        lemma_digits_prefix(s.drop_last(), k);
        assert(digits_value(s.drop_last()) * 10 >= digits_value(s.drop_last())) by (nonlinear_arith);
    } else {
        assert(s.take(k) =~= s);
    }
}

/// Reads the number that the text between `from` and `to` stands for.
pub fn parse_number(bytes: &[u8], from: usize, to: usize) -> (r: Option<u32>)
    requires
        from <= to <= bytes.len(),
    ensures
        r == parse_u32(bytes@.subrange(from as int, to as int)),
{
    let ghost text = bytes@.subrange(from as int, to as int);
    let start = if from < to && bytes[from] == PLUS {
        from + 1
    } else {
        from
    };
    let ghost body = unsigned_body(text);
    proof {
        assert(body =~= bytes@.subrange(start as int, to as int));
    }
    if start == to {
        return None;
    }
    let mut acc: u64 = 0;
    let mut i = start;
    while i < to
        invariant
            start <= i <= to <= bytes.len(),
            body == bytes@.subrange(start as int, to as int),
            body == unsigned_body(text),
            text == bytes@.subrange(from as int, to as int),
            acc == digits_value(body.take(i - start)),
            acc <= u32::MAX,
            forall|j: int| 0 <= j < i - start ==> is_digit(#[trigger] body[j]),
        decreases to - i,
    {
        let b = bytes[i];
        if b < 0x30 || b > 0x39 {
            assert(!is_digit(body[i - start]));
            return None;
        }
        proof {
            assert(body.take(i - start + 1).drop_last() =~= body.take(i - start));
            assert(body.take(i - start + 1).last() == b);
        }
        acc = acc * 10 + (b - 0x30) as u64;
        if acc > u32::MAX as u64 {
            proof {
                lemma_digits_prefix(body, i - start + 1);
            }
            return None;
        }
        i = i + 1;
    }
    proof {
        assert(body.take(to - start) =~= body);
    }
    Some(acc as u32)
}

/// Tells whether the text between `from` and `to` is a hardened section:
/// whether it ends in `'` and stands for a number once the `'` bytes at
/// its end are taken off.
fn is_valid_section(bytes: &[u8], from: usize, to: usize) -> (b: bool)
    requires
        from <= to <= bytes.len(),
    ensures
        b == valid_section(bytes@.subrange(from as int, to as int)),
{
    let ghost text = bytes@.subrange(from as int, to as int);
    if from == to || bytes[to - 1] != QUOTE {
        return false;
    }
    let mut end = to;
    while end > from && bytes[end - 1] == QUOTE
        invariant
            from <= end <= to <= bytes.len(),
            trim_quotes(text) == trim_quotes(bytes@.subrange(from as int, end as int)),
            text == bytes@.subrange(from as int, to as int),
        decreases end - from,
    {
        proof {
            assert(bytes@.subrange(from as int, end as int).drop_last() =~= bytes@.subrange(
                from as int,
                end - 1,
            ));
        }
        end = end - 1;
    }
    parse_number(bytes, from, end).is_some()
}

/// Validate the input derivation path to check if it's valid: whether it
/// is `m/44'/637'/` followed by exactly three hardened sections.
pub fn validate_derivation_path(input: &str) -> (valid: bool)
    ensures
        valid == valid_derivation_path(input.spec_bytes()),
{
    let bytes = input.as_bytes();
    let n = bytes.len();
    if n < 11 {
        return false;
    }
    let starts = bytes[0] == 0x6d && bytes[1] == 0x2f && bytes[2] == 0x34 && bytes[3] == 0x34
        && bytes[4] == 0x27 && bytes[5] == 0x2f && bytes[6] == 0x36 && bytes[7] == 0x33 && bytes[8]
        == 0x37 && bytes[9] == 0x27 && bytes[10] == 0x2f;
    proof {
        if starts {
            assert(bytes@.subrange(0, 11) =~= path_prefix());
        } else {
            let head = bytes@.subrange(0, 11);
            assert(head[0] == bytes[0] && head[1] == bytes[1] && head[2] == bytes[2] && head[3]
                == bytes[3] && head[4] == bytes[4] && head[5] == bytes[5] && head[6] == bytes[6]
                && head[7] == bytes[7] && head[8] == bytes[8] && head[9] == bytes[9] && head[10]
                == bytes[10]);
        }
    }
    if !starts || bytes[n - 1] != QUOTE {
        return false;
    }
    let ranges = split(bytes, 11);
    let ghost secs = sections(bytes@.subrange(11, n as int));
    if ranges.len() != 3 {
        return false;
    }
    let mut i: usize = 0;
    while i < 3
        invariant
            i <= 3,
            ranges.len() == 3,
            n == bytes.len(),
            n >= 11,
            bytes@ == input.spec_bytes(),
            bytes@.subrange(0, 11) == path_prefix(),
            bytes@.last() == QUOTE,
            secs == sections(bytes@.subrange(11, n as int)),
            secs == cut(bytes@, ranges@),
            forall|j: int|
                0 <= j < ranges.len() ==> 11 <= (#[trigger] ranges[j]).0 <= ranges[j].1 <= n,
            forall|j: int| 0 <= j < i ==> valid_section(#[trigger] secs[j]),
        decreases 3 - i,
    {
        let r = ranges[i];
        if !is_valid_section(bytes, r.0, r.1) {
            assert(!valid_section(secs[i as int]));
            return false;
        }
        i = i + 1;
    }
    true
}

/// Reads the number that the section between `from` and `to` has on the wire.
fn section_number(bytes: &[u8], from: usize, to: usize) -> (r: Option<u32>)
    requires
        from <= to <= bytes.len(),
    ensures
        r == part_value(bytes@.subrange(from as int, to as int)),
{
    if from < to && bytes[to - 1] == QUOTE {
        proof {
            assert(bytes@.subrange(from as int, to as int).drop_last() =~= bytes@.subrange(
                from as int,
                to - 1,
            ));
        }
        match parse_number(bytes, from, to - 1) {
            Some(v) => if v < HARDENED {
                Some(v + HARDENED)
            } else {
                None
            },
            None => None,
        }
    } else {
        parse_number(bytes, from, to)
    }
}

/// Puts a derivation path on the wire, if every section after the first
/// stands for a number: the count of those sections, then the number of
/// each, four bytes a number, most significant first.
pub fn try_serialize_bip32(path: &str) -> (r: Option<Vec<u8>>)
    ensures
        match r {
            Some(bytes) => serializable(path.spec_bytes()) && bytes@ == encoding(
                path.spec_bytes(),
            ),
            None => !serializable(path.spec_bytes()),
        },
{
    let bytes = path.as_bytes();
    let n = bytes.len();
    let ranges = split(bytes, 0);
    let ghost secs = sections(bytes@);
    proof {
        assert(bytes@.subrange(0, n as int) =~= bytes@);
        lemma_sections_nonempty(bytes@);
    }
    let count = ranges.len() - 1;
    let mut serialized: Vec<u8> = Vec::new();
    serialized.push((count % 256) as u8);
    let mut i: usize = 1;
    while i < ranges.len()
        invariant
            1 <= i <= ranges.len(),
            n == bytes.len(),
            bytes@ == path.spec_bytes(),
            secs == cut(bytes@, ranges@),
            secs == sections(bytes@),
            forall|j: int| 0 <= j < ranges.len() ==> (#[trigger] ranges[j]).0 <= ranges[j].1 <= n,
            forall|j: int| 1 <= j < i ==> part_value(#[trigger] secs[j]).is_some(),
            serialized@ == seq![((secs.len() - 1) % 256) as u8] + encoded_parts(secs, i as nat),
        decreases ranges.len() - i,
    {
        let r = ranges[i];
        match section_number(bytes, r.0, r.1) {
            None => {
                assert(part_value(secs[i as int]).is_none());
                return None;
            },
            Some(v) => {
                let ghost before = serialized@;
                serialized.push((v / 0x100_0000) as u8);
                serialized.push(((v / 0x1_0000) % 0x100) as u8);
                serialized.push(((v / 0x100) % 0x100) as u8);
                serialized.push((v % 0x100) as u8);
                proof {
                    assert(serialized@ =~= before + be_bytes(v));
                    assert(encoded_parts(secs, (i + 1) as nat) == encoded_parts(secs, i as nat)
                        + be_bytes(v));
                    assert(serialized@ =~= seq![((secs.len() - 1) % 256) as u8] + encoded_parts(
                        secs,
                        (i + 1) as nat,
                    ));
                }
            },
        }
        i = i + 1;
    }
    Some(serialized)
}

proof fn lemma_sections_nonempty(s: Seq<u8>)
    ensures
        sections(s).len() >= 1,
    decreases s.len(),
{
    let p = first_slash(s);
    if p < s.len() {
        lemma_sections_nonempty(s.subrange(p as int + 1, s.len() as int));
    }
}

/// Puts a derivation path on the wire: the count of the sections after the
/// first, then the number of each, four bytes a number, most significant first.
pub fn serialize_bip32(path: &str) -> (bytes: Vec<u8>)
    requires
        serializable(path.spec_bytes()),
    ensures
        bytes@ == encoding(path.spec_bytes()),
{
    match try_serialize_bip32(path) {
        Some(bytes) => bytes,
        None => Vec::new(),
    }
}

} // verus!
