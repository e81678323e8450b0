use vstd::prelude::*;
use vstd::slice::slice_to_vec;
use vstd::string::StringSliceAdditionalSpecFns;

verus! {

/// Reads programs written as text: one instruction per line, as four
/// hexadecimal digits, optionally after a `label:` and before a `; comment`.
pub struct RomLoader;

/// Length in bytes of the UTF-8 encoding of the whitespace character that
/// starts `s`, or 0 when `s` starts with no whitespace character. The
/// whitespace characters are those of Unicode's `White_Space` property:
/// U+0009 to U+000D, U+0020, U+0085, U+00A0, U+1680, U+2000 to U+200A,
/// U+2028, U+2029, U+202F, U+205F and U+3000.
pub open spec fn space_prefix(s: Seq<u8>) -> int {
    if s.len() >= 1 && (s[0] == 0x20 || (0x09 <= s[0] <= 0x0D)) {
        1
    } else if s.len() >= 2 && s[0] == 0xC2 && (s[1] == 0x85 || s[1] == 0xA0) {
        2
    } else if s.len() >= 3 && s[0] == 0xE1 && s[1] == 0x9A && s[2] == 0x80 {
        3
    } else if s.len() >= 3 && s[0] == 0xE2 && s[1] == 0x80 && ((0x80 <= s[2] <= 0x8A) || s[2] == 0xA8
        || s[2] == 0xA9 || s[2] == 0xAF) {
        3
    } else if s.len() >= 3 && s[0] == 0xE2 && s[1] == 0x81 && s[2] == 0x9F {
        3
    } else if s.len() >= 3 && s[0] == 0xE3 && s[1] == 0x80 && s[2] == 0x80 {
        3
    } else {
        0
    }
}

/// The value of a hexadecimal digit in either case.
pub open spec fn hex_value(b: u8) -> Option<u8> {
    if 0x30 <= b <= 0x39 {
        Some((b - 0x30) as u8)
    } else if 0x41 <= b <= 0x46 {
        Some((b - 0x41 + 10) as u8)
    } else if 0x61 <= b <= 0x66 {
        Some((b - 0x61 + 10) as u8)
    } else {
        None
    }
}

/// `s` with every whitespace character removed.
pub open spec fn strip_spaces(s: Seq<u8>) -> Seq<u8>
    decreases s.len(),
{
    if s.len() == 0 {
        s
    } else if space_prefix(s) > 0 {
        strip_spaces(s.subrange(space_prefix(s), s.len() as int))
    } else {
        seq![s[0]] + strip_spaces(s.drop_first())
    }
}

/// Index of the first byte of `s` that does not belong to leading whitespace.
pub open spec fn skip_spaces(s: Seq<u8>) -> int
    decreases s.len(),
{
    if space_prefix(s) > 0 {
        space_prefix(s) + skip_spaces(s.subrange(space_prefix(s), s.len() as int))
    } else {
        0
    }
}

/// The two bytes, high then low, of the opcode that `s` spells once its
/// whitespace is removed: exactly four hexadecimal digits.
pub open spec fn opcode_spec(s: Seq<u8>) -> Option<(u8, u8)> {
    let d = strip_spaces(s);
    if d.len() == 4 && hex_value(d[0]) is Some && hex_value(d[1]) is Some && hex_value(d[2]) is Some
        && hex_value(d[3]) is Some {
        Some(
            (
                (hex_value(d[0])->Some_0 * 16 + hex_value(d[1])->Some_0) as u8,
                (hex_value(d[2])->Some_0 * 16 + hex_value(d[3])->Some_0) as u8,
            ),
        )
    } else {
        None
    }
}

/// Index of the first `b` in `s`, or `s.len()` if there is none.
pub open spec fn find_first(s: Seq<u8>, b: u8) -> int
    decreases s.len(),
{
    if s.len() == 0 {
        0
    } else if s[0] == b {
        0
    } else {
        1 + find_first(s.drop_first(), b)
    }
}

/// Index of the last `b` in `s`, or -1 if there is none.
pub open spec fn find_last(s: Seq<u8>, b: u8) -> int
    decreases s.len(),
{
    if s.len() == 0 {
        -1
    } else if s.last() == b {
        s.len() - 1
    } else {
        find_last(s.drop_last(), b)
    }
}

/// The bytes one line contributes: the text before the first `;`, after the
/// last `:` in it, must be an opcode; otherwise the line contributes nothing.
pub open spec fn line_code(line: Seq<u8>) -> Seq<u8> {
    let body = line.subrange(0, find_first(line, 0x3B));
    let op = body.subrange(find_last(body, 0x3A) + 1, body.len() as int);
    match opcode_spec(op) {
        Some((high, low)) => seq![high, low],
        None => Seq::empty(),
    }
}

/// The program a text spells: the bytes of its lines, in order.
pub open spec fn assemble(text: Seq<u8>) -> Seq<u8>
    decreases text.len(),
{
    let k = find_last(text, 0x0A);
    if 0 <= k < text.len() {
        assemble(text.subrange(0, k)) + line_code(text.subrange(k + 1, text.len() as int))
    } else {
        line_code(text)
    }
}

/// Whether `text` is taken as assembly: it holds a `;`, or it starts with
/// `00E0` once leading whitespace is skipped.
pub open spec fn is_assembly(text: Seq<u8>) -> bool {
    let k = skip_spaces(text);
    (exists|j: int| 0 <= j < text.len() && #[trigger] text[j] == 0x3Bu8) || (k + 4 <= text.len()
        && text.subrange(k, k + 4) == seq![0x30u8, 0x30u8, 0x45u8, 0x30u8])
}

proof fn lemma_find_first(s: Seq<u8>, b: u8, k: int)
    requires
        0 <= k <= s.len(),
        k < s.len() ==> s[k] == b,
        forall|j: int| 0 <= j < k ==> s[j] != b,
    ensures
        find_first(s, b) == k,
    decreases s.len(),
{
    if s.len() > 0 && k > 0 {
        lemma_find_first(s.drop_first(), b, k - 1);
    }
}

proof fn lemma_find_last(s: Seq<u8>, b: u8, k: int)
    requires
        -1 <= k < s.len(),
        k >= 0 ==> s[k] == b,
        forall|j: int| k < j < s.len() ==> s[j] != b,
    ensures
        find_last(s, b) == k,
    decreases s.len(),
{
    if s.len() > 0 && k < s.len() - 1 {
        lemma_find_last(s.drop_last(), b, k);
    }
}

/// Length of the whitespace character that starts `text[at..end]`, or 0.
fn space_at(text: &[u8], at: usize, end: usize) -> (r: usize)
    requires
        at <= end <= text@.len(),
    ensures
        r == space_prefix(text@.subrange(at as int, end as int)),
{
    let ghost s = text@.subrange(at as int, end as int);
    let len = end - at;
    if len >= 1 {
        assert(s[0] == text@[at as int]);
    }
    if len >= 2 {
        assert(s[1] == text@[at + 1]);
    }
    if len >= 3 {
        assert(s[2] == text@[at + 2]);
    }
    if len >= 1 && (text[at] == 0x20 || (0x09 <= text[at] && text[at] <= 0x0D)) {
        1
    } else if len >= 2 && text[at] == 0xC2 && (text[at + 1] == 0x85 || text[at + 1] == 0xA0) {
        2
    } else if len >= 3 && text[at] == 0xE1 && text[at + 1] == 0x9A && text[at + 2] == 0x80 {
        3
    } else if len >= 3 && text[at] == 0xE2 && text[at + 1] == 0x80 && ((0x80 <= text[at + 2]
        && text[at + 2] <= 0x8A) || text[at + 2] == 0xA8 || text[at + 2] == 0xA9 || text[at + 2]
        == 0xAF) {
        3
    } else if len >= 3 && text[at] == 0xE2 && text[at + 1] == 0x81 && text[at + 2] == 0x9F {
        3
    } else if len >= 3 && text[at] == 0xE3 && text[at + 1] == 0x80 && text[at + 2] == 0x80 {
        3
    } else {
        0
    }
}

fn hex_digit(b: u8) -> (r: Option<u8>)
    ensures
        r == hex_value(b),
{
    if 0x30 <= b && b <= 0x39 {
        Some(b - 0x30)
    } else if 0x41 <= b && b <= 0x46 {
        Some(b - 0x41 + 10)
    } else if 0x61 <= b && b <= 0x66 {
        Some(b - 0x61 + 10)
    } else {
        None
    }
}

/// The opcode spelled by `text[start..end]`.
fn opcode_in(text: &[u8], start: usize, end: usize) -> (r: Option<(u8, u8)>)
    requires
        start <= end <= text@.len(),
    ensures
        r == opcode_spec(text@.subrange(start as int, end as int)),
{
    let ghost whole = text@.subrange(start as int, end as int);
    let mut digits: Vec<u8> = Vec::new();
    let mut i: usize = start;
    while i < end
        invariant
            start <= i <= end <= text@.len(),
            whole == text@.subrange(start as int, end as int),
            digits@ + strip_spaces(text@.subrange(i as int, end as int)) == strip_spaces(whole),
        decreases end - i,
    {
        let ghost rest = text@.subrange(i as int, end as int);
        let k = space_at(text, i, end);
        if k > 0 {
            assert(rest.subrange(k as int, rest.len() as int) =~= text@.subrange(i + k, end as int));
            i += k;
        } else {
            assert(rest.drop_first() =~= text@.subrange(i + 1, end as int));
            assert(rest[0] == text@[i as int]);
            digits.push(text[i]);
            assert(digits@ + strip_spaces(text@.subrange(i + 1, end as int)) =~= strip_spaces(whole));
            i += 1;
        }
    }
    assert(digits@ =~= strip_spaces(whole));
    if digits.len() != 4 {
        return None;
    }
    match (hex_digit(digits[0]), hex_digit(digits[1]), hex_digit(digits[2]), hex_digit(digits[3])) {
        (Some(d0), Some(d1), Some(d2), Some(d3)) => Some((d0 * 16 + d1, d2 * 16 + d3)),
        _ => None,
    }
}

/// The bytes that the line `text[start..end]` contributes.
fn line_code_in(text: &[u8], start: usize, end: usize) -> (r: Option<(u8, u8)>)
    requires
        start <= end <= text@.len(),
    ensures
        match r {
            Some((high, low)) => line_code(text@.subrange(start as int, end as int)) == seq![high, low],
            None => line_code(text@.subrange(start as int, end as int)) == Seq::<u8>::empty(),
        },
{
    let ghost line = text@.subrange(start as int, end as int);
    let mut semi = start;
    while semi < end && text[semi] != 0x3B
        invariant
            start <= semi <= end <= text@.len(),
            forall|j: int| start <= j < semi ==> text@[j] != 0x3B,
        decreases end - semi,
    {
        semi += 1;
    }
    proof {
        lemma_find_first(line, 0x3B, semi - start);
    }
    let ghost body = line.subrange(0, semi - start);
    assert(body =~= text@.subrange(start as int, semi as int));
    let mut op_start = semi;
    while op_start > start && text[op_start - 1] != 0x3A
        invariant
            start <= op_start <= semi,
            semi <= end <= text@.len(),
            forall|j: int| op_start <= j < semi ==> text@[j] != 0x3A,
        decreases op_start - start,
    {
        op_start -= 1;
    }
    proof {
        lemma_find_last(body, 0x3A, op_start - start - 1);
        assert(body.subrange(op_start - start, body.len() as int) =~= text@.subrange(
            op_start as int,
            semi as int,
        ));
    }
    opcode_in(text, op_start, semi)
}

/// The program that `text` spells.
fn assemble_bytes(text: &[u8]) -> (r: Vec<u8>)
    ensures
        r@ == assemble(text@),
{
    let mut binary: Vec<u8> = Vec::new();
    let mut line_start: usize = 0;
    let mut i: usize = 0;
    while i < text.len()
        invariant
            line_start <= i <= text@.len(),
            line_start > 0 ==> text@[line_start - 1] == 0x0A,
            forall|j: int| line_start <= j < i ==> text@[j] != 0x0A,
            binary@ == if line_start == 0 {
                Seq::<u8>::empty()
            } else {
                assemble(text@.subrange(0, line_start - 1))
            },
        decreases text@.len() - i,
    {
        if text[i] == 0x0A {
            let ghost prefix = text@.subrange(0, i as int);
            proof {
                lemma_find_last(prefix, 0x0A, line_start - 1);
                assert(prefix.subrange(line_start as int, i as int) =~= text@.subrange(
                    line_start as int,
                    i as int,
                ));
                if line_start > 0 {
                    assert(prefix.subrange(0, line_start - 1) =~= text@.subrange(0, line_start - 1));
                } else {
                    assert(prefix.subrange(0, i as int) =~= prefix);
                }
            }
            if let Some((high, low)) = line_code_in(text, line_start, i) {
                binary.push(high);
                binary.push(low);
            }
            assert(binary@ =~= assemble(prefix));
            line_start = i + 1;
        }
        i += 1;
    }
    let ghost all = text@.subrange(0, text@.len() as int);
    assert(all =~= text@);
    proof {
        lemma_find_last(all, 0x0A, line_start - 1);
        assert(all.subrange(line_start as int, all.len() as int) =~= text@.subrange(
            line_start as int,
            text@.len() as int,
        ));
        if line_start > 0 {
            assert(all.subrange(0, line_start - 1) =~= text@.subrange(0, line_start - 1));
        }
    }
    if let Some((high, low)) = line_code_in(text, line_start, text.len()) {
        binary.push(high);
        binary.push(low);
    }
    assert(binary@ =~= assemble(text@));
    binary
}

impl RomLoader {
    /// The program that the text `contents` spells, two bytes per valid line.
    pub fn parse_assembly(contents: &str) -> (r: Vec<u8>)
        ensures
            r@ == assemble(contents.spec_bytes()),
    {
        assemble_bytes(contents.as_bytes())
    }

    /// The high and low bytes of the opcode that `opcode_str` spells: exactly
    /// four hexadecimal digits once whitespace is removed.
    pub fn opcode_to_bytes(opcode_str: &str) -> (r: Option<(u8, u8)>)
        ensures
            r == opcode_spec(opcode_str.spec_bytes()),
    {
        let bytes = opcode_str.as_bytes();
        let r = opcode_in(bytes, 0, bytes.len());
        assert(bytes@.subrange(0, bytes@.len() as int) =~= bytes@);
        r
    }

    /// Whether the file contents `contents` are taken as assembly text.
    pub fn is_assembly(contents: &[u8]) -> (r: bool)
        ensures
            r == is_assembly(contents@),
    {
        let mut i: usize = 0;
        while i < contents.len()
            invariant
                i <= contents@.len(),
                forall|j: int| 0 <= j < i ==> contents@[j] != 0x3B,
            decreases contents@.len() - i,
        {
            if contents[i] == 0x3B {
                assert(contents@[i as int] == 0x3Bu8);
                assert(exists|j: int| 0 <= j < contents@.len() && #[trigger] contents@[j] == 0x3Bu8);
                return true;
            }
            i += 1;
        }
        let ghost len = contents@.len() as int;
        assert(contents@.subrange(0, len) =~= contents@);
        let n = contents.len();
        let mut k: usize = 0;
        let mut step = space_at(contents, 0, n);
        while step > 0
            invariant
                k <= len,
                len == contents@.len(),
                step == space_prefix(contents@.subrange(k as int, len)),
                k + step <= len,
                len == n,
                skip_spaces(contents@) == k + skip_spaces(contents@.subrange(k as int, len)),
            decreases len - k,
        {
            let ghost rest = contents@.subrange(k as int, len);
            assert(rest.subrange(step as int, rest.len() as int) =~= contents@.subrange(k + step, len));
            k += step;
            step = space_at(contents, k, n);
        }
        let found = contents.len() - k >= 4 && contents[k] == 0x30 && contents[k + 1] == 0x30
            && contents[k + 2] == 0x45 && contents[k + 3] == 0x30;
        proof {
            let code = seq![0x30u8, 0x30u8, 0x45u8, 0x30u8];
            assert(skip_spaces(contents@) == k);
            if found {
                assert(contents@.subrange(k as int, k + 4) =~= code);
            } else if k + 4 <= len {
                assert(contents@.subrange(k as int, k + 4)[0] == contents@[k as int]);
                assert(contents@.subrange(k as int, k + 4)[1] == contents@[k + 1]);
                assert(contents@.subrange(k as int, k + 4)[2] == contents@[k + 2]);
                assert(contents@.subrange(k as int, k + 4)[3] == contents@[k + 3]);
            }
        }
        found
    }

    /// The program in the file contents `contents`: assembled when they are
    /// assembly text, taken byte for byte otherwise.
    pub fn load_bytes(contents: &[u8]) -> (r: Vec<u8>)
        ensures
            r@ == if is_assembly(contents@) {
                assemble(contents@)
            } else {
                contents@
            },
    {
        if Self::is_assembly(contents) {
            assemble_bytes(contents)
        } else {
            slice_to_vec(contents)
        }
    }
}

} // verus!
