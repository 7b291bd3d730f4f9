//! Whole programs: source text to instructions, instructions to an image.
use vstd::prelude::*;
use crate::decode::{decode_spec, decode_tokens, result_view, token_views, Token};
use crate::error::{ErrorView, RimError};
use crate::isa::Instruction;
use crate::text::{
    chars_of, fold_case, is_blank, is_blank_range, lines_of, lower_of, split_on, split_ranges,
    strip_cr,
};

verus! {

/// The tokens of a line, split at single spaces, each beside its lower-case form.
pub open spec fn line_tokens(line: Seq<char>) -> Seq<(Seq<char>, Seq<char>)> {
    split_on(line, ' ').map_values(|t: Seq<char>| (t, lower_of(t)))
}

/// What line `lno` contributes: nothing when blank, else its instruction.
pub open spec fn line_spec(lno: usize, line: Seq<char>) -> Result<Option<Instruction>, ErrorView> {
    if is_blank(line) {
        Ok(None)
    } else {
        match decode_spec(lno, line_tokens(line)) {
            Ok(i) => Ok(Some(i)),
            Err(e) => Err(e),
        }
    }
}

/// The instructions of the first `k` lines, numbered from 1, or the first error.
pub open spec fn assemble_prefix(ls: Seq<Seq<char>>, k: nat) -> Result<Seq<Instruction>, ErrorView>
    decreases k,
{
    if k == 0 {
        Ok(Seq::empty())
    } else {
        match assemble_prefix(ls, (k - 1) as nat) {
            Err(e) => Err(e),
            Ok(v) => match line_spec(k as usize, ls[k - 1]) {
                Err(e) => Err(e),
                Ok(None) => Ok(v),
                Ok(Some(i)) => Ok(v.push(i)),
            },
        }
    }
}

/// The program of a source text, or the first error in line order.
pub open spec fn assemble_spec(src: Seq<char>) -> Result<Seq<Instruction>, ErrorView> {
    assemble_prefix(lines_of(src), lines_of(src).len())
}

pub open spec fn program_view(r: Result<Vec<Instruction>, RimError>) -> Result<Seq<Instruction>, ErrorView> {
    match r {
        Ok(v) => Ok(v@),
        Err(e) => Err(e@),
    }
}

/// The identifying header of a program image.
///
/// Its value and its width (four bytes) stand in for the header of the `pact`
/// instruction-set definitions, which are not available here; both must
/// match the decoder that reads the image.
pub const MAGIC: u32 = 0x5041_4354;

/// `MAGIC` in big-endian byte order.
pub open spec fn magic_bytes() -> Seq<u8> {
    seq![(MAGIC >> 24u32) as u8, (MAGIC >> 16u32) as u8, (MAGIC >> 8u32) as u8, MAGIC as u8]
}

/// The bytes of a program, one per instruction, in order.
pub open spec fn encode_all(p: Seq<Instruction>) -> Seq<u8> {
    p.map_values(|i: Instruction| i.spec_encode())
}

/// The image of a source text: the header, then the program's bytes.
pub open spec fn image_spec(src: Seq<char>) -> Result<Seq<u8>, ErrorView> {
    match assemble_spec(src) {
        Ok(p) => Ok(magic_bytes() + encode_all(p)),
        Err(e) => Err(e),
    }
}

pub open spec fn all_wf(p: Seq<Instruction>) -> bool {
    forall|i: int| 0 <= i < p.len() ==> (#[trigger] p[i]).wf()
}

proof fn lemma_error_persists(ls: Seq<Seq<char>>, k: nat, m: nat)
    requires
        k <= m,
        assemble_prefix(ls, k) is Err,
    ensures
        assemble_prefix(ls, m) == assemble_prefix(ls, k),
    decreases m - k,
{
    if k < m {
        lemma_error_persists(ls, k, (m - 1) as nat);
    }
}

/// A blank line adds no instruction, but it still takes a line number: the
/// lines after it are numbered as if it held an instruction.
pub proof fn lemma_blank_line(ls: Seq<Seq<char>>, k: nat)
    requires
        k < ls.len(),
        is_blank(ls[k as int]),
    ensures
        assemble_prefix(ls, k + 1) == assemble_prefix(ls, k),
{
}

/// Between two valid lines a blank line leaves just their two instructions,
/// and an error on the line after it names line 3.
pub proof fn lemma_blank_between(x: Seq<char>, w: Seq<char>, y: Seq<char>, i: Instruction)
    requires
        is_blank(w),
        line_spec(1, x) == Ok::<Option<Instruction>, ErrorView>(Some(i)),
    ensures
        line_spec(3, y) matches Ok(Some(j)) ==> assemble_prefix(seq![x, w, y], 3) == Ok::<
            Seq<Instruction>,
            ErrorView,
        >(seq![i, j]),
        line_spec(3, y) matches Err(e) ==> assemble_prefix(seq![x, w, y], 3) == Err::<
            Seq<Instruction>,
            ErrorView,
        >(e),
{
    let ls = seq![x, w, y];
    assert(ls[0] == x && ls[1] == w && ls[2] == y);
    assert(assemble_prefix(ls, 0) == Ok::<Seq<Instruction>, ErrorView>(Seq::empty()));
    assert(assemble_prefix(ls, 1) == Ok::<Seq<Instruction>, ErrorView>(seq![i]));
    lemma_blank_line(ls, 1);
    if let Ok(Some(j)) = line_spec(3, y) {
        assert(seq![i].push(j) =~= seq![i, j]);
    }
}

/// The line number shows only in errors: a line that decodes gives the same
/// instruction under any number.
pub proof fn lemma_line_number_in_errors_only(l1: usize, l2: usize, line: Seq<char>)
    requires
        line_spec(l1, line) is Ok,
    ensures
        line_spec(l2, line) == line_spec(l1, line),
{
}

/// A blank line between two valid lines of source text adds no instruction:
/// the text assembles as it would without that line, while an error on the
/// line after it names line 3.
pub proof fn lemma_blank_line_in_text(
    x: Seq<char>,
    w: Seq<char>,
    y: Seq<char>,
    i: Instruction,
    j: Instruction,
)
    requires
        !x.contains('\n'),
        !w.contains('\n'),
        !y.contains('\n'),
        y.len() > 0,
        is_blank(strip_cr(w)),
        line_spec(1, strip_cr(x)) == Ok::<Option<Instruction>, ErrorView>(Some(i)),
    ensures
        line_spec(2, y) == Ok::<Option<Instruction>, ErrorView>(Some(j)) ==> {
            &&& assemble_spec(x + seq!['\n'] + w + seq!['\n'] + y) == Ok::<
                Seq<Instruction>,
                ErrorView,
            >(seq![i, j])
            &&& assemble_spec(x + seq!['\n'] + y) == Ok::<Seq<Instruction>, ErrorView>(
                seq![i, j],
            )
        },
        line_spec(3, y) matches Err(e) ==> assemble_spec(x + seq!['\n'] + w + seq!['\n'] + y)
            == Err::<Seq<Instruction>, ErrorView>(e),
{
    crate::text::lemma_lines_of_three(x, w, y);
    crate::text::lemma_lines_of_two(x, y);
    lemma_blank_between(strip_cr(x), strip_cr(w), y, i);
    let two = seq![strip_cr(x), y];
    assert(two[0] == strip_cr(x) && two[1] == y);
    assert(assemble_prefix(two, 0) == Ok::<Seq<Instruction>, ErrorView>(Seq::empty()));
    assert(Seq::<Instruction>::empty().push(i) =~= seq![i]);
    assert(assemble_prefix(two, 1) == Ok::<Seq<Instruction>, ErrorView>(seq![i]));
    if line_spec(2, y) == Ok::<Option<Instruction>, ErrorView>(Some(j)) {
        lemma_line_number_in_errors_only(2, 3, y);
        assert(seq![i].push(j) =~= seq![i, j]);
    }
}

/// Assembly depends on the source text alone: the same text gives the same
/// image, byte for byte.
pub proof fn lemma_deterministic(a: Seq<char>, b: Seq<char>)
    requires
        a == b,
    ensures
        image_spec(a) == image_spec(b),
        assemble_spec(a) == assemble_spec(b),
{
}

/// Splits `chars[start..end]` into tokens and folds each.
fn tokens_of(src: &str, chars: &Vec<char>, start: usize, end: usize) -> (r: Vec<Token>)
    requires
        chars@ == src@,
        start <= end <= chars@.len(),
    ensures
        token_views(r@) == line_tokens(chars@.subrange(start as int, end as int)),
{
    let ghost line = chars@.subrange(start as int, end as int);
    let ranges = split_ranges(chars, start, end, ' ');
    let mut toks: Vec<Token> = Vec::new();
    let mut j: usize = 0;
    while j < ranges.len()
        invariant
            chars@ == src@,
            start <= end <= chars@.len(),
            j <= ranges@.len(),
            ranges@.len() == split_on(line, ' ').len(),
            forall|i: int|
                0 <= i < ranges@.len() ==> {
                    &&& start <= (#[trigger] ranges@[i]).0 <= ranges@[i].1 <= end
                    &&& chars@.subrange(ranges@[i].0 as int, ranges@[i].1 as int) == split_on(
                        line,
                        ' ',
                    )[i]
                },
            token_views(toks@) =~= line_tokens(line).subrange(0, j as int),
        decreases ranges@.len() - j,
    {
        let (x, y) = ranges[j];
        let text = String::from_str(src.substring_char(x, y));
        let folded = fold_case(text.as_str());
        let ghost before = toks@;
        toks.push(Token { text, folded });
        assert(token_views(toks@) =~= token_views(before).push((text@, folded@)));
        j = j + 1;
    }
    toks
}

/// What one line contributes.
fn assemble_line(src: &str, chars: &Vec<char>, start: usize, end: usize, lno: usize) -> (r: Result<
    Option<Instruction>,
    RimError,
>)
    requires
        chars@ == src@,
        start <= end <= chars@.len(),
    ensures
        result_view(r) == line_spec(lno, chars@.subrange(start as int, end as int)),
        r matches Ok(Some(i)) ==> i.wf(),
{
    if is_blank_range(chars, start, end) {
        return Ok(None);
    }
    let toks = tokens_of(src, chars, start, end);
    match decode_tokens(lno, &toks) {
        Ok(i) => Ok(Some(i)),
        Err(e) => Err(e),
    }
}

/// Assembles a source text into its program: one instruction per non-blank
/// line, in order, or the first error met in line order.
pub fn assemble(src: &str) -> (r: Result<Vec<Instruction>, RimError>)
    ensures
        program_view(r) == assemble_spec(src@),
        r matches Ok(v) ==> all_wf(v@),
{
    let chars = chars_of(src);
    let ghost s = src@;
    let ghost ls = lines_of(s);
    let ghost pieces = split_on(s, '\n');
    let ranges = split_ranges(&chars, 0, chars.len(), '\n');
    assert(chars@.subrange(0, chars@.len() as int) =~= s);
    proof {
        crate::text::lemma_split_nonempty(s, '\n');
    }
    let np = ranges.len();
    let (la, lb) = ranges[np - 1];
    assert(chars@.subrange(la as int, lb as int).len() == lb - la);
    let count = if la == lb {
        np - 1
    } else {
        np
    };
    assert(ls.len() == count);
    let mut out: Vec<Instruction> = Vec::new();
    let mut i: usize = 0;
    while i < count
        invariant
            chars@ == src@,
            s == src@,
            ls == lines_of(s),
            pieces == split_on(s, '\n'),
            ls.len() == count,
            count <= np == ranges@.len() == pieces.len(),
            forall|k: int|
                0 <= k < ranges@.len() ==> {
                    &&& 0 <= (#[trigger] ranges@[k]).0 <= ranges@[k].1 <= chars@.len()
                    &&& chars@.subrange(ranges@[k].0 as int, ranges@[k].1 as int) == pieces[k]
                },
            i <= count,
            assemble_prefix(ls, i as nat) == Ok::<Seq<Instruction>, ErrorView>(out@),
            all_wf(out@),
        decreases count - i,
    {
        let (a, b) = ranges[i];
        let end = if i + 1 < np && b > a && chars[b - 1] == '\r' {
            b - 1
        } else {
            b
        };
        proof {
            let piece = chars@.subrange(a as int, b as int);
            if i + 1 < np {
                assert(ls[i as int] == strip_cr(pieces[i as int]));
                if b > a && chars@[b - 1] == '\r' {
                    assert(piece.last() == chars@[b - 1]);
                    assert(chars@.subrange(a as int, end as int) =~= piece.drop_last());
                }
            } else {
                assert(ls[i as int] == pieces[i as int]);
            }
            assert(chars@.subrange(a as int, end as int) == ls[i as int]);
        }
        let lno = i + 1;
        match assemble_line(src, &chars, a, end, lno) {
            Err(e) => {
                proof {
                    lemma_error_persists(ls, lno as nat, count as nat);
                }
                return Err(e);
            },
            Ok(None) => {},
            Ok(Some(ins)) => {
                out.push(ins);
            },
        }
        i = i + 1;
    }
    Ok(out)
}

/// The image of a program: `MAGIC` in big-endian order, then one byte per
/// instruction.
pub fn serialize(program: &Vec<Instruction>) -> (r: Vec<u8>)
    requires
        all_wf(program@),
    ensures
        r@ == magic_bytes() + encode_all(program@),
{
    let mut r: Vec<u8> = Vec::new();
    r.push((MAGIC >> 24u32) as u8);
    r.push((MAGIC >> 16u32) as u8);
    r.push((MAGIC >> 8u32) as u8);
    r.push(MAGIC as u8);
    assert(r@ =~= magic_bytes());
    let mut k: usize = 0;
    while k < program.len()
        invariant
            all_wf(program@),
            k <= program@.len(),
            r@ =~= magic_bytes() + encode_all(program@.subrange(0, k as int)),
        decreases program@.len() - k,
    {
        let b = program[k].encode();
        r.push(b);
        assert(encode_all(program@.subrange(0, k + 1)) =~= encode_all(
            program@.subrange(0, k as int),
        ).push(b));
        k = k + 1;
    }
    assert(program@.subrange(0, program@.len() as int) =~= program@);
    r
}

/// Assembles a source text into its image, or the first error.
pub fn assemble_image(src: &str) -> (r: Result<Vec<u8>, RimError>)
    ensures
        match r {
            Ok(v) => image_spec(src@) == Ok::<Seq<u8>, ErrorView>(v@),
            Err(e) => image_spec(src@) == Err::<Seq<u8>, ErrorView>(e@),
        },
{
    match assemble(src) {
        Ok(program) => Ok(serialize(&program)),
        Err(e) => Err(e),
    }
}

} // verus!
