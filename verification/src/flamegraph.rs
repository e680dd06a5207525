//! Flamegraphs: stacks written in the format of `dtrace`, folded and drawn by the `inferno` crate.
use std::io::Cursor;

use inferno::collapse::{dtrace, Collapse};
use vstd::prelude::*;

use crate::callstack::StdCallstack;
use crate::stack_stats::{Measurement, StackStats};
use crate::symbols::{FriendlySymbol, SymbolMap};
use crate::text::append_decimal;

verus! {

/// How many stack traces a flamegraph shows.
pub const FLAMEGRAPH_STACKS: usize = 50;

/// Whether a character is an ASCII digit.
pub open spec fn is_digit(c: char) -> bool {
    '0' <= c <= '9'
}

/// Whether a character is white space in Unicode.
pub open spec fn is_space(c: char) -> bool {
    ||| '\u{9}' <= c <= '\u{d}'
    ||| c == ' '
    ||| c == '\u{85}'
    ||| c == '\u{a0}'
    ||| c == '\u{1680}'
    ||| '\u{2000}' <= c <= '\u{200a}'
    ||| c == '\u{2028}'
    ||| c == '\u{2029}'
    ||| c == '\u{202f}'
    ||| c == '\u{205f}'
    ||| c == '\u{3000}'
}

/// Whether a name may be cut off before this character when it is folded.
pub open spec fn is_cut(c: char) -> bool {
    c == '+' || c == '(' || c == '<' || c == '-'
}

/// Whether the character at `i` shows that a line is not a number.
pub open spec fn is_solid(name: Seq<char>, i: int) -> bool {
    !is_digit(name[i]) && !is_space(name[i]) && !(i == 0 && name[i] == '+')
}

/// Whether a line with this name on it is neither blank nor a number.
pub open spec fn stands_alone(name: Seq<char>) -> bool {
    &&& name.len() > 0
    &&& !is_space(name[0])
    &&& exists|i: int| 0 <= i < name.len() && #[trigger] is_solid(name, i)
}

/// Whether the space at `i` sets off a number that runs to `d`, with nothing but white space from
/// there to `p`, where the name ends or may be cut off.
pub open spec fn is_column_to(name: Seq<char>, i: int, d: int, p: int) -> bool {
    &&& 0 <= i
    &&& i + 1 < d <= p <= name.len()
    &&& name[i] == ' '
    &&& is_digit(name[i + 1])
    &&& forall|k: int| i < k < d ==> is_digit(#[trigger] name[k]) || name[k] == '.'
    &&& forall|k: int| d <= k < p ==> is_space(#[trigger] name[k])
    &&& p == name.len() || is_cut(name[p])
}

/// Whether the space at `i` sets off a number at the end of the name, or where it may be cut off.
/// There it would read as a column of its own.
pub open spec fn is_column(name: Seq<char>, i: int) -> bool {
    exists|d: int, p: int| is_column_to(name, i, d, p)
}

/// Whether a name can stand on a line of its own: the line is neither blank nor a number, it is one
/// line, and nothing in it reads as a module name or as a column of numbers.
pub open spec fn is_clean_name(name: Seq<char>) -> bool {
    &&& stands_alone(name)
    &&& forall|i: int| 0 <= i < name.len() ==> #[trigger] name[i] != '\n' && name[i] != '`'
    &&& forall|i: int| 0 <= i < name.len() ==> !#[trigger] is_column(name, i)
}

/// A character of a name, or an underscore where the character cannot stand there.
pub open spec fn clean_char(name: Seq<char>, i: int) -> char {
    if name[i] == '\n' || name[i] == '`' || is_column(name, i) {
        '_'
    } else {
        name[i]
    }
}

/// A name made fit to stand on a line of its own.
pub open spec fn clean_name(name: Seq<char>) -> Seq<char> {
    let cleaned = Seq::new(name.len(), |i: int| clean_char(name, i));
    if stands_alone(cleaned) {
        cleaned
    } else {
        seq!['_'] + cleaned
    }
}

/// The names for the first `n` symbols of a frame: the first one, and those inlined into it that do
/// not poll a future, unless the first one does.
pub open spec fn frame_names(symbols: Seq<crate::symbols::FriendlyView>, n: nat) -> Seq<Seq<char>>
    decreases n,
{
    if n == 0 {
        Seq::empty()
    } else {
        let before = frame_names(symbols, (n - 1) as nat);
        if n == 1 || !(symbols[0].is_poll || symbols[n - 1].is_poll) {
            before.push(clean_name(symbols[n - 1].friendly_name))
        } else {
            before
        }
    }
}

/// The names for the first `n` frames: nothing for a pointer that has no entry in the symbol map.
pub open spec fn stack_names(
    frames: Seq<u64>,
    n: nat,
    symbols: Map<u64, Seq<crate::symbols::FriendlyView>>,
) -> Seq<Seq<char>>
    decreases n,
{
    if n == 0 {
        Seq::empty()
    } else {
        let before = stack_names(frames, (n - 1) as nat, symbols);
        if symbols.contains_key(frames[n - 1]) {
            before + frame_names(symbols[frames[n - 1]], symbols[frames[n - 1]].len())
        } else {
            before
        }
    }
}

/// The names that stand for a stack trace, innermost call first.
pub open spec fn shown_names(
    frames: Seq<u64>,
    symbols: Map<u64, Seq<crate::symbols::FriendlyView>>,
) -> Seq<Seq<char>> {
    let names = stack_names(frames, frames.len(), symbols);
    if names.len() == 0 {
        seq!["<none>"@]
    } else {
        names
    }
}

/// One line for each of the first `n` names.
pub open spec fn names_text(names: Seq<Seq<char>>, n: nat) -> Seq<char>
    decreases n,
{
    if n == 0 {
        Seq::empty()
    } else {
        names_text(names, (n - 1) as nat) + "  "@ + names[n - 1] + "\n"@
    }
}

/// A stack as `dtrace` prints it: a blank line, a line for each name, and its count.
pub open spec fn block_text(names: Seq<Seq<char>>, count: u64) -> Seq<char> {
    "\n"@ + names_text(names, names.len()) + "  "@ + crate::text::decimal(count as nat)
}

/// The first `n` stacks, one after the other.
pub open spec fn blocks_text(blocks: Seq<(Seq<Seq<char>>, u64)>, n: nat) -> Seq<char>
    decreases n,
{
    if n == 0 {
        Seq::empty()
    } else {
        blocks_text(blocks, (n - 1) as nat) + block_text(blocks[n - 1].0, blocks[n - 1].1) + "\n"@
    }
}

/// The counts of the first `n` stacks together.
pub open spec fn blocks_total(blocks: Seq<(Seq<Seq<char>>, u64)>, n: nat) -> nat
    decreases n,
{
    if n == 0 {
        0
    } else {
        blocks_total(blocks, (n - 1) as nat) + blocks[n - 1].1 as nat
    }
}

/// The most bytes that a flamegraph can show: a hundred times as many still fit into a `usize`, also
/// after they have been rounded to a floating point number.
pub open spec fn most_drawn() -> int {
    usize::MAX / 100 - 16
}

/// Whether these stacks can be folded and drawn: each has a name and only clean ones, and no
/// arithmetic on their counts overflows.
pub open spec fn can_fold(blocks: Seq<(Seq<Seq<char>>, u64)>) -> bool {
    &&& forall|i: int|
        0 <= i < blocks.len() ==> (#[trigger] blocks[i]).0.len() > 0 && forall|j: int|
            0 <= j < blocks[i].0.len() ==> is_clean_name(#[trigger] blocks[i].0[j])
    &&& blocks_total(blocks, blocks.len()) <= most_drawn()
}

/// Whether a text consists of stacks that can be folded and drawn.
pub open spec fn is_foldable(text: Seq<char>) -> bool {
    exists|blocks: Seq<(Seq<Seq<char>>, u64)>| #[trigger]
        can_fold(blocks) && text == blocks_text(blocks, blocks.len())
}

/// The folded lines of a text.
pub uninterp spec fn folded(text: Seq<char>) -> Seq<u8>;

/// `Collapse::collapse` of a default `dtrace::Folder` of the `inferno` crate: reads stacks as
/// `dtrace` prints them, and writes one line for each distinct stack, in sorted order, with the
/// counts of equal ones added up.  It fails only where a text ends within a stack, which a foldable
/// text does not.  The result depends on the text alone; how names are shortened is not stated.
#[verifier::external_body]
fn fold_text(text: &String) -> (r: Result<Vec<u8>, String>)
    requires
        is_foldable(text@),
    ensures
        r is Ok,
        r->Ok_0@ == folded(text@),
{
    let mut lines = Vec::new();
    let mut folder = dtrace::Folder::default();
    match folder.collapse(Cursor::new(text), Cursor::new(&mut lines)) {
        Ok(()) => Ok(lines),
        Err(e) => Err(e.to_string()),
    }
}

/// Why folded lines cannot be drawn, `None` where they can.
pub uninterp spec fn drawing_error(lines: Seq<u8>) -> Option<Seq<char>>;

/// Whether a text is what drawing folded lines writes, in some choice of colours: an SVG of them or,
/// where they cannot be drawn, of the error, as far as it got.
pub uninterp spec fn is_drawing(lines: Seq<u8>, svg: Seq<u8>) -> bool;

/// What drawing comes to: what has been written, and whether drawing failed.
pub struct Drawing {
    /// What has been written, also where drawing failed.
    pub svg: Vec<u8>,
    /// Why drawing failed, where it did.
    pub result: Result<(), String>,
}

impl Drawing {
    /// Whether this is a drawing of these folded lines.
    pub open spec fn shows(&self, lines: Seq<u8>) -> bool {
        &&& is_drawing(lines, self.svg@)
        &&& match self.result {
            Ok(()) => drawing_error(lines) is None && self.svg@.len() > 0,
            Err(message) => drawing_error(lines) == Some(message@),
        }
    }
}

/// `flamegraph::from_reader` of the `inferno` crate with default options: draws folded lines as an
/// SVG.  Whether and why it fails depends on the lines alone.  What it writes is a drawing of these
/// lines; where it succeeds that starts with a declaration and so is not empty.  The colours are
/// chosen at random, so which drawing it is is not stated.
#[verifier::external_body]
fn draw_lines(lines: &Vec<u8>) -> (r: Drawing)
    requires
        exists|text: Seq<char>| #[trigger] is_foldable(text) && folded(text) == lines@,
    ensures
        is_drawing(lines@, r.svg@),
        match r.result {
            Ok(()) => drawing_error(lines@) is None && r.svg@.len() > 0,
            Err(message) => drawing_error(lines@) == Some(message@),
        },
{
    let mut svg = Vec::new();
    let mut options = inferno::flamegraph::Options::default();
    let drawn = inferno::flamegraph::from_reader(&mut options, Cursor::new(lines), &mut svg);
    Drawing { svg, result: drawn.map_err(|e| e.to_string()) }
}

fn chars_of(text: &str) -> (r: Vec<char>)
    ensures
        r@ == text@,
{
    let mut r: Vec<char> = Vec::new();
    for c in it: text.chars()
        invariant
            it.seq() == text@,
            r@ == text@.take(it.index() as int),
    {
        r.push(c);
        assert(r@ =~= text@.take(it.index() + 1));
    }
    assert(r@ =~= text@);
    r
}

fn digit(c: char) -> (r: bool)
    ensures
        r == is_digit(c),
{
    '0' <= c && c <= '9'
}

fn space(c: char) -> (r: bool)
    ensures
        r == is_space(c),
{
    ('\u{9}' <= c && c <= '\u{d}') || c == ' ' || c == '\u{85}' || c == '\u{a0}' || c == '\u{1680}'
        || ('\u{2000}' <= c && c <= '\u{200a}') || c == '\u{2028}' || c == '\u{2029}' || c
        == '\u{202f}' || c == '\u{205f}' || c == '\u{3000}'
}

fn column(name: &Vec<char>, i: usize) -> (r: bool)
    requires
        i < name@.len(),
    ensures
        r == is_column(name@, i as int),
{
    if name[i] != ' ' || i >= name.len() - 1 || !digit(name[i + 1]) {
        return false;
    }
    let mut d: usize = i + 1;
    while d < name.len() && (digit(name[d]) || name[d] == '.')
        invariant
            i < d <= name@.len(),
            is_digit(name@[i + 1]),
            forall|k: int| i < k < d ==> is_digit(#[trigger] name@[k]) || name@[k] == '.',
        decreases name.len() - d,
    {
        d += 1;
    }
    let mut p: usize = d;
    while p < name.len() && space(name[p])
        invariant
            d <= p <= name@.len(),
            forall|k: int| d <= k < p ==> is_space(#[trigger] name@[k]),
        decreases name.len() - p,
    {
        p += 1;
    }
    let r: bool = p == name.len() || name[p] == '+' || name[p] == '(' || name[p] == '<' || name[p]
        == '-';
    proof {
        if r {
            assert(is_column_to(name@, i as int, d as int, p as int));
        } else {
            assert forall|d2: int, p2: int| !is_column_to(name@, i as int, d2, p2) by {
                if is_column_to(name@, i as int, d2, p2) {
                    if d2 < d {
                        assert(is_digit(name@[d2]) || name@[d2] == '.');
                    } else if d2 > d {
                        assert(is_digit(name@[d as int]) || name@[d as int] == '.');
                    } else if p2 < p {
                        assert(is_space(name@[p2]));
                    } else {
                        assert(p2 != p ==> is_space(name@[p as int]));
                    }
                }
            }
        }
    }
    r
}

fn cleaned_chars(name: &Vec<char>) -> (r: Vec<char>)
    ensures
        r@ == Seq::new(name@.len(), |i: int| clean_char(name@, i)),
{
    let mut r: Vec<char> = Vec::with_capacity(name.len());
    while r.len() < name.len()
        invariant
            r@.len() <= name@.len(),
            forall|j: int| 0 <= j < r@.len() ==> #[trigger] r@[j] == clean_char(name@, j),
        decreases name.len() - r.len(),
    {
        let i: usize = r.len();
        let c: char = name[i];
        if c == '\n' || c == '`' || column(name, i) {
            r.push('_');
        } else {
            r.push(c);
        }
    }
    assert(r@ =~= Seq::new(name@.len(), |i: int| clean_char(name@, i)));
    r
}

fn alone(name: &Vec<char>) -> (r: bool)
    ensures
        r == stands_alone(name@),
{
    if name.len() == 0 || space(name[0]) {
        return false;
    }
    let mut i: usize = 0;
    while i < name.len()
        invariant
            0 < name@.len(),
            !is_space(name@[0]),
            i <= name@.len(),
            forall|j: int| 0 <= j < i ==> !#[trigger] is_solid(name@, j),
        decreases name.len() - i,
    {
        if !digit(name[i]) && !space(name[i]) && !(i == 0 && name[i] == '+') {
            assert(is_solid(name@, i as int));
            return true;
        }
        i += 1;
    }
    false
}

/// Appends a name, made fit to stand on a line of its own.
fn append_clean_name(out: &mut String, name: &str)
    ensures
        final(out)@ == old(out)@ + clean_name(name@),
{
    let cleaned = cleaned_chars(&chars_of(name));
    let ghost start = out@;
    let ghost mut head = out@;
    if !alone(&cleaned) {
        out.push('_');
        proof {
            head = out@;
        }
        assert(head =~= start + seq!['_']);
    }
    let mut i: usize = 0;
    while i < cleaned.len()
        invariant
            i <= cleaned@.len(),
            out@ == head + cleaned@.take(i as int),
        decreases cleaned.len() - i,
    {
        out.push(cleaned[i]);
        i += 1;
        assert(out@ =~= head + cleaned@.take(i as int));
    }
    assert(cleaned@.take(i as int) =~= cleaned@);
    assert(out@ =~= start + clean_name(name@));
}

pub(crate) proof fn lemma_clean_name(name: Seq<char>)
    ensures
        is_clean_name(clean_name(name)),
{
    let cleaned = Seq::new(name.len(), |i: int| clean_char(name, i));
    let r = clean_name(name);
    let shift: int = r.len() - name.len();
    assert(forall|i: int| 0 <= i < cleaned.len() ==> #[trigger] r[i + shift] == cleaned[i]);
    assert forall|i: int| 0 <= i < r.len() implies #[trigger] r[i] != '\n' && r[i] != '`' by {
        if i >= shift {
            assert(r[i] == cleaned[i - shift]);
        }
    }
    if shift == 1 {
        assert(is_solid(r, 0));
    }
    assert forall|i: int| 0 <= i < r.len() implies !#[trigger] is_column(r, i) by {
        if is_column(r, i) {
            let (d, p) = choose|d: int, p: int| is_column_to(r, i, d, p);
            let (i0, d0, p0) = (i - shift, d - shift, p - shift);
            assert(i >= shift);
            assert forall|k: int| i0 <= k < p0 || (k == p0 && p0 < name.len()) implies name[k]
                == #[trigger] r[k + shift] by {
                assert(r[k + shift] == cleaned[k]);
            }
            assert(r[i0 + shift] == name[i0]);
            assert(r[i0 + 1 + shift] == name[i0 + 1]);
            assert forall|k: int| i0 < k < d0 implies is_digit(#[trigger] name[k]) || name[k]
                == '.' by {
                assert(r[k + shift] == name[k]);
            }
            assert forall|k: int| d0 <= k < p0 implies is_space(#[trigger] name[k]) by {
                assert(r[k + shift] == name[k]);
            }
            if p0 < name.len() {
                assert(r[p0 + shift] == name[p0]);
            }
            assert(is_column_to(name, i0, d0, p0));
            assert(cleaned[i0] == '_');
        }
    }
}

/// Appends a line for each symbol of a frame that is shown.
fn append_frame_names(out: &mut String, symbols: &Vec<FriendlySymbol>)
    ensures
        final(out)@ == old(out)@ + names_text(
            frame_names(crate::symbols::friendly_views(symbols@), symbols@.len()),
            frame_names(crate::symbols::friendly_views(symbols@), symbols@.len()).len(),
        ),
{
    let ghost views = crate::symbols::friendly_views(symbols@);
    let ghost start = out@;
    let mut i: usize = 0;
    assert(out@ =~= start + names_text(frame_names(views, 0), 0));
    while i < symbols.len()
        invariant
            i <= symbols@.len(),
            views == crate::symbols::friendly_views(symbols@),
            out@ == start + names_text(
                frame_names(views, i as nat),
                frame_names(views, i as nat).len(),
            ),
        decreases symbols.len() - i,
    {
        let ghost before = frame_names(views, i as nat);
        if i == 0 || !(symbols[0].is_poll || symbols[i].is_poll) {
            out.append("  ");
            append_clean_name(out, symbols[i].friendly_name.as_str());
            out.append("\n");
            proof {
                lemma_names_text_push(before, clean_name(views[i as int].friendly_name));
            }
        }
        i += 1;
        assert(out@ =~= start + names_text(
            frame_names(views, i as nat),
            frame_names(views, i as nat).len(),
        ));
    }
}

proof fn lemma_names_text_prefix(a: Seq<Seq<char>>, b: Seq<Seq<char>>, n: nat)
    requires
        n <= a.len(),
        n <= b.len(),
        forall|i: int| 0 <= i < n ==> a[i] == b[i],
    ensures
        names_text(a, n) == names_text(b, n),
    decreases n,
{
    if n > 0 {
        lemma_names_text_prefix(a, b, (n - 1) as nat);
    }
}

proof fn lemma_names_text_push(names: Seq<Seq<char>>, name: Seq<char>)
    ensures
        names_text(names.push(name), names.len() + 1) == names_text(names, names.len()) + "  "@
            + name + "\n"@,
{
    lemma_names_text_prefix(names, names.push(name), names.len());
}

proof fn lemma_names_text_concat(a: Seq<Seq<char>>, b: Seq<Seq<char>>)
    ensures
        names_text(a + b, (a + b).len()) == names_text(a, a.len()) + names_text(b, b.len()),
    decreases b.len(),
{
    if b.len() == 0 {
        assert(a + b =~= a);
        assert(names_text(a, a.len()) + names_text(b, 0) =~= names_text(a, a.len()));
    } else {
        let shorter = b.drop_last();
        lemma_names_text_concat(a, shorter);
        assert(a + b =~= (a + shorter).push(b.last()));
        assert(b =~= shorter.push(b.last()));
        lemma_names_text_push(a + shorter, b.last());
        lemma_names_text_push(shorter, b.last());
        assert(names_text(a + b, (a + b).len()) =~= names_text(a, a.len()) + names_text(
            b,
            b.len(),
        ));
    }
}

proof fn lemma_frame_names_clean(symbols: Seq<crate::symbols::FriendlyView>, n: nat)
    ensures
        forall|j: int|
            0 <= j < frame_names(symbols, n).len() ==> is_clean_name(
                #[trigger] frame_names(symbols, n)[j],
            ),
    decreases n,
{
    if n > 0 {
        lemma_frame_names_clean(symbols, (n - 1) as nat);
        lemma_clean_name(symbols[n - 1].friendly_name);
        let before = frame_names(symbols, (n - 1) as nat);
        assert forall|j: int| 0 <= j < frame_names(symbols, n).len() implies is_clean_name(
            #[trigger] frame_names(symbols, n)[j],
        ) by {
            if j < before.len() {
                assert(frame_names(symbols, n)[j] == before[j]);
            }
        }
    }
}

proof fn lemma_stack_names_clean(
    frames: Seq<u64>,
    n: nat,
    symbols: Map<u64, Seq<crate::symbols::FriendlyView>>,
)
    ensures
        forall|j: int|
            0 <= j < stack_names(frames, n, symbols).len() ==> is_clean_name(
                #[trigger] stack_names(frames, n, symbols)[j],
            ),
    decreases n,
{
    if n > 0 {
        lemma_stack_names_clean(frames, (n - 1) as nat, symbols);
        if symbols.contains_key(frames[n - 1]) {
            lemma_frame_names_clean(symbols[frames[n - 1]], symbols[frames[n - 1]].len());
        }
        let before = stack_names(frames, (n - 1) as nat, symbols);
        let here = frame_names(symbols[frames[n - 1]], symbols[frames[n - 1]].len());
        assert forall|j: int| 0 <= j < stack_names(frames, n, symbols).len() implies is_clean_name(
            #[trigger] stack_names(frames, n, symbols)[j],
        ) by {
            if j < before.len() {
                assert(stack_names(frames, n, symbols)[j] == before[j]);
            } else {
                assert(stack_names(frames, n, symbols)[j] == here[j - before.len()]);
            }
        }
    }
}

proof fn lemma_shown_names_clean(
    frames: Seq<u64>,
    symbols: Map<u64, Seq<crate::symbols::FriendlyView>>,
)
    ensures
        shown_names(frames, symbols).len() > 0,
        forall|j: int|
            0 <= j < shown_names(frames, symbols).len() ==> is_clean_name(
                #[trigger] shown_names(frames, symbols)[j],
            ),
{
    lemma_stack_names_clean(frames, frames.len(), symbols);
    reveal_strlit("<none>");
    assert(is_solid("<none>"@, 0));
    assert(is_clean_name("<none>"@));
}

proof fn lemma_frame_has_name(symbols: Seq<crate::symbols::FriendlyView>, n: nat)
    ensures
        n > 0 <==> frame_names(symbols, n).len() > 0,
    decreases n,
{
    if n > 1 {
        lemma_frame_has_name(symbols, (n - 1) as nat);
    }
}

/// Appends a line for each name that stands for a stack trace.
fn append_shown_names(out: &mut String, stack: &StdCallstack, symbols: &SymbolMap)
    requires
        symbols.wf(),
    ensures
        final(out)@ == old(out)@ + names_text(
            shown_names(stack@, crate::symbols::symbol_views(symbols@)),
            shown_names(stack@, crate::symbols::symbol_views(symbols@)).len(),
        ),
{
    let ghost start = out@;
    let ghost views = crate::symbols::symbol_views(symbols@);
    let frames = stack.frames();
    let mut any: bool = false;
    let mut i: usize = 0;
    assert(out@ =~= start + names_text(stack_names(stack@, 0, views), 0));
    while i < frames.len()
        invariant
            symbols.wf(),
            views == crate::symbols::symbol_views(symbols@),
            frames@ == stack@,
            i <= frames@.len(),
            any == (stack_names(stack@, i as nat, views).len() > 0),
            out@ == start + names_text(
                stack_names(stack@, i as nat, views),
                stack_names(stack@, i as nat, views).len(),
            ),
        decreases frames.len() - i,
    {
        let ghost before = stack_names(stack@, i as nat, views);
        if let Some(frame_symbols) = symbols.get(frames[i]) {
            let ghost here = crate::symbols::friendly_views(frame_symbols@);
            append_frame_names(out, frame_symbols);
            if frame_symbols.len() > 0 {
                any = true;
            }
            proof {
                assert(views[stack@[i as int]] == here);
                lemma_names_text_concat(before, frame_names(here, here.len()));
                lemma_frame_has_name(here, here.len());
            }
        }
        i += 1;
        assert(out@ =~= start + names_text(
            stack_names(stack@, i as nat, views),
            stack_names(stack@, i as nat, views).len(),
        ));
    }
    if !any {
        out.append("  ");
        out.append("<none>");
        out.append("\n");
        proof {
            let none = seq!["<none>"@];
            assert(none =~= Seq::<Seq<char>>::empty().push("<none>"@));
            lemma_names_text_push(Seq::empty(), "<none>"@);
            assert(out@ =~= start + names_text(none, 1));
        }
    }
}

/// A stack trace with its measured bytes, as `dtrace` prints a stack with its count.
pub fn stack_block(stats: &StackStats, symbols: &SymbolMap, measurement: Measurement) -> (r: String)
    requires
        symbols.wf(),
    ensures
        r@ == block_text(
            shown_names(stats@.stack, crate::symbols::symbol_views(symbols@)),
            stats@.measured(measurement),
        ),
{
    let mut out = "\n".to_owned();
    append_shown_names(&mut out, &stats.stack, symbols);
    out.append("  ");
    append_decimal(&mut out, stats.measured_bytes(measurement));
    out
}

/// The stacks of a flamegraph, each as its names and its measured bytes.
pub open spec fn blocks_of(
    stacks: Seq<StackStats>,
    symbols: Map<u64, Seq<crate::symbols::FriendlyView>>,
    measurement: Measurement,
) -> Seq<(Seq<Seq<char>>, u64)> {
    Seq::new(
        stacks.len(),
        |i: int|
            (shown_names(stacks[i]@.stack, symbols), stacks[i]@.measured(measurement)),
    )
}

/// Stacks as `dtrace` prints them.
pub fn stacks_text(stacks: &Vec<StackStats>, symbols: &SymbolMap, measurement: Measurement) -> (r:
    String)
    requires
        symbols.wf(),
    ensures
        r@ == blocks_text(
            blocks_of(stacks@, crate::symbols::symbol_views(symbols@), measurement),
            stacks@.len(),
        ),
{
    let ghost blocks = blocks_of(stacks@, crate::symbols::symbol_views(symbols@), measurement);
    let mut out = String::new();
    let mut i: usize = 0;
    assert(out@ =~= blocks_text(blocks, 0));
    while i < stacks.len()
        invariant
            symbols.wf(),
            blocks == blocks_of(stacks@, crate::symbols::symbol_views(symbols@), measurement),
            i <= stacks@.len(),
            out@ == blocks_text(blocks, i as nat),
        decreases stacks.len() - i,
    {
        out.append(stack_block(&stacks[i], symbols, measurement).as_str());
        out.append("\n");
        i += 1;
    }
    out
}

/// The measured bytes of the first `n` stack traces together.
pub open spec fn bytes_total(stacks: Seq<StackStats>, measurement: Measurement, n: nat) -> nat
    decreases n,
{
    if n == 0 {
        0
    } else {
        bytes_total(stacks, measurement, (n - 1) as nat) + stacks[n - 1]@.measured(
            measurement,
        ) as nat
    }
}

/// Whether the measured bytes of these stack traces are few enough to be drawn.
pub open spec fn bytes_fit(stacks: Seq<StackStats>, measurement: Measurement) -> bool {
    bytes_total(stacks, measurement, stacks.len()) <= most_drawn()
}

proof fn lemma_blocks_total(
    stacks: Seq<StackStats>,
    symbols: Map<u64, Seq<crate::symbols::FriendlyView>>,
    measurement: Measurement,
    n: nat,
)
    requires
        n <= stacks.len(),
    ensures
        blocks_total(blocks_of(stacks, symbols, measurement), n) == bytes_total(
            stacks,
            measurement,
            n,
        ),
    decreases n,
{
    if n > 0 {
        lemma_blocks_total(stacks, symbols, measurement, (n - 1) as nat);
    }
}

/// Whether the measured bytes of these stack traces are few enough to be drawn.
pub fn stacks_fit(stacks: &Vec<StackStats>, measurement: Measurement) -> (r: bool)
    ensures
        r == bytes_fit(stacks@, measurement),
{
    let mut total: u128 = 0;
    let mut i: usize = 0;
    while i < stacks.len()
        invariant
            i <= stacks@.len(),
            total == bytes_total(stacks@, measurement, i as nat),
            total <= i * u64::MAX,
        decreases stacks.len() - i,
    {
        let bytes: u64 = stacks[i].measured_bytes(measurement);
        assert(i * u64::MAX + u64::MAX == (i + 1) * u64::MAX) by (nonlinear_arith);
        assert((i + 1) * u64::MAX <= u128::MAX) by (nonlinear_arith)
            requires
                i + 1 <= u64::MAX,
        ;
        total = total + bytes as u128;
        i += 1;
    }
    total <= (usize::MAX / 100 - 16) as u128
}

/// Stacks folded to lines, ready to be drawn.
pub struct FoldedStacks {
    lines: Vec<u8>,
}

impl View for FoldedStacks {
    type V = Seq<u8>;

    closed spec fn view(&self) -> Seq<u8> {
        self.lines@
    }
}

impl FoldedStacks {
    /// The lines come from folding a text.
    pub open spec fn wf(&self) -> bool {
        exists|text: Seq<char>| #[trigger] is_foldable(text) && folded(text) == self@
    }

    /// Folds stacks.
    pub fn fold(stacks: &Vec<StackStats>, symbols: &SymbolMap, measurement: Measurement) -> (r: Self)
        requires
            symbols.wf(),
            bytes_fit(stacks@, measurement),
        ensures
            r.wf(),
            r@ == folded(
                blocks_text(
                    blocks_of(stacks@, crate::symbols::symbol_views(symbols@), measurement),
                    stacks@.len(),
                ),
            ),
    {
        let ghost views = crate::symbols::symbol_views(symbols@);
        let ghost blocks = blocks_of(stacks@, views, measurement);
        let text = stacks_text(stacks, symbols, measurement);
        proof {
            assert forall|i: int| 0 <= i < blocks.len() implies (#[trigger] blocks[i]).0.len() > 0
                && forall|j: int|
                0 <= j < blocks[i].0.len() ==> is_clean_name(#[trigger] blocks[i].0[j]) by {
                lemma_shown_names_clean(stacks@[i]@.stack, views);
            }
            lemma_blocks_total(stacks@, views, measurement, stacks@.len());
            assert(can_fold(blocks));
            assert(is_foldable(text@));
        }
        FoldedStacks { lines: fold_text(&text).unwrap() }
    }

    /// The folded lines.
    pub fn lines(&self) -> (r: &Vec<u8>)
        ensures
            r@ == self@,
    {
        &self.lines
    }

    /// Draws the stacks as an SVG.
    pub fn draw(&self) -> (r: Drawing)
        requires
            self.wf(),
        ensures
            r.shows(self@),
    {
        draw_lines(&self.lines)
    }
}

} // verus!
