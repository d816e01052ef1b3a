//! The label resolver: a static pre-pass that maps each label name to an
//! address, and the parser for the label operand of jump and call opcodes.
//!
//! Addresses are counted in a deliberately unusual way: a running total of
//! the lengths of the lines that are not label declarations, with line
//! terminators not counted. A declaration line (any line holding a colon)
//! contributes nothing, whatever follows its colon. When a name is declared
//! twice, the later declaration wins.
use vstd::prelude::*;

verus! {

/// ASCII whitespace, as `char::is_whitespace` sees it on single bytes.
pub open spec fn is_space(b: u8) -> bool {
    b == 32 || (9 <= b && b <= 13)
}

/// The index of the first newline at or after `i`, or the text length.
pub open spec fn line_end(p: Seq<u8>, i: int) -> int
    decreases p.len() - i,
{
    if i < 0 || i >= p.len() {
        p.len() as int
    } else if p[i] == 10 {
        i
    } else {
        line_end(p, i + 1)
    }
}

/// The end of the visible text of the line that starts at `i`: its newline,
/// or the carriage return just before that newline.
pub open spec fn line_text_end(p: Seq<u8>, i: int) -> int {
    let e = line_end(p, i);
    if i < e && e < p.len() && p[e - 1] == 13 {
        e - 1
    } else {
        e
    }
}

/// The index of the first colon in `p[i..hi]`, if there is one.
pub open spec fn colon_in(p: Seq<u8>, i: int, hi: int) -> Option<int>
    decreases hi - i,
{
    if i < 0 || i >= hi {
        None
    } else if p[i] == 58 {
        Some(i)
    } else {
        colon_in(p, i + 1, hi)
    }
}

/// The start of `p[lo..hi]` once leading whitespace is skipped.
pub open spec fn trim_start(p: Seq<u8>, lo: int, hi: int) -> int
    decreases hi - lo,
{
    if 0 <= lo && lo < hi && is_space(p[lo]) {
        trim_start(p, lo + 1, hi)
    } else {
        lo
    }
}

/// The end of `p[lo..hi]` once trailing whitespace is dropped.
pub open spec fn trim_end(p: Seq<u8>, lo: int, hi: int) -> int
    decreases hi - lo,
{
    if lo < hi && hi <= p.len() && is_space(p[hi - 1]) {
        trim_end(p, lo, hi - 1)
    } else {
        hi
    }
}

/// `p[lo..hi]` with surrounding whitespace removed.
pub open spec fn trimmed(p: Seq<u8>, lo: int, hi: int) -> Seq<u8> {
    let s = trim_start(p, lo, hi);
    p.subrange(s, trim_end(p, s, hi))
}

/// The label declarations of the lines starting at `i`, in text order, each
/// with its address; `addr` is the address reached before that line.
pub open spec fn label_decls_from(p: Seq<u8>, i: int, addr: int) -> Seq<(Seq<u8>, int)>
    decreases p.len() + 1 - i,
    via label_decls_from_decreases
{
    if i < 0 || i >= p.len() {
        Seq::empty()
    } else {
        let e = line_text_end(p, i);
        let next = line_end(p, i) + 1;
        match colon_in(p, i, e) {
            Some(c) => seq![(trimmed(p, i, c), addr)] + label_decls_from(p, next, addr),
            None => label_decls_from(p, next, addr + (e - i)),
        }
    }
}

#[via_fn]
proof fn label_decls_from_decreases(p: Seq<u8>, i: int, addr: int) {
    if 0 <= i < p.len() {
        lemma_line_end_bounds(p, i);
    }
}

/// Every label declaration of the program text, in text order.
pub open spec fn label_decls(p: Seq<u8>) -> Seq<(Seq<u8>, int)> {
    label_decls_from(p, 0, 0)
}

/// The index after the spaces and tabs that start at `i`.
pub open spec fn skip_blanks(p: Seq<u8>, i: int) -> int
    decreases p.len() - i,
{
    if 0 <= i < p.len() && (p[i] == 32 || p[i] == 9) {
        skip_blanks(p, i + 1)
    } else {
        i
    }
}

/// The end of the run of non-whitespace bytes that starts at `i`.
pub open spec fn token_end(p: Seq<u8>, i: int) -> int
    decreases p.len() - i,
{
    if 0 <= i < p.len() && !is_space(p[i]) {
        token_end(p, i + 1)
    } else {
        i
    }
}

/// The index after the `*` sigils that start at `i`, stopping at `hi`.
pub open spec fn skip_sigils(p: Seq<u8>, i: int, hi: int) -> int
    decreases hi - i,
{
    if 0 <= i < hi && i < p.len() && p[i] == 42 {
        skip_sigils(p, i + 1, hi)
    } else {
        i
    }
}

/// The end of the label operand of the jump or call opcode at `at`: the
/// token that follows the opcode on its line.
pub open spec fn operand_end(p: Seq<u8>, at: int) -> int {
    token_end(p, skip_blanks(p, at + 1))
}

/// The start of the label name in the operand of the opcode at `at`, once
/// its leading `*` sigils are stripped.
pub open spec fn operand_name_start(p: Seq<u8>, at: int) -> int {
    skip_sigils(p, skip_blanks(p, at + 1), operand_end(p, at))
}

/// The label named by the operand of the jump or call opcode at `at`.
pub open spec fn operand_name(p: Seq<u8>, at: int) -> Seq<u8> {
    p.subrange(operand_name_start(p, at), operand_end(p, at))
}

/// The address bound to `name`: that of its last declaration.
pub open spec fn lookup(decls: Seq<(Seq<u8>, int)>, name: Seq<u8>) -> Option<int>
    decreases decls.len(),
{
    if decls.len() == 0 {
        None
    } else if decls.last().0 == name {
        Some(decls.last().1)
    } else {
        lookup(decls.drop_last(), name)
    }
}

/// The address that the program text binds to `name`, if any.
pub open spec fn label_address(p: Seq<u8>, name: Seq<u8>) -> Option<int> {
    lookup(label_decls(p), name)
}

proof fn lemma_line_end_bounds(p: Seq<u8>, i: int)
    requires
        0 <= i <= p.len(),
    ensures
        i <= line_end(p, i) <= p.len(),
        line_end(p, i) < p.len() ==> p[line_end(p, i)] == 10,
    decreases p.len() - i,
{
    if i < p.len() && p[i] != 10 {
        lemma_line_end_bounds(p, i + 1);
    }
}

/// One declared label and the address it is bound to.
struct LabelEntry {
    name: Vec<u8>,
    address: usize,
}

/// The label table: every declaration in text order. Lookups take the last
/// declaration of a name, so a later declaration overrides an earlier one.
pub struct LabelTable {
    entries: Vec<LabelEntry>,
}

impl View for LabelTable {
    type V = Seq<(Seq<u8>, int)>;

    closed spec fn view(&self) -> Seq<(Seq<u8>, int)> {
        self.entries@.map_values(|e: LabelEntry| (e.name@, e.address as int))
    }
}

impl LabelTable {
    /// A table with no labels.
    pub fn new() -> (r: LabelTable)
        ensures
            r@ == Seq::<(Seq<u8>, int)>::empty(),
    {
        let r = LabelTable { entries: Vec::new() };
        assert(r@ =~= Seq::<(Seq<u8>, int)>::empty());
        r
    }

    /// Number of declarations held.
    pub fn len(&self) -> (r: usize)
        ensures
            r == self@.len(),
    {
        self.entries.len()
    }

    /// Records a declaration of `name` at `address`, after all earlier ones.
    pub fn declare(&mut self, name: Vec<u8>, address: usize)
        ensures
            final(self)@ == old(self)@.push((name@, address as int)),
    {
        let ghost before = self@;
        self.entries.push(LabelEntry { name, address });
        assert(self@ =~= before.push((name@, address as int)));
    }
}

/// The address bound to `label`: that of its last declaration, if any.
pub fn resolve_address(labels: &LabelTable, label: &[u8]) -> (r: Option<usize>)
    ensures
        r is Some <==> lookup(labels@, label@) is Some,
        r matches Some(a) ==> lookup(labels@, label@) == Some(a as int),
{
    let mut i: usize = labels.entries.len();
    assert(labels@.subrange(0, i as int) =~= labels@);
    while i > 0
        invariant
            i <= labels.entries@.len(),
            lookup(labels@, label@) == lookup(labels@.subrange(0, i as int), label@),
        decreases i,
    {
        let ghost prefix = labels@.subrange(0, i as int);
        assert(prefix.drop_last() =~= labels@.subrange(0, i - 1));
        let e = &labels.entries[i - 1];
        if bytes_equal(e.name.as_slice(), label) {
            return Some(e.address);
        }
        i = i - 1;
    }
    None
}

/// Where the label name of the jump or call opcode at `at` lies: its start
/// (after any `*` sigils) and its end, which is also the end of the whole
/// instruction.
pub fn label_operand(p: &[u8], at: usize) -> (r: (usize, usize))
    requires
        at < p@.len(),
    ensures
        r.0 == operand_name_start(p@, at as int),
        r.1 == operand_end(p@, at as int),
        at < r.0 <= r.1 <= p@.len(),
{
    let n = p.len();
    let mut i = at + 1;
    while i < n && (p[i] == 32 || p[i] == 9)
        invariant
            n == p@.len(),
            at < i <= n,
            skip_blanks(p@, at + 1) == skip_blanks(p@, i as int),
        decreases n - i,
    {
        i = i + 1;
    }
    let start = i;
    let mut end = i;
    while end < n && !is_space_byte(p[end])
        invariant
            n == p@.len(),
            start <= end <= n,
            token_end(p@, start as int) == token_end(p@, end as int),
        decreases n - end,
    {
        end = end + 1;
    }
    let mut name = start;
    while name < end && p[name] == 42
        invariant
            n == p@.len(),
            start <= name <= end <= n,
            skip_sigils(p@, start as int, end as int) == skip_sigils(p@, name as int, end as int),
        decreases end - name,
    {
        name = name + 1;
    }
    (name, end)
}

/// Whether two byte strings are equal.
pub fn bytes_equal(a: &[u8], b: &[u8]) -> (r: bool)
    ensures
        r == (a@ == b@),
{
    if a.len() != b.len() {
        return false;
    }
    let mut i: usize = 0;
    while i < a.len()
        invariant
            a@.len() == b@.len(),
            i <= a@.len(),
            forall|j: int| 0 <= j < i ==> a@[j] == b@[j],
        decreases a@.len() - i,
    {
        if a[i] != b[i] {
            return false;
        }
        i = i + 1;
    }
    assert(a@ =~= b@);
    true
}

/// The index of the first newline at or after `i`, or the text length.
fn find_line_end(p: &[u8], i: usize) -> (r: usize)
    requires
        i <= p@.len(),
    ensures
        r == line_end(p@, i as int),
        i <= r <= p@.len(),
{
    let mut j = i;
    while j < p.len() && p[j] != 10
        invariant
            i <= j <= p@.len(),
            line_end(p@, i as int) == line_end(p@, j as int),
        decreases p@.len() - j,
    {
        j = j + 1;
    }
    j
}

/// The index of the first colon in `p[i..hi]`, if there is one.
fn find_colon(p: &[u8], i: usize, hi: usize) -> (r: Option<usize>)
    requires
        i <= hi <= p@.len(),
    ensures
        r is Some <==> colon_in(p@, i as int, hi as int) is Some,
        r matches Some(c) ==> colon_in(p@, i as int, hi as int) == Some(c as int) && i <= c < hi,
{
    let mut j = i;
    while j < hi
        invariant
            i <= j <= hi <= p@.len(),
            colon_in(p@, i as int, hi as int) == colon_in(p@, j as int, hi as int),
        decreases hi - j,
    {
        if p[j] == 58 {
            return Some(j);
        }
        j = j + 1;
    }
    None
}

/// Whether a byte is ASCII whitespace.
pub fn is_space_byte(b: u8) -> (r: bool)
    ensures
        r == is_space(b),
{
    b == 32 || (9 <= b && b <= 13)
}

/// The start of `p[lo..hi]` once leading whitespace is skipped.
fn skip_space(p: &[u8], lo: usize, hi: usize) -> (r: usize)
    requires
        lo <= hi <= p@.len(),
    ensures
        r == trim_start(p@, lo as int, hi as int),
        lo <= r <= hi,
{
    let mut j = lo;
    while j < hi && is_space_byte(p[j])
        invariant
            lo <= j <= hi <= p@.len(),
            trim_start(p@, lo as int, hi as int) == trim_start(p@, j as int, hi as int),
        decreases hi - j,
    {
        j = j + 1;
    }
    j
}

/// The end of `p[lo..hi]` once trailing whitespace is dropped.
fn drop_trailing_space(p: &[u8], lo: usize, hi: usize) -> (r: usize)
    requires
        lo <= hi <= p@.len(),
    ensures
        r == trim_end(p@, lo as int, hi as int),
        lo <= r <= hi,
{
    let mut j = hi;
    while j > lo && is_space_byte(p[j - 1])
        invariant
            lo <= j <= hi <= p@.len(),
            trim_end(p@, lo as int, hi as int) == trim_end(p@, lo as int, j as int),
        decreases j - lo,
    {
        j = j - 1;
    }
    j
}

/// A copy of `p[lo..hi]`.
pub fn copy_range(p: &[u8], lo: usize, hi: usize) -> (r: Vec<u8>)
    requires
        lo <= hi <= p@.len(),
    ensures
        r@ == p@.subrange(lo as int, hi as int),
{
    let mut r: Vec<u8> = Vec::new();
    let mut j = lo;
    while j < hi
        invariant
            lo <= j <= hi <= p@.len(),
            r@ == p@.subrange(lo as int, j as int),
        decreases hi - j,
    {
        r.push(p[j]);
        j = j + 1;
        assert(r@ =~= p@.subrange(lo as int, j as int));
    }
    r
}

/// Builds the label table of a program text in one pass over its lines.
///
/// A line holding a colon declares the label named by the text before its
/// first colon, trimmed of whitespace, at the current address; every other
/// line adds its length, without its line terminator, to the address.
pub fn parse_labels(program: &[u8]) -> (r: LabelTable)
    ensures
        r@ == label_decls(program@),
        forall|k: int| 0 <= k < r@.len() ==> 0 <= #[trigger] r@[k].1 <= program@.len(),
{
    let mut table = LabelTable::new();
    let mut start: usize = 0;
    let mut addr: usize = 0;
    while start < program.len()
        invariant
            start <= program@.len(),
            addr <= start,
            table@ + label_decls_from(program@, start as int, addr as int) == label_decls(program@),
            forall|k: int| 0 <= k < table@.len() ==> 0 <= #[trigger] table@[k].1 <= program@.len(),
        decreases program@.len() - start,
    {
        let ghost p = program@;
        let ghost before = table@;
        let end = find_line_end(program, start);
        let text_end = if start < end && end < program.len() && program[end - 1] == 13 {
            end - 1
        } else {
            end
        };
        assert(text_end == line_text_end(p, start as int));
        let next = if end < program.len() {
            end + 1
        } else {
            end
        };
        match find_colon(program, start, text_end) {
            Some(c) => {
                let s = skip_space(program, start, c);
                let e = drop_trailing_space(program, s, c);
                let name = copy_range(program, s, e);
                assert(name@ == trimmed(p, start as int, c as int));
                assert(label_decls_from(p, next as int, addr as int) == label_decls_from(
                    p,
                    end + 1,
                    addr as int,
                ));
                let ghost entry = (name@, addr as int);
                assert(label_decls_from(p, start as int, addr as int) == seq![entry]
                    + label_decls_from(p, next as int, addr as int));
                table.declare(name, addr);
                assert(table@ + label_decls_from(p, next as int, addr as int) =~= before
                    + label_decls_from(p, start as int, addr as int));
            },
            None => {
                let ghost a2 = addr + (text_end - start);
                assert(label_decls_from(p, next as int, a2) == label_decls_from(p, end + 1, a2));
                addr = addr + (text_end - start);
            },
        }
        start = next;
    }
    assert(label_decls_from(program@, start as int, addr as int) =~= Seq::empty());
    assert(table@ =~= label_decls(program@));
    table
}

} // verus!
