use vstd::prelude::*;

verus! {

broadcast use vstd::std_specs::vec::group_vec_axioms;

/// Newlines in `s` strictly before `end`, counting from `i`.
pub open spec fn spec_count_newlines(s: Seq<u8>, i: int, end: int) -> nat
    decreases end - i,
{
    if i < 0 || i >= end || i >= s.len() {
        0
    } else {
        (if s[i] == 10 {
            1nat
        } else {
            0nat
        }) + spec_count_newlines(s, i + 1, end)
    }
}

/// The 1-based source line a byte offset falls on, or nothing when the
/// offset lies beyond the source: one more than the newlines before it.
pub fn line_of_offset(src: &Vec<u8>, offset: usize) -> (r: Option<u64>)
    requires
        offset < usize::MAX,
    ensures
        match r {
            Some(line) => offset <= src@.len() && line == 1 + spec_count_newlines(
                src@,
                0,
                offset as int,
            ),
            None => offset > src@.len(),
        },
{
    if offset > src.len() {
        return None;
    }
    let mut count: u64 = 0;
    let mut i: usize = 0;
    while i < offset
        invariant
            i <= offset,
            offset <= src@.len(),
            count <= i,
            spec_count_newlines(src@, 0, offset as int) == count + spec_count_newlines(
                src@,
                i as int,
                offset as int,
            ),
        decreases offset - i,
    {
        proof {
            lemma_count_newlines_step(src@, i as int, offset as int);
        }
        if src[i] == 10 {
            count = count + 1;
        }
        i = i + 1;
    }
    Some(1 + count)
}

proof fn lemma_count_newlines_step(s: Seq<u8>, i: int, end: int)
    requires
        0 <= i < end,
        i < s.len(),
    ensures
        spec_count_newlines(s, i, end) == (if s[i] == 10 {
            1nat
        } else {
            0nat
        }) + spec_count_newlines(s, i + 1, end),
{
}

/// First entry for the given line, scanning from `i`.
pub open spec fn spec_find_line(m: Seq<(u64, u64)>, line: u64, i: int) -> Option<int>
    decreases m.len() - i,
{
    if i < 0 || i >= m.len() {
        None
    } else if m[i].0 == line {
        Some(i)
    } else {
        spec_find_line(m, line, i + 1)
    }
}

/// Folds one (line, instruction) pair into the map: a known line keeps
/// the smaller instruction — the first instruction that maps to the
/// line — and a new line is appended.
pub open spec fn spec_add_entry(m: Seq<(u64, u64)>, line: u64, instruction: u64) -> Seq<(u64, u64)> {
    match spec_find_line(m, line, 0) {
        Some(j) => {
            if instruction < m[j].1 {
                m.update(j, (line, instruction))
            } else {
                m
            }
        },
        None => m.push((line, instruction)),
    }
}

pub open spec fn spec_build_line_map(entries: Seq<(u64, u64)>, i: int, acc: Seq<(u64, u64)>) -> Seq<
    (u64, u64),
>
    decreases entries.len() - i,
{
    if i < 0 || i >= entries.len() {
        acc
    } else {
        spec_build_line_map(entries, i + 1, spec_add_entry(acc, entries[i].0, entries[i].1))
    }
}

fn find_line(m: &Vec<(u64, u64)>, line: u64, i: usize) -> (r: Option<usize>)
    requires
        i <= m@.len(),
    ensures
        match r {
            Some(j) => spec_find_line(m@, line, i as int) == Some(j as int) && j < m@.len(),
            None => spec_find_line(m@, line, i as int) is None,
        },
    decreases m@.len() - i,
{
    if i >= m.len() {
        None
    } else if m[i].0 == line {
        Some(i)
    } else {
        find_line(m, line, i + 1)
    }
}

/// Builds the per-line instruction map the debugger needs to translate
/// line breakpoints into instruction offsets: for every line, the least
/// instruction index whose span starts on that line, lines in first-seen
/// order.
pub fn build_line_map(entries: &Vec<(u64, u64)>) -> (r: Vec<(u64, u64)>)
    ensures
        r@ == spec_build_line_map(entries@, 0, Seq::empty()),
{
    let n = entries.len();
    let mut out: Vec<(u64, u64)> = Vec::new();
    let mut i: usize = 0;
    while i < n
        invariant
            i <= n,
            n == entries@.len(),
            spec_build_line_map(entries@, 0, Seq::empty()) == spec_build_line_map(
                entries@,
                i as int,
                out@,
            ),
        decreases n - i,
    {
        let (line, instruction) = entries[i];
        match find_line(&out, line, 0) {
            Some(j) => {
                if instruction < out[j].1 {
                    out.set(j, (line, instruction));
                }
            },
            None => {
                out.push((line, instruction));
            },
        }
        i = i + 1;
    }
    out
}

/// The program counter at which a breakpoint on a source line fires:
/// the line's first instruction index plus the entry's instruction
/// offset, one instruction per four bytes.
pub fn breakpoint_pc(opcode_index: u64, byte_offset: u32) -> (r: u64)
    requires
        opcode_index + (byte_offset as u64) / 4 <= u64::MAX,
    ensures
        r == opcode_index + (byte_offset as u64) / 4,
{
    opcode_index + (byte_offset as u64) / 4
}

} // verus!
