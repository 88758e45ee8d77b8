//! The text format of programs: one instruction per line, a mnemonic and
//! an optional decimal operand, with blank lines and `//` comments skipped.
use vstd::prelude::*;
use crate::machine::{Instruction, Machine};
use crate::semantics::fresh_machine;

verus! {

/// Why a word is not a valid operand.
#[derive(Debug, Clone, Copy, PartialEq, Eq, Structural)]
pub enum OperandError {
    /// An instruction that takes an operand has none.
    Empty,
    /// The word holds no digit, or a character that is not a digit.
    InvalidDigit,
    /// The number is larger than `u32::MAX`.
    PosOverflow,
}

/// Why a program text does not parse. Each error carries the number of the
/// offending line; every line of the text counts, from one.
#[derive(Debug, Clone, Copy, PartialEq, Eq, Structural)]
pub enum InstructionParseError {
    InstructionNotFound { line_number: u32 },
    ParseIntError { err: OperandError, line_number: u32 },
    InvalidSyntax { line_number: u32 },
}

/// Unicode white space, the characters that trimming a line removes.
pub open spec fn is_whitespace(c: char) -> bool {
    let n = c as u32;
    ||| 0x9 <= n <= 0xd
    ||| n == 0x20
    ||| n == 0x85
    ||| n == 0xa0
    ||| n == 0x1680
    ||| 0x2000 <= n <= 0x200a
    ||| n == 0x2028
    ||| n == 0x2029
    ||| n == 0x202f
    ||| n == 0x205f
    ||| n == 0x3000
}

/// ASCII white space, the characters that separate the words of a line.
pub open spec fn is_ascii_whitespace(c: char) -> bool {
    c == ' ' || c == '\t' || c == '\n' || c == '\u{c}' || c == '\r'
}

/// `s` without its leading white space.
pub open spec fn trim_start(s: Seq<char>) -> Seq<char>
    decreases s.len(),
{
    if s.len() > 0 && is_whitespace(s[0]) {
        trim_start(s.drop_first())
    } else {
        s
    }
}

/// `s` without its trailing white space.
pub open spec fn trim_end(s: Seq<char>) -> Seq<char>
    decreases s.len(),
{
    if s.len() > 0 && is_whitespace(s.last()) {
        trim_end(s.drop_last())
    } else {
        s
    }
}

/// `s` without white space at either end.
pub open spec fn trim(s: Seq<char>) -> Seq<char> {
    trim_end(trim_start(s))
}

/// The words of `s` read so far: the finished words and the word still open.
pub open spec fn word_fold(s: Seq<char>) -> (Seq<Seq<char>>, Seq<char>)
    decreases s.len(),
{
    if s.len() == 0 {
        (Seq::empty(), Seq::empty())
    } else {
        let (done, open) = word_fold(s.drop_last());
        if !is_ascii_whitespace(s.last()) {
            (done, open.push(s.last()))
        } else if open.len() > 0 {
            (done.push(open), Seq::empty())
        } else {
            (done, Seq::empty())
        }
    }
}

/// The words of `s`: its maximal runs of characters that are not ASCII
/// white space, in order.
pub open spec fn words_of(s: Seq<char>) -> Seq<Seq<char>> {
    let (done, open) = word_fold(s);
    if open.len() == 0 {
        done
    } else {
        done.push(open)
    }
}

pub open spec fn is_digit(c: char) -> bool {
    '0' <= c <= '9'
}

pub open spec fn digit_value(c: char) -> int {
    c as int - '0' as int
}

/// The number that the decimal digits `d` stand for.
pub open spec fn decimal_value(d: Seq<char>) -> int
    decreases d.len(),
{
    if d.len() == 0 {
        0
    } else {
        decimal_value(d.drop_last()) * 10 + digit_value(d.last())
    }
}

/// The digits of an operand: the word without one leading `+`.
pub open spec fn operand_digits(w: Seq<char>) -> Seq<char> {
    if w.len() > 0 && w[0] == '+' {
        w.drop_first()
    } else {
        w
    }
}

/// The operand that word `w` gives: an optional `+` and at least one
/// decimal digit, with a value that fits in a `u32`.
pub open spec fn operand_value(w: Seq<char>) -> Result<u32, OperandError> {
    let d = operand_digits(w);
    if d.len() == 0 || exists|i: int| 0 <= i < d.len() && !is_digit(d[i]) {
        Err(OperandError::InvalidDigit)
    } else if decimal_value(d) > u32::MAX {
        Err(OperandError::PosOverflow)
    } else {
        Ok(decimal_value(d) as u32)
    }
}

/// The instruction that mnemonic `name` gives with operand `n`, if `name`
/// is one.
pub open spec fn instruction_for(name: Seq<char>, n: u32) -> Option<Instruction> {
    if name == seq!['i', 'n', 'b', 'o', 'x'] {
        Some(Instruction::Inbox)
    } else if name == seq!['o', 'u', 't', 'b', 'o', 'x'] {
        Some(Instruction::Outbox)
    } else if name == seq!['c', 'o', 'p', 'y', 'f', 'r', 'o', 'm'] {
        Some(Instruction::CopyFrom(n))
    } else if name == seq!['c', 'o', 'p', 'y', 't', 'o'] {
        Some(Instruction::CopyTo(n))
    } else if name == seq!['a', 'd', 'd'] {
        Some(Instruction::Add(n))
    } else if name == seq!['s', 'u', 'b'] {
        Some(Instruction::Sub(n))
    } else if name == seq!['m', 'u', 'l'] {
        Some(Instruction::Mul(n))
    } else if name == seq!['b', 'u', 'm', 'p', '+'] {
        Some(Instruction::BumpPlus(n))
    } else if name == seq!['b', 'u', 'm', 'p', '-'] {
        Some(Instruction::BumpMinus(n))
    } else if name == seq!['l', 'a', 'b', 'e', 'l'] {
        Some(Instruction::Label(n))
    } else if name == seq!['j', 'u', 'm', 'p'] {
        Some(Instruction::Jump(n))
    } else if name == seq!['j', 'u', 'm', 'p', 'z', 'e', 'r', 'o'] {
        Some(Instruction::JumpIfZero(n))
    } else if name == seq!['j', 'u', 'm', 'p', 'n', 'e', 'g', 'a', 't', 'i', 'v', 'e'] {
        Some(Instruction::JumpIfNegative(n))
    } else {
        None
    }
}

/// A line that holds no instruction: blank, or a `//` comment.
pub open spec fn is_skipped(line: Seq<char>) -> bool {
    line.len() == 0 || (line.len() >= 2 && line[0] == '/' && line[1] == '/')
}

/// Whether an instruction carries an operand: all do but `Inbox` and `Outbox`.
pub open spec fn takes_operand(ins: Instruction) -> bool {
    !(ins is Inbox || ins is Outbox)
}

/// The instruction on a trimmed line that is neither blank nor a comment, or
/// why it has none. Two words are a mnemonic and its operand, which is read
/// first. One word is a mnemonic alone, an error for a mnemonic that takes
/// an operand.
pub open spec fn instruction_of_line(line: Seq<char>, line_number: u32) -> Result<Instruction, InstructionParseError> {
    let w = words_of(line);
    if w.len() > 2 {
        Err(InstructionParseError::InvalidSyntax { line_number })
    } else if w.len() == 2 {
        match operand_value(w[1]) {
            Err(err) => Err(InstructionParseError::ParseIntError { err, line_number }),
            Ok(n) => match instruction_for(w[0], n) {
                Some(ins) => Ok(ins),
                None => Err(InstructionParseError::InstructionNotFound { line_number }),
            },
        }
    } else {
        match instruction_for(w[0], 0) {
            Some(ins) => if takes_operand(ins) {
                Err(InstructionParseError::ParseIntError { err: OperandError::Empty, line_number })
            } else {
                Ok(ins)
            },
            None => Err(InstructionParseError::InstructionNotFound { line_number }),
        }
    }
}

/// The program that `lines` hold, the first of which has number
/// `line_number`, or the error of its first line that fails.
pub open spec fn program_of_lines(lines: Seq<Seq<char>>, line_number: nat) -> Result<Seq<Instruction>, InstructionParseError>
    decreases lines.len(),
{
    if lines.len() == 0 {
        Ok(Seq::empty())
    } else {
        let line = trim(lines[0]);
        if is_skipped(line) {
            program_of_lines(lines.drop_first(), line_number + 1)
        } else {
            match instruction_of_line(line, line_number as u32) {
                Err(e) => Err(e),
                Ok(ins) => match program_of_lines(lines.drop_first(), line_number + 1) {
                    Ok(rest) => Ok(seq![ins] + rest),
                    Err(e) => Err(e),
                },
            }
        }
    }
}

spec fn prepend(p: Seq<Instruction>, r: Result<Seq<Instruction>, InstructionParseError>) -> Result<Seq<Instruction>, InstructionParseError> {
    match r {
        Ok(q) => Ok(p + q),
        Err(e) => Err(e),
    }
}

proof fn lemma_prepend_push(p: Seq<Instruction>, ins: Instruction, r: Result<Seq<Instruction>, InstructionParseError>)
    ensures
        prepend(p, match r {
            Ok(q) => Ok(seq![ins] + q),
            Err(e) => Err(e),
        }) == prepend(p.push(ins), r),
{
    match r {
        Ok(q) => assert(p + (seq![ins] + q) =~= p.push(ins) + q),
        Err(_) => {},
    }
}

/// The lines of `text` read so far: the finished lines, each without its
/// `\n` and without a `\r` just before it, and the line still open.
pub open spec fn line_fold(text: Seq<char>) -> (Seq<Seq<char>>, Seq<char>)
    decreases text.len(),
{
    if text.len() == 0 {
        (Seq::empty(), Seq::empty())
    } else {
        let (done, open) = line_fold(text.drop_last());
        if text.last() == '\n' {
            (done.push(strip_cr(open)), Seq::empty())
        } else {
            (done, open.push(text.last()))
        }
    }
}

/// `line` without one trailing carriage return.
pub open spec fn strip_cr(line: Seq<char>) -> Seq<char> {
    if line.len() > 0 && line.last() == '\r' {
        line.drop_last()
    } else {
        line
    }
}

/// The lines of `text`: split at each `\n` (or `\r\n`); a final line ending
/// adds no empty line.
pub open spec fn lines_of(text: Seq<char>) -> Seq<Seq<char>> {
    let (done, open) = line_fold(text);
    if open.len() == 0 {
        done
    } else {
        done.push(open)
    }
}

/// Lines of a program's source text, ready to be parsed.
pub struct InstructionParser {
    lines: Vec<Vec<char>>,
}

impl View for InstructionParser {
    type V = Seq<Seq<char>>;

    closed spec fn view(&self) -> Seq<Seq<char>> {
        self.lines@.map_values(|l: Vec<char>| l@)
    }
}


fn is_whitespace_char(c: char) -> (r: bool)
    ensures
        r == is_whitespace(c),
{
    let n = c as u32;
    (0x9 <= n && n <= 0xd) || n == 0x20 || n == 0x85 || n == 0xa0 || n == 0x1680 || (0x2000 <= n
        && n <= 0x200a) || n == 0x2028 || n == 0x2029 || n == 0x202f || n == 0x205f || n == 0x3000
}

fn is_ascii_whitespace_char(c: char) -> (r: bool)
    ensures
        r == is_ascii_whitespace(c),
{
    c == ' ' || c == '\t' || c == '\n' || c == '\u{c}' || c == '\r'
}

/// The line without white space at either end; the first character of a
/// non-empty result is not white space.
fn trimmed(line: &Vec<char>) -> (t: Vec<char>)
    ensures
        t@ == trim(line@),
        t@.len() > 0 ==> !is_whitespace(t@[0]),
{
    let n = line.len();
    let mut start: usize = 0;
    assert(line@.subrange(0, n as int) =~= line@);
    while start < n && is_whitespace_char(line[start])
        invariant
            start <= n == line@.len(),
            trim_start(line@) == trim_start(line@.subrange(start as int, n as int)),
        decreases n - start,
    {
        assert(line@.subrange(start as int, n as int).drop_first() =~= line@.subrange(start + 1, n as int));
        start += 1;
    }
    let mut end: usize = n;
    while end > start && is_whitespace_char(line[end - 1])
        invariant
            start <= end <= n == line@.len(),
            trim(line@) == trim_end(line@.subrange(start as int, end as int)),
            start < n ==> !is_whitespace(line@[start as int]),
        decreases end,
    {
        assert(line@.subrange(start as int, end as int).drop_last() =~= line@.subrange(start as int, end - 1));
        end -= 1;
    }
    let mut t: Vec<char> = Vec::new();
    let mut i: usize = start;
    while i < end
        invariant
            start <= i <= end <= n == line@.len(),
            t@ == line@.subrange(start as int, i as int),
        decreases end - i,
    {
        t.push(line[i]);
        i += 1;
    }
    t
}

/// A text whose first character is not ASCII white space has a word.
proof fn lemma_words_nonempty(s: Seq<char>)
    requires
        s.len() > 0,
        !is_ascii_whitespace(s[0]),
    ensures
        words_of(s).len() > 0,
        word_fold(s).0.len() > 0 || word_fold(s).1.len() > 0,
    decreases s.len(),
{
    if s.len() > 1 {
        lemma_words_nonempty(s.drop_last());
    }
}

/// Splits `s` into its words.
fn words(s: &Vec<char>) -> (w: Vec<Vec<char>>)
    ensures
        w@.map_values(|x: Vec<char>| x@) == words_of(s@),
{
    let mut done: Vec<Vec<char>> = Vec::new();
    let mut open: Vec<char> = Vec::new();
    let mut i: usize = 0;
    while i < s.len()
        invariant
            i <= s@.len(),
            word_fold(s@.take(i as int)) == (done@.map_values(|x: Vec<char>| x@), open@),
        decreases s.len() - i,
    {
        assert(s@.take(i + 1).drop_last() =~= s@.take(i as int));
        let c = s[i];
        if !is_ascii_whitespace_char(c) {
            open.push(c);
        } else if open.len() > 0 {
            done.push(open);
            open = Vec::new();
            assert(done@.map_values(|x: Vec<char>| x@) =~= word_fold(s@.take(i + 1)).0);
        }
        i += 1;
    }
    assert(s@.take(i as int) =~= s@);
    if open.len() > 0 {
        done.push(open);
        assert(done@.map_values(|x: Vec<char>| x@) =~= words_of(s@));
    }
    done
}

/// A prefix of decimal digits stands for at most the whole.
proof fn lemma_decimal_prefix(d: Seq<char>, k: int)
    requires
        0 <= k <= d.len(),
        forall|i: int| 0 <= i < d.len() ==> is_digit(d[i]),
    ensures
        0 <= decimal_value(d.take(k)) <= decimal_value(d),
    decreases d.len(),
{
    if k == d.len() {
        assert(d.take(k) =~= d);
        if d.len() > 0 {
            lemma_decimal_prefix(d.drop_last(), 0);
        }
    } else {
        lemma_decimal_prefix(d.drop_last(), k);
        assert(d.drop_last().take(k) =~= d.take(k));
    }
}

/// Reads word `w` as an operand.
fn parse_operand(w: &Vec<char>) -> (r: Result<u32, OperandError>)
    ensures
        r == operand_value(w@),
{
    let start: usize = if w.len() > 0 && w[0] == '+' { 1 } else { 0 };
    let ghost d = operand_digits(w@);
    assert(d =~= w@.subrange(start as int, w@.len() as int));
    if start == w.len() {
        return Err(OperandError::InvalidDigit);
    }
    let mut i: usize = start;
    while i < w.len()
        invariant
            start <= i <= w@.len(),
            d == operand_digits(w@),
            d =~= w@.subrange(start as int, w@.len() as int),
            forall|j: int| 0 <= j < i - start ==> is_digit(d[j]),
        decreases w.len() - i,
    {
        if !('0' <= w[i] && w[i] <= '9') {
            assert(!is_digit(d[i - start]));
            assert(exists|j: int| 0 <= j < d.len() && !is_digit(d[j]));
            return Err(OperandError::InvalidDigit);
        }
        i += 1;
    }
    let mut value: u64 = 0;
    let mut i: usize = start;
    while i < w.len()
        invariant
            start <= i <= w@.len(),
            d == operand_digits(w@),
            d =~= w@.subrange(start as int, w@.len() as int),
            forall|j: int| 0 <= j < d.len() ==> is_digit(d[j]),
            value == decimal_value(d.take(i - start)),
            value <= u32::MAX,
        decreases w.len() - i,
    {
        assert(d.take(i + 1 - start).drop_last() =~= d.take(i - start));
        assert(is_digit(d[i - start]));
        let digit = (w[i] as u32 - '0' as u32) as u64;
        value = value * 10 + digit;
        if value > u32::MAX as u64 {
            proof {
                lemma_decimal_prefix(d, i + 1 - start);
            }
            return Err(OperandError::PosOverflow);
        }
        i += 1;
    }
    assert(d.take(i - start) =~= d);
    Ok(value as u32)
}

/// Whether `a` holds exactly the characters of `b`.
fn same_chars(a: &Vec<char>, b: &[char]) -> (r: bool)
    ensures
        r == (a@ == b@),
{
    if a.len() != b.len() {
        return false;
    }
    let mut i: usize = 0;
    while i < a.len()
        invariant
            i <= a@.len() == b@.len(),
            forall|j: int| 0 <= j < i ==> a@[j] == b@[j],
        decreases a.len() - i,
    {
        if a[i] != b[i] {
            return false;
        }
        i += 1;
    }
    assert(a@ =~= b@);
    true
}

/// The instruction that mnemonic `name` gives with operand `n`, if `name`
/// is one.
fn decode(name: &Vec<char>, n: u32) -> (r: Option<Instruction>)
    ensures
        r == instruction_for(name@, n),
{
    if same_chars(name, &['i', 'n', 'b', 'o', 'x']) {
        Some(Instruction::Inbox)
    } else if same_chars(name, &['o', 'u', 't', 'b', 'o', 'x']) {
        Some(Instruction::Outbox)
    } else if same_chars(name, &['c', 'o', 'p', 'y', 'f', 'r', 'o', 'm']) {
        Some(Instruction::CopyFrom(n))
    } else if same_chars(name, &['c', 'o', 'p', 'y', 't', 'o']) {
        Some(Instruction::CopyTo(n))
    } else if same_chars(name, &['a', 'd', 'd']) {
        Some(Instruction::Add(n))
    } else if same_chars(name, &['s', 'u', 'b']) {
        Some(Instruction::Sub(n))
    } else if same_chars(name, &['m', 'u', 'l']) {
        Some(Instruction::Mul(n))
    } else if same_chars(name, &['b', 'u', 'm', 'p', '+']) {
        Some(Instruction::BumpPlus(n))
    } else if same_chars(name, &['b', 'u', 'm', 'p', '-']) {
        Some(Instruction::BumpMinus(n))
    } else if same_chars(name, &['l', 'a', 'b', 'e', 'l']) {
        Some(Instruction::Label(n))
    } else if same_chars(name, &['j', 'u', 'm', 'p']) {
        Some(Instruction::Jump(n))
    } else if same_chars(name, &['j', 'u', 'm', 'p', 'z', 'e', 'r', 'o']) {
        Some(Instruction::JumpIfZero(n))
    } else if same_chars(name, &['j', 'u', 'm', 'p', 'n', 'e', 'g', 'a', 't', 'i', 'v', 'e']) {
        Some(Instruction::JumpIfNegative(n))
    } else {
        None
    }
}

/// Parses a trimmed line that is neither blank nor a comment.
fn parse_line(line: &Vec<char>, line_number: u32) -> (r: Result<Instruction, InstructionParseError>)
    requires
        line@.len() > 0,
        !is_whitespace(line@[0]),
    ensures
        r == instruction_of_line(line@, line_number),
{
    proof {
        lemma_words_nonempty(line@);
    }
    let parts = words(line);
    if parts.len() > 2 {
        return Err(InstructionParseError::InvalidSyntax { line_number });
    }
    if parts.len() == 2 {
        match parse_operand(&parts[1]) {
            Ok(n) => match decode(&parts[0], n) {
                Some(ins) => Ok(ins),
                None => Err(InstructionParseError::InstructionNotFound { line_number }),
            },
            Err(err) => Err(InstructionParseError::ParseIntError { err, line_number }),
        }
    } else {
        match decode(&parts[0], 0) {
            Some(ins) => match ins {
                Instruction::Inbox | Instruction::Outbox => Ok(ins),
                _ => Err(InstructionParseError::ParseIntError { err: OperandError::Empty, line_number }),
            },
            None => Err(InstructionParseError::InstructionNotFound { line_number }),
        }
    }
}

fn chars_of(text: &str) -> (v: Vec<char>)
    ensures
        v@ == text@,
{
    let mut v: Vec<char> = Vec::new();
    for c in it: text.chars()
        invariant
            it.seq() == text@,
            v@ == it.seq().take(it.index() as int),
    {
        v.push(c);
    }
    v
}

impl InstructionParser {
    /// How many lines the text has.
    pub fn line_count(&self) -> (r: usize)
        ensures
            r == self@.len(),
    {
        self.lines.len()
    }

    /// Splits `program` into its lines.
    pub fn new_from_str(program: &str) -> (p: Self)
        ensures
            p@ == lines_of(program@),
    {
        let text = chars_of(program);
        let mut lines: Vec<Vec<char>> = Vec::new();
        let mut open: Vec<char> = Vec::new();
        let mut i: usize = 0;
        while i < text.len()
            invariant
                i <= text@.len(),
                line_fold(text@.take(i as int)) == (lines@.map_values(|l: Vec<char>| l@), open@),
            decreases text.len() - i,
        {
            assert(text@.take(i + 1).drop_last() =~= text@.take(i as int));
            let c = text[i];
            if c == '\n' {
                if open.len() > 0 && open[open.len() - 1] == '\r' {
                    open.pop();
                }
                lines.push(open);
                open = Vec::new();
                assert(lines@.map_values(|l: Vec<char>| l@) =~= line_fold(text@.take(i + 1)).0);
            } else {
                open.push(c);
            }
            i += 1;
        }
        assert(text@.take(i as int) =~= text@);
        if open.len() > 0 {
            lines.push(open);
            assert(lines@.map_values(|l: Vec<char>| l@) =~= lines_of(text@));
        }
        InstructionParser { lines }
    }

    /// Parses every line into an instruction, skipping blank lines and `//`
    /// comments, and builds a machine with ten registers for the program.
    pub fn parse(&self) -> (r: Result<Machine, InstructionParseError>)
        requires
            self@.len() < u32::MAX,
        ensures
            match program_of_lines(self@, 1) {
                Ok(program) => r is Ok && r->Ok_0.wf() && r->Ok_0@ == fresh_machine(program, 10, false),
                Err(e) => r == Err::<Machine, InstructionParseError>(e),
            },
    {
        let mut instructions: Vec<Instruction> = Vec::new();
        let mut i: usize = 0;
        proof {
            assert(self@.skip(0) =~= self@);
            if let Ok(q) = program_of_lines(self@, 1) {
                assert(instructions@ + q =~= q);
            }
        }
        while i < self.lines.len()
            invariant
                i <= self@.len() < u32::MAX,
                program_of_lines(self@, 1) == prepend(instructions@, program_of_lines(self@.skip(i as int), (i + 1) as nat)),
            decreases self@.len() - i,
        {
            let ghost rest = self@.skip(i as int);
            assert(rest.drop_first() =~= self@.skip(i + 1));
            let line_number: u32 = (i + 1) as u32;
            let line = trimmed(&self.lines[i]);
            if line.len() == 0 || (line.len() >= 2 && line[0] == '/' && line[1] == '/') {
                i += 1;
                continue;
            }
            match parse_line(&line, line_number) {
                Ok(ins) => {
                    proof {
                        lemma_prepend_push(instructions@, ins, program_of_lines(self@.skip(i + 1), (i + 2) as nat));
                    }
                    instructions.push(ins);
                },
                Err(e) => {
                    return Err(e);
                },
            }
            i += 1;
        }
        assert(instructions@ + Seq::<Instruction>::empty() =~= instructions@);
        Ok(Machine::new(instructions, 10, false))
    }
}

} // verus!
