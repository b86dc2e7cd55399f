//! Reading the stack of an uncaught JavaScript error: the frames of a V8
//! stack text, and what is reported for a value that was thrown.
//!
//! A V8 stack is a first line with the error and, after it, one line for
//! each frame: `at function (file:line:column)`, or the same without the
//! function and the brackets, or without the column.

use vstd::prelude::*;
use vstd::std_specs::iter::IteratorSpec;
use crate::text::optional_text;

verus! {

/// Whether a character is white space, as Unicode defines it.
pub open spec fn is_space(c: char) -> bool {
    let n = c as u32;
    (9 <= n <= 13) || n == 0x20 || n == 0x85 || n == 0xa0 || n == 0x1680 || (0x2000 <= n
        <= 0x200a) || n == 0x2028 || n == 0x2029 || n == 0x202f || n == 0x205f || n == 0x3000
}

/// The text without the white space at its start.
pub open spec fn skip_spaces(s: Seq<char>) -> Seq<char>
    decreases s.len(),
{
    if s.len() > 0 && is_space(s[0]) {
        skip_spaces(s.drop_first())
    } else {
        s
    }
}

/// The text without the white space at its end.
pub open spec fn drop_spaces(s: Seq<char>) -> Seq<char>
    decreases s.len(),
{
    if s.len() > 0 && is_space(s.last()) {
        drop_spaces(s.drop_last())
    } else {
        s
    }
}

/// The text without the white space at its start and at its end.
pub open spec fn trimmed(s: Seq<char>) -> Seq<char> {
    drop_spaces(skip_spaces(s))
}

/// The text without the closing brackets at its end.
pub open spec fn strip_closing(s: Seq<char>) -> Seq<char>
    decreases s.len(),
{
    if s.len() > 0 && s.last() == ')' {
        strip_closing(s.drop_last())
    } else {
        s
    }
}

/// The place of the last `c` in the text, where there is one.
pub open spec fn last_index_of(s: Seq<char>, c: char) -> Option<int>
    decreases s.len(),
{
    if s.len() == 0 {
        None
    } else if s.last() == c {
        Some(s.len() - 1)
    } else {
        last_index_of(s.drop_last(), c)
    }
}

/// The place of the first line feed of the text at or after `from`, or the
/// length of the text where there is none.
pub open spec fn line_end(s: Seq<char>, from: int) -> int
    decreases s.len() - from,
{
    if from < 0 || from >= s.len() {
        s.len() as int
    } else if s[from] == '\n' {
        from
    } else {
        line_end(s, from + 1)
    }
}

/// Whether every character of the text is a decimal digit.
pub open spec fn all_digits(s: Seq<char>) -> bool {
    forall|i: int| 0 <= i < s.len() ==> '0' <= #[trigger] s[i] <= '9'
}

/// The number that decimal digits write.
pub open spec fn decimal(s: Seq<char>) -> int
    decreases s.len(),
{
    if s.len() == 0 {
        0
    } else {
        10 * decimal(s.drop_last()) + (s.last() as int - '0' as int)
    }
}

/// The number that decimal digits write, where there is at least one digit
/// and a `u32` holds the number.
pub open spec fn digits_number(digits: Seq<char>) -> Option<u32> {
    if digits.len() > 0 && all_digits(digits) && decimal(digits) <= u32::MAX {
        Some(decimal(digits) as u32)
    } else {
        None
    }
}

/// The number that the text writes: decimal digits, with or without a plus
/// sign before them.
pub open spec fn parse_number(s: Seq<char>) -> Option<u32> {
    if s.len() > 0 && s[0] == '+' {
        digits_number(s.drop_first())
    } else {
        digits_number(s)
    }
}

/// What a frame is.
pub struct FrameView {
    pub function: Option<Seq<char>>,
    pub file: Option<Seq<char>>,
    pub line: Option<u32>,
    pub column: Option<u32>,
}

/// The frame of which nothing is known.
pub open spec fn empty_frame() -> FrameView {
    FrameView { function: None, file: None, line: None, column: None }
}

/// The frame with the place that `location` names. The text is cut at its
/// last two colons, so that the file may hold colons itself:
/// `file:line:column` gives all three, a line or a column that is no number
/// being left out; `file:line` gives the two where the line is a number;
/// any other text is the file as a whole.
pub open spec fn located(location: Seq<char>, frame: FrameView) -> FrameView {
    match last_index_of(location, ':') {
        None => FrameView { file: Some(location), ..frame },
        Some(last) => {
            let head = location.take(last);
            let tail = location.skip(last + 1);
            match last_index_of(head, ':') {
                None => match parse_number(tail) {
                    Some(line) => FrameView { line: Some(line), file: Some(head), ..frame },
                    None => FrameView { file: Some(location), ..frame },
                },
                Some(middle) => FrameView {
                    column: parse_number(tail),
                    line: parse_number(head.skip(middle + 1)),
                    file: Some(head.take(middle)),
                    ..frame
                },
            }
        },
    }
}

/// The frame that one line of a stack describes, where the line, without
/// the white space around it, starts with `at `. What follows is the
/// location, or a function and, from the last opening bracket on, the
/// location in brackets.
pub open spec fn frame_of_line(line: Seq<char>) -> Option<FrameView> {
    let t = trimmed(line);
    if t.len() >= 3 && t[0] == 'a' && t[1] == 't' && t[2] == ' ' {
        let rest = t.skip(3);
        match last_index_of(rest, '(') {
            Some(open) => {
                let function = trimmed(rest.take(open));
                let named = FrameView {
                    function: if function.len() == 0 {
                        None
                    } else {
                        Some(function)
                    },
                    ..empty_frame()
                };
                Some(located(strip_closing(rest.skip(open + 1)), named))
            },
            None => Some(located(rest, empty_frame())),
        }
    } else {
        None
    }
}

/// A line ends at or after each of its places, and within the text.
pub proof fn lemma_line_end_bounds(s: Seq<char>, from: int)
    requires
        0 <= from <= s.len(),
    ensures
        from <= line_end(s, from) <= s.len(),
    decreases s.len() - from,
{
    if from < s.len() && s[from] != '\n' {
        lemma_line_end_bounds(s, from + 1);
    }
}

/// The frames of the lines of `s` from the line that starts at `from` on.
pub open spec fn frames_from(s: Seq<char>, from: int) -> Seq<FrameView>
    decreases s.len() - from,
    via frames_from_decreases
{
    if from < 0 || from > s.len() {
        Seq::empty()
    } else {
        let end = line_end(s, from);
        let here = match frame_of_line(s.subrange(from, end)) {
            Some(frame) => seq![frame],
            None => Seq::empty(),
        };
        if end >= s.len() {
            here
        } else {
            here + frames_from(s, end + 1)
        }
    }
}

#[via_fn]
proof fn frames_from_decreases(s: Seq<char>, from: int) {
    if 0 <= from <= s.len() {
        lemma_line_end_bounds(s, from);
    }
}

/// The frames of a V8 stack: those of its lines after the first.
pub open spec fn stack_frames(s: Seq<char>) -> Seq<FrameView> {
    let end = line_end(s, 0);
    if end >= s.len() {
        Seq::empty()
    } else {
        frames_from(s, end + 1)
    }
}

/// One frame of a stack.
#[derive(Debug, Clone, PartialEq, Eq)]
pub struct StackFrame {
    pub function: Option<String>,
    pub file: Option<String>,
    pub line: Option<u32>,
    pub column: Option<u32>,
}

impl View for StackFrame {
    type V = FrameView;

    open spec fn view(&self) -> FrameView {
        FrameView {
            function: optional_text(self.function),
            file: optional_text(self.file),
            line: self.line,
            column: self.column,
        }
    }
}

impl StackFrame {
    /// The frame of which nothing is known.
    pub fn new() -> (r: Self)
        ensures
            r@ == empty_frame(),
    {
        StackFrame { function: None, file: None, line: None, column: None }
    }
}

/// The frames of a stack, innermost first. An incomplete stack is one of
/// which frames are missing.
#[derive(Debug, Clone, PartialEq, Eq)]
pub struct StackTrace {
    pub frames: Vec<StackFrame>,
    pub incomplete: bool,
}

/// The frames of a list, each as what it is.
pub open spec fn frames_view(frames: Seq<StackFrame>) -> Seq<FrameView> {
    Seq::new(frames.len(), |i: int| frames[i]@)
}

impl StackTrace {
    /// The stack with the given frames.
    pub fn from_frames(frames: Vec<StackFrame>, incomplete: bool) -> (r: Self)
        ensures
            r.frames == frames,
            r.incomplete == incomplete,
    {
        StackTrace { frames, incomplete }
    }

    /// The stack of which no frame is known.
    pub fn new_incomplete() -> (r: Self)
        ensures
            r.frames@.len() == 0,
            r.incomplete,
    {
        StackTrace { frames: Vec::new(), incomplete: true }
    }
}

/// The characters of a text, one by one.
fn chars_of(s: &str) -> (r: Vec<char>)
    ensures
        r@ == s@,
{
    let mut r: Vec<char> = Vec::new();
    for c in it: s.chars()
        invariant
            it.seq() == s@,
            r@ == s@.take(it.index() as int),
    {
        r.push(c);
        assert(r@ =~= s@.take(it.index() + 1));
    }
    assert(s@.take(s@.len() as int) =~= s@);
    r
}

/// The characters of `s` from place `from` up to place `to`, as a text of
/// their own.
fn piece(s: &str, from: usize, to: usize) -> (r: String)
    requires
        from <= to <= s@.len(),
    ensures
        r@ == s@.subrange(from as int, to as int),
{
    s.substring_char(from, to).to_owned()
}

fn space(c: char) -> (r: bool)
    ensures
        r == is_space(c),
{
    let n: u32 = c as u32;
    (9 <= n && n <= 13) || n == 0x20 || n == 0x85 || n == 0xa0 || n == 0x1680 || (0x2000 <= n
        && n <= 0x200a) || n == 0x2028 || n == 0x2029 || n == 0x202f || n == 0x205f || n
        == 0x3000
}

/// The range that is left of the range `from..to` without the white space
/// at its two ends.
fn trim_range(chars: &Vec<char>, from: usize, to: usize) -> (r: (usize, usize))
    requires
        from <= to <= chars@.len(),
    ensures
        from <= r.0 <= r.1 <= to,
        chars@.subrange(r.0 as int, r.1 as int) == trimmed(chars@.subrange(from as int, to as int)),
{
    let mut a: usize = from;
    while a < to && space(chars[a])
        invariant
            from <= a <= to <= chars@.len(),
            skip_spaces(chars@.subrange(from as int, to as int)) == skip_spaces(
                chars@.subrange(a as int, to as int),
            ),
        decreases to - a,
    {
        assert(chars@.subrange(a as int, to as int).drop_first() =~= chars@.subrange(
            a as int + 1,
            to as int,
        ));
        a += 1;
    }
    let mut b: usize = to;
    while b > a && space(chars[b - 1])
        invariant
            a <= b <= to <= chars@.len(),
            drop_spaces(chars@.subrange(a as int, to as int)) == drop_spaces(
                chars@.subrange(a as int, b as int),
            ),
        decreases b,
    {
        assert(chars@.subrange(a as int, b as int).drop_last() =~= chars@.subrange(
            a as int,
            b as int - 1,
        ));
        b -= 1;
    }
    (a, b)
}

/// The place of the last `c` in the range `from..to`.
fn last_in_range(chars: &Vec<char>, from: usize, to: usize, c: char) -> (r: Option<usize>)
    requires
        from <= to <= chars@.len(),
    ensures
        match r {
            Some(i) => from <= i < to && last_index_of(
                chars@.subrange(from as int, to as int),
                c,
            ) == Some(i - from),
            None => last_index_of(chars@.subrange(from as int, to as int), c) is None,
        },
{
    let mut b: usize = to;
    while b > from
        invariant
            from <= b <= to <= chars@.len(),
            last_index_of(chars@.subrange(from as int, to as int), c) == last_index_of(
                chars@.subrange(from as int, b as int),
                c,
            ),
        decreases b,
    {
        if chars[b - 1] == c {
            return Some(b - 1);
        }
        assert(chars@.subrange(from as int, b as int).drop_last() =~= chars@.subrange(
            from as int,
            b as int - 1,
        ));
        b -= 1;
    }
    None
}

/// The end of the line that holds the place `from`.
fn end_of_line(chars: &Vec<char>, from: usize) -> (r: usize)
    requires
        from <= chars@.len(),
    ensures
        from <= r <= chars@.len(),
        r == line_end(chars@, from as int),
{
    let mut e: usize = from;
    while e < chars.len() && chars[e] != '\n'
        invariant
            from <= e <= chars@.len(),
            line_end(chars@, from as int) == line_end(chars@, e as int),
        decreases chars@.len() - e,
    {
        e += 1;
    }
    e
}

/// The digits of a longer number write a number that is no smaller.
proof fn lemma_decimal_grows(s: Seq<char>, k: int)
    requires
        all_digits(s),
        0 <= k <= s.len(),
    ensures
        0 <= decimal(s.take(k)) <= decimal(s),
    decreases s.len() - k,
{
    if k == s.len() {
        assert(s.take(k) =~= s);
        lemma_decimal_positive(s);
    } else {
        lemma_decimal_grows(s, k + 1);
        assert(s.take(k + 1).drop_last() =~= s.take(k));
        assert(s.take(k + 1).last() == s[k]);
        lemma_decimal_positive(s.take(k));
    }
}

proof fn lemma_decimal_positive(s: Seq<char>)
    requires
        all_digits(s),
    ensures
        0 <= decimal(s),
    decreases s.len(),
{
    if s.len() > 0 {
        assert(all_digits(s.drop_last())) by {
            assert forall|i: int| 0 <= i < s.drop_last().len() implies '0' <= #[trigger] s.drop_last()[i]
                <= '9' by {
                assert(s.drop_last()[i] == s[i]);
            }
        }
        lemma_decimal_positive(s.drop_last());
    }
}

/// The number that the range `from..to` writes.
fn number_in_range(chars: &Vec<char>, from: usize, to: usize) -> (r: Option<u32>)
    requires
        from <= to <= chars@.len(),
    ensures
        r == parse_number(chars@.subrange(from as int, to as int)),
{
    let ghost whole = chars@.subrange(from as int, to as int);
    let start: usize = if from < to && chars[from] == '+' {
        from + 1
    } else {
        from
    };
    let ghost digits = chars@.subrange(start as int, to as int);
    proof {
        if from < to && chars@[from as int] == '+' {
            assert(whole[0] == '+');
            assert(whole.drop_first() =~= digits);
        } else {
            if whole.len() > 0 {
                assert(whole[0] == chars@[from as int]);
            }
            assert(whole =~= digits);
        }
    }
    if start == to {
        return None;
    }
    let mut value: u64 = 0;
    let mut i: usize = start;
    proof {
        assert(digits.take(0) =~= Seq::<char>::empty());
    }
    while i < to
        invariant
            start <= i <= to <= chars@.len(),
            digits == chars@.subrange(start as int, to as int),
            digits.len() > 0,
            parse_number(chars@.subrange(from as int, to as int)) == digits_number(digits),
            all_digits(digits.take(i - start)),
            value == decimal(digits.take(i - start)),
            value <= u32::MAX,
        decreases to - i,
    {
        let c: char = chars[i];
        if !('0' <= c && c <= '9') {
            proof {
                assert(digits[i - start] == c);
            }
            return None;
        }
        let d: u64 = (c as u32 - '0' as u32) as u64;
        let ghost shorter = digits.take(i - start);
        let ghost longer = digits.take(i - start + 1);
        proof {
            assert(longer.drop_last() =~= shorter);
            assert(longer.last() == c);
            assert forall|k: int| 0 <= k < longer.len() implies '0' <= #[trigger] longer[k]
                <= '9' by {
                if k < shorter.len() {
                    assert(shorter[k] == longer[k]);
                }
            }
        }
        value = 10 * value + d;
        if value > u32::MAX as u64 {
            proof {
                if all_digits(digits) {
                    lemma_decimal_grows(digits, i - start + 1);
                }
            }
            return None;
        }
        i += 1;
    }
    proof {
        assert(digits.take(to - start) =~= digits);
    }
    Some(value as u32)
}

/// Reads the place that `location` names into `frame`: the file and, where
/// they are given as numbers, the line and the column.
pub fn parse_location(location: &str, frame: &mut StackFrame)
    ensures
        final(frame)@ == located(location@, old(frame)@),
{
    let chars = chars_of(location);
    let n: usize = chars.len();
    assert(chars@.subrange(0, n as int) =~= location@);
    match last_in_range(&chars, 0, n, ':') {
        None => {
            frame.file = Some(piece(location, 0, n));
            assert(location@.subrange(0, n as int) =~= location@);
        },
        Some(last) => {
            let ghost head = location@.take(last as int);
            let ghost tail = location@.skip(last as int + 1);
            assert(chars@.subrange(0, last as int) =~= head);
            assert(chars@.subrange(last as int + 1, n as int) =~= tail);
            match last_in_range(&chars, 0, last, ':') {
                None => {
                    match number_in_range(&chars, last + 1, n) {
                        Some(line) => {
                            frame.line = Some(line);
                            frame.file = Some(piece(location, 0, last));
                            assert(location@.subrange(0, last as int) =~= head);
                        },
                        None => {
                            frame.file = Some(piece(location, 0, n));
                            assert(location@.subrange(0, n as int) =~= location@);
                        },
                    }
                },
                Some(middle) => {
                    assert(chars@.subrange(middle as int + 1, last as int) =~= head.skip(
                        middle as int + 1,
                    ));
                    frame.column = number_in_range(&chars, last + 1, n);
                    frame.line = number_in_range(&chars, middle + 1, last);
                    frame.file = Some(piece(location, 0, middle));
                    assert(location@.subrange(0, middle as int) =~= head.take(middle as int));
                },
            }
        },
    }
}

/// The frame that the line in the range `from..to` of a stack describes.
fn frame_in_range(stack: &str, chars: &Vec<char>, from: usize, to: usize) -> (r: Option<
    StackFrame,
>)
    requires
        chars@ == stack@,
        from <= to <= chars@.len(),
    ensures
        match r {
            Some(frame) => frame_of_line(chars@.subrange(from as int, to as int)) == Some(frame@),
            None => frame_of_line(chars@.subrange(from as int, to as int)) is None,
        },
{
    let (a, b) = trim_range(chars, from, to);
    let ghost t = chars@.subrange(a as int, b as int);
    if b - a < 3 || chars[a] != 'a' || chars[a + 1] != 't' || chars[a + 2] != ' ' {
        proof {
            if b - a >= 3 {
                assert(t[0] == chars@[a as int]);
                assert(t[1] == chars@[a + 1]);
                assert(t[2] == chars@[a + 2]);
            }
        }
        return None;
    }
    let start: usize = a + 3;
    let ghost rest = t.skip(3);
    proof {
        assert(t[0] == chars@[a as int]);
        assert(t[1] == chars@[a + 1]);
        assert(t[2] == chars@[a + 2]);
        assert(chars@.subrange(start as int, b as int) =~= rest);
    }
    let mut frame = StackFrame::new();
    match last_in_range(chars, start, b, '(') {
        Some(open) => {
            let (fa, fb) = trim_range(chars, start, open);
            proof {
                assert(chars@.subrange(start as int, open as int) =~= rest.take(open - start));
                assert(chars@.subrange(open as int + 1, b as int) =~= rest.skip(
                    open - start + 1,
                ));
            }
            if fa < fb {
                frame.function = Some(piece(stack, fa, fb));
            }
            let mut end: usize = b;
            while end > open + 1 && chars[end - 1] == ')'
                invariant
                    open + 1 <= end <= b <= chars@.len(),
                    strip_closing(chars@.subrange(open as int + 1, b as int)) == strip_closing(
                        chars@.subrange(open as int + 1, end as int),
                    ),
                decreases end,
            {
                assert(chars@.subrange(open as int + 1, end as int).drop_last()
                    =~= chars@.subrange(open as int + 1, end as int - 1));
                end -= 1;
            }
            let location = stack.substring_char(open + 1, end);
            parse_location(location, &mut frame);
        },
        None => {
            let location = stack.substring_char(start, b);
            parse_location(location, &mut frame);
        },
    }
    Some(frame)
}

/// Reads the frames of a V8 stack. The first line, which names the error,
/// is passed over, and so is every line that does not start with `at `.
/// The stack that comes out is complete.
pub fn parse_v8_stack(stack: &str) -> (r: StackTrace)
    ensures
        !r.incomplete,
        frames_view(r.frames@) == stack_frames(stack@),
{
    let chars = chars_of(stack);
    let n: usize = chars.len();
    let mut frames: Vec<StackFrame> = Vec::new();
    let first = end_of_line(&chars, 0);
    if first >= n {
        assert(frames_view(frames@) =~= stack_frames(stack@));
        return StackTrace::from_frames(frames, false);
    }
    let mut pos: usize = first + 1;
    loop
        invariant_except_break
            frames_view(frames@) + frames_from(chars@, pos as int) == stack_frames(stack@),
        invariant
            chars@ == stack@,
            n == chars@.len(),
            pos <= n,
        ensures
            frames_view(frames@) == stack_frames(stack@),
        decreases n - pos,
    {
        let end = end_of_line(&chars, pos);
        let ghost before = frames_view(frames@);
        match frame_in_range(stack, &chars, pos, end) {
            Some(frame) => {
                let ghost v = frame@;
                frames.push(frame);
                assert(frames_view(frames@) =~= before + seq![v]);
            },
            None => {},
        }
        if end >= n {
            assert(frames_view(frames@) =~= stack_frames(stack@));
            break;
        }
        assert(frames_view(frames@) + frames_from(chars@, end as int + 1) =~= stack_frames(
            stack@,
        ));
        pos = end + 1;
    }
    StackTrace::from_frames(frames, false)
}

/// A text that a property of an error holds counts only where it is not
/// empty.
pub fn non_empty(s: String) -> (r: Option<String>)
    ensures
        r == if s@.len() == 0 {
            None
        } else {
            Some(s)
        },
{
    if s.as_str().is_empty() {
        None
    } else {
        Some(s)
    }
}

/// What was thrown and not caught: an error with what its `name`, `message`
/// and `stack` properties hold, or any other value with its text, where it
/// has one.
#[derive(Debug)]
pub enum Thrown {
    Error { name: Option<String>, message: Option<String>, stack: Option<String> },
    Other { text: Option<String> },
}

/// What is reported for an unhandled exception.
#[derive(Debug)]
pub struct ExceptionReport {
    pub exception_type: Option<String>,
    pub message: Option<String>,
    pub stacktrace: StackTrace,
}

/// Whether `r` is the report for what was thrown. An error is reported
/// under its own name and message, with the frames of its stack, or with an
/// incomplete stack where it has none. Any other value is reported under
/// `fallback_type`, with its text as the message and an incomplete stack.
pub open spec fn reports(r: ExceptionReport, thrown: Thrown, fallback_type: Seq<char>) -> bool {
    match thrown {
        Thrown::Error { name, message, stack } => r.exception_type == name && r.message == message
            && match stack {
            Some(text) => !r.stacktrace.incomplete && frames_view(r.stacktrace.frames@)
                == stack_frames(text@),
            None => r.stacktrace.incomplete && r.stacktrace.frames@.len() == 0,
        },
        Thrown::Other { text } => optional_text(r.exception_type) == Some(fallback_type)
            && r.message == text && r.stacktrace.incomplete && r.stacktrace.frames@.len() == 0,
    }
}

/// Makes the report for what was thrown.
pub fn report_unhandled(thrown: Thrown, fallback_type: &str) -> (r: ExceptionReport)
    ensures
        reports(r, thrown, fallback_type@),
{
    match thrown {
        Thrown::Error { name, message, stack } => {
            let stacktrace = match &stack {
                Some(text) => parse_v8_stack(text.as_str()),
                None => StackTrace::new_incomplete(),
            };
            ExceptionReport { exception_type: name, message, stacktrace }
        },
        Thrown::Other { text } => ExceptionReport {
            exception_type: Some(fallback_type.to_owned()),
            message: text,
            stacktrace: StackTrace::new_incomplete(),
        },
    }
}

/// The report for an exception that no handler caught.
pub fn report_uncaught_exception(thrown: Thrown) -> (r: ExceptionReport)
    ensures
        reports(r, thrown, "uncaughtException"@),
{
    report_unhandled(thrown, "uncaughtException")
}

/// The report for a rejected promise that no handler caught.
pub fn report_unhandled_rejection(thrown: Thrown) -> (r: ExceptionReport)
    ensures
        reports(r, thrown, "unhandledRejection"@),
{
    report_unhandled(thrown, "unhandledRejection")
}

} // verus!
