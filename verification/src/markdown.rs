//! Splitting a long Markdown answer into bounded messages.
//!
//! The text is cut into pieces. A piece that ends inside a code block gets the
//! block's closing fence, and the next piece begins with its opening line.
use vstd::prelude::*;
use vstd::string::*;
use crate::text::{
    blank, byte_count, bytes_add, bytes_of_first, bytes_of_one, bytes_per_char, char_width, chars_of, is_space, space, text_of,
    texts, trimmed_end, width,
};

verus! {

/// Bytes of a part before a closing fence is added.
pub const PAYLOAD: usize = 5500;

/// Longest line, in bytes, that is taken for a fence.
pub const FENCE_LINE: usize = 128;

/// An open code block: its fence, and the line that opened it.
pub struct Fence {
    pub close: Seq<char>,
    pub open: Seq<char>,
}

/// One part: the reopened block's opening line, the share of the text, and the
/// closing fence.
pub struct Piece {
    pub reopened: Seq<char>,
    pub content: Seq<char>,
    pub closed: Seq<char>,
}

/// A cut in progress: the finished pieces, the piece being filled, and the
/// code block that is open at this point of the text.
pub struct Cut {
    pub done: Seq<Piece>,
    pub reopened: Seq<char>,
    pub content: Seq<char>,
    pub fence: Option<Fence>,
}

impl Piece {
    pub open spec fn text(self) -> Seq<char> {
        self.reopened + self.content + self.closed
    }
}

pub open spec fn closing(fence: Option<Fence>) -> Seq<char> {
    match fence {
        Some(f) => "\n"@ + f.close,
        None => Seq::empty(),
    }
}

pub open spec fn reopening(fence: Option<Fence>) -> Seq<char> {
    match fence {
        Some(f) => f.open + "\n"@,
        None => Seq::empty(),
    }
}

/// How many leading characters of `s` are `c`.
pub open spec fn leading(s: Seq<char>, c: char) -> nat
    decreases s.len(),
{
    if s.len() > 0 && s[0] == c {
        leading(s.drop_first(), c) + 1
    } else {
        0
    }
}

/// The line without its leading blanks.
pub open spec fn outdented(line: Seq<char>) -> Seq<char> {
    line.skip(leading(line, ' ') as int)
}

/// Length of the run of backticks or tildes that the outdented line begins with.
pub open spec fn marker_run(line: Seq<char>) -> nat {
    let t = outdented(line);
    if t.len() > 0 && (t[0] == '`' || t[0] == '~') {
        leading(t, t[0])
    } else {
        0
    }
}

/// The line may open or close a code block.
pub open spec fn is_delimiter(line: Seq<char>) -> bool {
    leading(line, ' ') <= 3 && marker_run(line) >= 3 && byte_count(line) <= FENCE_LINE
}

/// The code block that is open after the line.
pub open spec fn fence_after(fence: Option<Fence>, line: Seq<char>) -> Option<Fence> {
    let t = outdented(line);
    let run = marker_run(line) as int;
    if !is_delimiter(line) {
        fence
    } else {
        match fence {
            Some(f) => if f.close.len() <= t.len() && t.take(f.close.len() as int) == f.close && blank(t.skip(run)) {
                None
            } else {
                fence
            },
            None => Some(Fence { close: t.take(run), open: trimmed_end(t) }),
        }
    }
}

/// The most characters of `s` that fit in `room` bytes.
pub open spec fn fitting(s: Seq<char>, room: int) -> nat
    decreases s.len(),
{
    if s.len() > 0 && width(s[0]) <= room {
        fitting(s.drop_first(), room - width(s[0])) + 1
    } else {
        0
    }
}

impl Cut {
    /// Bytes of the piece being filled.
    pub open spec fn filled(self) -> nat {
        byte_count(self.reopened) + byte_count(self.content)
    }

    pub open spec fn room(self) -> int {
        PAYLOAD - self.filled()
    }

    /// The piece being filled is finished and the next one begins.
    pub open spec fn flushed(self) -> Cut {
        Cut {
            done: self.done.push(Piece { reopened: self.reopened, content: self.content, closed: closing(self.fence) }),
            reopened: reopening(self.fence),
            content: Seq::empty(),
            fence: self.fence,
        }
    }

    /// `rest` is poured into pieces, each filled as far as it goes.
    pub open spec fn poured(self, rest: Seq<char>) -> Cut
        decreases rest.len(),
    {
        if rest.len() == 0 {
            self
        } else {
            let start = if fitting(rest, self.room()) == 0 {
                self.flushed()
            } else {
                self
            };
            let n = fitting(rest, start.room()) as int;
            let full = Cut { content: start.content + rest.take(n), ..start };
            if n == 0 || n >= rest.len() {
                full
            } else {
                full.flushed().poured(rest.skip(n))
            }
        }
    }

    /// One line is added. A fence line is not split if it fits in a piece.
    pub open spec fn with_line(self, line: Seq<char>) -> Cut {
        let start = if is_delimiter(line) && self.filled() + byte_count(line) > PAYLOAD {
            self.flushed()
        } else {
            self
        };
        Cut { fence: fence_after(self.fence, line), ..start.poured(line) }
    }

    /// All lines of `text` are added.
    pub open spec fn with_text(self, text: Seq<char>) -> Cut
        decreases text.len(),
    {
        if text.len() == 0 {
            self
        } else {
            let n = line_length(text) as int;
            if n == 0 || n > text.len() {
                self
            } else {
                self.with_line(text.take(n)).with_text(text.skip(n))
            }
        }
    }

    /// Every piece is within its bound and so is what a fence adds.
    pub open spec fn wf(self) -> bool {
        &&& self.filled() <= PAYLOAD
        &&& byte_count(self.reopened) <= FENCE_LINE + 1
        &&& self.fence matches Some(f) ==> byte_count(f.close) <= FENCE_LINE && byte_count(f.open) <= FENCE_LINE
    }
}

/// Length of the first line with its line feed.
pub open spec fn line_length(text: Seq<char>) -> nat
    decreases text.len(),
{
    if text.len() == 0 {
        0
    } else if text[0] == '\n' {
        1
    } else {
        line_length(text.drop_first()) + 1
    }
}

pub open spec fn uncut() -> Cut {
    Cut { done: Seq::empty(), reopened: Seq::empty(), content: Seq::empty(), fence: None }
}

/// The pieces of a text.
pub open spec fn pieces(text: Seq<char>) -> Seq<Piece> {
    let c = uncut().with_text(text);
    if c.reopened.len() + c.content.len() > 0 {
        c.flushed().done
    } else {
        c.done
    }
}

/// The parts to send: the pieces' texts, or a placeholder for an empty text.
pub open spec fn parts_of(text: Seq<char>) -> Seq<Seq<char>> {
    if pieces(text).len() == 0 {
        seq!["（无文本输出）"@]
    } else {
        pieces(text).map_values(|p: Piece| p.text())
    }
}

/// The texts of pieces.
pub open spec fn piece_texts(p: Seq<Piece>) -> Seq<Seq<char>> {
    p.map_values(|p: Piece| p.text())
}

/// A cut in progress. `part` is the text of the piece being filled.
struct Cutter {
    parts: Vec<String>,
    part: String,
    bytes: usize,
    close: Option<String>,
    open: String,
}

impl Cutter {
    spec fn shows(&self, c: Cut) -> bool {
        &&& texts(self.parts@) == piece_texts(c.done)
        &&& self.part@ == c.reopened + c.content
        &&& self.bytes == c.filled()
        &&& (self.close is Some) == (c.fence is Some)
        &&& self.close matches Some(s) ==> s@ == c.fence->Some_0.close && self.open@ == c.fence->Some_0.open
    }

    fn flush(&mut self, Ghost(c): Ghost<Cut>)
        requires
            old(self).shows(c),
            c.wf(),
        ensures
            final(self).shows(c.flushed()),
    {
        let mut next = String::new();
        let mut bytes: usize = 0;
        match &self.close {
            Some(close) => {
                self.part.push('\n');
                self.part.append(close.as_str());
                next.append(self.open.as_str());
                next.push('\n');
                bytes = crate::text::byte_len(next.as_str());
                proof {
                    reveal_strlit("\n");
                    assert(self.part@ =~= c.reopened + c.content + closing(c.fence));
                    assert(next@ =~= reopening(c.fence));
                }
            },
            None => {
                proof {
                    assert(self.part@ =~= c.reopened + c.content + closing(c.fence));
                    assert(next@ =~= reopening(c.fence));
                }
            },
        }
        let ghost piece = Piece { reopened: c.reopened, content: c.content, closed: closing(c.fence) };
        let ghost before = self.parts@;
        std::mem::swap(&mut next, &mut self.part);
        self.parts.push(next);
        self.bytes = bytes;
        proof {
            assert(texts(self.parts@) =~= texts(before).push(piece.text()));
            assert(piece_texts(c.flushed().done) =~= piece_texts(c.done).push(piece.text()));
            assert(self.part@ =~= c.flushed().reopened + c.flushed().content);
        }
    }

    /// Adds as many of the characters `from..to` as fit; returns where it stopped.
    fn fill(&mut self, chars: &Vec<char>, from: usize, to: usize, Ghost(c): Ghost<Cut>) -> (r: usize)
        requires
            old(self).shows(c),
            c.wf(),
            from <= to <= chars@.len(),
        ensures
            r == from + fitting(chars@.subrange(from as int, to as int), c.room()),
            r <= to,
            final(self).shows(Cut { content: c.content + chars@.subrange(from as int, r as int), ..c }),
            (Cut { content: c.content + chars@.subrange(from as int, r as int), ..c }).wf(),
    {
        let mut i: usize = from;
        let ghost rest = chars@.subrange(from as int, to as int);
        proof {
            assert(chars@.subrange(i as int, to as int) =~= rest);
            assert(c.content + chars@.subrange(from as int, i as int) =~= c.content);
        }
        while i < to && char_width(chars[i]) <= PAYLOAD - self.bytes
            invariant
                from <= i <= to <= chars@.len(),
                rest == chars@.subrange(from as int, to as int),
                c.wf(),
                self.bytes <= PAYLOAD,
                self.shows(Cut { content: c.content + chars@.subrange(from as int, i as int), ..c }),
                i - from + fitting(chars@.subrange(i as int, to as int), PAYLOAD - self.bytes) == fitting(rest, c.room()),
            decreases to - i,
        {
            let ghost s = chars@.subrange(i as int, to as int);
            let ghost d = Cut { content: c.content + chars@.subrange(from as int, i as int), ..c };
            let w: usize = char_width(chars[i]);
            self.part.push(chars[i]);
            self.bytes = self.bytes + w;
            proof {
                assert(s.drop_first() =~= chars@.subrange(i + 1, to as int));
                assert(s[0] == chars@[i as int]);
                let e = Cut { content: c.content + chars@.subrange(from as int, i + 1), ..c };
                assert(e.content =~= d.content + seq![chars@[i as int]]);
                bytes_add(d.content, seq![chars@[i as int]]);
                bytes_of_one(chars@[i as int]);
                assert(self.part@ =~= e.reopened + e.content);
            }
            i = i + 1;
        }
        i
    }

    fn pour(&mut self, chars: &Vec<char>, from: usize, to: usize, Ghost(c): Ghost<Cut>)
        requires
            old(self).shows(c),
            c.wf(),
            from <= to <= chars@.len(),
        ensures
            final(self).shows(c.poured(chars@.subrange(from as int, to as int))),
            c.poured(chars@.subrange(from as int, to as int)).wf(),
    {
        let mut i: usize = from;
        let ghost mut d = c;
        let ghost goal = c.poured(chars@.subrange(from as int, to as int));
        while i < to
            invariant
                from <= i <= to <= chars@.len(),
                self.shows(d),
                d.wf(),
                d.poured(chars@.subrange(i as int, to as int)) == goal,
            decreases to - i,
        {
            let ghost rest = chars@.subrange(i as int, to as int);
            let first: usize = char_width(chars[i]);
            let ghost start = if fitting(rest, d.room()) == 0 {
                d.flushed()
            } else {
                d
            };
            if first > PAYLOAD - self.bytes {
                self.flush(Ghost(d));
                proof {
                    flushed_is_wf(d);
                }
            }
            proof {
                assert(rest[0] == chars@[i as int]);
                assert(self.shows(start));
                assert(fitting(rest, start.room()) >= 1);
            }
            let next: usize = self.fill(chars, i, to, Ghost(start));
            let ghost full = Cut { content: start.content + chars@.subrange(i as int, next as int), ..start };
            proof {
                assert(rest.take(next - i) =~= chars@.subrange(i as int, next as int));
                assert(rest.skip(next - i) =~= chars@.subrange(next as int, to as int));
                d = full;
            }
            if next < to {
                self.flush(Ghost(full));
                proof {
                    flushed_is_wf(full);
                    d = full.flushed();
                }
            }
            i = next;
        }
    }
}

proof fn flushed_is_wf(c: Cut)
    requires
        c.wf(),
    ensures
        c.flushed().wf(),
        c.flushed().room() >= 4,
{
    match c.fence {
        Some(f) => {
            reveal_strlit("\n");
            bytes_add(f.open, "\n"@);
            assert("\n"@ =~= seq!['\n']);
            bytes_of_one('\n');
        },
        None => {},
    }
}

proof fn leading_split(s: Seq<char>, c: char)
    ensures
        leading(s, c) <= s.len(),
        forall|i: int| 0 <= i < leading(s, c) ==> s[i] == c,
        leading(s, c) < s.len() ==> s[leading(s, c) as int] != c,
    decreases s.len(),
{
    if s.len() > 0 && s[0] == c {
        leading_split(s.drop_first(), c);
        assert forall|i: int| 0 <= i < leading(s, c) implies s[i] == c by {
            if i > 0 {
                assert(s.drop_first()[i - 1] == s[i]);
            }
        }
    }
}

fn count_leading(chars: &Vec<char>, from: usize, to: usize, c: char) -> (n: usize)
    requires
        from <= to <= chars@.len(),
    ensures
        n == leading(chars@.subrange(from as int, to as int), c),
        from + n <= to,
{
    let mut i: usize = from;
    let ghost rest = chars@.subrange(from as int, to as int);
    while i < to && chars[i] == c
        invariant
            from <= i <= to <= chars@.len(),
            rest == chars@.subrange(from as int, to as int),
            i - from + leading(chars@.subrange(i as int, to as int), c) == leading(rest, c),
        decreases to - i,
    {
        proof {
            let s = chars@.subrange(i as int, to as int);
            assert(s.drop_first() =~= chars@.subrange(i + 1, to as int));
            assert(s[0] == chars@[i as int]);
        }
        i = i + 1;
    }
    proof {
        if i < to {
            assert(chars@.subrange(i as int, to as int)[0] == chars@[i as int]);
        }
    }
    i - from
}

fn count_bytes(chars: &Vec<char>, from: usize, to: usize) -> (n: usize)
    requires
        from <= to <= chars@.len(),
    ensures
        n == byte_count(chars@.subrange(from as int, to as int)) || (n > FENCE_LINE && byte_count(
            chars@.subrange(from as int, to as int),
        ) > FENCE_LINE),
{
    let mut n: usize = 0;
    let mut i: usize = from;
    let ghost rest = chars@.subrange(from as int, to as int);
    while i < to
        invariant
            from <= i <= to <= chars@.len(),
            rest == chars@.subrange(from as int, to as int),
            n <= FENCE_LINE,
            n + byte_count(chars@.subrange(i as int, to as int)) == byte_count(rest),
        decreases to - i,
    {
        proof {
            let s = chars@.subrange(i as int, to as int);
            bytes_of_first(s);
            assert(s.drop_first() =~= chars@.subrange(i + 1, to as int));
        }
        n = n + char_width(chars[i]);
        i = i + 1;
        if n > FENCE_LINE {
            return n;
        }
    }
    n
}

fn range_is_blank(chars: &Vec<char>, from: usize, to: usize) -> (r: bool)
    requires
        from <= to <= chars@.len(),
    ensures
        r == blank(chars@.subrange(from as int, to as int)),
{
    let mut i: usize = from;
    let ghost s = chars@.subrange(from as int, to as int);
    while i < to
        invariant
            from <= i <= to <= chars@.len(),
            s == chars@.subrange(from as int, to as int),
            forall|j: int| 0 <= j < i - from ==> is_space(#[trigger] s[j]),
        decreases to - i,
    {
        if !space(chars[i]) {
            assert(!is_space(s[i - from]));
            return false;
        }
        i = i + 1;
    }
    true
}

fn begins(chars: &Vec<char>, from: usize, to: usize, prefix: &str) -> (r: bool)
    requires
        from <= to <= chars@.len(),
    ensures
        ({
            let s = chars@.subrange(from as int, to as int);
            r == (prefix@.len() <= s.len() && s.take(prefix@.len() as int) == prefix@)
        }),
{
    let p = chars_of(prefix);
    let ghost s = chars@.subrange(from as int, to as int);
    if p.len() > to - from {
        return false;
    }
    let mut i: usize = 0;
    while i < p.len()
        invariant
            i <= p@.len() <= s.len(),
            from + s.len() == to,
            to <= chars@.len(),
            p@ == prefix@,
            s == chars@.subrange(from as int, to as int),
            forall|j: int| 0 <= j < i ==> s[j] == p@[j],
        decreases p.len() - i,
    {
        if chars[from + i] != p[i] {
            assert(s.take(p@.len() as int)[i as int] != p@[i as int]);
            return false;
        }
        i = i + 1;
    }
    proof {
        assert(s.take(p@.len() as int) =~= p@);
    }
    true
}

fn end_trimmed(chars: &Vec<char>, from: usize, to: usize) -> (r: String)
    requires
        from <= to <= chars@.len(),
    ensures
        r@ == trimmed_end(chars@.subrange(from as int, to as int)),
{
    let ghost s = chars@.subrange(from as int, to as int);
    let mut end: usize = to;
    while from < end && space(chars[end - 1])
        invariant
            from <= end <= to <= chars@.len(),
            trimmed_end(chars@.subrange(from as int, end as int)) == trimmed_end(s),
        decreases end - from,
    {
        proof {
            assert(chars@.subrange(from as int, end as int).drop_last() =~= chars@.subrange(from as int, end - 1));
        }
        end = end - 1;
    }
    text_of(chars, from, end)
}

proof fn part_is_smaller(s: Seq<char>, a: int, b: int)
    requires
        0 <= a <= b <= s.len(),
    ensures
        byte_count(s.subrange(a, b)) <= byte_count(s),
{
    assert(s =~= s.take(a) + s.subrange(a, b) + s.skip(b));
    bytes_add(s.take(a) + s.subrange(a, b), s.skip(b));
    bytes_add(s.take(a), s.subrange(a, b));
}

proof fn trimmed_end_is_prefix(s: Seq<char>)
    ensures
        trimmed_end(s).len() <= s.len(),
        trimmed_end(s) == s.take(trimmed_end(s).len() as int),
    decreases s.len(),
{
    if s.len() > 0 && is_space(s.last()) {
        trimmed_end_is_prefix(s.drop_last());
        let t = trimmed_end(s);
        assert(s.drop_last().take(t.len() as int) =~= s.take(t.len() as int));
    } else {
        assert(s.take(s.len() as int) =~= s);
    }
}

/// A fence that a line opens is no longer than the line.
proof fn fences_are_short(fence: Option<Fence>, line: Seq<char>)
    requires
        fence matches Some(f) ==> byte_count(f.close) <= FENCE_LINE && byte_count(f.open) <= FENCE_LINE,
    ensures
        fence_after(fence, line) matches Some(f) ==> byte_count(f.close) <= FENCE_LINE && byte_count(f.open) <= FENCE_LINE,
{
    leading_split(line, ' ');
    let t = outdented(line);
    if t.len() > 0 {
        leading_split(t, t[0]);
    }
    let k = leading(line, ' ') as int;
    let run = marker_run(line) as int;
    trimmed_end_is_prefix(t);
    let e = trimmed_end(t).len() as int;
    if is_delimiter(line) {
        assert(t.take(run) =~= line.subrange(k, k + run));
        part_is_smaller(line, k, k + run);
        assert(t.take(e) =~= line.subrange(k, k + e));
        part_is_smaller(line, k, k + e);
    }
}

/// Bounded UTF-8 parts; split code blocks are closed and reopened with their language.
pub fn markdown_parts(text: &str) -> (r: Vec<String>)
    ensures
        texts(r@) == parts_of(text@),
{
    let chars = chars_of(text);
    let mut cutter = Cutter { parts: Vec::new(), part: String::new(), bytes: 0, close: None, open: String::new() };
    let ghost mut c = uncut();
    let mut i: usize = 0;
    proof {
        assert(texts(cutter.parts@) =~= piece_texts(c.done));
        assert(cutter.part@ =~= c.reopened + c.content);
        assert(chars@.skip(0) =~= text@);
    }
    while i < chars.len()
        invariant
            i <= chars@.len(),
            chars@ == text@,
            cutter.shows(c),
            c.wf(),
            c.with_text(chars@.skip(i as int)) == uncut().with_text(text@),
        decreases chars.len() - i,
    {
        let ghost remaining = chars@.skip(i as int);
        let end: usize = line_end(&chars, i);
        let ghost line = chars@.subrange(i as int, end as int);
        proof {
            assert(remaining.take(end - i) =~= line);
            assert(remaining.skip(end - i) =~= chars@.skip(end as int));
            leading_split(line, ' ');
        }
        let indent: usize = count_leading(&chars, i, end, ' ');
        let from: usize = i + indent;
        proof {
            assert(outdented(line) =~= chars@.subrange(from as int, end as int));
            let t = outdented(line);
            if t.len() > 0 {
                assert(t[0] == chars@[from as int]);
            }
        }
        let run: usize = if from < end && (chars[from] == '`' || chars[from] == '~') {
            count_leading(&chars, from, end, chars[from])
        } else {
            0
        };
        let size: usize = count_bytes(&chars, i, end);
        let delimiter = indent <= 3 && run >= 3 && size <= FENCE_LINE;
        let ghost start = if is_delimiter(line) && c.filled() + byte_count(line) > PAYLOAD {
            c.flushed()
        } else {
            c
        };
        proof {
            assert(run == marker_run(line));
            assert(delimiter == is_delimiter(line));
            assert(c.filled() <= PAYLOAD);
        }
        if delimiter && cutter.bytes + size > PAYLOAD {
            cutter.flush(Ghost(c));
            proof {
                flushed_is_wf(c);
            }
        }
        cutter.pour(&chars, i, end, Ghost(start));
        let ghost poured = start.poured(line);
        let ghost after = Cut { fence: fence_after(c.fence, line), ..poured };
        proof {
            poured_keeps_fence(start, line);
            fences_are_short(c.fence, line);
        }
        if delimiter {
            let closes = match &cutter.close {
                Some(close) => begins(&chars, from, end, close.as_str()) && range_is_blank(&chars, from + run, end),
                None => false,
            };
            let ghost t = outdented(line);
            proof {
                assert(t.skip(run as int) =~= chars@.subrange(from + run, end as int));
                assert(t.take(run as int) =~= chars@.subrange(from as int, from + run));
            }
            if cutter.close.is_some() {
                if closes {
                    cutter.close = None;
                }
            } else {
                cutter.close = Some(text_of(&chars, from, from + run));
                cutter.open = end_trimmed(&chars, from, end);
            }
        }
        proof {
            assert(cutter.shows(after));
            assert(after == c.with_line(line));
            c = after;
        }
        i = end;
    }
    proof {
        assert(chars@.skip(i as int).len() == 0);
    }
    if !cutter.part.as_str().is_empty() {
        cutter.flush(Ghost(c));
    }
    proof {
        assert(texts(cutter.parts@) == piece_texts(pieces(text@)));
    }
    if cutter.parts.len() == 0 {
        cutter.parts.push("（无文本输出）".to_owned());
        proof {
            assert(pieces(text@).len() == piece_texts(pieces(text@)).len());
            assert(texts(cutter.parts@) =~= parts_of(text@));
        }
    } else {
        proof {
            assert(pieces(text@).len() == piece_texts(pieces(text@)).len());
            assert(texts(cutter.parts@).len() == cutter.parts@.len());
        }
    }
    cutter.parts
}

fn line_end(chars: &Vec<char>, from: usize) -> (end: usize)
    requires
        from < chars@.len(),
    ensures
        from < end <= chars@.len(),
        end == from + line_length(chars@.skip(from as int)),
{
    let mut i: usize = from;
    let ghost whole = line_length(chars@.skip(from as int));
    while i < chars.len()
        invariant
            from <= i <= chars@.len(),
            from < chars@.len(),
            whole == i - from + line_length(chars@.skip(i as int)),
            whole == line_length(chars@.skip(from as int)),
        decreases chars.len() - i,
    {
        proof {
            let s = chars@.skip(i as int);
            assert(s.drop_first() =~= chars@.skip(i + 1));
            assert(s[0] == chars@[i as int]);
        }
        i = i + 1;
        if chars[i - 1] == '\n' {
            return i;
        }
    }
    i
}

proof fn poured_keeps_fence(c: Cut, rest: Seq<char>)
    ensures
        c.poured(rest).fence == c.fence,
    decreases rest.len(),
{
    if rest.len() > 0 {
        let start = if fitting(rest, c.room()) == 0 {
            c.flushed()
        } else {
            c
        };
        let n = fitting(rest, start.room()) as int;
        let full = Cut { content: start.content + rest.take(n), ..start };
        if !(n == 0 || n >= rest.len()) {
            poured_keeps_fence(full.flushed(), rest.skip(n));
        }
    }
}

/// The shares of the text that pieces hold, joined.
pub open spec fn joined(p: Seq<Piece>) -> Seq<char>
    decreases p.len(),
{
    if p.len() == 0 {
        Seq::empty()
    } else {
        joined(p.drop_last()) + p.last().content
    }
}

/// What a cut holds of the text so far.
spec fn held(c: Cut) -> Seq<char> {
    joined(c.done) + c.content
}

proof fn flushed_holds(c: Cut)
    ensures
        held(c.flushed()) == held(c),
{
    assert(c.flushed().done.drop_last() =~= c.done);
    assert(held(c.flushed()) =~= held(c));
}

pub proof fn fitting_fits(s: Seq<char>, room: int)
    ensures
        fitting(s, room) <= s.len(),
        s.len() > 0 && room >= 4 ==> fitting(s, room) >= 1,
        room >= 0 ==> byte_count(s.take(fitting(s, room) as int)) <= room,
    decreases s.len(),
{
    if s.len() > 0 && width(s[0]) <= room {
        fitting_fits(s.drop_first(), room - width(s[0]));
        let n = fitting(s, room) as int;
        bytes_of_first(s.take(n));
        assert(s.take(n).drop_first() =~= s.drop_first().take(n - 1));
    } else {
        assert(s.take(0) =~= Seq::empty());
    }
}

/// Pieces that are bounded and not empty, and closed and reopened alike at every cut.
spec fn seams(c: Cut) -> bool {
    &&& c.wf()
    &&& forall|i: int| 0 <= i < c.done.len() ==> byte_count((#[trigger] c.done[i]).text()) < 6000
    &&& forall|i: int| 0 <= i < c.done.len() ==> (#[trigger] c.done[i]).text().len() > 0
    &&& forall|i: int, j: int|
        #![trigger c.done[i], c.done[j]]
        0 <= i < c.done.len() && j == i + 1 && j < c.done.len() ==> seam(c.done[i].closed, c.done[j].reopened)
    &&& c.done.len() > 0 ==> seam(c.done.last().closed, c.reopened)
    &&& c.done.len() == 0 ==> c.reopened.len() == 0
    &&& c.done.len() > 0 ==> c.done[0].reopened.len() == 0
}

/// A cut closes and reopens one and the same code block, or none.
pub open spec fn seam(closed: Seq<char>, reopened: Seq<char>) -> bool {
    exists|f: Option<Fence>| closed == closing(f) && reopened == reopening(f)
}

/// What holds a character holds a byte.
proof fn filled_holds(c: Cut)
    ensures
        c.filled() > 0 <==> c.reopened.len() + c.content.len() > 0,
{
    bytes_per_char(c.reopened);
    bytes_per_char(c.content);
}

proof fn flushed_seams(c: Cut)
    requires
        seams(c),
        c.filled() > 0,
    ensures
        seams(c.flushed()),
{
    flushed_is_wf(c);
    let d = c.flushed();
    let piece = d.done.last();
    bytes_add(c.reopened + c.content, closing(c.fence));
    bytes_add(c.reopened, c.content);
    match c.fence {
        Some(f) => {
            reveal_strlit("\n");
            bytes_add("\n"@, f.close);
            assert("\n"@ =~= seq!['\n']);
            bytes_of_one('\n');
        },
        None => {},
    }
    assert(byte_count(piece.text()) < 6000);
    assert(piece.text().len() > 0);
    assert(seam(piece.closed, d.reopened));
    assert forall|i: int, j: int|
        #![trigger d.done[i], d.done[j]]
        0 <= i < d.done.len() && j == i + 1 && j < d.done.len() implies seam(d.done[i].closed, d.done[j].reopened) by {
        if j < c.done.len() {
            assert(c.done[i] == d.done[i] && c.done[j] == d.done[j]);
        } else {
            assert(c.done.last() == d.done[i]);
        }
    }
}

proof fn poured_seams(c: Cut, rest: Seq<char>)
    requires
        seams(c),
    ensures
        seams(c.poured(rest)),
        held(c.poured(rest)) == held(c) + rest,
        rest.len() > 0 ==> c.poured(rest).content.len() > 0,
        c.poured(rest).fence == c.fence,
    decreases rest.len(),
{
    if rest.len() == 0 {
        assert(held(c) + rest =~= held(c));
    } else {
        let start = if fitting(rest, c.room()) == 0 {
            c.flushed()
        } else {
            c
        };
        fitting_fits(rest, c.room());
        if fitting(rest, c.room()) == 0 {
            flushed_seams(c);
        }
        flushed_holds(c);
        flushed_is_wf(c);
        let n = fitting(rest, start.room()) as int;
        fitting_fits(rest, start.room());
        let full = Cut { content: start.content + rest.take(n), ..start };
        bytes_add(start.content, rest.take(n));
        assert(held(full) =~= held(start) + rest.take(n));
        if n >= rest.len() {
            assert(rest.take(n) =~= rest);
        } else {
            filled_holds(full);
            flushed_seams(full);
            flushed_holds(full);
            poured_seams(full.flushed(), rest.skip(n));
            assert(rest =~= rest.take(n) + rest.skip(n));
            assert(held(c) + rest =~= held(full) + rest.skip(n));
        }
    }
}

proof fn line_seams(c: Cut, line: Seq<char>)
    requires
        seams(c),
        line.len() > 0,
    ensures
        seams(c.with_line(line)),
        held(c.with_line(line)) == held(c) + line,
        c.with_line(line).content.len() > 0,
{
    let start = if is_delimiter(line) && c.filled() + byte_count(line) > PAYLOAD {
        c.flushed()
    } else {
        c
    };
    if is_delimiter(line) && c.filled() + byte_count(line) > PAYLOAD {
        flushed_seams(c);
    }
    flushed_holds(c);
    poured_seams(start, line);
    fences_are_short(c.fence, line);
}

proof fn line_is_within(text: Seq<char>)
    requires
        text.len() > 0,
    ensures
        1 <= line_length(text) <= text.len(),
    decreases text.len(),
{
    reveal_with_fuel(line_length, 2);
    if text[0] != '\n' && text.len() > 1 {
        line_is_within(text.drop_first());
    }
}

proof fn text_seams(c: Cut, text: Seq<char>)
    requires
        seams(c),
    ensures
        seams(c.with_text(text)),
        held(c.with_text(text)) == held(c) + text,
        text.len() > 0 ==> c.with_text(text).content.len() > 0,
    decreases text.len(),
{
    if text.len() == 0 {
        assert(held(c) + text =~= held(c));
    } else {
        line_is_within(text);
        let n = line_length(text) as int;
        line_seams(c, text.take(n));
        text_seams(c.with_line(text.take(n)), text.skip(n));
        assert(text =~= text.take(n) + text.skip(n));
        assert(held(c) + text =~= held(c) + text.take(n) + text.skip(n));
        if text.skip(n).len() == 0 {
            assert(c.with_line(text.take(n)).with_text(text.skip(n)) == c.with_line(text.take(n)));
        }
    }
}

/// Cutting loses and adds nothing but fences: joined, the pieces' shares are the text.
pub proof fn pieces_hold_the_text(text: Seq<char>)
    ensures
        joined(pieces(text)) == text,
{
    text_seams(uncut(), text);
    let c = uncut().with_text(text);
    assert(held(uncut()) + text =~= text);
    flushed_holds(c);
    assert(held(c.flushed()) =~= joined(c.flushed().done));
    if c.reopened.len() + c.content.len() == 0 {
        assert(held(c) =~= joined(c.done));
    }
}

/// There is always a part to send, no part is empty, and every part is smaller
/// than 6000 bytes.
pub proof fn parts_are_bounded(text: Seq<char>)
    ensures
        parts_of(text).len() >= 1,
        forall|i: int| 0 <= i < parts_of(text).len() ==> (#[trigger] parts_of(text)[i]).len() > 0,
        forall|i: int| 0 <= i < parts_of(text).len() ==> byte_count(#[trigger] parts_of(text)[i]) < 6000,
{
    text_seams(uncut(), text);
    let c = uncut().with_text(text);
    filled_holds(c);
    if c.filled() > 0 {
        flushed_seams(c);
    }
    reveal_strlit("（无文本输出）");
    bytes_per_char("（无文本输出）"@);
    if pieces(text).len() > 0 {
        assert forall|i: int| 0 <= i < parts_of(text).len() implies byte_count(#[trigger] parts_of(text)[i]) < 6000
            && parts_of(text)[i].len() > 0 by {
            assert(parts_of(text)[i] == pieces(text)[i].text());
        }
    }
}

/// Where a text is cut inside a code block, the block is closed before the cut
/// and reopened with its opening line after it; elsewhere nothing is added.
pub proof fn cuts_close_and_reopen(text: Seq<char>, i: int)
    requires
        0 <= i < pieces(text).len() - 1,
    ensures
        seam(pieces(text)[i].closed, pieces(text)[i + 1].reopened),
        pieces(text)[0].reopened.len() == 0,
{
    text_seams(uncut(), text);
    let c = uncut().with_text(text);
    filled_holds(c);
    if c.filled() > 0 {
        flushed_seams(c);
    }
    let p = pieces(text);
    assert(seam(p[i].closed, p[i + 1].reopened));
}

/// A line that may open or close a code block: at most three blanks, then three
/// backticks or three tildes, in at most 128 bytes.
pub open spec fn fence_line(line: Seq<char>) -> bool {
    &&& byte_count(line) <= 128
    &&& exists|k: int| #[trigger] marks_at(line, k)
}

/// After `k` blanks, at most three, a run of three fence characters begins.
pub open spec fn marks_at(line: Seq<char>, k: int) -> bool {
    &&& 0 <= k <= 3
    &&& k + 3 <= line.len()
    &&& forall|i: int| 0 <= i < k ==> line[i] == ' '
    &&& line[k] == '`' || line[k] == '~'
    &&& line[k + 1] == line[k]
    &&& line[k + 2] == line[k]
}

/// The piece has no room for what comes next: not for its first character, or not
/// for the whole fence line that it begins with.
pub open spec fn no_room(p: Piece, next: Seq<char>) -> bool {
    let used = byte_count(p.reopened) + byte_count(p.content);
    &&& next.len() > 0
    &&& {
        ||| used + byte_count(seq![next[0]]) > 5500
        ||| exists|k: int|
            0 < k <= next.len() && fence_line(#[trigger] next.take(k)) && used + byte_count(next.take(k)) > 5500
    }
}

proof fn no_room_for_more(p: Piece, next: Seq<char>, more: Seq<char>)
    requires
        no_room(p, next),
    ensures
        no_room(p, next + more),
{
    let used = byte_count(p.reopened) + byte_count(p.content);
    if used + byte_count(seq![next[0]]) <= 5500 {
        let k = choose|k: int|
            0 < k <= next.len() && fence_line(#[trigger] next.take(k)) && used + byte_count(next.take(k)) > 5500;
        assert((next + more).take(k) =~= next.take(k));
    }
}

proof fn delimiters_are_fence_lines(line: Seq<char>)
    requires
        is_delimiter(line),
    ensures
        fence_line(line),
{
    leading_split(line, ' ');
    let k = leading(line, ' ') as int;
    let t = outdented(line);
    leading_split(t, t[0]);
    assert(line[k] == t[0] && line[k + 1] == t[1] && line[k + 2] == t[2]);
    assert(marks_at(line, k));
}

/// What fits in the room is taken.
proof fn fitting_takes(s: Seq<char>, room: int, k: int)
    requires
        0 <= k <= s.len(),
        byte_count(s.take(k)) <= room,
    ensures
        fitting(s, room) >= k,
    decreases s.len(),
{
    if k > 0 {
        bytes_of_first(s.take(k));
        assert(s.take(k).drop_first() =~= s.drop_first().take(k - 1));
        fitting_takes(s.drop_first(), room - width(s[0]), k - 1);
    }
}

/// What is left out does not fit.
proof fn fitting_stops(s: Seq<char>, room: int)
    requires
        fitting(s, room) < s.len(),
    ensures
        byte_count(s.take(fitting(s, room) as int)) + width(s[fitting(s, room) as int]) > room,
    decreases s.len(),
{
    let n = fitting(s, room) as int;
    if n > 0 {
        fitting_stops(s.drop_first(), room - width(s[0]));
        bytes_of_first(s.take(n));
        assert(s.take(n).drop_first() =~= s.drop_first().take(n - 1));
        assert(s.drop_first()[n - 1] == s[n]);
    } else {
        assert(s.take(0) =~= Seq::empty());
    }
}

/// Every finished piece had no room for what follows it; `next` follows the
/// last one while nothing has been put into the piece being filled.
spec fn packed(c: Cut, next: Seq<char>) -> bool {
    &&& c.wf()
    &&& forall|i: int, j: int|
        #![trigger c.done[i], c.done[j]]
        0 <= i < c.done.len() && j == i + 1 && j < c.done.len() ==> no_room(c.done[i], c.done[j].content)
    &&& c.done.len() > 0 ==> no_room(
        c.done.last(),
        if c.content.len() > 0 {
            c.content
        } else {
            next
        },
    )
}

proof fn flushed_packed(c: Cut, before: Seq<char>, next: Seq<char>)
    requires
        packed(c, before),
        c.content.len() > 0,
        no_room(c.flushed().done.last(), next),
    ensures
        packed(c.flushed(), next),
{
    flushed_is_wf(c);
    let d = c.flushed();
    assert forall|i: int, j: int|
        #![trigger d.done[i], d.done[j]]
        0 <= i < d.done.len() && j == i + 1 && j < d.done.len() implies no_room(d.done[i], d.done[j].content) by {
        if j < c.done.len() {
            assert(c.done[i] == d.done[i] && c.done[j] == d.done[j]);
        } else {
            assert(c.done.last() == d.done[i]);
        }
    }
}

/// A piece that begins takes the fence line that the one before had no room for.
proof fn begun_packed(c: Cut, rest: Seq<char>, n: int)
    requires
        packed(c, rest),
        rest.len() > 0,
        n == fitting(rest, c.room()),
        n >= 1,
    ensures
        packed(Cut { content: c.content + rest.take(n), ..c }, Seq::empty()),
{
    let full = Cut { content: c.content + rest.take(n), ..c };
    fitting_fits(rest, c.room());
    bytes_add(c.content, rest.take(n));
    if c.done.len() > 0 {
        let p = c.done.last();
        if c.content.len() > 0 {
            no_room_for_more(p, c.content, rest.take(n));
        } else {
            let used = byte_count(p.reopened) + byte_count(p.content);
            assert(full.content =~= rest.take(n));
            if used + byte_count(seq![rest[0]]) <= 5500 {
                let k = choose|k: int|
                    0 < k <= rest.len() && fence_line(#[trigger] rest.take(k)) && used + byte_count(rest.take(k)) > 5500;
                bytes_per_char(c.content);
                fitting_takes(rest, c.room(), k);
                assert(rest.take(n).take(k) =~= rest.take(k));
            } else {
                assert(rest.take(n)[0] == rest[0]);
            }
        }
    }
}

proof fn poured_packed(c: Cut, rest: Seq<char>)
    requires
        packed(c, rest),
    ensures
        packed(c.poured(rest), Seq::empty()),
    decreases rest.len(),
{
    if rest.len() == 0 {
        assert(rest =~= Seq::empty());
    } else {
        bytes_of_first(rest);
        bytes_of_one(rest[0]);
        bytes_per_char(c.content);
        fitting_fits(rest, c.room());
        let start = if fitting(rest, c.room()) == 0 {
            c.flushed()
        } else {
            c
        };
        flushed_is_wf(c);
        if fitting(rest, c.room()) == 0 {
            assert(c.content.len() > 0);
            flushed_packed(c, rest, rest);
        }
        let n = fitting(rest, start.room()) as int;
        fitting_fits(rest, start.room());
        begun_packed(start, rest, n);
        let full = Cut { content: start.content + rest.take(n), ..start };
        if n < rest.len() {
            let left = rest.skip(n);
            fitting_stops(rest, start.room());
            bytes_add(start.content, rest.take(n));
            bytes_of_one(rest[n]);
            assert(left[0] == rest[n]);
            assert(no_room(full.flushed().done.last(), left));
            flushed_packed(full, Seq::empty(), left);
            poured_packed(full.flushed(), left);
        }
    }
}

proof fn line_packed(c: Cut, line: Seq<char>)
    requires
        packed(c, Seq::empty()),
        line.len() > 0,
    ensures
        packed(c.with_line(line), Seq::empty()),
{
    fences_are_short(c.fence, line);
    if is_delimiter(line) && c.filled() + byte_count(line) > PAYLOAD {
        delimiters_are_fence_lines(line);
        bytes_per_char(c.content);
        assert(line.take(line.len() as int) =~= line);
        assert(no_room(c.flushed().done.last(), line));
        flushed_packed(c, Seq::empty(), line);
        poured_packed(c.flushed(), line);
    } else {
        poured_packed(c, line);
    }
}

proof fn text_packed(c: Cut, text: Seq<char>)
    requires
        packed(c, Seq::empty()),
    ensures
        packed(c.with_text(text), Seq::empty()),
    decreases text.len(),
{
    if text.len() > 0 {
        line_is_within(text);
        let n = line_length(text) as int;
        line_packed(c, text.take(n));
        text_packed(c.with_line(text.take(n)), text.skip(n));
    }
}

/// A text is cut only where it must be: in front of a character that would take
/// the part before it beyond 5500 bytes, or in front of a fence line that would.
pub proof fn cuts_are_needed(text: Seq<char>, i: int)
    requires
        0 <= i < pieces(text).len() - 1,
    ensures
        pieces(text)[i + 1].content.len() > 0,
        no_room(pieces(text)[i], pieces(text)[i + 1].content),
{
    text_packed(uncut(), text);
    let c = uncut().with_text(text);
    text_seams(uncut(), text);
    let p = pieces(text);
    if i + 1 < c.done.len() {
        assert(c.done[i] == p[i] && c.done[i + 1] == p[i + 1]);
    } else {
        assert(c.done.last() == p[i]);
        assert(c.content == p[i + 1].content);
    }
}

proof fn poured_whole(c: Cut, rest: Seq<char>)
    requires
        c.filled() + byte_count(rest) <= PAYLOAD,
    ensures
        c.poured(rest) == (Cut { content: c.content + rest, ..c }),
{
    if rest.len() == 0 {
        assert(c.content + rest =~= c.content);
    } else {
        assert(rest.take(rest.len() as int) =~= rest);
        fitting_takes(rest, c.room(), rest.len() as int);
        fitting_fits(rest, c.room());
    }
}

proof fn text_whole(c: Cut, text: Seq<char>)
    requires
        c.filled() + byte_count(text) <= PAYLOAD,
    ensures
        c.with_text(text).done == c.done,
        c.with_text(text).reopened == c.reopened,
        c.with_text(text).content == c.content + text,
    decreases text.len(),
{
    if text.len() == 0 {
        assert(c.content + text =~= c.content);
    } else {
        line_is_within(text);
        let n = line_length(text) as int;
        let line = text.take(n);
        assert(text =~= line + text.skip(n));
        bytes_add(line, text.skip(n));
        bytes_add(c.content, line);
        poured_whole(c, line);
        text_whole(c.with_line(line), text.skip(n));
        assert(c.content + line + text.skip(n) =~= c.content + text);
    }
}

/// No three backticks and no three tildes stand side by side.
pub open spec fn unfenced(text: Seq<char>) -> bool {
    forall|i: int| #![trigger text[i]]
        0 <= i && i + 2 < text.len() && (text[i] == '`' || text[i] == '~') ==> text[i + 1] != text[i] || text[i + 2] != text[i]
}

proof fn text_unfenced(c: Cut, text: Seq<char>)
    requires
        unfenced(text),
        c.fence is None,
        c.reopened.len() == 0,
        forall|i: int| 0 <= i < c.done.len() ==> (#[trigger] c.done[i]).closed.len() == 0 && c.done[i].reopened.len() == 0,
    ensures
        c.with_text(text).fence is None,
        c.with_text(text).reopened.len() == 0,
        forall|i: int|
            0 <= i < c.with_text(text).done.len() ==> (#[trigger] c.with_text(text).done[i]).closed.len() == 0
                && c.with_text(text).done[i].reopened.len() == 0,
    decreases text.len(),
{
    if text.len() > 0 {
        line_is_within(text);
        let n = line_length(text) as int;
        let line = text.take(n);
        if is_delimiter(line) {
            delimiters_are_fence_lines(line);
            let k = choose|k: int| #[trigger] marks_at(line, k);
            assert(text[k] == line[k] && text[k + 1] == line[k + 1] && text[k + 2] == line[k + 2]);
        }
        poured_keeps_fence(c, line);
        poured_unfenced(c, line);
        assert(c.with_line(line) == c.poured(line));
        assert forall|i: int| #![trigger text.skip(n)[i]]
            0 <= i && i + 2 < text.skip(n).len() && (text.skip(n)[i] == '`' || text.skip(n)[i] == '~') implies text.skip(n)[i + 1]
                != text.skip(n)[i] || text.skip(n)[i + 2] != text.skip(n)[i] by {
            assert(text.skip(n)[i] == text[n + i]);
        }
        text_unfenced(c.with_line(line), text.skip(n));
    }
}

proof fn poured_unfenced(c: Cut, rest: Seq<char>)
    requires
        c.fence is None,
        c.reopened.len() == 0,
        forall|i: int| 0 <= i < c.done.len() ==> (#[trigger] c.done[i]).closed.len() == 0 && c.done[i].reopened.len() == 0,
    ensures
        c.poured(rest).fence is None,
        c.poured(rest).reopened.len() == 0,
        forall|i: int|
            0 <= i < c.poured(rest).done.len() ==> (#[trigger] c.poured(rest).done[i]).closed.len() == 0
                && c.poured(rest).done[i].reopened.len() == 0,
    decreases rest.len(),
{
    if rest.len() > 0 {
        let start = if fitting(rest, c.room()) == 0 {
            c.flushed()
        } else {
            c
        };
        let n = fitting(rest, start.room()) as int;
        fitting_fits(rest, start.room());
        let full = Cut { content: start.content + rest.take(n), ..start };
        if !(n == 0 || n >= rest.len()) {
            poured_unfenced(full.flushed(), rest.skip(n));
        }
    }
}

/// A text of at most 5500 bytes is one part. The part is the text, and behind it
/// at most the closing fence of a code block that the text leaves open.
pub proof fn short_texts_are_one_part(text: Seq<char>)
    requires
        text.len() > 0,
        byte_count(text) <= 5500,
    ensures
        parts_of(text).len() == 1,
        text.len() <= parts_of(text)[0].len(),
        parts_of(text)[0].take(text.len() as int) == text,
        unfenced(text) ==> parts_of(text) == seq![text],
{
    let c = uncut().with_text(text);
    text_whole(uncut(), text);
    assert(Seq::<char>::empty() + text =~= text);
    let part = parts_of(text)[0];
    assert(part == pieces(text)[0].text());
    assert(part =~= text + closing(c.fence));
    assert(part.take(text.len() as int) =~= text);
    if unfenced(text) {
        text_unfenced(uncut(), text);
        assert(part =~= text);
        assert(parts_of(text) =~= seq![text]);
    }
}

/// A text without fences is cut and nothing is added: the parts are its pieces.
pub proof fn plain_parts_are_the_text(text: Seq<char>)
    requires
        text.len() > 0,
        unfenced(text),
    ensures
        parts_of(text).len() == pieces(text).len(),
        forall|i: int| 0 <= i < parts_of(text).len() ==> #[trigger] parts_of(text)[i] == pieces(text)[i].content,
        joined(pieces(text)) == text,
{
    pieces_hold_the_text(text);
    text_unfenced(uncut(), text);
    assert forall|i: int| 0 <= i < parts_of(text).len() && pieces(text).len() > 0 implies #[trigger] parts_of(text)[i]
        == pieces(text)[i].content by {
        assert(parts_of(text)[i] == pieces(text)[i].text());
        assert(pieces(text)[i].text() =~= pieces(text)[i].content);
    }
    if pieces(text).len() == 0 {
        assert(joined(pieces(text)) =~= Seq::<char>::empty());
    }
}

/// A text that fits in the room fits whole.
pub proof fn whole_texts_fit(s: Seq<char>, room: int)
    requires
        byte_count(s) <= room,
    ensures
        fitting(s, room) == s.len(),
{
    assert(s.take(s.len() as int) =~= s);
    fitting_takes(s, room, s.len() as int);
    fitting_fits(s, room);
}

/// A text that does not fit is cut where the next character would not fit.
pub proof fn cut_texts_are_full(s: Seq<char>, room: int)
    requires
        0 <= room < byte_count(s),
    ensures
        fitting(s, room) < s.len(),
        byte_count(s.take(fitting(s, room) as int)) <= room,
        byte_count(s.take(fitting(s, room) as int + 1)) > room,
{
    fitting_fits(s, room);
    let n = fitting(s, room) as int;
    if n == s.len() {
        assert(s.take(n) =~= s);
    } else {
        fitting_stops(s, room);
        assert(s.take(n + 1) =~= s.take(n) + seq![s[n]]);
        bytes_add(s.take(n), seq![s[n]]);
        bytes_of_one(s[n]);
    }
}

/// A run of three or more fence characters, at most three blanks from the left,
/// opens a code block: the block is closed by the same run, and reopened with the
/// line that opened it. A line that holds such a run of at least that length and
/// nothing else closes it; any other line leaves it open.
pub proof fn fences_open_and_close(mark: char, n: nat, info: Seq<char>, m: nat)
    requires
        mark == '`' || mark == '~',
        n >= 3,
        m >= n,
        m <= 100,
        info.len() > 0 ==> info[0] != mark && !is_space(info.last()),
        byte_count(run_of(mark, n) + info) <= 127,
    ensures
        fence_after(None, run_of(mark, n) + info) == Some(Fence { close: run_of(mark, n), open: run_of(mark, n) + info }),
        fence_after(Some(Fence { close: run_of(mark, n), open: run_of(mark, n) + info }), run_of(mark, m)) is None,
        forall|line: Seq<char>|
            line.len() > 0 && line[0] != ' ' && line[0] != mark ==> #[trigger] fence_after(
                Some(Fence { close: run_of(mark, n), open: run_of(mark, n) + info }),
                line,
            ) == Some(Fence { close: run_of(mark, n), open: run_of(mark, n) + info }),
{
    let line = run_of(mark, n) + info;
    let f = Fence { close: run_of(mark, n), open: line };
    run_leads(mark, n, info);
    assert(leading(line, ' ') == 0);
    assert(outdented(line) =~= line);
    assert(line.take(n as int) =~= run_of(mark, n));
    assert(trimmed_end(line) == line) by {
        if info.len() == 0 {
            assert(line.last() == mark);
        } else {
            assert(line.last() == info.last());
        }
    }
    assert(fence_after(None, line) == Some(f));
    let end = run_of(mark, m);
    run_leads(mark, m, Seq::empty());
    assert(end + Seq::<char>::empty() =~= end);
    assert(leading(end, ' ') == 0);
    assert(outdented(end) =~= end);
    assert(end.take(n as int) =~= run_of(mark, n));
    assert(end.skip(m as int) =~= Seq::empty());
    run_bytes(mark, m);
    assert forall|l: Seq<char>| l.len() > 0 && l[0] != ' ' && l[0] != mark implies #[trigger] fence_after(Some(f), l) == Some(f) by {
        assert(leading(l, ' ') == 0);
        assert(outdented(l) =~= l);
        if f.close.len() <= l.len() && l.take(f.close.len() as int) == f.close {
            assert(l.take(f.close.len() as int)[0] == mark);
        }
    }
}

/// A run of one character.
pub open spec fn run_of(mark: char, n: nat) -> Seq<char> {
    Seq::new(n, |i: int| mark)
}

proof fn run_leads(mark: char, n: nat, rest: Seq<char>)
    requires
        rest.len() > 0 ==> rest[0] != mark,
    ensures
        leading(run_of(mark, n) + rest, mark) == n,
    decreases n,
{
    let s = run_of(mark, n) + rest;
    if n > 0 {
        assert(s.drop_first() =~= run_of(mark, (n - 1) as nat) + rest);
        run_leads(mark, (n - 1) as nat, rest);
    } else {
        assert(s =~= rest);
    }
}

proof fn run_bytes(mark: char, n: nat)
    requires
        mark == '`' || mark == '~',
    ensures
        byte_count(run_of(mark, n)) == n,
    decreases n,
{
    if n > 0 {
        bytes_of_first(run_of(mark, n));
        assert(run_of(mark, n).drop_first() =~= run_of(mark, (n - 1) as nat));
        run_bytes(mark, (n - 1) as nat);
    } else {
        bytes_per_char(run_of(mark, 0));
    }
}

/// What goes out are the parts, in order: a short text as one message that begins
/// with all of it, and a text without fences as nothing but its own pieces.
pub proof fn messages_are_the_parts(text: &str, r: Vec<String>)
    requires
        call_ensures(markdown_parts, (text,), r),
    ensures
        r@.len() == parts_of(text@).len(),
        forall|i: int| 0 <= i < r@.len() ==> (#[trigger] r@[i])@ == parts_of(text@)[i],
        forall|i: int| 0 <= i < r@.len() ==> byte_count((#[trigger] r@[i])@) < 6000,
        0 < text@.len() && byte_count(text@) <= 5500 ==> r@.len() == 1 && text@.len() <= r@[0]@.len() && r@[0]@.take(
            text@.len() as int,
        ) == text@,
        0 < text@.len() && byte_count(text@) <= 5500 && unfenced(text@) ==> r@[0]@ == text@,
{
    assert(texts(r@).len() == r@.len());
    assert forall|i: int| 0 <= i < r@.len() implies (#[trigger] r@[i])@ == parts_of(text@)[i] by {
        assert(texts(r@)[i] == r@[i]@);
    }
    parts_are_bounded(text@);
    if 0 < text@.len() && byte_count(text@) <= 5500 {
        short_texts_are_one_part(text@);
    }
}

} // verus!
