//! Words and fields of a text, separated by white space.
use vstd::prelude::*;
use vstd::string::*;
use crate::text::{chars_of, is_space, space, text_of, texts};

verus! {

/// How many leading characters are no white space.
pub open spec fn word_length(s: Seq<char>) -> nat
    decreases s.len(),
{
    if s.len() > 0 && !is_space(s[0]) {
        word_length(s.drop_first()) + 1
    } else {
        0
    }
}

/// The words of a text, in order.
pub open spec fn words(s: Seq<char>) -> Seq<Seq<char>>
    decreases s.len(),
{
    if s.len() == 0 {
        Seq::empty()
    } else if is_space(s[0]) {
        words(s.drop_first())
    } else {
        let n = word_length(s) as int;
        if n <= s.len() {
            seq![s.take(n)] + words(s.skip(n))
        } else {
            Seq::empty()
        }
    }
}

proof fn word_is_within(s: Seq<char>)
    ensures
        word_length(s) <= s.len(),
    decreases s.len(),
{
    if s.len() > 0 && !is_space(s[0]) {
        word_is_within(s.drop_first());
    }
}

fn word_end(chars: &Vec<char>, from: usize) -> (end: usize)
    requires
        from <= chars@.len(),
    ensures
        from <= end <= chars@.len(),
        end == from + word_length(chars@.skip(from as int)),
{
    let mut i: usize = from;
    while i < chars.len() && !space(chars[i])
        invariant
            from <= i <= chars@.len(),
            i + word_length(chars@.skip(i as int)) == from + word_length(chars@.skip(from as int)),
        decreases chars.len() - i,
    {
        proof {
            assert(chars@.skip(i as int).drop_first() =~= chars@.skip(i + 1));
            assert(chars@.skip(i as int)[0] == chars@[i as int]);
        }
        i = i + 1;
    }
    proof {
        if i < chars@.len() {
            assert(chars@.skip(i as int)[0] == chars@[i as int]);
        }
    }
    i
}

/// Splits a text into its words.
pub fn split_words(s: &str) -> (r: Vec<String>)
    ensures
        texts(r@) == words(s@),
{
    let chars = chars_of(s);
    let mut out: Vec<String> = Vec::new();
    let mut i: usize = 0;
    proof {
        assert(chars@.skip(0) =~= s@);
        assert(texts(out@) + words(chars@.skip(0)) =~= words(s@));
    }
    while i < chars.len()
        invariant
            i <= chars@.len(),
            chars@ == s@,
            texts(out@) + words(chars@.skip(i as int)) == words(s@),
        decreases chars.len() - i,
    {
        let ghost rest = chars@.skip(i as int);
        proof {
            assert(rest[0] == chars@[i as int]);
            assert(rest.drop_first() =~= chars@.skip(i + 1));
        }
        if space(chars[i]) {
            i = i + 1;
        } else {
            let end: usize = word_end(&chars, i);
            let ghost before = out@;
            out.push(text_of(&chars, i, end));
            proof {
                let n = end - i;
                word_is_within(rest);
                assert(rest.take(n) =~= chars@.subrange(i as int, end as int));
                assert(rest.skip(n) =~= chars@.skip(end as int));
                assert(texts(out@) =~= texts(before).push(rest.take(n)));
                assert(texts(out@) + words(chars@.skip(end as int)) =~= texts(before) + words(rest));
            }
            i = end;
        }
    }
    proof {
        assert(words(chars@.skip(i as int)) =~= Seq::empty());
        assert(texts(out@) + words(chars@.skip(i as int)) =~= texts(out@));
    }
    out
}

/// The part before the first white space, and what follows that one character,
/// if there is one.
pub open spec fn first_field(s: Seq<char>) -> (Seq<char>, Option<Seq<char>>) {
    let n = word_length(s) as int;
    if n < s.len() {
        (s.take(n), Some(s.skip(n + 1)))
    } else {
        (s, None)
    }
}

/// Cuts a text at its first white space.
pub fn cut_field(s: &str) -> (r: (String, Option<String>))
    ensures
        (r.0@, crate::text::opt(r.1)) == first_field(s@),
{
    let chars = chars_of(s);
    let end: usize = word_end(&chars, 0);
    proof {
        assert(chars@.skip(0) =~= s@);
    }
    if end < chars.len() {
        let head = text_of(&chars, 0, end);
        let tail = text_of(&chars, end + 1, chars.len());
        proof {
            assert(head@ =~= s@.take(end as int));
            assert(tail@ =~= s@.skip(end + 1));
        }
        (head, Some(tail))
    } else {
        let whole = text_of(&chars, 0, chars.len());
        proof {
            assert(whole@ =~= s@);
        }
        (whole, None)
    }
}

/// The first three fields and the remainder; a missing one is empty, except
/// the first.
pub open spec fn four_fields(s: Seq<char>) -> (Seq<char>, Seq<char>, Seq<char>, Seq<char>) {
    let (a, after_a) = first_field(s);
    match after_a {
        None => (a, Seq::empty(), Seq::empty(), Seq::empty()),
        Some(x) => {
            let (b, after_b) = first_field(x);
            match after_b {
                None => (a, b, Seq::empty(), Seq::empty()),
                Some(y) => {
                    let (c, after_c) = first_field(y);
                    match after_c {
                        None => (a, b, c, Seq::empty()),
                        Some(z) => (a, b, c, z),
                    }
                },
            }
        },
    }
}

/// Cuts a text into three fields and the remainder.
pub fn cut_four(s: &str) -> (r: (String, String, String, String))
    ensures
        (r.0@, r.1@, r.2@, r.3@) == four_fields(s@),
{
    let (a, after_a) = cut_field(s);
    match after_a {
        None => (a, String::new(), String::new(), String::new()),
        Some(x) => {
            let (b, after_b) = cut_field(x.as_str());
            match after_b {
                None => (a, b, String::new(), String::new()),
                Some(y) => {
                    let (c, after_c) = cut_field(y.as_str());
                    match after_c {
                        None => (a, b, c, String::new()),
                        Some(z) => (a, b, c, z),
                    }
                },
            }
        },
    }
}

/// A word: characters, none of them white space.
pub open spec fn is_word(w: Seq<char>) -> bool {
    w.len() > 0 && forall|i: int| 0 <= i < w.len() ==> !is_space(#[trigger] w[i])
}

/// Words with one blank between each two.
pub open spec fn spaced(ws: Seq<Seq<char>>) -> Seq<char>
    decreases ws.len(),
{
    if ws.len() == 0 {
        Seq::empty()
    } else if ws.len() == 1 {
        ws[0]
    } else {
        ws[0] + seq![' '] + spaced(ws.drop_first())
    }
}

proof fn word_ends(w: Seq<char>, rest: Seq<char>)
    requires
        forall|i: int| 0 <= i < w.len() ==> !is_space(#[trigger] w[i]),
        rest.len() > 0 ==> is_space(rest[0]),
    ensures
        word_length(w + rest) == w.len(),
    decreases w.len(),
{
    let s = w + rest;
    if w.len() > 0 {
        assert(s[0] == w[0]);
        assert(s.drop_first() =~= w.drop_first() + rest);
        assert forall|i: int| 0 <= i < w.drop_first().len() implies !is_space(#[trigger] w.drop_first()[i]) by {
            assert(w.drop_first()[i] == w[i + 1]);
        }
        word_ends(w.drop_first(), rest);
    } else {
        assert(s =~= rest);
    }
}

/// The first word of a text, and the words of what follows it.
pub proof fn first_word(w: Seq<char>, rest: Seq<char>)
    requires
        is_word(w),
        rest.len() > 0 ==> is_space(rest[0]),
    ensures
        words(w + rest) == seq![w] + words(rest),
{
    let s = w + rest;
    word_ends(w, rest);
    assert(s[0] == w[0]);
    assert(s.take(w.len() as int) =~= w);
    assert(s.skip(w.len() as int) =~= rest);
}

/// Words written with a blank between each two are read back, in order.
pub proof fn spaced_words_are_read(ws: Seq<Seq<char>>)
    requires
        forall|i: int| 0 <= i < ws.len() ==> is_word(#[trigger] ws[i]),
    ensures
        words(spaced(ws)) == ws,
    decreases ws.len(),
{
    reveal_with_fuel(spaced, 2);
    if ws.len() == 0 {
    } else if ws.len() == 1 {
        first_word(ws[0], Seq::empty());
        assert(ws[0] + Seq::<char>::empty() =~= ws[0]);
        assert(seq![ws[0]] + words(Seq::empty()) =~= ws);
    } else {
        let rest = spaced(ws.drop_first());
        assert forall|i: int| 0 <= i < ws.drop_first().len() implies is_word(#[trigger] ws.drop_first()[i]) by {
            assert(ws.drop_first()[i] == ws[i + 1]);
        }
        spaced_words_are_read(ws.drop_first());
        first_word(ws[0], seq![' '] + rest);
        assert(spaced(ws) =~= ws[0] + (seq![' '] + rest));
        assert((seq![' '] + rest).drop_first() =~= rest);
        assert(words(seq![' '] + rest) == words(rest));
        assert(seq![ws[0]] + ws.drop_first() =~= ws);
    }
}

/// Two words with a blank between them.
pub proof fn two_words(a: Seq<char>, b: Seq<char>)
    requires
        is_word(a),
        is_word(b),
    ensures
        words(a + " "@ + b) == seq![a, b],
{
    reveal_strlit(" ");
    reveal_with_fuel(spaced, 3);
    let ws = seq![a, b];
    assert(ws.drop_first() =~= seq![b]);
    assert(spaced(ws) =~= a + " "@ + b);
    spaced_words_are_read(ws);
}

/// Three words with blanks between them.
pub proof fn three_words(a: Seq<char>, b: Seq<char>, c: Seq<char>)
    requires
        is_word(a),
        is_word(b),
        is_word(c),
    ensures
        words(a + " "@ + b + " "@ + c) == seq![a, b, c],
{
    reveal_strlit(" ");
    reveal_with_fuel(spaced, 4);
    let ws = seq![a, b, c];
    assert(ws.drop_first() =~= seq![b, c]);
    assert(seq![b, c].drop_first() =~= seq![c]);
    assert(spaced(ws) =~= a + " "@ + b + " "@ + c);
    spaced_words_are_read(ws);
}

/// Four words with blanks between them.
pub proof fn four_words(a: Seq<char>, b: Seq<char>, c: Seq<char>, d: Seq<char>)
    requires
        is_word(a),
        is_word(b),
        is_word(c),
        is_word(d),
    ensures
        words(a + " "@ + b + " "@ + c + " "@ + d) == seq![a, b, c, d],
{
    reveal_strlit(" ");
    reveal_with_fuel(spaced, 5);
    let ws = seq![a, b, c, d];
    assert(ws.drop_first() =~= seq![b, c, d]);
    assert(seq![b, c, d].drop_first() =~= seq![c, d]);
    assert(seq![c, d].drop_first() =~= seq![d]);
    assert(spaced(ws) =~= a + " "@ + b + " "@ + c + " "@ + d);
    spaced_words_are_read(ws);
}

/// A field ends at the first white space; what follows that character is kept as it is.
pub proof fn fields_end_at_white_space(w: Seq<char>, rest: Seq<char>)
    requires
        forall|i: int| 0 <= i < w.len() ==> !is_space(#[trigger] w[i]),
    ensures
        first_field(w) == (w, None::<Seq<char>>),
        first_field(w + " "@ + rest) == (w, Some(rest)),
{
    reveal_strlit(" ");
    word_ends(w, Seq::empty());
    assert(w + Seq::<char>::empty() =~= w);
    let s = w + " "@ + rest;
    assert(s =~= w + (" "@ + rest));
    word_ends(w, " "@ + rest);
    assert(s.take(w.len() as int) =~= w);
    assert(s.skip(w.len() as int + 1) =~= rest);
}

/// Three fields and a remainder, each after one blank, are taken apart as they
/// were put together; the remainder keeps its own blanks.
pub proof fn four_fields_are_read(a: Seq<char>, b: Seq<char>, c: Seq<char>, rest: Seq<char>)
    requires
        is_word(a),
        is_word(b),
        is_word(c),
    ensures
        four_fields(a + " "@ + b + " "@ + c + " "@ + rest) == (a, b, c, rest),
{
    let s = a + " "@ + b + " "@ + c + " "@ + rest;
    let x = b + " "@ + c + " "@ + rest;
    let y = c + " "@ + rest;
    assert(s =~= a + " "@ + x);
    assert(x =~= b + " "@ + y);
    fields_end_at_white_space(a, x);
    fields_end_at_white_space(b, y);
    fields_end_at_white_space(c, rest);
}

/// The first word of a text that begins with one begins as the text does.
pub proof fn first_word_begins(text: Seq<char>)
    requires
        text.len() > 0,
        !is_space(text[0]),
    ensures
        words(text).len() > 0,
        words(text)[0].len() > 0,
        words(text)[0][0] == text[0],
{
    word_is_within(text);
    let n = word_length(text) as int;
    assert(words(text) == seq![text.take(n)] + words(text.skip(n)));
    assert(words(text)[0] == text.take(n));
}

} // verus!
