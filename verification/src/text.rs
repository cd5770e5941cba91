//! Text primitives: byte length, comparison, decimal rendering and the
//! character classes that the rest of the library decides on.
//!
//! A text is the sequence of its characters; its byte length is the length of
//! its UTF-8 encoding.
use vstd::prelude::*;
use vstd::string::*;
use vstd::utf8::*;

verus! {

/// `String::push` of the standard library appends one character.
pub assume_specification[ String::push ](s: &mut String, ch: char)
    ensures
        final(s)@ == old(s)@.push(ch),
;

/// Number of bytes that `s` takes in UTF-8.
pub open spec fn byte_count(s: Seq<char>) -> nat {
    encode_utf8(s).len()
}

/// The length of a text in bytes.
pub fn byte_len(s: &str) -> (n: usize)
    ensures
        n == byte_count(s@),
{
    s.as_bytes().len()
}

/// Equality of texts.
pub fn same(a: &str, b: &str) -> (r: bool)
    ensures
        r == (a@ == b@),
{
    let x = a.as_bytes();
    let y = b.as_bytes();
    proof {
        encode_utf8_decode_utf8(a@);
        encode_utf8_decode_utf8(b@);
    }
    if x.len() != y.len() {
        return false;
    }
    let mut i: usize = 0;
    while i < x.len()
        invariant
            i <= x.len(),
            x.len() == y.len(),
            x@ == encode_utf8(a@),
            y@ == encode_utf8(b@),
            forall|j: int| 0 <= j < i ==> x@[j] == y@[j],
        decreases x.len() - i,
    {
        if x[i] != y[i] {
            return false;
        }
        i = i + 1;
    }
    proof {
        assert(x@ =~= y@);
    }
    true
}

/// The characters of a text.
pub fn chars_of(s: &str) -> (r: Vec<char>)
    ensures
        r@ == s@,
{
    let mut out: Vec<char> = Vec::new();
    for c in iter: s.chars()
        invariant
            out@ == iter.seq().take(iter.index() as int),
            iter.seq() == s@,
    {
        out.push(c);
    }
    proof {
        assert(out@ =~= s@);
    }
    out
}

/// A text made of the characters `from..to` of `chars`.
pub fn text_of(chars: &Vec<char>, from: usize, to: usize) -> (r: String)
    requires
        from <= to <= chars@.len(),
    ensures
        r@ == chars@.subrange(from as int, to as int),
{
    let mut out = String::new();
    let mut i: usize = from;
    while i < to
        invariant
            from <= i <= to <= chars@.len(),
            out@ == chars@.subrange(from as int, i as int),
        decreases to - i,
    {
        out.push(chars[i]);
        proof {
            assert(chars@.subrange(from as int, i as int).push(chars@[i as int]) =~= chars@.subrange(from as int, i + 1));
        }
        i = i + 1;
    }
    out
}

/// The character of one decimal digit.
pub open spec fn digit(d: int) -> char {
    (48 + d) as char
}

/// The decimal rendering of a number, without leading zeros.
pub open spec fn decimal(n: nat) -> Seq<char>
    decreases n,
{
    if n < 10 {
        seq![digit(n as int)]
    } else {
        decimal(n / 10).push(digit((n % 10) as int))
    }
}

/// Renders a number in decimal.
pub fn decimal_text(n: u64) -> (r: String)
    ensures
        r@ == decimal(n as nat),
    decreases n,
{
    if n < 10 {
        let mut t = String::new();
        t.push((48u8 + n as u8) as char);
        proof {
            assert(t@ =~= seq![digit(n as int)]);
        }
        t
    } else {
        let mut t = decimal_text(n / 10);
        t.push((48u8 + (n % 10) as u8) as char);
        t
    }
}

/// The decimal rendering of a number that may be negative.
pub open spec fn signed_decimal(n: int) -> Seq<char> {
    if n < 0 {
        "-"@ + decimal((-n) as nat)
    } else {
        decimal(n as nat)
    }
}

/// Renders a signed number in decimal.
pub fn signed_decimal_text(n: i64) -> (r: String)
    ensures
        r@ == signed_decimal(n as int),
{
    if n >= 0 {
        return decimal_text(n as u64);
    }
    let magnitude: u64 = if n == i64::MIN {
        9223372036854775808u64
    } else {
        (-n) as u64
    };
    let mut t = "-".to_owned();
    let d = decimal_text(magnitude);
    t.append(d.as_str());
    t
}

/// A decimal rendering determines its number.
pub proof fn decimal_is_injective(a: nat, b: nat)
    requires
        decimal(a) == decimal(b),
    ensures
        a == b,
    decreases a,
{
    if a < 10 && b < 10 {
        assert(decimal(a)[0] == digit(a as int));
        assert(decimal(b)[0] == digit(b as int));
    } else if a >= 10 && b >= 10 {
        assert(decimal(a).drop_last() =~= decimal(a / 10));
        assert(decimal(b).drop_last() =~= decimal(b / 10));
        assert(decimal(a).last() == digit((a % 10) as int));
        assert(decimal(b).last() == digit((b % 10) as int));
        decimal_is_injective(a / 10, b / 10);
    } else if a < 10 {
        decimal_is_nonempty(b / 10);
        assert(decimal(a).len() == 1);
        assert(decimal(b).len() >= 2);
    } else {
        decimal_is_nonempty(a / 10);
        assert(decimal(b).len() == 1);
        assert(decimal(a).len() >= 2);
    }
}

proof fn decimal_is_nonempty(n: nat)
    ensures
        decimal(n).len() >= 1,
{
}

pub open spec fn is_digit(c: char) -> bool {
    48 <= c as int <= 57
}

/// A decimal rendering holds digits only.
pub proof fn decimal_is_digits(n: nat)
    ensures
        decimal(n).len() >= 1,
        forall|i: int| 0 <= i < decimal(n).len() ==> is_digit(#[trigger] decimal(n)[i]),
    decreases n,
{
    if n >= 10 {
        decimal_is_digits(n / 10);
    }
}

/// The characters with the White_Space property.
pub open spec fn is_space(c: char) -> bool {
    let n = c as int;
    ||| 9 <= n <= 13
    ||| n == 32
    ||| n == 0x85
    ||| n == 0xa0
    ||| n == 0x1680
    ||| 0x2000 <= n <= 0x200a
    ||| n == 0x2028
    ||| n == 0x2029
    ||| n == 0x202f
    ||| n == 0x205f
    ||| n == 0x3000
}

pub fn space(c: char) -> (r: bool)
    ensures
        r == is_space(c),
{
    let n: u32 = c as u32;
    (9 <= n && n <= 13) || n == 32 || n == 0x85 || n == 0xa0 || n == 0x1680 || (0x2000 <= n && n <= 0x200a) || n
        == 0x2028 || n == 0x2029 || n == 0x202f || n == 0x205f || n == 0x3000
}

/// The control characters: general category Cc.
pub open spec fn is_control(c: char) -> bool {
    let n = c as int;
    n < 32 || 127 <= n < 160
}

pub fn control(c: char) -> (r: bool)
    ensures
        r == is_control(c),
{
    let n: u32 = c as u32;
    n < 32 || (127 <= n && n < 160)
}

/// Nothing but white space.
pub open spec fn blank(s: Seq<char>) -> bool {
    forall|i: int| 0 <= i < s.len() ==> is_space(#[trigger] s[i])
}

pub fn is_blank(s: &str) -> (r: bool)
    ensures
        r == blank(s@),
{
    let chars = chars_of(s);
    let mut i: usize = 0;
    while i < chars.len()
        invariant
            i <= chars@.len(),
            chars@ == s@,
            forall|j: int| 0 <= j < i ==> is_space(#[trigger] chars@[j]),
        decreases chars.len() - i,
    {
        if !space(chars[i]) {
            assert(!is_space(s@[i as int]));
            return false;
        }
        i = i + 1;
    }
    true
}

/// Some character is a control character.
pub open spec fn has_control(s: Seq<char>) -> bool {
    exists|i: int| 0 <= i < s.len() && is_control(#[trigger] s[i])
}

pub fn contains_control(s: &str) -> (r: bool)
    ensures
        r == has_control(s@),
{
    let chars = chars_of(s);
    let mut i: usize = 0;
    while i < chars.len()
        invariant
            i <= chars@.len(),
            chars@ == s@,
            forall|j: int| 0 <= j < i ==> !is_control(#[trigger] chars@[j]),
        decreases chars.len() - i,
    {
        if control(chars[i]) {
            assert(is_control(s@[i as int]));
            return true;
        }
        i = i + 1;
    }
    false
}

/// `s` begins with `prefix`.
pub open spec fn begins_with(s: Seq<char>, prefix: Seq<char>) -> bool {
    prefix.len() <= s.len() && s.take(prefix.len() as int) == prefix
}

pub fn starts_with(s: &str, prefix: &str) -> (r: bool)
    ensures
        r == begins_with(s@, prefix@),
{
    let n: usize = prefix.unicode_len();
    if s.unicode_len() < n {
        return false;
    }
    let head = s.substring_char(0, n);
    proof {
        assert(head@ =~= s@.take(n as int));
    }
    same(head, prefix)
}

/// `Option<String>` by what it holds.
pub open spec fn opt(o: Option<String>) -> Option<Seq<char>> {
    match o {
        Some(s) => Some(s@),
        None => None,
    }
}

/// `Option<&str>` by what it holds.
pub open spec fn opt_str(o: Option<&str>) -> Option<Seq<char>> {
    match o {
        Some(s) => Some(s@),
        None => None,
    }
}

pub fn same_opt(a: &Option<String>, b: &Option<String>) -> (r: bool)
    ensures
        r == (opt(*a) == opt(*b)),
{
    match (a, b) {
        (Some(x), Some(y)) => same(x.as_str(), y.as_str()),
        (None, None) => true,
        _ => false,
    }
}

/// Byte-wise lexicographic order: at the first place where the two differ, `a`
/// has ended or holds the smaller byte.
pub open spec fn bytes_less(a: Seq<u8>, b: Seq<u8>) -> bool {
    exists|i: int| #[trigger] less_at(a, b, i)
}

pub open spec fn less_at(a: Seq<u8>, b: Seq<u8>, i: int) -> bool {
    &&& 0 <= i <= a.len()
    &&& i < b.len()
    &&& forall|j: int| 0 <= j < i ==> a[j] == b[j]
    &&& i == a.len() || a[i] < b[i]
}

/// The order of texts: that of their UTF-8 bytes.
pub open spec fn text_less(a: Seq<char>, b: Seq<char>) -> bool {
    bytes_less(encode_utf8(a), encode_utf8(b))
}

/// How one text stands to another in their order.
pub enum Rank {
    Less,
    Equal,
    Greater,
}

/// Compares two texts in their order.
pub fn rank(a: &str, b: &str) -> (r: Rank)
    ensures
        r is Less <==> text_less(a@, b@),
        r is Equal <==> a@ == b@,
        r is Greater <==> text_less(b@, a@),
{
    let x = a.as_bytes();
    let y = b.as_bytes();
    proof {
        encode_utf8_decode_utf8(a@);
        encode_utf8_decode_utf8(b@);
        text_less_is_strict(a@, b@);
        text_less_is_strict(b@, a@);
    }
    let mut i: usize = 0;
    while i < x.len() && i < y.len()
        invariant
            i <= x.len(),
            i <= y.len(),
            x@ == encode_utf8(a@),
            y@ == encode_utf8(b@),
            forall|j: int| 0 <= j < i ==> x@[j] == y@[j],
            text_less(a@, b@) ==> !text_less(b@, a@) && a@ != b@,
            text_less(b@, a@) ==> a@ != b@,
        decreases x.len() - i,
    {
        if x[i] < y[i] {
            assert(less_at(x@, y@, i as int));
            return Rank::Less;
        }
        if y[i] < x[i] {
            assert(less_at(y@, x@, i as int));
            return Rank::Greater;
        }
        i = i + 1;
    }
    if i < y.len() {
        assert(less_at(x@, y@, i as int));
        return Rank::Less;
    }
    if i < x.len() {
        assert(less_at(y@, x@, i as int));
        return Rank::Greater;
    }
    assert(x@ =~= y@);
    Rank::Equal
}

/// The order of texts is irreflexive and asymmetric.
pub proof fn text_less_is_strict(a: Seq<char>, b: Seq<char>)
    ensures
        text_less(a, b) ==> !text_less(b, a) && a != b,
{
    let x = encode_utf8(a);
    let y = encode_utf8(b);
    if bytes_less(x, y) {
        let i = choose|i: int| #[trigger] less_at(x, y, i);
        if a == b {
            assert(false);
        }
        if bytes_less(y, x) {
            let k = choose|k: int| #[trigger] less_at(y, x, k);
            if i < k {
                assert(y[i] == x[i]);
            } else if k < i {
                assert(x[k] == y[k]);
            }
            assert(false);
        }
    }
}

/// Byte strings that agree up to `i` are equal or one comes first.
proof fn bytes_compare(x: Seq<u8>, y: Seq<u8>, i: int)
    requires
        0 <= i <= x.len(),
        i <= y.len(),
        forall|j: int| 0 <= j < i ==> x[j] == y[j],
    ensures
        x == y || bytes_less(x, y) || bytes_less(y, x),
    decreases x.len() - i,
{
    if i == x.len() && i == y.len() {
        assert(x =~= y);
    } else if i == x.len() {
        assert(less_at(x, y, i));
    } else if i == y.len() {
        assert(less_at(y, x, i));
    } else if x[i] < y[i] {
        assert(less_at(x, y, i));
    } else if y[i] < x[i] {
        assert(less_at(y, x, i));
    } else {
        bytes_compare(x, y, i + 1);
    }
}

/// Of two different texts one comes first.
pub proof fn text_less_is_total(a: Seq<char>, b: Seq<char>)
    ensures
        a == b || text_less(a, b) || text_less(b, a),
{
    encode_utf8_decode_utf8(a);
    encode_utf8_decode_utf8(b);
    bytes_compare(encode_utf8(a), encode_utf8(b), 0);
}

/// The order of texts is transitive.
pub proof fn text_less_is_transitive(a: Seq<char>, b: Seq<char>, c: Seq<char>)
    requires
        text_less(a, b),
        text_less(b, c),
    ensures
        text_less(a, c),
{
    let x = encode_utf8(a);
    let y = encode_utf8(b);
    let z = encode_utf8(c);
    let i = choose|i: int| #[trigger] less_at(x, y, i);
    let k = choose|k: int| #[trigger] less_at(y, z, k);
    if i <= k {
        assert(less_at(x, z, i));
    } else {
        assert(less_at(x, z, k));
    }
}

/// Number of bytes that a character takes in UTF-8.
pub open spec fn width(c: char) -> nat {
    let n = c as int;
    if n < 0x80 {
        1
    } else if n < 0x800 {
        2
    } else if n < 0x10000 {
        3
    } else {
        4
    }
}

pub fn char_width(c: char) -> (r: usize)
    ensures
        r == width(c),
        1 <= r <= 4,
{
    let n: u32 = c as u32;
    if n < 0x80 {
        1
    } else if n < 0x800 {
        2
    } else if n < 0x10000 {
        3
    } else {
        4
    }
}

/// A text's bytes are those of its first character and of the rest.
pub proof fn bytes_of_first(s: Seq<char>)
    requires
        s.len() > 0,
    ensures
        byte_count(s) == width(s[0]) + byte_count(s.drop_first()),
{
    scalar_width(s[0]);
    assert(encode_utf8(s) == encode_scalar(s[0] as u32) + encode_utf8(s.drop_first()));
}

proof fn scalar_width(c: char)
    ensures
        encode_scalar(c as u32).len() == width(c),
{
    char_is_scalar(c);
}

/// Bytes add up over concatenation.
pub proof fn bytes_add(a: Seq<char>, b: Seq<char>)
    ensures
        byte_count(a + b) == byte_count(a) + byte_count(b),
    decreases a.len(),
{
    if a.len() == 0 {
        assert(a + b =~= b);
    } else {
        bytes_of_first(a);
        bytes_of_first(a + b);
        assert((a + b).drop_first() =~= a.drop_first() + b);
        bytes_add(a.drop_first(), b);
    }
}

/// A single character's bytes.
pub proof fn bytes_of_one(c: char)
    ensures
        byte_count(seq![c]) == width(c),
{
    bytes_of_first(seq![c]);
    assert(seq![c].drop_first() =~= Seq::empty());
}

/// A text takes at least one byte and at most four bytes per character.
pub proof fn bytes_per_char(s: Seq<char>)
    ensures
        s.len() <= byte_count(s) <= 4 * s.len(),
    decreases s.len(),
{
    if s.len() > 0 {
        bytes_of_first(s);
        bytes_per_char(s.drop_first());
    }
}

/// `s` without white space at its end.
pub open spec fn trimmed_end(s: Seq<char>) -> Seq<char>
    decreases s.len(),
{
    if s.len() > 0 && is_space(s.last()) {
        trimmed_end(s.drop_last())
    } else {
        s
    }
}

/// `s` without white space at its beginning.
pub open spec fn trimmed_start(s: Seq<char>) -> Seq<char>
    decreases s.len(),
{
    if s.len() > 0 && is_space(s[0]) {
        trimmed_start(s.drop_first())
    } else {
        s
    }
}

/// `s` without white space at either end.
pub open spec fn trimmed(s: Seq<char>) -> Seq<char> {
    trimmed_end(trimmed_start(s))
}

/// The characters `from..` of a text without white space at either end.
pub fn trim(s: &str) -> (r: String)
    ensures
        r@ == trimmed(s@),
{
    let chars = chars_of(s);
    let mut from: usize = 0;
    proof {
        assert(chars@.skip(0) =~= chars@);
    }
    while from < chars.len() && space(chars[from])
        invariant
            from <= chars@.len(),
            trimmed_start(chars@.skip(from as int)) == trimmed_start(chars@),
        decreases chars.len() - from,
    {
        proof {
            assert(chars@.skip(from as int).drop_first() =~= chars@.skip(from + 1));
        }
        from = from + 1;
    }
    let ghost start = trimmed_start(s@);
    proof {
        assert(start == chars@.skip(from as int));
    }
    let mut to: usize = chars.len();
    proof {
        assert(chars@.subrange(from as int, to as int) =~= start);
    }
    while from < to && space(chars[to - 1])
        invariant
            from <= to <= chars@.len(),
            trimmed_end(chars@.subrange(from as int, to as int)) == trimmed_end(start),
        decreases to - from,
    {
        proof {
            assert(chars@.subrange(from as int, to as int).drop_last() =~= chars@.subrange(from as int, to - 1));
        }
        to = to - 1;
    }
    text_of(&chars, from, to)
}

/// The texts of a vector.
pub open spec fn texts(v: Seq<String>) -> Seq<Seq<char>> {
    v.map_values(|s: String| s@)
}

/// Texts in order.
#[derive(Debug, PartialEq, Eq)]
pub struct Texts {
    pub items: Vec<String>,
}

impl View for Texts {
    type V = Seq<Seq<char>>;

    open spec fn view(&self) -> Seq<Seq<char>> {
        texts(self.items@)
    }
}

impl Texts {
    /// A single text.
    pub fn one(text: String) -> (r: Texts)
        ensures
            r@ == seq![text@],
    {
        let mut items: Vec<String> = Vec::new();
        items.push(text);
        let r = Texts { items };
        proof {
            assert(r@ =~= seq![text@]);
        }
        r
    }
}

impl Clone for Texts {
    fn clone(&self) -> (r: Self)
        ensures
            r@ == self@,
            r.items@ == self.items@,
    {
        let mut items: Vec<String> = Vec::new();
        let mut i: usize = 0;
        while i < self.items.len()
            invariant
                i <= self.items@.len(),
                items@ == self.items@.take(i as int),
            decreases self.items.len() - i,
        {
            items.push(self.items[i].clone());
            proof {
                assert(self.items@.take(i + 1) =~= self.items@.take(i as int).push(self.items@[i as int]));
            }
            i = i + 1;
        }
        proof {
            assert(self.items@.take(i as int) =~= self.items@);
        }
        Texts { items }
    }
}

/// The number that decimal digits denote.
pub open spec fn digits_value(s: Seq<char>) -> nat
    decreases s.len(),
{
    if s.len() == 0 {
        0
    } else {
        10 * digits_value(s.drop_last()) + (s.last() as int - 48) as nat
    }
}

pub open spec fn all_digits(s: Seq<char>) -> bool {
    forall|i: int| 0 <= i < s.len() ==> is_digit(#[trigger] s[i])
}

/// What a text denotes as an unsigned number: digits, after at most one `+`,
/// whose value fits.
pub open spec fn parsed(s: Seq<char>) -> Option<nat> {
    let digits = if s.len() > 0 && s[0] == '+' {
        s.drop_first()
    } else {
        s
    };
    if digits.len() > 0 && all_digits(digits) && digits_value(digits) <= usize::MAX {
        Some(digits_value(digits))
    } else {
        None
    }
}

proof fn digits_grow(s: Seq<char>, i: int)
    requires
        0 <= i <= s.len(),
        all_digits(s),
    ensures
        digits_value(s.take(i)) <= digits_value(s),
    decreases s.len(),
{
    if i < s.len() {
        digits_grow(s.drop_last(), i);
        assert(s.drop_last().take(i) =~= s.take(i));
    } else {
        assert(s.take(i) =~= s);
    }
}

/// The value of a digit; ten for any other character.
fn digit_of(c: char) -> (v: usize)
    ensures
        v <= 9 <==> is_digit(c),
        is_digit(c) ==> v == c as int - 48,
        v <= 10,
{
    let n: u32 = c as u32;
    if n < 48 || n > 57 {
        10
    } else {
        (n - 48) as usize
    }
}

/// The code of a character.
pub fn code(c: char) -> (n: u32)
    ensures
        n == c as int,
{
    c as u32
}

/// Reads an unsigned number.
pub fn parse_usize(s: &str) -> (r: Option<usize>)
    ensures
        match r {
            Some(n) => parsed(s@) == Some(n as nat),
            None => parsed(s@) is None,
        },
{
    let chars = chars_of(s);
    let from: usize = if chars.len() > 0 && chars[0] == '+' {
        1
    } else {
        0
    };
    let ghost d = chars@.skip(from as int);
    proof {
        assert(d == if s@.len() > 0 && s@[0] == '+' {
            s@.drop_first()
        } else {
            s@
        }) by {
            if from == 1 {
                assert(chars@.skip(1) =~= s@.drop_first());
            } else {
                assert(chars@.skip(0) =~= s@);
            }
        }
    }
    if chars.len() == from {
        return None;
    }
    let mut n: usize = 0;
    let mut i: usize = from;
    while i < chars.len()
        invariant
            from <= i <= chars@.len(),
            d == chars@.skip(from as int),
            d.len() > 0,
            forall|j: int| 0 <= j < i - from ==> is_digit(#[trigger] d[j]),
            n == digits_value(d.take(i - from)),
            parsed(s@) == if all_digits(d) && digits_value(d) <= usize::MAX {
                Some(digits_value(d))
            } else {
                None
            },
        decreases chars.len() - i,
    {
        let v: usize = digit_of(chars[i]);
        let ghost k = i - from;
        proof {
            assert(d.take(k + 1).drop_last() =~= d.take(k));
            assert(d.take(k + 1).last() == chars@[i as int]);
            assert(d[k] == chars@[i as int]);
        }
        if v > 9 {
            assert(!is_digit(d[k]));
            return None;
        }
        if n > usize::MAX / 10 || n * 10 > usize::MAX - v {
            proof {
                if all_digits(d) {
                    digits_grow(d, k + 1);
                    assert(digits_value(d.take(k + 1)) == 10 * n + v);
                }
            }
            return None;
        }
        n = n * 10 + v;
        i = i + 1;
    }
    proof {
        assert(d.take(i - from) =~= d);
    }
    Some(n)
}

proof fn decimal_has_its_value(n: nat)
    ensures
        digits_value(decimal(n)) == n,
    decreases n,
{
    reveal_with_fuel(digits_value, 2);
    if n < 10 {
        let s = decimal(n);
        assert(s.last() == digit(n as int));
        assert(s.drop_last() =~= Seq::empty());
        assert((48 + n) as char as int == 48 + n);
    } else {
        decimal_has_its_value(n / 10);
        let s = decimal(n);
        let d = n % 10;
        assert(s.drop_last() =~= decimal(n / 10));
        assert(s.last() == digit(d as int));
        assert((48 + d) as char as int == 48 + d);
    }
}

/// A number that was written is read back.
pub proof fn written_numbers_are_read(n: nat)
    requires
        n <= usize::MAX,
    ensures
        parsed(decimal(n)) == Some(n),
{
    decimal_is_digits(n);
    decimal_has_its_value(n);
    assert(is_digit(decimal(n)[0]));
}

proof fn start_is_blank(s: Seq<char>)
    ensures
        trimmed_start(s).len() <= s.len(),
        trimmed_start(s) == s.skip(s.len() - trimmed_start(s).len()),
        blank(s.take(s.len() - trimmed_start(s).len())),
        trimmed_start(s).len() > 0 ==> !is_space(trimmed_start(s)[0]),
    decreases s.len(),
{
    if s.len() > 0 && is_space(s[0]) {
        start_is_blank(s.drop_first());
        let k = s.len() - trimmed_start(s).len();
        assert(s.drop_first().skip(k - 1) =~= s.skip(k));
        assert forall|i: int| 0 <= i < k implies is_space(#[trigger] s.take(k)[i]) by {
            if i > 0 {
                assert(s.drop_first().take(k - 1)[i - 1] == s[i]);
            }
        }
    } else {
        assert(s.skip(0) =~= s);
    }
}

proof fn end_is_blank(s: Seq<char>)
    ensures
        trimmed_end(s).len() <= s.len(),
        trimmed_end(s) == s.take(trimmed_end(s).len() as int),
        blank(s.skip(trimmed_end(s).len() as int)),
        trimmed_end(s).len() > 0 ==> !is_space(trimmed_end(s).last()),
    decreases s.len(),
{
    if s.len() > 0 && is_space(s.last()) {
        end_is_blank(s.drop_last());
        let k = trimmed_end(s).len() as int;
        assert(s.drop_last().take(k) =~= s.take(k));
        assert forall|i: int| 0 <= i < s.len() - k implies is_space(#[trigger] s.skip(k)[i]) by {
            if i < s.len() - k - 1 {
                assert(s.drop_last().skip(k)[i] == s[k + i]);
            }
        }
    } else {
        assert(s.take(s.len() as int) =~= s);
    }
}

/// Trimming takes away the white space at both ends and nothing else.
pub proof fn trimming_takes_only_the_ends(s: Seq<char>) -> (ends: (Seq<char>, Seq<char>))
    ensures
        s == ends.0 + trimmed(s) + ends.1,
        blank(ends.0),
        blank(ends.1),
        trimmed(s).len() > 0 ==> !is_space(trimmed(s)[0]) && !is_space(trimmed(s).last()),
{
    start_is_blank(s);
    let t = trimmed_start(s);
    end_is_blank(t);
    let front = s.take(s.len() - t.len());
    let back = t.skip(trimmed(s).len() as int);
    assert(t =~= trimmed(s) + back);
    assert(s =~= front + trimmed(s) + back);
    if trimmed(s).len() > 0 {
        assert(trimmed(s)[0] == t[0]);
    }
    (front, back)
}

/// A text without white space at its ends is its own trimming.
pub proof fn trimmed_of_trimmed(s: Seq<char>)
    requires
        s.len() > 0 ==> !is_space(s[0]) && !is_space(s.last()),
    ensures
        trimmed(s) == s,
{
}

/// Blanks, tabs, line ends and wide blanks are white space; letters, digits,
/// punctuation and ideographs are neither white space nor control characters.
pub proof fn white_space_is_told_from_letters(c: char)
    ensures
        is_space(' '),
        is_space('\t'),
        is_space('\n'),
        is_space('\r'),
        c as int == 0x3000 || c as int == 0xa0 || 0x2000 <= c as int <= 0x200a ==> is_space(c),
        33 <= c as int <= 126 ==> !is_space(c) && !is_control(c),
        0x4e00 <= c as int <= 0x9fff ==> !is_space(c) && !is_control(c),
        0xff01 <= c as int <= 0xff5e ==> !is_space(c) && !is_control(c),
        c as int <= 31 || 127 <= c as int <= 159 ==> is_control(c),
        !is_control(' '),
{
}

} // verus!
