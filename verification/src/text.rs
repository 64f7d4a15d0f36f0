//! Text helpers: trimming, splitting and lower-casing text, and reading
//! and writing whole numbers in decimal.

use vstd::prelude::*;

verus! {

/// `String::push`. Trusted: the character is appended at the end.
pub assume_specification[ String::push ](s: &mut String, ch: char)
    ensures
        final(s)@ == old(s)@.push(ch),
;

/// Whether a character is white space, as `char::is_whitespace` tells it.
pub uninterp spec fn white_space(c: char) -> bool;

/// `char::is_whitespace`. Trusted: the result is a function of the
/// character alone.
#[verifier::external_body]
fn is_white_space(c: char) -> (r: bool)
    ensures
        r == white_space(c),
{
    c.is_whitespace()
}

/// The text without the white space at its start.
pub open spec fn trim_start(text: Seq<char>) -> Seq<char>
    decreases text.len(),
{
    if text.len() > 0 && white_space(text[0]) {
        trim_start(text.drop_first())
    } else {
        text
    }
}

/// The text without the white space at its end.
pub open spec fn trim_end(text: Seq<char>) -> Seq<char>
    decreases text.len(),
{
    if text.len() > 0 && white_space(text.last()) {
        trim_end(text.drop_last())
    } else {
        text
    }
}

/// The text without the white space at its two ends.
pub open spec fn trimmed(text: Seq<char>) -> Seq<char> {
    trim_end(trim_start(text))
}

/// A text that starts with `n` characters of white space, and ends there
/// or goes on with another character, is trimmed at its start to what
/// follows them.
pub proof fn lemma_trim_start(text: Seq<char>, n: int)
    requires
        0 <= n <= text.len(),
        forall|k: int| 0 <= k < n ==> white_space(#[trigger] text[k]),
        n < text.len() ==> !white_space(text[n]),
    ensures
        trim_start(text) == text.skip(n),
    decreases n,
{
    if n == 0 {
        assert(text.skip(0) =~= text);
    } else {
        let rest = text.drop_first();
        assert(white_space(text[0]));
        assert forall|k: int| 0 <= k < n - 1 implies white_space(#[trigger] rest[k]) by {
            assert(rest[k] == text[k + 1]);
        }
        if n - 1 < rest.len() {
            assert(rest[n - 1] == text[n]);
        }
        lemma_trim_start(rest, n - 1);
        assert(rest.skip(n - 1) =~= text.skip(n));
    }
}

/// A text whose characters from `n` on are white space, and whose
/// character before them, if there is one, is not, is trimmed at its end to
/// its first `n` characters.
pub proof fn lemma_trim_end(text: Seq<char>, n: int)
    requires
        0 <= n <= text.len(),
        forall|k: int| n <= k < text.len() ==> white_space(#[trigger] text[k]),
        n > 0 ==> !white_space(text[n - 1]),
    ensures
        trim_end(text) == text.take(n),
    decreases text.len() - n,
{
    if n == text.len() {
        assert(text.take(n) =~= text);
    } else {
        let rest = text.drop_last();
        assert(white_space(text[text.len() - 1]));
        assert forall|k: int| n <= k < rest.len() implies white_space(#[trigger] rest[k]) by {
            assert(rest[k] == text[k]);
        }
        if n > 0 {
            assert(rest[n - 1] == text[n - 1]);
        }
        lemma_trim_end(rest, n);
        assert(rest.take(n) =~= text.take(n));
    }
}

/// Cuts the white space off the two ends of a text.
pub fn trim_text(text: &str) -> (r: &str)
    ensures
        r@ == trimmed(text@),
{
    let n = text.unicode_len();
    let mut i: usize = 0;
    let mut leading = true;
    let mut start: usize = 0;
    let mut end: usize = 0;
    for c in it: text.chars()
        invariant
            it.seq() == text@,
            n == text@.len(),
            i == it.index(),
            i <= n,
            forall|k: int| 0 <= k < start ==> white_space(#[trigger] text@[k]),
            leading ==> start == i && end == 0,
            !leading ==> start < end <= i && !white_space(text@[start as int]) && !white_space(
                text@[end - 1],
            ),
            !leading ==> forall|k: int| end <= k < i ==> white_space(#[trigger] text@[k]),
    {
        let blank = is_white_space(c);
        if blank {
            if leading {
                start = i + 1;
            }
        } else {
            if leading {
                leading = false;
                start = i;
            }
            end = i + 1;
        }
        i += 1;
    }
    if leading {
        proof {
            lemma_trim_start(text@, n as int);
            assert(text@.skip(n as int) =~= Seq::empty());
            assert(text@.subrange(0, 0) =~= Seq::empty());
        }
        text.substring_char(0, 0)
    } else {
        proof {
            lemma_trim_start(text@, start as int);
            let tail = text@.skip(start as int);
            assert forall|k: int| end - start <= k < tail.len() implies white_space(
                #[trigger] tail[k],
            ) by {
                assert(tail[k] == text@[k + start]);
            }
            assert(tail[end - start - 1] == text@[end - 1]);
            lemma_trim_end(tail, end - start);
            assert(tail.take(end - start) =~= text@.subrange(start as int, end as int));
        }
        text.substring_char(start, end)
    }
}

/// What `str::to_lowercase` makes of a text.
pub uninterp spec fn lowercased(text: Seq<char>) -> Seq<char>;

/// `str::to_lowercase`. Trusted: the result is a function of the text
/// alone.
#[verifier::external_body]
pub(crate) fn lower_text(text: &str) -> (r: String)
    ensures
        r@ == lowercased(text@),
{
    text.to_lowercase()
}

/// The texts by their characters.
pub open spec fn texts(items: Seq<String>) -> Seq<Seq<char>> {
    Seq::new(items.len(), |i: int| items[i]@)
}

/// The pieces of `text` between the occurrences of `sep`. There is always
/// at least one piece, and a piece may be empty.
pub open spec fn spec_split_on(text: Seq<char>, sep: char) -> Seq<Seq<char>>
    decreases text.len(),
{
    if text.len() == 0 {
        seq![Seq::empty()]
    } else {
        let before = spec_split_on(text.drop_last(), sep);
        if text.last() == sep {
            before.push(Seq::empty())
        } else {
            before.drop_last().push(before.last().push(text.last()))
        }
    }
}

/// Cuts `text` at every occurrence of `sep`.
pub fn split_on(text: &str, sep: char) -> (r: Vec<String>)
    ensures
        texts(r@) == spec_split_on(text@, sep),
{
    let mut done: Vec<String> = Vec::new();
    let mut piece = String::new();
    assert(text@.take(0) =~= Seq::empty());
    assert(texts(done@).push(piece@) =~= seq![Seq::empty()]);
    for c in it: text.chars()
        invariant
            it.seq() == text@,
            spec_split_on(text@.take(it.index()), sep) == texts(done@).push(piece@),
    {
        proof {
            let upto = text@.take(it.index() + 1);
            assert(upto.drop_last() =~= text@.take(it.index()));
            assert(upto.last() == c);
        }
        let ghost before = texts(done@).push(piece@);
        if c == sep {
            done.push(piece);
            piece = String::new();
            assert(texts(done@).push(piece@) =~= before.push(Seq::empty()));
        } else {
            piece.push(c);
            assert(texts(done@).push(piece@) =~= before.drop_last().push(before.last().push(c)));
        }
    }
    assert(text@.take(text@.len() as int) =~= text@);
    done.push(piece);
    assert(texts(done@) =~= spec_split_on(text@, sep));
    done
}

/// The value of a decimal digit.
pub open spec fn digit_value(c: char) -> Option<nat> {
    if 48 <= c as u32 <= 57 {
        Some((c as u32 - 48) as nat)
    } else {
        None
    }
}

/// The number that a text of decimal digits spells; nothing for an empty
/// text or one that holds anything but digits.
pub open spec fn digits_value(text: Seq<char>) -> Option<nat>
    decreases text.len(),
{
    if text.len() == 0 {
        None
    } else {
        match digit_value(text.last()) {
            None => None,
            Some(d) => if text.len() == 1 {
                Some(d)
            } else {
                match digits_value(text.drop_last()) {
                    Some(v) => Some(v * 10 + d),
                    None => None,
                }
            },
        }
    }
}

/// The unsigned number that a text spells: decimal digits, with or without
/// a plus sign before them, of a value that fits in 64 bits.
pub open spec fn spec_parse_u64(text: Seq<char>) -> Option<u64> {
    let body = if text.len() > 0 && text[0] == '+' {
        text.drop_first()
    } else {
        text
    };
    match digits_value(body) {
        Some(v) => if v <= u64::MAX {
            Some(v as u64)
        } else {
            None
        },
        None => None,
    }
}

/// The signed number that a text spells: decimal digits, with or without a
/// sign before them, of a value that fits in 64 bits.
pub open spec fn spec_parse_i64(text: Seq<char>) -> Option<i64> {
    let signed = text.len() > 0 && (text[0] == '+' || text[0] == '-');
    let body = if signed {
        text.drop_first()
    } else {
        text
    };
    match digits_value(body) {
        Some(v) => {
            let n = if text[0] == '-' {
                -(v as int)
            } else {
                v as int
            };
            if i64::MIN <= n <= i64::MAX {
                Some(n as i64)
            } else {
                None
            }
        },
        None => None,
    }
}

/// The value of the digits of `text`, without its first character where
/// `signed` says that this is a sign, if it is at most `limit`.
fn scan_digits(text: &str, signed: bool, limit: u64) -> (r: Option<u64>)
    requires
        signed ==> text@.len() > 0,
    ensures
        r == match digits_value(
            if signed {
                text@.drop_first()
            } else {
                text@
            },
        ) {
            Some(v) => if v <= limit {
                Some(v as u64)
            } else {
                None
            },
            None => None::<u64>,
        },
{
    let ghost start: int = if signed {
        1
    } else {
        0
    };
    let ghost body = text@.skip(start);
    let mut acc: u64 = 0;
    let mut sign_ahead = signed;
    let mut any = false;
    let mut bad = false;
    let mut big = false;
    let ghost mut v: nat = 0;
    for c in it: text.chars()
        invariant
            it.seq() == text@,
            start == if signed {
                1int
            } else {
                0int
            },
            signed ==> text@.len() > 0,
            body == text@.skip(start),
            acc <= limit,
            sign_ahead == (it.index() < start),
            any == (it.index() > start),
            !any ==> !bad && !big && acc == 0,
            any && bad ==> digits_value(body.take(it.index() - start)) is None,
            any && !bad ==> digits_value(body.take(it.index() - start)) == Some(v),
            !bad && !big ==> v == acc,
            !bad && big ==> v > limit,
    {
        if sign_ahead {
            sign_ahead = false;
        } else {
            let code = c as u32;
            let ghost upto = body.take(it.index() + 1 - start);
            proof {
                assert(body[it.index() - start] == text@[it.index()]);
                assert(upto.len() == it.index() + 1 - start);
                assert(upto.last() == c);
                assert(upto.drop_last() =~= body.take(it.index() - start));
                assert(digits_value(upto) == match digit_value(c) {
                    None => None::<nat>,
                    Some(d) => if upto.len() == 1 {
                        Some(d)
                    } else {
                        match digits_value(upto.drop_last()) {
                            Some(w) => Some(w * 10 + d),
                            None => None,
                        }
                    },
                });
            }
            if code < 48 || code > 57 {
                bad = true;
            } else if !bad {
                let d: u64 = (code - 48) as u64;
                let ghost before = v;
                proof {
                    v = if !any {
                        d as nat
                    } else {
                        before * 10 + d as nat
                    };
                }
                if !big {
                    let next: u128 = acc as u128 * 10 + d as u128;
                    assert(next == v);
                    if next > limit as u128 {
                        big = true;
                    } else {
                        acc = next as u64;
                    }
                }
            }
            any = true;
        }
    }
    proof {
        assert(body.take(text@.len() - start) =~= body);
        if signed {
            assert(text@.skip(1) =~= text@.drop_first());
        } else {
            assert(text@.skip(0) =~= text@);
        }
    }
    if !any || bad || big {
        None
    } else {
        Some(acc)
    }
}

/// The first character of a text.
fn first_char(text: &str) -> (r: Option<char>)
    ensures
        r == if text@.len() > 0 {
            Some(text@[0])
        } else {
            None::<char>
        },
{
    if text.is_empty() {
        None
    } else {
        Some(text.get_char(0))
    }
}

/// Reads an unsigned number.
pub fn parse_u64(text: &str) -> (r: Option<u64>)
    ensures
        r == spec_parse_u64(text@),
{
    let signed = match first_char(text) {
        Some(c) => c == '+',
        None => false,
    };
    scan_digits(text, signed, u64::MAX)
}

/// Reads a signed number.
pub fn parse_i64(text: &str) -> (r: Option<i64>)
    ensures
        r == spec_parse_i64(text@),
{
    match first_char(text) {
        Some('-') => match scan_digits(text, true, 9_223_372_036_854_775_808u64) {
            Some(v) => if v == 9_223_372_036_854_775_808u64 {
                Some(i64::MIN)
            } else {
                Some(-(v as i64))
            },
            None => None,
        },
        Some('+') => match scan_digits(text, true, 9_223_372_036_854_775_807u64) {
            Some(v) => Some(v as i64),
            None => None,
        },
        _ => match scan_digits(text, false, 9_223_372_036_854_775_807u64) {
            Some(v) => Some(v as i64),
            None => None,
        },
    }
}

/// The character of a decimal digit.
pub open spec fn digit_char(d: nat) -> char
    recommends
        d < 10,
{
    ((48 + d) as u8) as char
}

/// A natural number in decimal, most significant digit first, without
/// leading zeros.
pub open spec fn digits(n: nat) -> Seq<char>
    decreases n,
{
    if n < 10 {
        seq![digit_char(n)]
    } else {
        digits(n / 10).push(digit_char(n % 10))
    }
}

/// A whole number in decimal, with a minus sign if it is negative.
pub open spec fn decimal(i: int) -> Seq<char> {
    if i < 0 {
        seq!['-'] + digits((-i) as nat)
    } else {
        digits(i as nat)
    }
}

fn digit_of(d: u64) -> (r: char)
    requires
        d < 10,
    ensures
        r == digit_char(d as nat),
{
    let code: u8 = 48 + d as u8;
    code as char
}

/// Appends `n` in decimal to `out`.
pub fn push_digits(out: &mut String, n: u64)
    ensures
        final(out)@ == old(out)@ + digits(n as nat),
    decreases n,
{
    if n >= 10 {
        push_digits(out, n / 10);
    }
    out.push(digit_of(n % 10));
    assert(out@ =~= old(out)@ + digits(n as nat));
}

/// Writes an unsigned number in decimal.
pub fn unsigned_text(n: u64) -> (r: String)
    ensures
        r@ == decimal(n as int),
{
    let mut out = String::new();
    push_digits(&mut out, n);
    assert(out@ =~= digits(n as nat));
    out
}

/// Writes a signed number in decimal.
pub fn signed_text(n: i64) -> (r: String)
    ensures
        r@ == decimal(n as int),
{
    if n >= 0 {
        unsigned_text(n as u64)
    } else {
        let magnitude: u64 = if n == i64::MIN {
            9_223_372_036_854_775_808u64
        } else {
            (-n) as u64
        };
        let mut out = String::new();
        out.push('-');
        push_digits(&mut out, magnitude);
        assert(out@ =~= seq!['-'] + digits((-n) as nat));
        out
    }
}

} // verus!
