use vstd::prelude::*;

use crate::parser::Failure;
use crate::parser::str_eq;

verus! {

/// The outcome of a checking helper: nothing, or a message describing the
/// mismatch.
pub type AssertResult = Result<(), String>;

/// Whether a character counts as blank space for text comparison: the
/// characters with the Unicode white-space property.
pub open spec fn is_blank(c: char) -> bool {
    c == '\u{0009}' || c == '\u{000A}' || c == '\u{000B}' || c == '\u{000C}' || c == '\u{000D}'
        || c == ' ' || c == '\u{0085}' || c == '\u{00A0}' || c == '\u{1680}' || ('\u{2000}' <= c
        && c <= '\u{200A}') || c == '\u{2028}' || c == '\u{2029}' || c == '\u{202F}' || c
        == '\u{205F}' || c == '\u{3000}'
}

/// The simplified form of a text: every run of blank space becomes one
/// single space, and leading and trailing blank space disappears.
pub open spec fn simplified_from(s: Seq<char>, i: int, pending: bool, started: bool) -> Seq<char>
    decreases s.len() - i,
{
    if i < 0 || i >= s.len() {
        Seq::empty()
    } else if is_blank(s[i]) {
        simplified_from(s, i + 1, true, started)
    } else {
        (if pending && started {
            seq![' ']
        } else {
            Seq::empty()
        }) + seq![s[i]] + simplified_from(s, i + 1, false, true)
    }
}

pub open spec fn simplified(s: Seq<char>) -> Seq<char> {
    simplified_from(s, 0, false, false)
}

/// Whether a character counts as blank space.
fn exec_is_blank(c: char) -> (r: bool)
    ensures
        r == is_blank(c),
{
    c == '\u{0009}' || c == '\u{000A}' || c == '\u{000B}' || c == '\u{000C}' || c == '\u{000D}'
        || c == ' ' || c == '\u{0085}' || c == '\u{00A0}' || c == '\u{1680}' || ('\u{2000}' <= c
        && c <= '\u{200A}') || c == '\u{2028}' || c == '\u{2029}' || c == '\u{202F}' || c
        == '\u{205F}' || c == '\u{3000}'
}

/// The simplified form of a text.
pub fn simplify(text: &str) -> (r: Vec<char>)
    ensures
        r@ == simplified(text@),
{
    let n = text.unicode_len();
    let mut out: Vec<char> = Vec::new();
    let mut pending = false;
    let mut started = false;
    let mut i: usize = 0;
    while i < n
        invariant
            i <= n,
            n == text@.len(),
            simplified(text@) == out@ + simplified_from(text@, i as int, pending, started),
        decreases n - i,
    {
        let c = text.get_char(i);
        if exec_is_blank(c) {
            pending = true;
        } else {
            if pending && started {
                out.push(' ');
            }
            out.push(c);
            pending = false;
            started = true;
        }
        proof {
            assert(simplified(text@) =~= out@ + simplified_from(
                text@,
                i + 1,
                pending,
                started,
            ));
        }
        i = i + 1;
    }
    proof {
        assert(simplified_from(text@, n as int, pending, started) =~= Seq::<char>::empty());
        assert(out@ =~= simplified(text@));
    }
    out
}

/// The closing part of a mismatch message: the last characters of the common
/// prefix, at most `max_len` of them, behind an ellipsis when there are
/// more, after the indentation every message line carries.
pub fn last_to_string(chars: &Vec<char>, max_len: usize) -> (r: (String, usize))
    ensures
        r.1 == if chars@.len() <= max_len {
            chars@.len() as int
        } else {
            max_len as int
        },
        r.0@ == if chars@.len() <= max_len {
            "        "@ + chars@
        } else {
            "       "@ + seq!['…'] + chars@.skip(chars@.len() - max_len)
        },
{
    let len = chars.len();
    let mut res = String::new();
    res.append("        ");
    if len <= max_len {
        let mut i: usize = 0;
        while i < len
            invariant
                i <= len,
                len == chars@.len(),
                res@ == "        "@ + chars@.take(i as int),
            decreases len - i,
        {
            push_char(&mut res, chars[i]);
            proof {
                assert(chars@.take(i + 1) =~= chars@.take(i as int).push(chars@[i as int]));
            }
            i = i + 1;
        }
        proof {
            assert(chars@.take(len as int) =~= chars@);
        }
        (res, len)
    } else {
        let mut res = String::new();
        res.append("       ");
        push_char(&mut res, '…');
        let mut i: usize = len - max_len;
        while i < len
            invariant
                len - max_len <= i <= len,
                len == chars@.len(),
                max_len < len,
                res@ == "       "@ + seq!['…'] + chars@.subrange(len - max_len, i as int),
            decreases len - i,
        {
            push_char(&mut res, chars[i]);
            proof {
                assert(chars@.subrange(len - max_len, i + 1) =~= chars@.subrange(
                    len - max_len,
                    i as int,
                ).push(chars@[i as int]));
            }
            i = i + 1;
        }
        proof {
            assert(chars@.subrange(len - max_len, len as int) =~= chars@.skip(len - max_len));
        }
        (res, max_len)
    }
}

/// Appends one character to a string.
fn push_char(s: &mut String, c: char)
    ensures
        final(s)@ == old(s)@.push(c),
{
    let mut one: Vec<char> = Vec::new();
    one.push(c);
    let piece = crate::render::chars_to_string(&one);
    s.append(piece.as_str());
    proof {
        assert(old(s)@ + one@ =~= old(s)@.push(c));
    }
}

/// How one shown character lands in a mismatch message: as itself, except
/// at each line-width boundary, where either an ellipsis ends the message or
/// a break and fresh indentation precede the character.
pub open spec fn side_chunk(c: char, n: int, common_len: int) -> Seq<char> {
    if (n + common_len + 1) % 100 > 0 {
        seq![c]
    } else if n + 1 == 300 - common_len {
        seq!['…']
    } else {
        seq!['\n'] + "        "@ + seq![c]
    }
}

/// The characters one side of a mismatch message shows from position
/// `start + n` of a text on: each character laid out by `side_chunk`, up to
/// the end of the text or of the message's room.
pub open spec fn side_chars_from(chars: Seq<char>, start: int, n: int, common_len: int) -> Seq<
    char,
>
    decreases 300 - common_len - n,
{
    if n >= 300 - common_len || start + n >= chars.len() || n < 0 || common_len < 0 {
        Seq::empty()
    } else {
        side_chunk(chars[start + n], n, common_len) + side_chars_from(
            chars,
            start,
            n + 1,
            common_len,
        )
    }
}

/// Fills one side of a mismatch message: the first differing character, then
/// the rest of that side, broken into indented lines of bounded width, with
/// an ellipsis when the text runs past what the message shows.
pub fn fill_side(side: &mut String, first_char: Option<char>, common_len: usize, chars: &Vec<char>, start: usize)
    requires
        start <= chars@.len(),
        common_len <= 300,
    ensures
        final(side)@ == old(side)@ + (match first_char {
            Option::Some(c) => seq![c],
            Option::None => Seq::<char>::empty(),
        }) + side_chars_from(chars@, start as int, 0, common_len as int),
{
    match first_char {
        Option::Some(c) => push_char(side, c),
        Option::None => {},
    }
    let ghost head = side@;
    let remaining = 300 - common_len;
    let len = chars.len();
    let mut n: usize = 0;
    while n < remaining && start + n < len
        invariant
            start + n <= len,
            len == chars@.len(),
            n <= remaining,
            remaining == 300 - common_len,
            common_len <= 300,
            head + side_chars_from(chars@, start as int, 0, common_len as int) == side@
                + side_chars_from(chars@, start as int, n as int, common_len as int),
        decreases len - start - n,
    {
        let c = chars[start + n];
        if (n + common_len + 1) % 100 > 0 {
            push_char(side, c);
        } else if n + 1 == remaining {
            push_char(side, '…');
        } else {
            push_char(side, '\n');
            side.append("        ");
            push_char(side, c);
        }
        proof {
            assert(side_chars_from(chars@, start as int, n as int, common_len as int)
                =~= side_chunk(chars@[start + n], n as int, common_len as int) + side_chars_from(
                chars@,
                start as int,
                n + 1,
                common_len as int,
            ));
        }
        n = n + 1;
    }
    proof {
        assert(side_chars_from(chars@, start as int, n as int, common_len as int) =~= Seq::<
            char,
        >::empty());
        assert(side@ =~= head + side_chars_from(chars@, start as int, 0, common_len as int));
    }
}

/// Compares two texts with blank space flattened away; a mismatch yields a
/// message showing both sides from the first differing character on.
pub fn equivalent(a: &str, b: &str) -> (r: AssertResult)
    ensures
        r is Ok <==> simplified(a@) == simplified(b@),
{
    let sa = simplify(a);
    let sb = simplify(b);
    let la = sa.len();
    let lb = sb.len();
    let mut common: usize = 0;
    while common < la && common < lb && sa[common] == sb[common]
        invariant
            common <= la,
            common <= lb,
            la == sa@.len(),
            lb == sb@.len(),
            forall|j: int| 0 <= j < common ==> sa@[j] == sb@[j],
        decreases la - common,
    {
        common = common + 1;
    }
    if common == la && common == lb {
        proof {
            assert(sa@ =~= sb@);
        }
        return Ok(());
    }
    let mut prefix: Vec<char> = Vec::new();
    let mut k: usize = 0;
    while k < common
        invariant
            k <= common,
            common <= la,
            la == sa@.len(),
        decreases common - k,
    {
        prefix.push(sa[k]);
        k = k + 1;
    }
    let (left_head, shown) = last_to_string(&prefix, 20);
    let mut left = left_head;
    let mut right = left.clone();
    let mut div = String::new();
    let mut t: usize = 0;
    while t < shown
        invariant
            t <= shown,
        decreases shown - t,
    {
        push_char(&mut div, ' ');
        t = t + 1;
    }
    push_char(&mut div, '↓');
    let shown_capped = if shown > 300 {
        300
    } else {
        shown
    };
    let first_a = if common < la {
        Option::Some(sa[common])
    } else {
        Option::None
    };
    let first_b = if common < lb {
        Option::Some(sb[common])
    } else {
        Option::None
    };
    let rest_a = if common < la {
        common + 1
    } else {
        la
    };
    let rest_b = if common < lb {
        common + 1
    } else {
        lb
    };
    fill_side(&mut left, first_a, shown_capped, &sa, rest_a);
    fill_side(&mut right, first_b, shown_capped, &sb, rest_b);
    let mut message = String::new();
    message.append("assertion `left == right` failed\n  left: ");
    message.append(div.as_str());
    message.append("\n");
    message.append(left.as_str());
    message.append("\n right: ");
    message.append(div.as_str());
    message.append("\n");
    message.append(right.as_str());
    message.append("\n");
    proof {
        if simplified(a@) == simplified(b@) {
            assert(sa@.len() == sb@.len());
            assert(sa@[common as int] == sb@[common as int]);
        }
    }
    Err(message)
}

/// Checks that a transformation failed, with exactly the expected message.
pub fn failure<T>(result: Result<T, Failure>, expected_error_text: &str) -> (r: AssertResult)
    ensures
        r is Ok <==> (result matches Err(f) && f.message@ == expected_error_text@),
{
    match &result {
        Ok(_) => {
            let mut m = String::new();
            m.append("Should not have found an instance");
            Err(m)
        },
        Err(f) => {
            if str_eq(f.message.as_str(), expected_error_text) {
                Ok(())
            } else {
                let mut m = String::new();
                m.append(" Expected: ");
                m.append(expected_error_text);
                m.append("\n   Actual: ");
                m.append(f.message.as_str());
                m.append("\n");
                Err(m)
            }
        },
    }
}

/// Checks that a transformation failed, with exactly the expected message.
pub fn assert_failure<T>(result: Result<T, Failure>, expected_error_text: &str) -> (r:
    AssertResult)
    ensures
        r is Ok <==> (result matches Err(f) && f.message@ == expected_error_text@),
{
    failure(result, expected_error_text)
}

} // verus!
