//! Verified text building blocks used across the pipeline: whitespace
//! tokenization of a command line, newline joining of captured lines,
//! decimal rendering of durations, and JSON string escaping of the webhook
//! payload.

use vstd::prelude::*;

verus! {

/// The whitespace characters on which a command line is split.
pub open spec fn is_ws(c: char) -> bool {
    c == ' ' || c == '\t' || c == '\n' || c == '\r'
}

/// The whitespace-separated tokens of `s` with `cur` as the token under
/// construction: scanning left to right, a whitespace character closes the
/// current token (an empty one is dropped), any other character extends it.
pub open spec fn split_ws_acc(s: Seq<char>, cur: Seq<char>) -> Seq<Seq<char>>
    decreases s.len(),
{
    if s.len() == 0 {
        if cur.len() == 0 {
            Seq::empty()
        } else {
            seq![cur]
        }
    } else if is_ws(s[0]) {
        if cur.len() == 0 {
            split_ws_acc(s.drop_first(), Seq::empty())
        } else {
            seq![cur] + split_ws_acc(s.drop_first(), Seq::empty())
        }
    } else {
        split_ws_acc(s.drop_first(), cur.push(s[0]))
    }
}

/// The whitespace-separated tokens of `s`, in order. Every token is a
/// maximal run of non-whitespace characters, so no token is empty.
pub open spec fn split_ws(s: Seq<char>) -> Seq<Seq<char>> {
    split_ws_acc(s, Seq::empty())
}

/// The views of a sequence of owned strings.
pub open spec fn seq_views(ts: Seq<String>) -> Seq<Seq<char>> {
    ts.map_values(|t: String| t@)
}

/// Appending a string appends its view to the views.
pub proof fn lemma_seq_views_push(ts: Seq<String>, t: String)
    ensures
        seq_views(ts.push(t)) == seq_views(ts).push(t@),
{
    assert(seq_views(ts.push(t)) =~= seq_views(ts).push(t@));
}

/// Whether `c` separates tokens of a command line.
pub fn is_ws_char(c: char) -> (r: bool)
    ensures
        r == is_ws(c),
{
    c == ' ' || c == '\t' || c == '\n' || c == '\r'
}

/// Split a command line into its whitespace-separated tokens, in order.
pub fn split_whitespace_tokens(s: &str) -> (tokens: Vec<String>)
    ensures
        seq_views(tokens@) == split_ws(s@),
{
    let n = s.unicode_len();
    let mut tokens: Vec<String> = Vec::new();
    let mut i: usize = 0;
    let mut start: usize = 0;
    proof {
        assert(s@.skip(0) =~= s@);
        assert(s@.subrange(0, 0) =~= Seq::<char>::empty());
        assert(seq_views(tokens@) =~= Seq::<Seq<char>>::empty());
    }
    while i < n
        invariant
            start <= i <= n,
            n == s@.len(),
            forall|m: int| start <= m < i ==> !is_ws(s@[m]),
            split_ws(s@) == seq_views(tokens@) + split_ws_acc(
                s@.skip(i as int),
                s@.subrange(start as int, i as int),
            ),
        decreases n - i,
    {
        let ghost rest = s@.skip(i as int);
        let ghost cur = s@.subrange(start as int, i as int);
        proof {
            assert(rest[0] == s@[i as int]);
            assert(rest.drop_first() =~= s@.skip(i as int + 1));
        }
        let c = s.get_char(i);
        if is_ws_char(c) {
            if start < i {
                let tok = s.substring_char(start, i).to_owned();
                proof {
                    assert(tok@ == cur);
                    assert(seq_views(tokens@.push(tok)) =~= seq_views(tokens@).push(cur));
                    assert(split_ws_acc(rest, cur) == seq![cur] + split_ws_acc(
                        rest.drop_first(),
                        Seq::empty(),
                    ));
                    assert(seq_views(tokens@) + split_ws_acc(rest, cur) =~= seq_views(
                        tokens@.push(tok),
                    ) + split_ws_acc(s@.skip(i as int + 1), Seq::empty()));
                }
                tokens.push(tok);
            } else {
                proof {
                    assert(cur.len() == 0);
                }
            }
            start = i + 1;
            proof {
                assert(s@.subrange(i as int + 1, i as int + 1) =~= Seq::<char>::empty());
            }
        } else {
            proof {
                assert(s@.subrange(start as int, i as int + 1) =~= cur.push(s@[i as int]));
            }
        }
        i += 1;
    }
    proof {
        assert(s@.skip(n as int) =~= Seq::<char>::empty());
    }
    if start < n {
        let tok = s.substring_char(start, n).to_owned();
        proof {
            assert(seq_views(tokens@.push(tok)) =~= seq_views(tokens@).push(
                s@.subrange(start as int, n as int),
            ));
            assert(seq_views(tokens@) + split_ws_acc(
                s@.skip(n as int),
                s@.subrange(start as int, n as int),
            ) =~= seq_views(tokens@.push(tok)));
        }
        tokens.push(tok);
    } else {
        proof {
            assert(seq_views(tokens@) + split_ws_acc(
                s@.skip(n as int),
                s@.subrange(start as int, n as int),
            ) =~= seq_views(tokens@));
        }
    }
    tokens
}

/// The lines joined with a single newline between consecutive lines: the
/// inverse of splitting a text into lines, for texts without a trailing
/// newline.
pub open spec fn join_lines(lines: Seq<Seq<char>>) -> Seq<char>
    decreases lines.len(),
{
    if lines.len() == 0 {
        Seq::empty()
    } else if lines.len() == 1 {
        lines[0]
    } else {
        lines[0] + seq!['\n'] + join_lines(lines.drop_first())
    }
}

proof fn lemma_join_lines_push(lines: Seq<Seq<char>>, x: Seq<char>)
    ensures
        join_lines(lines.push(x)) == if lines.len() == 0 {
            x
        } else {
            join_lines(lines) + seq!['\n'] + x
        },
    decreases lines.len(),
{
    if lines.len() == 0 {
        assert(lines.push(x) =~= seq![x]);
        assert(join_lines(seq![x]) == x);
    } else {
        lemma_join_lines_push(lines.drop_first(), x);
        assert(lines.push(x).drop_first() =~= lines.drop_first().push(x));
        assert(lines.push(x)[0] == lines[0]);
        if lines.len() == 1 {
            assert(join_lines(lines.push(x)) =~= lines[0] + seq!['\n'] + x);
            assert(join_lines(lines) + seq!['\n'] + x =~= lines[0] + seq!['\n'] + x);
        } else {
            assert(join_lines(lines.push(x)) =~= lines[0] + seq!['\n'] + (join_lines(
                lines.drop_first(),
            ) + seq!['\n'] + x));
            assert(join_lines(lines) + seq!['\n'] + x =~= lines[0] + seq!['\n'] + (join_lines(
                lines.drop_first(),
            ) + seq!['\n'] + x));
        }
    }
}

/// Join captured lines with a newline between consecutive lines.
pub fn join_lines_exec(lines: &Vec<String>) -> (r: String)
    ensures
        r@ == join_lines(seq_views(lines@)),
{
    let mut r = String::new();
    let mut i: usize = 0;
    proof {
        assert(seq_views(lines@).take(0) =~= Seq::<Seq<char>>::empty());
    }
    while i < lines.len()
        invariant
            i <= lines@.len(),
            r@ == join_lines(seq_views(lines@).take(i as int)),
        decreases lines@.len() - i,
    {
        let ghost prefix = seq_views(lines@).take(i as int);
        if i > 0 {
            r.append("\n");
            proof {
                reveal_strlit("\n");
                assert(("\n")@ =~= seq!['\n']);
            }
        }
        r.append(lines[i].as_str());
        proof {
            lemma_join_lines_push(prefix, lines@[i as int]@);
            assert(prefix.push(lines@[i as int]@) =~= seq_views(lines@).take(i as int + 1));
            if i == 0 {
                assert(r@ =~= lines@[0]@);
            }
        }
        i += 1;
    }
    proof {
        assert(seq_views(lines@).take(lines@.len() as int) =~= seq_views(lines@));
    }
    r
}

/// The decimal digit character for `d`.
pub open spec fn digit_char(d: int) -> char {
    if d == 0 {
        '0'
    } else if d == 1 {
        '1'
    } else if d == 2 {
        '2'
    } else if d == 3 {
        '3'
    } else if d == 4 {
        '4'
    } else if d == 5 {
        '5'
    } else if d == 6 {
        '6'
    } else if d == 7 {
        '7'
    } else if d == 8 {
        '8'
    } else {
        '9'
    }
}

/// The decimal rendering of `n`, most significant digit first, without
/// leading zeros (`0` renders as `"0"`).
pub open spec fn dec_str(n: nat) -> Seq<char>
    decreases n,
{
    if n < 10 {
        seq![digit_char(n as int)]
    } else {
        dec_str(n / 10).push(digit_char((n % 10) as int))
    }
}

fn digit_str(d: u64) -> (r: &'static str)
    requires
        d < 10,
    ensures
        r@ == seq![digit_char(d as int)],
{
    let r: &'static str = if d == 0 {
        "0"
    } else if d == 1 {
        "1"
    } else if d == 2 {
        "2"
    } else if d == 3 {
        "3"
    } else if d == 4 {
        "4"
    } else if d == 5 {
        "5"
    } else if d == 6 {
        "6"
    } else if d == 7 {
        "7"
    } else if d == 8 {
        "8"
    } else {
        "9"
    };
    proof {
        reveal_strlit("0");
        reveal_strlit("1");
        reveal_strlit("2");
        reveal_strlit("3");
        reveal_strlit("4");
        reveal_strlit("5");
        reveal_strlit("6");
        reveal_strlit("7");
        reveal_strlit("8");
        reveal_strlit("9");
        assert(r@ =~= seq![digit_char(d as int)]);
    }
    r
}

/// Render `n` in decimal.
pub fn dec_string(n: u64) -> (r: String)
    ensures
        r@ == dec_str(n as nat),
    decreases n,
{
    if n < 10 {
        digit_str(n).to_owned()
    } else {
        let mut r = dec_string(n / 10);
        r.append(digit_str(n % 10));
        proof {
            assert((n as nat) / 10 == (n / 10) as nat);
            assert((n as nat) % 10 == (n % 10) as nat);
            assert(dec_str((n as nat) / 10).push(digit_char((n % 10) as int)) =~= dec_str(
                (n as nat) / 10,
            ) + seq![digit_char((n % 10) as int)]);
        }
        r
    }
}

/// The hexadecimal digit character for `d` (lower case).
pub open spec fn hex_digit(d: int) -> char {
    if d < 10 {
        digit_char(d)
    } else if d == 10 {
        'a'
    } else if d == 11 {
        'b'
    } else if d == 12 {
        'c'
    } else if d == 13 {
        'd'
    } else if d == 14 {
        'e'
    } else {
        'f'
    }
}

/// The JSON escaping of one character inside a string literal: quote and
/// backslash get a backslash escape, the common control characters get their
/// short escapes, any other control character a `\u00..` escape, and every
/// remaining character stands for itself.
pub open spec fn escape_char(c: char) -> Seq<char> {
    if c == '"' {
        seq!['\\', '"']
    } else if c == '\\' {
        seq!['\\', '\\']
    } else if c == '\n' {
        seq!['\\', 'n']
    } else if c == '\r' {
        seq!['\\', 'r']
    } else if c == '\t' {
        seq!['\\', 't']
    } else if (c as u32) < 32 {
        seq!['\\', 'u', '0', '0', hex_digit((c as u32) as int / 16), hex_digit((c as u32) as int % 16)]
    } else {
        seq![c]
    }
}

/// The JSON escaping of a whole string body.
pub open spec fn json_escape(s: Seq<char>) -> Seq<char>
    decreases s.len(),
{
    if s.len() == 0 {
        Seq::empty()
    } else {
        escape_char(s[0]) + json_escape(s.drop_first())
    }
}

proof fn lemma_json_escape_push(s: Seq<char>, c: char)
    ensures
        json_escape(s.push(c)) == json_escape(s) + escape_char(c),
    decreases s.len(),
{
    if s.len() == 0 {
        assert(s.push(c) =~= seq![c]);
        assert(seq![c].drop_first() =~= Seq::<char>::empty());
        assert(json_escape(Seq::<char>::empty()) == Seq::<char>::empty());
        assert(json_escape(s.push(c)) =~= json_escape(s) + escape_char(c));
    } else {
        lemma_json_escape_push(s.drop_first(), c);
        assert(s.push(c).drop_first() =~= s.drop_first().push(c));
        assert(s.push(c)[0] == s[0]);
        assert(escape_char(s[0]) + (json_escape(s.drop_first()) + escape_char(c)) =~= (escape_char(
            s[0],
        ) + json_escape(s.drop_first())) + escape_char(c));
    }
}

fn hex_digit_str(d: u32) -> (r: &'static str)
    requires
        d < 16,
    ensures
        r@ == seq![hex_digit(d as int)],
{
    let r: &'static str = if d == 0 {
        "0"
    } else if d == 1 {
        "1"
    } else if d == 2 {
        "2"
    } else if d == 3 {
        "3"
    } else if d == 4 {
        "4"
    } else if d == 5 {
        "5"
    } else if d == 6 {
        "6"
    } else if d == 7 {
        "7"
    } else if d == 8 {
        "8"
    } else if d == 9 {
        "9"
    } else if d == 10 {
        "a"
    } else if d == 11 {
        "b"
    } else if d == 12 {
        "c"
    } else if d == 13 {
        "d"
    } else if d == 14 {
        "e"
    } else {
        "f"
    };
    proof {
        reveal_strlit("0");
        reveal_strlit("1");
        reveal_strlit("2");
        reveal_strlit("3");
        reveal_strlit("4");
        reveal_strlit("5");
        reveal_strlit("6");
        reveal_strlit("7");
        reveal_strlit("8");
        reveal_strlit("9");
        reveal_strlit("a");
        reveal_strlit("b");
        reveal_strlit("c");
        reveal_strlit("d");
        reveal_strlit("e");
        reveal_strlit("f");
        assert(r@ =~= seq![hex_digit(d as int)]);
    }
    r
}

/// Append the JSON escaping of `c`, read at position `i` of `s`, to `out`.
fn append_escaped(out: &mut String, s: &str, i: usize)
    requires
        i < s@.len(),
        s@.len() <= usize::MAX,
    ensures
        final(out)@ == old(out)@ + escape_char(s@[i as int]),
{
    let c = s.get_char(i);
    if c == '"' {
        out.append("\\\"");
        proof {
            reveal_strlit("\\\"");
            assert(("\\\"")@ =~= escape_char(c));
        }
    } else if c == '\\' {
        out.append("\\\\");
        proof {
            reveal_strlit("\\\\");
            assert(("\\\\")@ =~= escape_char(c));
        }
    } else if c == '\n' {
        out.append("\\n");
        proof {
            reveal_strlit("\\n");
            assert(("\\n")@ =~= escape_char(c));
        }
    } else if c == '\r' {
        out.append("\\r");
        proof {
            reveal_strlit("\\r");
            assert(("\\r")@ =~= escape_char(c));
        }
    } else if c == '\t' {
        out.append("\\t");
        proof {
            reveal_strlit("\\t");
            assert(("\\t")@ =~= escape_char(c));
        }
    } else if (c as u32) < 32 {
        let code = c as u32;
        out.append("\\u00");
        out.append(hex_digit_str(code / 16));
        out.append(hex_digit_str(code % 16));
        proof {
            reveal_strlit("\\u00");
            assert(out@ =~= old(out)@ + escape_char(c));
        }
    } else {
        out.append(s.substring_char(i, i + 1));
        proof {
            assert(s@.subrange(i as int, i as int + 1) =~= seq![c]);
            assert(out@ =~= old(out)@ + escape_char(c));
        }
    }
}

/// Escape a string for inclusion inside a JSON string literal.
pub fn json_escape_exec(s: &str) -> (r: String)
    ensures
        r@ == json_escape(s@),
{
    let n = s.unicode_len();
    let mut r = String::new();
    let mut i: usize = 0;
    proof {
        assert(s@.take(0) =~= Seq::<char>::empty());
    }
    while i < n
        invariant
            i <= n,
            n == s@.len(),
            r@ == json_escape(s@.take(i as int)),
        decreases n - i,
    {
        let ghost prefix = s@.take(i as int);
        append_escaped(&mut r, s, i);
        proof {
            lemma_json_escape_push(prefix, s@[i as int]);
            assert(prefix.push(s@[i as int]) =~= s@.take(i as int + 1));
        }
        i += 1;
    }
    proof {
        assert(s@.take(n as int) =~= s@);
    }
    r
}

} // verus!
