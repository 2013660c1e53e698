//! Text as the transfer tool stores and prints it: lines, blank lines, decimal
//! numbers.

use vstd::prelude::*;
use vstd::string::*;

verus! {

/// `String::push` appends one character to the end of the string.
pub assume_specification[ String::push ](s: &mut String, c: char)
    ensures
        final(s)@ == old(s)@.push(c),
;

/// The characters of each string of `s`, in order.
pub open spec fn texts(s: Seq<String>) -> Seq<Seq<char>> {
    Seq::new(s.len(), |i: int| s[i]@)
}

/// Whether `c` has the Unicode property White_Space.
pub open spec fn white_space(c: char) -> bool {
    let u = c as u32;
    ||| 0x09 <= u <= 0x0d
    ||| u == 0x20 || u == 0x85 || u == 0xa0 || u == 0x1680
    ||| 0x2000 <= u <= 0x200a
    ||| u == 0x2028 || u == 0x2029 || u == 0x202f || u == 0x205f || u == 0x3000
}

/// Whether nothing but white space stands in `s`.
pub open spec fn blank(s: Seq<char>) -> bool {
    forall|i: int| 0 <= i < s.len() ==> white_space(#[trigger] s[i])
}

/// The number of characters before the first line feed, or all of them.
pub open spec fn first_line_len(s: Seq<char>) -> nat
    decreases s.len(),
{
    if s.len() == 0 || s[0] == '\n' {
        0
    } else {
        1 + first_line_len(s.drop_first())
    }
}

/// `s` without the carriage return that may end it.
pub open spec fn without_return(s: Seq<char>) -> Seq<char> {
    if s.len() > 0 && s.last() == '\r' {
        s.drop_last()
    } else {
        s
    }
}

/// The lines of `s`: each ends in a line feed, or a carriage return and a line
/// feed, neither of which belongs to the line. What follows the last line feed
/// is a line of its own unless it is empty.
pub open spec fn lines(s: Seq<char>) -> Seq<Seq<char>>
    decreases s.len(),
{
    let n = first_line_len(s) as int;
    if s.len() == 0 {
        Seq::empty()
    } else if n >= s.len() {
        seq![s]
    } else {
        seq![without_return(s.take(n))] + lines(s.skip(n + 1))
    }
}

/// The text that holds each of `ls` with a line feed behind it.
pub open spec fn unlines(ls: Seq<Seq<char>>) -> Seq<char>
    decreases ls.len(),
{
    if ls.len() == 0 {
        Seq::empty()
    } else {
        unlines(ls.drop_last()) + ls.last().push('\n')
    }
}

/// Whether `p`, written with a line feed behind it, is one line that reads back
/// as `p`: it holds no line feed and does not end in a carriage return.
pub open spec fn one_line(p: Seq<char>) -> bool {
    &&& !p.contains('\n')
    &&& p.len() > 0 ==> p.last() != '\r'
}

/// Whether a path survives being kept on a line of its own, where blank lines
/// are passed over.
pub open spec fn storable(p: Seq<char>) -> bool {
    one_line(p) && !blank(p)
}

proof fn lemma_first_line_len_bound(s: Seq<char>)
    ensures
        first_line_len(s) <= s.len(),
    decreases s.len(),
{
    if s.len() > 0 && s[0] != '\n' {
        lemma_first_line_len_bound(s.drop_first());
    }
}

proof fn lemma_first_line_len(cur: Seq<char>, rest: Seq<char>)
    requires
        !cur.contains('\n'),
        rest.len() == 0 || rest[0] == '\n',
    ensures
        first_line_len(cur + rest) == cur.len(),
    decreases cur.len(),
{
    if cur.len() == 0 {
        assert(cur + rest =~= rest);
    } else {
        assert(cur[0] != '\n');
        let tail = cur.drop_first();
        assert forall|i: int| 0 <= i < tail.len() implies tail[i] != '\n' by {
            assert(cur[i + 1] != '\n');
        }
        lemma_first_line_len(tail, rest);
        assert((cur + rest).drop_first() =~= tail + rest);
    }
}

/// A finished line at the front of a text is the first of its lines.
proof fn lemma_lines_front(cur: Seq<char>, rest: Seq<char>)
    requires
        !cur.contains('\n'),
    ensures
        lines(cur.push('\n') + rest) == seq![without_return(cur)] + lines(rest),
{
    let s = cur.push('\n') + rest;
    let behind = seq!['\n'] + rest;
    assert(s =~= cur + behind);
    lemma_first_line_len(cur, behind);
    assert(s.take(cur.len() as int) =~= cur);
    assert(s.skip(cur.len() as int + 1) =~= rest);
}

/// A text without a line feed is one line, or none if it is empty.
proof fn lemma_lines_last(cur: Seq<char>)
    requires
        !cur.contains('\n'),
    ensures
        lines(cur) == (if cur.len() == 0 { Seq::<Seq<char>>::empty() } else { seq![cur] }),
{
    assert(cur + Seq::<char>::empty() =~= cur);
    lemma_first_line_len(cur, Seq::empty());
}

/// The text of two listings, one behind the other, is the two texts in that order.
pub proof fn law_unlines_concat(a: Seq<Seq<char>>, b: Seq<Seq<char>>)
    ensures
        unlines(a + b) == unlines(a) + unlines(b),
    decreases b.len(),
{
    if b.len() == 0 {
        assert(a + b =~= a);
        assert(unlines(a) + unlines(b) =~= unlines(a));
    } else {
        assert((a + b).drop_last() =~= a + b.drop_last());
        law_unlines_concat(a, b.drop_last());
        assert(unlines(a) + unlines(b) =~= unlines(a) + unlines(b.drop_last()) + b.last().push(
            '\n',
        ));
    }
}

/// Reading back a text written line by line gives the lines that were written,
/// if each of them is one line.
pub proof fn law_lines_round_trip(ls: Seq<Seq<char>>)
    requires
        forall|i: int| 0 <= i < ls.len() ==> one_line(#[trigger] ls[i]),
    ensures
        lines(unlines(ls)) == ls,
    decreases ls.len(),
{
    if ls.len() > 0 {
        let head = ls[0];
        let tail = ls.drop_first();
        assert forall|i: int| 0 <= i < tail.len() implies one_line(#[trigger] tail[i]) by {
            assert(tail[i] == ls[i + 1]);
        }
        law_lines_round_trip(tail);
        assert(ls =~= seq![head] + tail);
        law_unlines_concat(seq![head], tail);
        assert(seq![head].drop_last() =~= Seq::<Seq<char>>::empty());
        assert(unlines(Seq::<Seq<char>>::empty()) =~= Seq::<char>::empty());
        assert(unlines(seq![head]) =~= head.push('\n'));
        lemma_lines_front(head, unlines(tail));
    }
}

/// No line holds a line feed.
pub proof fn law_lines_hold_no_line_feed(s: Seq<char>, i: int)
    requires
        0 <= i < lines(s).len(),
    ensures
        !lines(s)[i].contains('\n'),
    decreases s.len(),
{
    let n = first_line_len(s) as int;
    lemma_first_line_len_bound(s);
    lemma_before_line_feed(s);
    if n >= s.len() {
        assert(s.take(n) =~= s);
    } else if i > 0 {
        law_lines_hold_no_line_feed(s.skip(n + 1), i - 1);
    } else {
        let line = s.take(n);
        assert forall|j: int| 0 <= j < without_return(line).len() implies without_return(line)[j]
            != '\n' by {
            assert(line[j] != '\n');
        }
    }
}

proof fn lemma_before_line_feed(s: Seq<char>)
    ensures
        forall|j: int| 0 <= j < first_line_len(s) && j < s.len() ==> #[trigger] s[j] != '\n',
    decreases s.len(),
{
    if s.len() > 0 && s[0] != '\n' {
        let tail = s.drop_first();
        lemma_before_line_feed(tail);
        assert forall|j: int| 0 <= j < first_line_len(s) && j < s.len() implies #[trigger] s[j]
            != '\n' by {
            if j > 0 {
                assert(tail[j - 1] != '\n');
            }
        }
    }
}

/// Whether `c` is white space.
pub fn is_white_space(c: char) -> (r: bool)
    ensures
        r == white_space(c),
{
    let u: u32 = c as u32;
    (0x09 <= u && u <= 0x0d) || u == 0x20 || u == 0x85 || u == 0xa0 || u == 0x1680
        || (0x2000 <= u && u <= 0x200a) || u == 0x2028 || u == 0x2029 || u == 0x202f
        || u == 0x205f || u == 0x3000
}

/// Whether nothing but white space stands in `s`.
pub fn is_blank(s: &str) -> (r: bool)
    ensures
        r == blank(s@),
{
    for c in it: s.chars()
        invariant
            it.seq() == s@,
            forall|i: int| 0 <= i < it.index() ==> white_space(#[trigger] s@[i]),
    {
        if !is_white_space(c) {
            assert(!white_space(s@[it.index() as int]));
            return false;
        }
    }
    true
}

/// A line read so far: `cur`, and behind it the carriage return held back until
/// it is known whether a line feed follows.
spec fn unfinished(cur: Seq<char>, held: bool) -> Seq<char> {
    if held {
        cur.push('\r')
    } else {
        cur
    }
}

/// The lines of `s`, as `lines` says.
pub fn split_lines(s: &str) -> (r: Vec<String>)
    ensures
        texts(r@) == lines(s@),
{
    let mut done: Vec<String> = Vec::new();
    let mut cur = String::new();
    let mut held = false;
    assert(texts(done@) =~= Seq::<Seq<char>>::empty());
    assert(cur@ + s@.skip(0) =~= s@);
    assert(texts(done@) + lines(s@) =~= lines(s@));
    for c in it: s.chars()
        invariant
            it.seq() == s@,
            !cur@.contains('\n'),
            !held ==> cur@.len() == 0 || cur@.last() != '\r',
            lines(s@) == texts(done@) + lines(
                unfinished(cur@, held) + s@.skip(it.index() as int),
            ),
    {
        let ghost i = it.index() as int;
        let ghost before = unfinished(cur@, held);
        let ghost rest = s@.skip(i + 1);
        let ghost had = texts(done@);
        assert(before + s@.skip(i) =~= before.push(c) + rest);
        proof {
            assert forall|j: int| 0 <= j < before.len() implies before[j] != '\n' by {
                if j < cur@.len() {
                    assert(cur@[j] != '\n');
                }
            }
            assert(!before.contains('\n'));
        }
        if c == '\n' {
            proof {
                lemma_lines_front(before, rest);
                assert(without_return(before) =~= cur@);
            }
            let ghost line = cur@;
            done.push(cur);
            cur = String::new();
            held = false;
            proof {
                assert(texts(done@) =~= had.push(line));
                assert(unfinished(cur@, held) + rest =~= rest);
                assert(had + (seq![line] + lines(rest)) =~= texts(done@) + lines(rest));
            }
        } else {
            if held {
                cur.push('\r');
            }
            if c == '\r' {
                held = true;
            } else {
                held = false;
                cur.push(c);
            }
            assert(unfinished(cur@, held) =~= before.push(c));
            proof {
                assert forall|j: int| 0 <= j < cur@.len() implies cur@[j] != '\n' by {
                    if j < before.len() {
                        assert(before[j] != '\n');
                    }
                }
            }
        }
    }
    if held {
        cur.push('\r');
    }
    proof {
        assert(s@.skip(s@.len() as int) =~= Seq::<char>::empty());
        assert(cur@ + Seq::<char>::empty() =~= cur@);
        assert forall|j: int| 0 <= j < cur@.len() implies cur@[j] != '\n' by {}
        lemma_lines_last(cur@);
    }
    let ghost had = texts(done@);
    if !cur.as_str().is_empty() {
        let ghost line = cur@;
        done.push(cur);
        assert(texts(done@) =~= had + seq![line]);
    }
    done
}

/// What stands in `s` behind `prefix`, if `s` begins with that.
pub fn strip_prefix(s: &str, prefix: &str) -> (r: Option<String>)
    ensures
        match r {
            Some(rest) => prefix@.is_prefix_of(s@) && rest@ == s@.skip(prefix@.len() as int),
            None => !prefix@.is_prefix_of(s@),
        },
{
    let mut wanted: Vec<char> = Vec::new();
    for c in it: prefix.chars()
        invariant
            it.seq() == prefix@,
            wanted@ == prefix@.take(it.index() as int),
    {
        wanted.push(c);
        assert(wanted@ =~= prefix@.take(it.index() + 1));
    }
    assert(wanted@ =~= prefix@);
    let mut rest = String::new();
    let mut met: usize = 0;
    assert(rest@ =~= s@.subrange(0, 0));
    for c in it: s.chars()
        invariant
            it.seq() == s@,
            wanted@ == prefix@,
            it.index() <= s@.len(),
            met == (if it.index() < wanted@.len() { it.index() } else { wanted@.len() as int }),
            forall|j: int| 0 <= j < met ==> #[trigger] s@[j] == prefix@[j],
            rest@ == s@.subrange(met as int, it.index() as int),
    {
        if met < wanted.len() {
            if wanted[met] != c {
                assert(s@[met as int] != prefix@[met as int]);
                assert(!prefix@.is_prefix_of(s@)) by {
                    if prefix@.is_prefix_of(s@) {
                        assert(s@.subrange(0, prefix@.len() as int)[met as int] == s@[met as int]);
                    }
                }
                return None;
            }
            met = met + 1;
            assert(rest@ =~= s@.subrange(met as int, it.index() + 1));
        } else {
            rest.push(c);
            assert(rest@ =~= s@.subrange(met as int, it.index() + 1));
        }
    }
    if met < wanted.len() {
        None
    } else {
        assert(prefix@ =~= s@.subrange(0, prefix@.len() as int));
        assert(rest@ =~= s@.skip(prefix@.len() as int));
        Some(rest)
    }
}

/// The decimal digit for `d`.
pub open spec fn digit(d: int) -> char {
    (('0' as u32) + d) as char
}

/// `n` in decimal, without leading zeros.
pub open spec fn decimal(n: nat) -> Seq<char>
    decreases n,
{
    if n < 10 {
        seq![digit(n as int)]
    } else {
        decimal(n / 10).push(digit((n % 10) as int))
    }
}

fn push_decimal(s: &mut String, n: u64)
    ensures
        final(s)@ == old(s)@ + decimal(n as nat),
    decreases n,
{
    if n >= 10 {
        push_decimal(s, n / 10);
    }
    let d: u8 = (n % 10) as u8;
    s.push((48u8 + d) as char);
}

/// `n` in decimal.
pub fn to_decimal(n: u64) -> (r: String)
    ensures
        r@ == decimal(n as nat),
{
    let mut s = String::new();
    push_decimal(&mut s, n);
    s
}

/// The texts of a list are the characters of its strings, one for one and in their
/// order, and those of two lists, one behind the other, are the texts of each.
pub proof fn law_texts_are_kept(s: Seq<String>, t: Seq<String>)
    ensures
        texts(s).len() == s.len(),
        forall|i: int| 0 <= i < s.len() ==> #[trigger] texts(s)[i] == s[i]@,
        texts(s + t) == texts(s) + texts(t),
{
    assert(texts(s + t) =~= texts(s) + texts(t));
}

/// The white space characters are tab, line feed, vertical tab, form feed, carriage
/// return, space, the next line character, the no-break spaces, the Ogham space, the
/// spaces of fixed widths, the line and the paragraph separator, and the ideographic
/// space, and no others.
pub proof fn law_white_space_characters(c: char)
    ensures
        white_space(c) <==> {
            ||| c == '\t' || c == '\n' || c == '\u{b}' || c == '\u{c}' || c == '\r' || c == ' '
            ||| c == '\u{85}' || c == '\u{a0}' || c == '\u{1680}'
            ||| c == '\u{2000}' || c == '\u{2001}' || c == '\u{2002}' || c == '\u{2003}'
            ||| c == '\u{2004}' || c == '\u{2005}' || c == '\u{2006}' || c == '\u{2007}'
            ||| c == '\u{2008}' || c == '\u{2009}' || c == '\u{200a}'
            ||| c == '\u{2028}' || c == '\u{2029}' || c == '\u{202f}' || c == '\u{205f}'
            ||| c == '\u{3000}'
        },
{
}

/// A text is blank if and only if each of its characters is white space: one that holds
/// any other character, at whatever place, is not blank.
pub proof fn law_blank_is_white_space_only(s: Seq<char>)
    ensures
        blank(s) <==> forall|i: int|
            0 <= i < s.len() ==> {
                ||| '\t' <= #[trigger] s[i] <= '\r'
                ||| s[i] == ' ' || s[i] == '\u{85}' || s[i] == '\u{a0}' || s[i] == '\u{1680}'
                ||| '\u{2000}' <= s[i] <= '\u{200a}'
                ||| s[i] == '\u{2028}' || s[i] == '\u{2029}' || s[i] == '\u{202f}'
                ||| s[i] == '\u{205f}' || s[i] == '\u{3000}'
            },
        forall|c: char| #[trigger] s.contains(c) && '!' <= c <= '~' ==> !blank(s),
{
    assert forall|i: int| 0 <= i < s.len() implies {
        white_space(#[trigger] s[i]) <==> {
            ||| '\t' <= s[i] <= '\r'
            ||| s[i] == ' ' || s[i] == '\u{85}' || s[i] == '\u{a0}' || s[i] == '\u{1680}'
            ||| '\u{2000}' <= s[i] <= '\u{200a}'
            ||| s[i] == '\u{2028}' || s[i] == '\u{2029}' || s[i] == '\u{202f}'
            ||| s[i] == '\u{205f}' || s[i] == '\u{3000}'
        }
    } by {
        law_white_space_characters(s[i]);
    }
    assert forall|c: char| #[trigger] s.contains(c) && '!' <= c <= '~' implies !blank(s) by {
        assert(!white_space(s[s.index_of(c)]));
    }
}

/// Two texts, one behind the other, are blank if and only if both are.
pub proof fn law_blank_in_parts(a: Seq<char>, b: Seq<char>)
    ensures
        blank(a + b) <==> blank(a) && blank(b),
{
    let s = a + b;
    if blank(s) {
        assert forall|i: int| 0 <= i < a.len() implies white_space(#[trigger] a[i]) by {
            assert(s[i] == a[i]);
        }
        assert forall|i: int| 0 <= i < b.len() implies white_space(#[trigger] b[i]) by {
            assert(s[a.len() + i] == b[i]);
        }
    }
    if blank(a) && blank(b) {
        assert forall|i: int| 0 <= i < s.len() implies white_space(#[trigger] s[i]) by {
            if i < a.len() {
                assert(s[i] == a[i]);
            } else {
                assert(s[i] == b[i - a.len()]);
            }
        }
    }
}

/// The lines of a text are what stands before its first line feed, without the carriage
/// return that may precede that, and then the lines of what follows. A text without a
/// line feed is one line as it stands, and the empty text has none.
pub proof fn law_lines_one_by_one(line: Seq<char>, rest: Seq<char>)
    requires
        !line.contains('\n'),
    ensures
        lines(line + seq!['\r', '\n'] + rest) == seq![line] + lines(rest),
        line.len() == 0 || line.last() != '\r' ==> lines(line + seq!['\n'] + rest) == seq![line]
            + lines(rest),
        line.len() > 0 ==> lines(line) == seq![line],
        lines(Seq::empty()) == Seq::<Seq<char>>::empty(),
{
    let returned = line.push('\r');
    assert forall|i: int| 0 <= i < returned.len() implies returned[i] != '\n' by {
        if i < line.len() {
            assert(line[i] != '\n');
        }
    }
    lemma_lines_front(returned, rest);
    assert(returned.push('\n') + rest =~= line + seq!['\r', '\n'] + rest);
    assert(without_return(returned) =~= line);
    lemma_lines_front(line, rest);
    assert(line.push('\n') + rest =~= line + seq!['\n'] + rest);
    lemma_lines_last(line);
}

/// A listing of no lines is the empty text, and each further line adds itself and a line
/// feed behind the others.
pub proof fn law_unlines_one_by_one(ls: Seq<Seq<char>>, l: Seq<char>)
    ensures
        unlines(Seq::empty()) == Seq::<char>::empty(),
        unlines(ls.push(l)) == unlines(ls) + l + seq!['\n'],
        unlines(ls.push(l)).len() == unlines(ls).len() + l.len() + 1,
{
    assert(ls.push(l).drop_last() =~= ls);
    assert(unlines(ls) + l.push('\n') =~= unlines(ls) + l + seq!['\n']);
}

/// A path can be kept on a line if and only if it holds no line feed and does not end in
/// a carriage return, and it survives there if it is not blank, too.
pub proof fn law_storable_paths(p: Seq<char>)
    ensures
        one_line(p) <==> (forall|i: int| 0 <= i < p.len() ==> #[trigger] p[i] != '\n') && !(
        p.len() > 0 && p[p.len() - 1] == '\r'),
        storable(p) <==> one_line(p) && !blank(p),
{
    if one_line(p) {
        assert forall|i: int| 0 <= i < p.len() implies #[trigger] p[i] != '\n' by {
            assert(p.contains(p[i]));
        }
    }
}

/// A number of one digit is written as that digit, and ten times `n` and a digit more as
/// `n` and that digit behind it.
pub proof fn law_decimal_digits(n: nat, d: nat)
    requires
        d < 10,
    ensures
        decimal(d) == seq!["0123456789"@[d as int]],
        n > 0 ==> decimal(10 * n + d) == decimal(n) + seq!["0123456789"@[d as int]],
{
    reveal_strlit("0123456789");
    assert(digit(d as int) == "0123456789"@[d as int]) by {
        if d == 0 {
        } else if d == 1 {
        } else if d == 2 {
        } else if d == 3 {
        } else if d == 4 {
        } else if d == 5 {
        } else if d == 6 {
        } else if d == 7 {
        } else if d == 8 {
        } else {
            assert(d == 9);
        }
    }
    let m = 10 * n + d;
    assert(m / 10 == n && m % 10 == d);
    assert(decimal(n).push(digit(d as int)) =~= decimal(n) + seq!["0123456789"@[d as int]]);
}

} // verus!
