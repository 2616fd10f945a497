//! A line-oriented text sink that prefixes the first non-empty line of a
//! block with either a right-justified ordinal label or a fixed margin, and
//! every continuation line with matching whitespace.

use vstd::prelude::*;

use crate::text::append_str;
use crate::text::chars_to_string;

verus! {

/// The whitespace characters the renderer trims: ASCII whitespace.
pub open spec fn is_space(c: char) -> bool {
    c == ' ' || c == '\t' || c == '\n' || c == '\r' || c == '\x0C'
}

/// `s` without leading whitespace.
pub open spec fn trim_start(s: Seq<char>) -> Seq<char>
    decreases s.len(),
{
    if s.len() == 0 {
        s
    } else if is_space(s[0]) {
        trim_start(s.drop_first())
    } else {
        s
    }
}

/// `s` without trailing whitespace.
pub open spec fn trim_end(s: Seq<char>) -> Seq<char>
    decreases s.len(),
{
    if s.len() == 0 {
        s
    } else if is_space(s.last()) {
        trim_end(s.drop_last())
    } else {
        s
    }
}

/// `s` without leading or trailing whitespace.
pub open spec fn trim(s: Seq<char>) -> Seq<char> {
    trim_end(trim_start(s))
}

/// The lines of `s`, split on line breaks. Splitting never yields an empty
/// sequence: the empty text has one empty line.
pub open spec fn split_lines(s: Seq<char>) -> Seq<Seq<char>>
    decreases s.len(),
{
    if s.len() == 0 {
        seq![Seq::<char>::empty()]
    } else if s[0] == '\n' {
        seq![Seq::<char>::empty()] + split_lines(s.drop_first())
    } else {
        let rest = split_lines(s.drop_first());
        seq![seq![s[0]] + rest[0]] + rest.drop_first()
    }
}

pub proof fn lemma_split_lines_nonempty(s: Seq<char>)
    ensures
        split_lines(s).len() >= 1,
    decreases s.len(),
{
    if s.len() != 0 {
        lemma_split_lines_nonempty(s.drop_first());
    }
}

/// The decimal representation of `n`, most significant digit first.
pub open spec fn dec_rep(n: nat) -> Seq<char>
    decreases n,
{
    if n < 10 {
        seq![digit_char(n)]
    } else {
        dec_rep(n / 10) + seq![digit_char(n % 10)]
    }
}

/// The character for the decimal digit `d`.
pub open spec fn digit_char(d: nat) -> char {
    if d == 0 {
        '0'
    } else if d == 1 {
        '1'
    } else if d == 2 {
        '2'
    } else if d == 3 {
        '3'
    } else if d == 4 {
        '4'
    } else if d == 5 {
        '5'
    } else if d == 6 {
        '6'
    } else if d == 7 {
        '7'
    } else if d == 8 {
        '8'
    } else {
        '9'
    }
}

/// `k` spaces.
pub open spec fn spaces(k: nat) -> Seq<char> {
    Seq::new(k, |i: int| ' ')
}

/// What prefixes the first non-empty line of a block: the ordinal label,
/// right-justified to five characters and followed by a colon and a space,
/// or a fixed four-space margin.
pub open spec fn header(label: Option<usize>) -> Seq<char> {
    match label {
        Some(n) => {
            let digits = dec_rep(n as nat);
            let pad = if digits.len() >= 5 {
                0nat
            } else {
                (5 - digits.len()) as nat
            };
            spaces(pad) + digits + seq![':', ' ']
        },
        None => spaces(4),
    }
}

/// What prefixes every continuation line: whitespace matching the width of
/// the header.
pub open spec fn cont_margin(label: Option<usize>) -> Seq<char> {
    match label {
        Some(_) => spaces(7),
        None => spaces(4),
    }
}

/// The text the renderer emits for `lines`, entering with the given
/// `started` flag; `idx` is the position of `lines[0]` within the block
/// currently being written. Leading lines that are empty after trimming are
/// skipped; the first line with visible text is trimmed and prefixed with
/// the header; each later line is kept as it is, after a line break and the
/// continuation margin.
pub open spec fn written(
    lines: Seq<Seq<char>>,
    label: Option<usize>,
    started: bool,
    idx: nat,
) -> Seq<char>
    decreases lines.len(),
{
    if lines.len() == 0 {
        Seq::<char>::empty()
    } else {
        let line = lines[0];
        let rest = lines.drop_first();
        if !started {
            if trim(line).len() == 0 {
                written(rest, label, false, idx + 1)
            } else {
                header(label) + trim(line) + written(rest, label, true, idx + 1)
            }
        } else {
            let prefix = if idx > 0 {
                seq!['\n'] + cont_margin(label)
            } else {
                Seq::<char>::empty()
            };
            prefix + line + written(rest, label, true, idx + 1)
        }
    }
}

/// Whether the renderer has emitted a first line after writing `lines`,
/// entering with the given `started` flag.
pub open spec fn started_after(lines: Seq<Seq<char>>, started: bool) -> bool
    decreases lines.len(),
{
    if lines.len() == 0 {
        started
    } else {
        started_after(lines.drop_first(), started || trim(lines[0]).len() != 0)
    }
}

/// The complete output of a fresh renderer for the block `s`.
pub open spec fn indented_block(s: Seq<char>, label: Option<usize>) -> Seq<char> {
    written(split_lines(s), label, false, 0)
}

/// Whether `c` is trimmed by the renderer.
pub fn space_char(c: char) -> (r: bool)
    ensures
        r == is_space(c),
{
    c == ' ' || c == '\t' || c == '\n' || c == '\r' || c == '\x0C'
}

/// Appends the decimal representation of `n` to `out`.
pub fn push_dec(out: &mut Vec<char>, n: usize)
    ensures
        final(out)@ == old(out)@ + dec_rep(n as nat),
    decreases n,
{
    if n < 10 {
        let d = digit_exec(n);
        out.push(d);
        proof {
            assert(final(out)@ =~= old(out)@ + dec_rep(n as nat));
        }
    } else {
        push_dec(out, n / 10);
        let d = digit_exec(n % 10);
        out.push(d);
        proof {
            assert(final(out)@ =~= old(out)@ + dec_rep(n as nat));
        }
    }
}

/// The character for the decimal digit `d`.
fn digit_exec(d: usize) -> (c: char)
    requires
        d < 10,
    ensures
        c == digit_char(d as nat),
{
    if d == 0 {
        '0'
    } else if d == 1 {
        '1'
    } else if d == 2 {
        '2'
    } else if d == 3 {
        '3'
    } else if d == 4 {
        '4'
    } else if d == 5 {
        '5'
    } else if d == 6 {
        '6'
    } else if d == 7 {
        '7'
    } else if d == 8 {
        '8'
    } else {
        '9'
    }
}

/// Appends `k` spaces to `out`.
pub fn push_spaces(out: &mut Vec<char>, k: usize)
    ensures
        final(out)@ == old(out)@ + spaces(k as nat),
{
    let mut j: usize = 0;
    while j < k
        invariant
            j <= k,
            out@ == old(out)@ + spaces(j as nat),
        decreases k - j,
    {
        out.push(' ');
        j = j + 1;
        proof {
            assert(out@ =~= old(out)@ + spaces(j as nat));
        }
    }
}

/// Appends the header for `label` to `out`.
pub fn push_header(out: &mut Vec<char>, label: Option<usize>)
    ensures
        final(out)@ == old(out)@ + header(label),
{
    match label {
        Some(n) => {
            let mut digits: Vec<char> = Vec::new();
            push_dec(&mut digits, n);
            let pad: usize = if digits.len() >= 5 {
                0
            } else {
                5 - digits.len()
            };
            push_spaces(out, pad);
            out.append(&mut digits);
            out.push(':');
            out.push(' ');
            proof {
                assert(final(out)@ =~= old(out)@ + header(label));
            }
        },
        None => {
            push_spaces(out, 4);
        },
    }
}

/// Appends the continuation margin for `label` to `out`.
pub fn push_cont_margin(out: &mut Vec<char>, label: Option<usize>)
    ensures
        final(out)@ == old(out)@ + cont_margin(label),
{
    match label {
        Some(_) => push_spaces(out, 7),
        None => push_spaces(out, 4),
    }
}

/// `ls` with `c` joined onto the front of its first line.
spec fn join_first(c: Seq<char>, ls: Seq<Seq<char>>) -> Seq<Seq<char>>
    recommends
        ls.len() >= 1,
{
    seq![c + ls[0]] + ls.drop_first()
}

/// Splits `chars` into its lines.
fn split_exec(chars: &Vec<char>) -> (lines: Vec<Vec<char>>)
    ensures
        lines@.map_values(|l: Vec<char>| l@) == split_lines(chars@),
{
    let n = chars.len();
    let mut lines: Vec<Vec<char>> = Vec::new();
    let mut cur: Vec<char> = Vec::new();
    let mut i: usize = 0;
    proof {
        lemma_split_lines_nonempty(chars@);
        assert(chars@.subrange(0, n as int) =~= chars@);
        assert(join_first(cur@, split_lines(chars@)) =~= split_lines(chars@));
    }
    while i < n
        invariant
            i <= n,
            n == chars@.len(),
            split_lines(chars@.subrange(i as int, n as int)).len() >= 1,
            split_lines(chars@) =~= lines@.map_values(|l: Vec<char>| l@) + join_first(
                cur@,
                split_lines(chars@.subrange(i as int, n as int)),
            ),
        decreases n - i,
    {
        let ghost pre_lines = lines@;
        let ghost pre_cur = cur@;
        let ghost rest = chars@.subrange(i as int, n as int);
        let ghost rest_next = chars@.subrange(i as int + 1, n as int);
        proof {
            assert(rest[0] == chars@[i as int]);
            assert(rest.drop_first() =~= rest_next);
            lemma_split_lines_nonempty(rest_next);
        }
        let c = chars[i];
        if c == '\n' {
            lines.push(cur);
            cur = Vec::new();
            proof {
                assert(split_lines(rest) =~= seq![Seq::<char>::empty()] + split_lines(
                    rest_next,
                ));
                assert(lines@.map_values(|l: Vec<char>| l@) =~= pre_lines.map_values(
                    |l: Vec<char>| l@,
                ).push(pre_cur));
                assert(pre_lines.map_values(|l: Vec<char>| l@) + join_first(
                    pre_cur,
                    split_lines(rest),
                ) =~= lines@.map_values(|l: Vec<char>| l@) + join_first(
                    cur@,
                    split_lines(rest_next),
                ));
            }
        } else {
            cur.push(c);
            proof {
                let tail = split_lines(rest_next);
                assert(split_lines(rest) =~= seq![seq![rest[0]] + tail[0]]
                    + tail.drop_first());
                assert(pre_cur + split_lines(rest)[0] =~= cur@ + tail[0]);
                assert(pre_lines.map_values(|l: Vec<char>| l@) + join_first(
                    pre_cur,
                    split_lines(rest),
                ) =~= lines@.map_values(|l: Vec<char>| l@) + join_first(cur@, tail));
            }
        }
        i = i + 1;
    }
    let ghost pre_lines = lines@;
    let ghost pre_cur = cur@;
    lines.push(cur);
    proof {
        assert(chars@.subrange(n as int, n as int) =~= Seq::<char>::empty());
        assert(join_first(pre_cur, split_lines(Seq::<char>::empty())) =~= seq![pre_cur]);
        assert(lines@.map_values(|l: Vec<char>| l@) =~= pre_lines.map_values(
            |l: Vec<char>| l@,
        ) + seq![pre_cur]);
        assert(lines@.map_values(|l: Vec<char>| l@) =~= split_lines(chars@));
    }
    lines
}

/// `line` without leading or trailing whitespace.
fn trim_exec(line: &Vec<char>) -> (t: Vec<char>)
    ensures
        t@ == trim(line@),
{
    let n = line.len();
    proof {
        assert(line@.subrange(0, n as int) =~= line@);
    }
    let mut a: usize = 0;
    while a < n && space_char(line[a])
        invariant
            a <= n,
            n == line@.len(),
            trim_start(line@) == trim_start(line@.subrange(a as int, n as int)),
        decreases n - a,
    {
        proof {
            let s = line@.subrange(a as int, n as int);
            assert(s.drop_first() =~= line@.subrange(a as int + 1, n as int));
        }
        a = a + 1;
    }
    proof {
        let s = line@.subrange(a as int, n as int);
        assert(trim_start(s) == s);
    }
    let mut b: usize = n;
    while b > a && space_char(line[b - 1])
        invariant
            a <= b <= n,
            n == line@.len(),
            trim_start(line@) == line@.subrange(a as int, n as int),
            trim(line@) == trim_end(line@.subrange(a as int, b as int)),
        decreases b,
    {
        proof {
            let s = line@.subrange(a as int, b as int);
            assert(s.last() == line@[b - 1]);
            assert(s.drop_last() =~= line@.subrange(a as int, b as int - 1));
        }
        b = b - 1;
    }
    proof {
        let s = line@.subrange(a as int, b as int);
        if b > a {
            assert(s.last() == line@[b - 1]);
        }
        assert(trim_end(s) == s);
    }
    let mut t: Vec<char> = Vec::new();
    let mut i: usize = a;
    while i < b
        invariant
            a <= i <= b <= n,
            n == line@.len(),
            t@ == line@.subrange(a as int, i as int),
        decreases b - i,
    {
        t.push(line[i]);
        i = i + 1;
        proof {
            assert(t@ =~= line@.subrange(a as int, i as int));
        }
    }
    t
}

/// A text sink that numbers and indents each block of text written through
/// it: the first non-empty line of the first block gets the header, every
/// later line the continuation margin. Output accumulates in `out`.
pub struct Indented {
    pub out: Vec<char>,
    pub ind: Option<usize>,
    pub started: bool,
}

impl Indented {
    /// A renderer that labels the first line with the ordinal `ind`.
    pub fn numbered(ind: usize) -> (r: Indented)
        ensures
            r.out@ == Seq::<char>::empty(),
            r.ind == Some(ind),
            !r.started,
    {
        let r = Indented { out: Vec::new(), ind: Some(ind), started: false };
        proof {
            assert(r.out@ =~= Seq::<char>::empty());
        }
        r
    }

    /// A renderer with a plain four-space margin and no label.
    pub fn plain() -> (r: Indented)
        ensures
            r.out@ == Seq::<char>::empty(),
            r.ind is None,
            !r.started,
    {
        let r = Indented { out: Vec::new(), ind: None, started: false };
        proof {
            assert(r.out@ =~= Seq::<char>::empty());
        }
        r
    }

    /// Writes a block of text through the renderer, indenting it as
    /// `written` describes.
    pub fn write_str(&mut self, s: &str)
        ensures
            final(self).out@ == old(self).out@ + written(
                split_lines(s@),
                old(self).ind,
                old(self).started,
                0,
            ),
            final(self).started == started_after(split_lines(s@), old(self).started),
            final(self).ind == old(self).ind,
    {
        let mut chars: Vec<char> = Vec::new();
        append_str(&mut chars, s);
        proof {
            assert(chars@ =~= s@);
        }
        let lines = split_exec(&chars);
        let ghost lseq = split_lines(s@);
        let ghost out0 = self.out@;
        let ghost started0 = self.started;
        let ghost label = self.ind;
        let n = lines.len();
        proof {
            assert(lseq.subrange(0, n as int) =~= lseq);
        }
        let mut j: usize = 0;
        while j < n
            invariant
                j <= n,
                n == lines@.len(),
                lines@.map_values(|l: Vec<char>| l@) == lseq,
                self.ind == label,
                out0 + written(lseq, label, started0, 0) =~= self.out@ + written(
                    lseq.subrange(j as int, n as int),
                    label,
                    self.started,
                    j as nat,
                ),
                started_after(lseq, started0) == started_after(
                    lseq.subrange(j as int, n as int),
                    self.started,
                ),
            decreases n - j,
        {
            let ghost rest = lseq.subrange(j as int, n as int);
            let ghost rest_next = lseq.subrange(j as int + 1, n as int);
            proof {
                assert(rest[0] == lseq[j as int]);
                assert(rest.drop_first() =~= rest_next);
            }
            let line = &lines[j];
            if !self.started {
                let t = trim_exec(line);
                if t.len() != 0 {
                    push_header(&mut self.out, self.ind);
                    let mut tv = t;
                    self.out.append(&mut tv);
                    self.started = true;
                }
            } else {
                if j > 0 {
                    self.out.push('\n');
                    push_cont_margin(&mut self.out, self.ind);
                }
                let mut lv = line.clone();
                self.out.append(&mut lv);
            }
            j = j + 1;
            proof {
                assert(out0 + written(lseq, label, started0, 0) =~= self.out@ + written(
                    rest_next,
                    label,
                    self.started,
                    j as nat,
                ));
            }
        }
        proof {
            assert(lseq.subrange(n as int, n as int) =~= Seq::<Seq<char>>::empty());
            assert(final(self).out@ =~= old(self).out@ + written(
                lseq,
                label,
                started0,
                0,
            ));
        }
    }

    /// The text accumulated so far, as a string.
    pub fn finish(&self) -> (r: String)
        ensures
            r@ == self.out@,
    {
        chars_to_string(&self.out)
    }
}

} // verus!
