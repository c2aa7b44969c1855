//! The layout of a list that is written with one entry on each line.
//!
//! Every entry stands on a line of its own, indented by four spaces, and the
//! comments that stood around an entry are kept: each is moved to a line of
//! its own above the entry.

use vstd::prelude::*;
use crate::text::append_chars;

verus! {

/// White space that may stand around a comment.
pub open spec fn is_blank(c: char) -> bool {
    c == ' ' || c == '\t' || c == '\r' || c == '\n'
}

/// Where the first line of `s` ends: the place of its first line break, or
/// its length where it holds none.
pub open spec fn first_break(s: Seq<char>) -> int
    decreases s.len(),
{
    if s.len() == 0 || s[0] == '\n' {
        0
    } else {
        1 + first_break(s.drop_first())
    }
}

/// `s` without the white space at its start.
pub open spec fn trim_start(s: Seq<char>) -> Seq<char>
    decreases s.len(),
{
    if s.len() > 0 && is_blank(s[0]) {
        trim_start(s.drop_first())
    } else {
        s
    }
}

/// `s` without the white space at its end.
pub open spec fn trim_end(s: Seq<char>) -> Seq<char>
    decreases s.len(),
{
    if s.len() > 0 && is_blank(s.last()) {
        trim_end(s.drop_last())
    } else {
        s
    }
}

/// `s` without the white space at either end.
pub open spec fn trimmed(s: Seq<char>) -> Seq<char> {
    trim_end(trim_start(s))
}

/// A line is a comment when it starts with `#`.
pub open spec fn is_comment(line: Seq<char>) -> bool {
    line.len() > 0 && line[0] == '#'
}

/// The comments in `s`, in order: of each of its lines, what is left when the
/// white space around it is taken away, where that starts with `#`.
pub open spec fn comments(s: Seq<char>) -> Seq<Seq<char>>
    decreases s.len(),
{
    if s.len() == 0 {
        Seq::empty()
    } else {
        let k = first_break(s);
        let line = trimmed(s.take(k));
        let rest = if 0 <= k < s.len() {
            comments(s.skip(k + 1))
        } else {
            Seq::empty()
        };
        if is_comment(line) {
            seq![line] + rest
        } else {
            rest
        }
    }
}

/// What stands before each line of the list: a line break and four spaces.
pub open spec fn indent() -> Seq<char> {
    seq!['\n', ' ', ' ', ' ', ' ']
}

/// The comments `cs`, each on an indented line of its own.
pub open spec fn comment_block(cs: Seq<Seq<char>>) -> Seq<char>
    decreases cs.len(),
{
    if cs.len() == 0 {
        Seq::empty()
    } else {
        comment_block(cs.drop_last()) + indent() + cs.last()
    }
}

/// What is written before an entry of the list: the comments that stood
/// before and after it, then the indentation of the entry itself.
pub open spec fn entry_prefix(prefix: Seq<char>, suffix: Seq<char>) -> Seq<char> {
    comment_block(comments(prefix) + comments(suffix)) + indent()
}

/// What is written after the last entry of the list: the comments that stood
/// there, and a line break before the closing bracket unless the list holds
/// neither a comment nor an entry.
pub open spec fn list_trailing(trailing: Seq<char>, has_entries: bool) -> Seq<char> {
    let cs = comments(trailing);
    if cs.len() > 0 || has_entries {
        comment_block(cs) + seq!['\n']
    } else {
        Seq::empty()
    }
}

/// A comment as `comments` gives it: it starts with `#`, holds no line break
/// and does not end in white space.
pub open spec fn is_clean(c: Seq<char>) -> bool {
    &&& is_comment(c)
    &&& !is_blank(c.last())
    &&& forall|i: int| 0 <= i < c.len() ==> c[i] != '\n'
}

/// Every one of `cs` is clean.
pub open spec fn all_clean(cs: Seq<Seq<char>>) -> bool {
    forall|i: int| 0 <= i < cs.len() ==> is_clean(#[trigger] cs[i])
}

pub proof fn lemma_first_break(s: Seq<char>)
    ensures
        0 <= first_break(s) <= s.len(),
        forall|j: int| 0 <= j < first_break(s) ==> s[j] != '\n',
        first_break(s) < s.len() ==> s[first_break(s)] == '\n',
    decreases s.len(),
{
    if s.len() > 0 && s[0] != '\n' {
        let t = s.drop_first();
        lemma_first_break(t);
        assert forall|j: int| 0 <= j < first_break(s) implies s[j] != '\n' by {
            if j > 0 {
                assert(s[j] == t[j - 1]);
            }
        }
    }
}

/// The first line of `s` ends at `k` where no line break stands before `k`
/// and one stands at `k`, or `s` ends there.
pub proof fn lemma_first_break_at(s: Seq<char>, k: int)
    requires
        0 <= k <= s.len(),
        forall|j: int| 0 <= j < k ==> s[j] != '\n',
        k == s.len() || s[k] == '\n',
    ensures
        first_break(s) == k,
    decreases k,
{
    if k > 0 {
        lemma_first_break_at(s.drop_first(), k - 1);
    }
}

proof fn lemma_trim_start(s: Seq<char>, a: int)
    requires
        0 <= a <= s.len(),
        forall|j: int| 0 <= j < a ==> is_blank(s[j]),
        a == s.len() || !is_blank(s[a]),
    ensures
        trim_start(s) == s.skip(a),
    decreases a,
{
    if a > 0 {
        lemma_trim_start(s.drop_first(), a - 1);
    }
}

proof fn lemma_trim_end(s: Seq<char>, b: int)
    requires
        0 <= b <= s.len(),
        forall|j: int| b <= j < s.len() ==> is_blank(s[j]),
        b == 0 || !is_blank(s[b - 1]),
    ensures
        trim_end(s) == s.take(b),
    decreases s.len() - b,
{
    if b < s.len() {
        lemma_trim_end(s.drop_last(), b);
    }
}

/// What is left of `line` between `a` and `b`, where all before `a` and all
/// from `b` on is white space and neither bound can be moved inwards.
pub proof fn lemma_trimmed_between(line: Seq<char>, a: int, b: int)
    requires
        0 <= a <= b <= line.len(),
        forall|j: int| 0 <= j < a ==> is_blank(line[j]),
        a == line.len() || !is_blank(line[a]),
        forall|j: int| b <= j < line.len() ==> is_blank(line[j]),
        b == a || !is_blank(line[b - 1]),
    ensures
        trimmed(line) == line.subrange(a, b),
{
    lemma_trim_start(line, a);
    let t = line.skip(a);
    lemma_trim_end(t, b - a);
}

/// What is left of a line when the white space around it is taken away holds
/// no line break where the line held none, and is clean where it is a comment.
proof fn lemma_trimmed_clean(line: Seq<char>)
    requires
        forall|i: int| 0 <= i < line.len() ==> line[i] != '\n',
    ensures
        is_comment(trimmed(line)) ==> is_clean(trimmed(line)),
{
    lemma_trim_start_part(line);
    lemma_trim_end_part(trim_start(line));
}

proof fn lemma_trim_start_part(s: Seq<char>)
    ensures
        exists|a: int| 0 <= a <= s.len() && trim_start(s) == #[trigger] s.skip(a),
    decreases s.len(),
{
    if s.len() > 0 && is_blank(s[0]) {
        let t = s.drop_first();
        lemma_trim_start_part(t);
        let a = choose|a: int| 0 <= a <= t.len() && trim_start(t) == #[trigger] t.skip(a);
        assert(t.skip(a) =~= s.skip(a + 1));
    } else {
        assert(s.skip(0) =~= s);
    }
}

proof fn lemma_trim_end_part(s: Seq<char>)
    ensures
        exists|b: int| 0 <= b <= s.len() && trim_end(s) == #[trigger] s.take(b),
        trim_end(s).len() > 0 ==> !is_blank(trim_end(s).last()),
    decreases s.len(),
{
    if s.len() > 0 && is_blank(s.last()) {
        let t = s.drop_last();
        lemma_trim_end_part(t);
        let b = choose|b: int| 0 <= b <= t.len() && trim_end(t) == #[trigger] t.take(b);
        assert(t.take(b) =~= s.take(b));
    } else {
        assert(s.take(s.len() as int) =~= s);
    }
}

/// Every comment that `comments` finds is clean.
pub proof fn lemma_comments_clean(s: Seq<char>)
    ensures
        all_clean(comments(s)),
    decreases s.len(),
{
    if s.len() > 0 {
        let k = first_break(s);
        lemma_first_break(s);
        let line = trimmed(s.take(k));
        lemma_trimmed_clean(s.take(k));
        if 0 <= k < s.len() {
            lemma_comments_clean(s.skip(k + 1));
        }
    }
}

/// The comments of two texts joined by a line break are those of the first,
/// then those of the second.
pub proof fn lemma_comments_join(a: Seq<char>, b: Seq<char>)
    ensures
        comments(a + seq!['\n'] + b) == comments(a) + comments(b),
    decreases a.len(),
{
    let s = a + seq!['\n'] + b;
    let k = first_break(a);
    lemma_first_break(a);
    lemma_first_break_at(s, k);
    assert(s.take(k) =~= a.take(k));
    if k < a.len() {
        let rest = a.skip(k + 1);
        lemma_comments_join(rest, b);
        assert(s.skip(k + 1) =~= rest + seq!['\n'] + b);
    } else {
        assert(s.skip(k + 1) =~= b);
    }
}

/// The block of two lists of comments is the block of the first, then that
/// of the second.
pub proof fn lemma_comment_block_concat(c1: Seq<Seq<char>>, c2: Seq<Seq<char>>)
    ensures
        comment_block(c1 + c2) == comment_block(c1) + comment_block(c2),
    decreases c2.len(),
{
    if c2.len() > 0 {
        lemma_comment_block_concat(c1, c2.drop_last());
        assert((c1 + c2).drop_last() =~= c1 + c2.drop_last());
    }
}

/// A clean comment behind four spaces is read back as it stands.
proof fn lemma_indented_comment(c: Seq<char>)
    requires
        is_clean(c),
    ensures
        comments(seq![' ', ' ', ' ', ' '] + c) == seq![c],
{
    let line = seq![' ', ' ', ' ', ' '] + c;
    lemma_first_break_at(line, line.len() as int);
    assert(line.take(line.len() as int) =~= line);
    lemma_trimmed_between(line, 4, line.len() as int);
    assert(line.subrange(4, line.len() as int) =~= c);
}

/// No comment stands in four spaces, nor in nothing.
proof fn lemma_no_comment_in_blank()
    ensures
        comments(seq![' ', ' ', ' ', ' ']) == Seq::<Seq<char>>::empty(),
        comments(Seq::<char>::empty()) == Seq::<Seq<char>>::empty(),
{
    let line = seq![' ', ' ', ' ', ' '];
    lemma_first_break_at(line, 4);
    assert(line.take(4) =~= line);
    lemma_trimmed_between(line, 4, 4);
}

/// Clean comments that were written as a block are read back as they were.
pub proof fn lemma_comments_of_block(cs: Seq<Seq<char>>)
    requires
        all_clean(cs),
    ensures
        comments(comment_block(cs)) == cs,
    decreases cs.len(),
{
    lemma_no_comment_in_blank();
    if cs.len() > 0 {
        let init = cs.drop_last();
        let c = cs.last();
        assert(all_clean(init));
        lemma_comments_of_block(init);
        let tail = seq![' ', ' ', ' ', ' '] + c;
        assert(comment_block(cs) =~= comment_block(init) + seq!['\n'] + tail);
        lemma_comments_join(comment_block(init), tail);
        lemma_indented_comment(c);
    }
}

/// Laying an entry out a second time changes nothing.
pub proof fn lemma_entry_prefix_idempotent(prefix: Seq<char>, suffix: Seq<char>)
    ensures
        entry_prefix(entry_prefix(prefix, suffix), Seq::empty()) == entry_prefix(prefix, suffix),
{
    let cs = comments(prefix) + comments(suffix);
    lemma_comments_clean(prefix);
    lemma_comments_clean(suffix);
    lemma_comments_of_block(cs);
    lemma_no_comment_in_blank();
    let once = entry_prefix(prefix, suffix);
    assert(once =~= comment_block(cs) + seq!['\n'] + seq![' ', ' ', ' ', ' ']);
    lemma_comments_join(comment_block(cs), seq![' ', ' ', ' ', ' ']);
}

/// Laying the end of a list out a second time changes nothing.
pub proof fn lemma_list_trailing_idempotent(trailing: Seq<char>, has_entries: bool)
    ensures
        list_trailing(list_trailing(trailing, has_entries), has_entries) == list_trailing(
            trailing,
            has_entries,
        ),
{
    let cs = comments(trailing);
    lemma_comments_clean(trailing);
    lemma_no_comment_in_blank();
    if cs.len() > 0 || has_entries {
        lemma_comments_of_block(cs);
        lemma_comments_join(comment_block(cs), Seq::<char>::empty());
    }
}

fn is_blank_char(c: char) -> (res: bool)
    ensures
        res == is_blank(c),
{
    c == ' ' || c == '\t' || c == '\r' || c == '\n'
}

/// Adds the indentation of a line to `out`.
fn push_indent(out: &mut Vec<char>)
    ensures
        final(out)@ == old(out)@ + indent(),
{
    out.push('\n');
    out.push(' ');
    out.push(' ');
    out.push(' ');
    out.push(' ');
}

/// Adds to `out` the comments of `text`, each on an indented line of its own.
pub fn push_comments(out: &mut Vec<char>, text: &Vec<char>)
    ensures
        final(out)@ == old(out)@ + comment_block(comments(text@)),
{
    let n = text.len();
    let ghost mut done: Seq<Seq<char>> = Seq::empty();
    let mut pos: usize = 0;
    proof {
        assert(text@.skip(0) =~= text@);
    }
    while pos < n
        invariant
            pos <= n,
            n == text@.len(),
            out@ == old(out)@ + comment_block(done),
            comments(text@) == done + comments(text@.skip(pos as int)),
        decreases n - pos,
    {
        let ghost s = text@.skip(pos as int);
        let mut end = pos;
        while end < n && text[end] != '\n'
            invariant
                pos <= end <= n,
                n == text@.len(),
                forall|j: int| pos <= j < end ==> text@[j] != '\n',
            decreases n - end,
        {
            end += 1;
        }
        let mut a = pos;
        while a < end && is_blank_char(text[a])
            invariant
                pos <= a <= end <= n,
                n == text@.len(),
                forall|j: int| pos <= j < a ==> is_blank(text@[j]),
            decreases end - a,
        {
            a += 1;
        }
        let mut b = end;
        while b > a && is_blank_char(text[b - 1])
            invariant
                a <= b <= end <= n,
                n == text@.len(),
                forall|j: int| b <= j < end ==> is_blank(text@[j]),
            decreases b - a,
        {
            b -= 1;
        }
        proof {
            let k = end - pos;
            lemma_first_break_at(s, k);
            let line = s.take(k);
            lemma_trimmed_between(line, a - pos, b - pos);
            assert(line.subrange(a - pos, b - pos) =~= text@.subrange(a as int, b as int));
            if end < n {
                assert(s.skip(k + 1) =~= text@.skip(end + 1));
            }
        }
        let ghost found = text@.subrange(a as int, b as int);
        if a < b && text[a] == '#' {
            push_indent(out);
            let mut i = a;
            while i < b
                invariant
                    a <= i <= b <= n,
                    n == text@.len(),
                    out@ == old(out)@ + comment_block(done) + indent() + text@.subrange(
                        a as int,
                        i as int,
                    ),
                decreases b - i,
            {
                out.push(text[i]);
                assert(text@.subrange(a as int, i as int + 1) =~= text@.subrange(
                    a as int,
                    i as int,
                ).push(text@[i as int]));
                i += 1;
            }
            proof {
                let more = done.push(found);
                assert(more.drop_last() =~= done);
                assert(done + (seq![found] + comments(s.skip(end - pos + 1))) =~= more + comments(
                    s.skip(end - pos + 1),
                ));
                done = more;
            }
        }
        if end < n {
            pos = end + 1;
        } else {
            pos = n;
        }
    }
}

/// What to write before an entry that had `prefix` before it and `suffix`
/// after it.
pub fn lay_out_prefix(prefix: &Vec<char>, suffix: &Vec<char>) -> (out: Vec<char>)
    ensures
        out@ == entry_prefix(prefix@, suffix@),
{
    let mut out: Vec<char> = Vec::new();
    push_comments(&mut out, prefix);
    push_comments(&mut out, suffix);
    push_indent(&mut out);
    proof {
        lemma_comment_block_concat(comments(prefix@), comments(suffix@));
    }
    out
}

/// What to write after the last entry of a list that had `trailing` there.
pub fn lay_out_trailing(trailing: &Vec<char>, has_entries: bool) -> (out: Vec<char>)
    ensures
        out@ == list_trailing(trailing@, has_entries),
{
    let mut out: Vec<char> = Vec::new();
    push_comments(&mut out, trailing);
    assert(comments(trailing@).len() > 0 ==> comment_block(comments(trailing@)).len() > 0);
    if out.len() > 0 || has_entries {
        out.push('\n');
    }
    out
}

} // verus!
