//! Text building blocks: indentation, splitting text into lines, joining a list
//! with a separator, and the order of names.
use vstd::prelude::*;

verus! {

/// Two spaces per level of indentation.
pub open spec fn indent_text(n: nat) -> Seq<char>
    decreases n,
{
    if n == 0 {
        Seq::empty()
    } else {
        indent_text((n - 1) as nat) + "  "@
    }
}

/// Appends `n` levels of indentation.
pub(crate) fn write_indent(w: &mut String, n: usize)
    ensures
        final(w)@ == old(w)@ + indent_text(n as nat),
{
    let mut i: usize = 0;
    while i < n
        invariant
            i <= n,
            w@ == old(w)@ + indent_text(i as nat),
        decreases n - i,
    {
        w.append("  ");
        i = i + 1;
    }
}

/// The text of each string of a list.
pub open spec fn views(v: Seq<String>) -> Seq<Seq<char>> {
    v.map_values(|s: String| s@)
}

/// The position of the first line feed of `t`, or its length if it has none.
pub open spec fn line_end(t: Seq<char>) -> nat
    decreases t.len(),
{
    if t.len() == 0 {
        0
    } else if t[0] == '\n' {
        0
    } else {
        1 + line_end(t.drop_first())
    }
}

/// A line without the carriage return that ended it, if one did.
pub open spec fn strip_cr(line: Seq<char>) -> Seq<char> {
    if line.len() > 0 && line.last() == '\r' {
        line.drop_last()
    } else {
        line
    }
}

/// The lines of a text, as `str::lines` gives them: the text is cut after each line
/// feed; a line feed, and a carriage return just before it, end a line and are
/// not part of it; a final line feed does not start an empty last line.
pub open spec fn text_lines(t: Seq<char>) -> Seq<Seq<char>>
    decreases t.len(),
{
    if t.len() == 0 {
        Seq::empty()
    } else {
        let e = line_end(t);
        if e >= t.len() {
            seq![t]
        } else {
            seq![strip_cr(t.take(e as int))] + text_lines(t.skip(e + 1 as int))
        }
    }
}

/// Each line on a line of its own, indented by `n` levels.
pub open spec fn lines_text(lines: Seq<Seq<char>>, n: nat) -> Seq<char>
    decreases lines.len(),
{
    if lines.len() == 0 {
        Seq::empty()
    } else {
        lines_text(lines.drop_last(), n) + indent_text(n) + lines.last() + "\n"@
    }
}

/// Items written one after the other with `sep` between each two of them.
pub open spec fn join(items: Seq<Seq<char>>, sep: Seq<char>) -> Seq<char>
    decreases items.len(),
{
    if items.len() == 0 {
        Seq::empty()
    } else if items.len() == 1 {
        items[0]
    } else {
        join(items.drop_last(), sep) + sep + items.last()
    }
}

proof fn lemma_line_end(t: Seq<char>, e: int)
    requires
        0 <= e <= t.len(),
        forall|k: int| 0 <= k < e ==> t[k] != '\n',
        e < t.len() ==> t[e] == '\n',
    ensures
        line_end(t) == e,
    decreases e,
{
    if e > 0 {
        lemma_line_end(t.drop_first(), e - 1);
    }
}

proof fn lemma_lines_text_prepend(x: Seq<char>, rest: Seq<Seq<char>>, n: nat)
    ensures
        lines_text(seq![x] + rest, n) == indent_text(n) + x + "\n"@ + lines_text(rest, n),
    decreases rest.len(),
{
    if rest.len() == 0 {
        let whole = seq![x] + rest;
        assert(whole.drop_last() =~= Seq::<Seq<char>>::empty());
        assert(whole.last() == x);
        assert(lines_text(whole, n) == lines_text(whole.drop_last(), n) + indent_text(n) + x + "\n"@);
        assert(lines_text(whole, n) =~= indent_text(n) + x + "\n"@ + lines_text(rest, n));
    } else {
        lemma_lines_text_prepend(x, rest.drop_last(), n);
        let whole = seq![x] + rest;
        assert(whole.drop_last() =~= seq![x] + rest.drop_last());
        assert(whole.last() == rest.last());
        assert(lines_text(whole, n) == lines_text(whole.drop_last(), n) + indent_text(n) + rest.last() + "\n"@);
        assert(lines_text(whole, n) =~= indent_text(n) + x + "\n"@ + lines_text(rest, n));
    }
}

/// Appends each line of `text`, indented by `n` levels and ended by a line feed.
pub(crate) fn write_lines(w: &mut String, text: &str, n: usize)
    ensures
        final(w)@ == old(w)@ + lines_text(text_lines(text@), n as nat),
{
    let len = text.unicode_len();
    let mut start: usize = 0;
    let mut i: usize = 0;
    assert(text@.skip(0) =~= text@);
    while i < len
        invariant
            len == text@.len(),
            start <= i <= len,
            forall|k: int| start <= k < i ==> text@[k] != '\n',
            old(w)@ + lines_text(text_lines(text@), n as nat) == w@ + lines_text(
                text_lines(text@.skip(start as int)),
                n as nat,
            ),
        decreases len - i,
    {
        let c = text.get_char(i);
        if c == '\n' {
            let ghost t = text@.skip(start as int);
            proof {
                lemma_line_end(t, i - start);
            }
            let mut end = i;
            if end > start && text.get_char(end - 1) == '\r' {
                end = end - 1;
            }
            let line = text.substring_char(start, end);
            assert(line@ =~= strip_cr(t.take(i - start)));
            assert(t.skip(i - start + 1) =~= text@.skip(i + 1));
            proof {
                lemma_lines_text_prepend(line@, text_lines(text@.skip(i + 1)), n as nat);
            }
            write_indent(w, n);
            w.append(line);
            w.append("\n");
            start = i + 1;
        }
        i = i + 1;
    }
    if start < len {
        let ghost t = text@.skip(start as int);
        proof {
            lemma_line_end(t, len - start);
        }
        let line = text.substring_char(start, len);
        assert(line@ =~= t);
        proof {
            lemma_lines_text_prepend(line@, Seq::empty(), n as nat);
        }
        assert(seq![line@] + Seq::<Seq<char>>::empty() =~= seq![line@]);
        write_indent(w, n);
        w.append(line);
        w.append("\n");
    } else {
        assert(text@.skip(start as int) =~= Seq::<char>::empty());
    }
}

/// Appends the strings of `items` with `sep` between each two of them.
pub(crate) fn write_joined(w: &mut String, items: &Vec<String>, sep: &str)
    ensures
        final(w)@ == old(w)@ + join(views(items@), sep@),
{
    let mut i: usize = 0;
    while i < items.len()
        invariant
            i <= items@.len(),
            w@ == old(w)@ + join(views(items@.take(i as int)), sep@),
        decreases items@.len() - i,
    {
        if i > 0 {
            w.append(sep);
        }
        w.append(items[i].as_str());
        assert(views(items@.take(i + 1)).drop_last() =~= views(items@.take(i as int)));
        i = i + 1;
    }
    assert(items@.take(items@.len() as int) =~= items@);
}

/// `a` comes before `b` in lexicographic order of their characters. For text in
/// UTF-8 this is the order of the encoded bytes too, the order that `str`
/// compares by.
pub open spec fn name_before(a: Seq<char>, b: Seq<char>) -> bool
    decreases a.len(),
{
    if a.len() == 0 {
        b.len() > 0
    } else if b.len() == 0 {
        false
    } else if a[0] != b[0] {
        a[0] < b[0]
    } else {
        name_before(a.drop_first(), b.drop_first())
    }
}

/// The order of names is transitive.
pub proof fn lemma_name_before_transitive(a: Seq<char>, b: Seq<char>, c: Seq<char>)
    requires
        name_before(a, b),
        name_before(b, c),
    ensures
        name_before(a, c),
    decreases a.len(),
{
    if a.len() > 0 && b.len() > 0 && c.len() > 0 && a[0] == b[0] && b[0] == c[0] {
        lemma_name_before_transitive(a.drop_first(), b.drop_first(), c.drop_first());
    }
}

/// No name comes before itself.
pub proof fn lemma_name_before_irreflexive(a: Seq<char>)
    ensures
        !name_before(a, a),
    decreases a.len(),
{
    if a.len() > 0 {
        lemma_name_before_irreflexive(a.drop_first());
    }
}

/// Of two different names, one comes before the other.
pub proof fn lemma_name_before_total(a: Seq<char>, b: Seq<char>)
    requires
        a != b,
    ensures
        name_before(a, b) || name_before(b, a),
    decreases a.len(),
{
    if a.len() > 0 && b.len() > 0 && a[0] == b[0] {
        if a.drop_first() == b.drop_first() {
            assert(a =~= seq![a[0]] + a.drop_first());
            assert(b =~= seq![b[0]] + b.drop_first());
        }
        lemma_name_before_total(a.drop_first(), b.drop_first());
    } else if a.len() == 0 && b.len() == 0 {
        assert(a =~= b);
    }
}

/// Whether `a` comes before `b` in the order of names.
pub(crate) fn name_lt(a: &str, b: &str) -> (r: bool)
    ensures
        r == name_before(a@, b@),
{
    let la = a.unicode_len();
    let lb = b.unicode_len();
    let mut i: usize = 0;
    assert(a@.skip(0) =~= a@);
    assert(b@.skip(0) =~= b@);
    while i < la && i < lb
        invariant
            la == a@.len(),
            lb == b@.len(),
            i <= la,
            i <= lb,
            name_before(a@, b@) == name_before(a@.skip(i as int), b@.skip(i as int)),
        decreases la - i,
    {
        let ca = a.get_char(i);
        let cb = b.get_char(i);
        if ca != cb {
            return ca < cb;
        }
        assert(a@.skip(i as int).drop_first() =~= a@.skip(i + 1));
        assert(b@.skip(i as int).drop_first() =~= b@.skip(i + 1));
        i = i + 1;
    }
    i < lb
}

/// `piece` stands in `text` starting at position `at`.
pub open spec fn occurs_at(text: Seq<char>, piece: Seq<char>, at: int) -> bool {
    0 <= at && at + piece.len() <= text.len() && text.subrange(at, at + piece.len()) == piece
}

/// `piece` stands somewhere in `text`, its characters one after the other.
pub open spec fn contains_text(text: Seq<char>, piece: Seq<char>) -> bool {
    exists|at: int| occurs_at(text, piece, at)
}

/// A text contains itself.
pub proof fn lemma_contains_self(piece: Seq<char>)
    ensures
        contains_text(piece, piece),
{
    assert(piece.subrange(0, piece.len() as int) =~= piece);
    assert(occurs_at(piece, piece, 0));
}

/// What a text contains, the text with more after it contains too.
pub proof fn lemma_contains_left(a: Seq<char>, b: Seq<char>, piece: Seq<char>)
    requires
        contains_text(a, piece),
    ensures
        contains_text(a + b, piece),
{
    let at = choose|at: int| occurs_at(a, piece, at);
    assert((a + b).subrange(at, at + piece.len()) =~= a.subrange(at, at + piece.len()));
    assert(occurs_at(a + b, piece, at));
}

/// What a text contains, the text with more before it contains too.
pub proof fn lemma_contains_right(a: Seq<char>, b: Seq<char>, piece: Seq<char>)
    requires
        contains_text(b, piece),
    ensures
        contains_text(a + b, piece),
{
    let at = choose|at: int| occurs_at(b, piece, at);
    let at2 = a.len() + at;
    assert((a + b).subrange(at2, at2 + piece.len()) =~= b.subrange(at, at + piece.len()));
    assert(occurs_at(a + b, piece, at2));
}

/// Containment carries over: what a piece contains, any text containing the piece
/// contains.
pub proof fn lemma_contains_transitive(text: Seq<char>, piece: Seq<char>, part: Seq<char>)
    requires
        contains_text(text, piece),
        contains_text(piece, part),
    ensures
        contains_text(text, part),
{
    let at = choose|at: int| occurs_at(text, piece, at);
    let at2 = choose|at2: int| occurs_at(piece, part, at2);
    let at3 = at + at2;
    assert(text.subrange(at3, at3 + part.len()) =~= piece.subrange(at2, at2 + part.len()));
    assert(occurs_at(text, part, at3));
}

/// Every item of a list stands, whole, in the list joined with any separator.
pub proof fn law_join_contains_every_item(items: Seq<Seq<char>>, sep: Seq<char>, i: int)
    requires
        0 <= i < items.len(),
    ensures
        contains_text(join(items, sep), items[i]),
    decreases items.len(),
{
    if items.len() == 1 {
        lemma_contains_self(items[0]);
    } else if i == items.len() - 1 {
        lemma_contains_self(items.last());
        lemma_contains_right(join(items.drop_last(), sep) + sep, items.last(), items[i]);
    } else {
        law_join_contains_every_item(items.drop_last(), sep, i);
        lemma_contains_left(join(items.drop_last(), sep), sep, items[i]);
        lemma_contains_left(join(items.drop_last(), sep) + sep, items.last(), items[i]);
    }
}

/// A name that begins another, shorter than it, comes before it, as `str::cmp`
/// orders them (the empty name comes before every other name).
pub proof fn law_prefix_comes_first(a: Seq<char>, b: Seq<char>)
    requires
        a.len() < b.len(),
        b.take(a.len() as int) == a,
    ensures
        name_before(a, b),
        !name_before(b, a),
    decreases a.len(),
{
    if a.len() > 0 {
        assert(a[0] == b.take(a.len() as int)[0]);
        assert(b.drop_first().take(a.drop_first().len() as int) =~= a.drop_first());
        law_prefix_comes_first(a.drop_first(), b.drop_first());
    }
}

/// Of two names that agree up to a position and differ there, the one with the
/// smaller character at that position comes first.
pub proof fn law_first_difference_decides(a: Seq<char>, b: Seq<char>, k: int)
    requires
        0 <= k < a.len(),
        k < b.len(),
        a.take(k) == b.take(k),
        a[k] != b[k],
    ensures
        name_before(a, b) == (a[k] < b[k]),
        name_before(b, a) == (b[k] < a[k]),
    decreases k,
{
    if k > 0 {
        assert(a[0] == a.take(k)[0]);
        assert(b[0] == b.take(k)[0]);
        assert(a.drop_first().take(k - 1) =~= a.take(k).drop_first());
        assert(b.drop_first().take(k - 1) =~= b.take(k).drop_first());
        law_first_difference_decides(a.drop_first(), b.drop_first(), k - 1);
    }
}

/// A text contains what stands in its middle.
pub proof fn lemma_contains_middle(pre: Seq<char>, piece: Seq<char>, post: Seq<char>)
    ensures
        contains_text(pre + piece + post, piece),
{
    lemma_contains_self(piece);
    lemma_contains_right(pre, piece, piece);
    lemma_contains_left(pre + piece, post, piece);
}

} // verus!
