//! The COPY TEXT record grammar: tab-separated fields, backslash escapes and a
//! terminating line feed.
use vstd::prelude::*;

verus! {

/// The text that the escape `\c` stands for.
pub open spec fn unescape(c: char) -> Seq<char> {
    if c == 'N' {
        seq!['\\', 'N']
    } else if c == 'b' {
        seq!['\x08']
    } else if c == 'f' {
        seq!['\x0C']
    } else if c == 'n' {
        seq!['\n']
    } else if c == 'r' {
        seq!['\r']
    } else if c == 't' {
        seq!['\t']
    } else if c == 'v' {
        seq!['\x0B']
    } else {
        seq![c]
    }
}

/// Adds `p` in front of the first field of `fields`.
pub open spec fn prepend_text(p: Seq<char>, fields: Seq<Seq<char>>) -> Seq<Seq<char>> {
    fields.update(0, p + fields[0])
}

/// Splits `s` at the line feed that ends its first record. The result holds
/// the record's fields, unescaped, and the text after that line feed; `None`
/// when no line feed ends a record.
pub open spec fn split_record(s: Seq<char>) -> Option<(Seq<Seq<char>>, Seq<char>)>
    decreases s.len(),
{
    if s.len() == 0 {
        None
    } else if s[0] == '\\' {
        if s.len() < 2 {
            None
        } else {
            match split_record(s.subrange(2, s.len() as int)) {
                Some((f, rest)) => Some((prepend_text(unescape(s[1]), f), rest)),
                None => None,
            }
        }
    } else if s[0] == '\t' {
        match split_record(s.drop_first()) {
            Some((f, rest)) => Some((seq![Seq::<char>::empty()] + f, rest)),
            None => None,
        }
    } else if s[0] == '\n' {
        Some((seq![Seq::<char>::empty()], s.drop_first()))
    } else {
        match split_record(s.drop_first()) {
            Some((f, rest)) => Some((prepend_text(seq![s[0]], f), rest)),
            None => None,
        }
    }
}

/// A split record always has at least one field.
pub proof fn lemma_split_has_field(s: Seq<char>)
    ensures
        split_record(s) matches Some((f, _)) ==> f.len() >= 1,
    decreases s.len(),
{
    if s.len() >= 2 && s[0] == '\\' {
        lemma_split_has_field(s.subrange(2, s.len() as int));
    } else if s.len() > 0 && s[0] != '\n' {
        lemma_split_has_field(s.drop_first());
    }
}

/// The split of a whole input, given the fields finished so far (`done`), the
/// text of the current field (`cur`) and the split of what remains.
pub open spec fn resume(
    done: Seq<Seq<char>>,
    cur: Seq<char>,
    r: Option<(Seq<Seq<char>>, Seq<char>)>,
) -> Option<(Seq<Seq<char>>, Seq<char>)> {
    match r {
        Some((f, rest)) => Some((done + prepend_text(cur, f), rest)),
        None => None,
    }
}

pub open spec fn texts_view(v: Seq<Vec<char>>) -> Seq<Seq<char>> {
    v.map_values(|t: Vec<char>| t@)
}

fn push_unescaped(cur: &mut Vec<char>, c: char)
    ensures
        final(cur)@ == old(cur)@ + unescape(c),
{
    let ghost u = unescape(c);
    if c == 'N' {
        cur.push('\\');
        cur.push('N');
    } else if c == 'b' {
        cur.push('\x08');
    } else if c == 'f' {
        cur.push('\x0C');
    } else if c == 'n' {
        cur.push('\n');
    } else if c == 'r' {
        cur.push('\r');
    } else if c == 't' {
        cur.push('\t');
    } else if c == 'v' {
        cur.push('\x0B');
    } else {
        cur.push(c);
    }
    assert(cur@ =~= old(cur)@ + u);
}

/// Splits the first record of `s` into its unescaped fields. Returns them
/// with the position just past the terminating line feed, or `None` when no
/// line feed ends a record. One buffer collects the text of every field.
pub fn split_fields(s: &[char]) -> (r: Option<(Vec<Vec<char>>, usize)>)
    ensures
        match split_record(s@) {
            None => r is None,
            Some((f, rest)) => r matches Some((fields, end)) && texts_view(fields@) == f
                && end <= s@.len() && rest == s@.subrange(end as int, s@.len() as int),
        },
{
    let n = s.len();
    let mut fields: Vec<Vec<char>> = Vec::new();
    let mut cur: Vec<char> = Vec::new();
    let mut i: usize = 0;
    assert(s@.subrange(0, n as int) =~= s@);
    proof {
        lemma_split_has_field(s@);
        if let Some((f, rest)) = split_record(s@) {
            assert(Seq::<char>::empty() + f[0] =~= f[0]);
            assert(texts_view(fields@) + prepend_text(cur@, f) =~= f);
        }
    }
    while i < n
        invariant
            n == s@.len(),
            i <= n,
            split_record(s@) == resume(texts_view(fields@), cur@, split_record(
                s@.subrange(i as int, n as int),
            )),
        decreases n - i,
    {
        let ghost t = s@.subrange(i as int, n as int);
        let ghost done = texts_view(fields@);
        let ghost before = cur@;
        let c = s[i];
        if c == '\\' {
            if i + 1 >= n {
                return None;
            }
            let e = s[i + 1];
            push_unescaped(&mut cur, e);
            proof {
                let t2 = s@.subrange(i + 2, n as int);
                assert(t.subrange(2, t.len() as int) =~= t2);
                lemma_split_has_field(t2);
                if let Some((f, rest)) = split_record(t2) {
                    assert(before + (unescape(e) + f[0]) =~= cur@ + f[0]);
                    assert(prepend_text(before, prepend_text(unescape(e), f)) =~= prepend_text(
                        cur@,
                        f,
                    ));
                }
            }
            i = i + 2;
        } else if c == '\t' {
            fields.push(cur.clone());
            cur.clear();
            proof {
                let t2 = s@.subrange(i + 1, n as int);
                assert(t.drop_first() =~= t2);
                lemma_split_has_field(t2);
                assert(texts_view(fields@) =~= done.push(before));
                if let Some((f, rest)) = split_record(t2) {
                    assert(done + prepend_text(before, seq![Seq::<char>::empty()] + f)
                        =~= texts_view(fields@) + prepend_text(cur@, f));
                }
            }
            i = i + 1;
        } else if c == '\n' {
            fields.push(cur.clone());
            proof {
                assert(t.drop_first() =~= s@.subrange(i + 1, n as int));
                assert(texts_view(fields@) =~= done.push(before));
                assert(done + prepend_text(before, seq![Seq::<char>::empty()])
                    =~= texts_view(fields@));
            }
            return Some((fields, i + 1));
        } else {
            cur.push(c);
            proof {
                let t2 = s@.subrange(i + 1, n as int);
                assert(t.drop_first() =~= t2);
                lemma_split_has_field(t2);
                if let Some((f, rest)) = split_record(t2) {
                    assert(before + (seq![c] + f[0]) =~= cur@ + f[0]);
                    assert(prepend_text(before, prepend_text(seq![c], f)) =~= prepend_text(
                        cur@,
                        f,
                    ));
                }
            }
            i = i + 1;
        }
    }
    None
}

/// How the database writes one character of a field: backslash, the
/// characters with a letter escape and the field and record separators are
/// escaped, every other character stands for itself.
pub open spec fn escape_char(c: char) -> Seq<char> {
    if c == '\\' {
        seq!['\\', '\\']
    } else if c == '\x08' {
        seq!['\\', 'b']
    } else if c == '\x0C' {
        seq!['\\', 'f']
    } else if c == '\n' {
        seq!['\\', 'n']
    } else if c == '\r' {
        seq!['\\', 'r']
    } else if c == '\t' {
        seq!['\\', 't']
    } else if c == '\x0B' {
        seq!['\\', 'v']
    } else {
        seq![c]
    }
}

/// How the database writes the text of one field.
pub open spec fn escape_text(t: Seq<char>) -> Seq<char>
    decreases t.len(),
{
    if t.len() == 0 {
        Seq::empty()
    } else {
        escape_char(t[0]) + escape_text(t.drop_first())
    }
}

/// How the database writes a record of the given field texts: escaped,
/// separated by tabs and ended by a line feed.
pub open spec fn escape_record(texts: Seq<Seq<char>>) -> Seq<char>
    decreases texts.len(),
{
    if texts.len() <= 1 {
        escape_text(texts[0]) + seq!['\n']
    } else {
        escape_text(texts[0]) + seq!['\t'] + escape_record(texts.drop_first())
    }
}

/// Reading an escaped text gives the text back, in front of whatever follows.
pub proof fn lemma_split_escaped_text(t: Seq<char>, r: Seq<char>)
    ensures
        split_record(escape_text(t) + r) == resume(Seq::empty(), t, split_record(r)),
    decreases t.len(),
{
    lemma_split_has_field(r);
    if t.len() == 0 {
        assert(escape_text(t) + r =~= r);
        if let Some((f, rest)) = split_record(r) {
            assert(t + f[0] =~= f[0]);
            assert(Seq::<Seq<char>>::empty() + prepend_text(t, f) =~= f);
        }
    } else {
        let c = t[0];
        let t1 = t.drop_first();
        let x = escape_text(t) + r;
        let tail = escape_text(t1) + r;
        lemma_split_escaped_text(t1, r);
        let e = escape_char(c);
        assert(x =~= e + tail);
        if e.len() == 2 {
            assert(x.subrange(2, x.len() as int) =~= tail);
            assert(unescape(e[1]) =~= seq![c]);
        } else {
            assert(x.drop_first() =~= tail);
        }
        if let Some((f, rest)) = split_record(r) {
            assert(seq![c] + (t1 + f[0]) =~= t + f[0]);
            assert(Seq::<Seq<char>>::empty() + prepend_text(t1, f) =~= prepend_text(t1, f));
            assert(prepend_text(seq![c], prepend_text(t1, f)) =~= Seq::<Seq<char>>::empty()
                + prepend_text(t, f));
        }
    }
}

/// Reading a record that the database wrote gives back its field texts and
/// nothing after it.
pub proof fn lemma_split_escaped_record(texts: Seq<Seq<char>>)
    requires
        texts.len() >= 1,
    ensures
        split_record(escape_record(texts)) == Some((texts, Seq::<char>::empty())),
    decreases texts.len(),
{
    let t0 = texts[0];
    if texts.len() == 1 {
        lemma_split_escaped_text(t0, seq!['\n']);
        assert(seq!['\n'].drop_first() =~= Seq::<char>::empty());
        assert(t0 + Seq::<char>::empty() =~= t0);
        assert(Seq::<Seq<char>>::empty() + prepend_text(t0, seq![Seq::<char>::empty()]) =~= texts);
    } else {
        let more = texts.drop_first();
        let r = seq!['\t'] + escape_record(more);
        lemma_split_escaped_record(more);
        lemma_split_escaped_text(t0, r);
        assert(escape_record(texts) =~= escape_text(t0) + r);
        assert(r.drop_first() =~= escape_record(more));
        assert(t0 + Seq::<char>::empty() =~= t0);
        assert(Seq::<Seq<char>>::empty() + prepend_text(t0, seq![Seq::<char>::empty()] + more)
            =~= texts);
    }
}

/// Without a line feed, no record ends.
pub proof fn lemma_no_line_feed_no_record(s: Seq<char>)
    requires
        !s.contains('\n'),
    ensures
        split_record(s) is None,
    decreases s.len(),
{
    if s.len() > 0 {
        assert(s[0] != '\n');
        if s[0] == '\\' && s.len() >= 2 {
            let t = s.subrange(2, s.len() as int);
            assert forall|i: int| 0 <= i < t.len() implies t[i] != '\n' by {
                assert(t[i] == s[i + 2]);
            }
            lemma_no_line_feed_no_record(t);
        } else if s[0] != '\\' {
            let t = s.drop_first();
            assert forall|i: int| 0 <= i < t.len() implies t[i] != '\n' by {
                assert(t[i] == s[i + 1]);
            }
            lemma_no_line_feed_no_record(t);
        }
    }
}

/// The single-field record of `\c` and a line feed.
pub open spec fn escaped_field(c: char) -> Option<(Seq<Seq<char>>, Seq<char>)> {
    split_record(seq!['\\', c, '\n'])
}

/// The letter escapes stand for backspace, form feed, line feed, carriage
/// return, tab and vertical tab.
pub proof fn lemma_escape_table()
    ensures
        escaped_field('b') == Some((seq![seq!['\x08']], Seq::<char>::empty())),
        escaped_field('f') == Some((seq![seq!['\x0C']], Seq::<char>::empty())),
        escaped_field('n') == Some((seq![seq!['\n']], Seq::<char>::empty())),
        escaped_field('r') == Some((seq![seq!['\r']], Seq::<char>::empty())),
        escaped_field('t') == Some((seq![seq!['\t']], Seq::<char>::empty())),
        escaped_field('v') == Some((seq![seq!['\x0B']], Seq::<char>::empty())),
{
    assert forall|c: char| c == 'b' || c == 'f' || c == 'n' || c == 'r' || c == 't' || c == 'v'
        implies #[trigger] escaped_field(c) == Some((seq![unescape(c)], Seq::<char>::empty())) by {
        let s = seq!['\\', c, '\n'];
        let lf = s.subrange(2, s.len() as int);
        assert(lf =~= seq!['\n']);
        assert(lf.drop_first() =~= Seq::<char>::empty());
        assert(split_record(lf) == Some((seq![Seq::<char>::empty()], Seq::<char>::empty())));
        assert(s[0] == '\\' && s[1] == c);
        assert(unescape(c) + Seq::<char>::empty() =~= unescape(c));
        assert(prepend_text(unescape(c), seq![Seq::<char>::empty()]) =~= seq![unescape(c)]);
    }
}

} // verus!
