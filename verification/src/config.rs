//! The `key=value` settings format that the apps keep in their config
//! directory: one assignment per line, blank lines and lines starting with
//! `#` ignored, whitespace around keys and values dropped, the last
//! assignment of a key winning.

use vstd::prelude::*;
use vstd::string::*;
use crate::text::{
    find, find_char, is_ws, lemma_find_char, lemma_find_char_props, lemma_trim_fixed, opt_view, owned,
    same_text, split_on, trim, trim_seq,
};

verus! {

/// The text split at every `'\n'`; a text without one is a single line.
pub open spec fn split_lines(s: Seq<char>) -> Seq<Seq<char>> {
    split_on(s, '\n')
}

/// The value that one line assigns to `key`, if it does.
pub open spec fn line_value(line: Seq<char>, key: Seq<char>) -> Option<Seq<char>> {
    let t = trim_seq(line);
    let p = find_char(t, '=');
    if t.len() == 0 || t[0] == '#' || p < 0 {
        None
    } else if trim_seq(t.take(p)) == key {
        Some(trim_seq(t.skip(p + 1)))
    } else {
        None
    }
}

/// The value of the last line among `lines` that assigns `key`.
pub open spec fn last_value(lines: Seq<Seq<char>>, key: Seq<char>) -> Option<Seq<char>>
    decreases lines.len(),
{
    if lines.len() == 0 {
        None
    } else {
        match line_value(lines.last(), key) {
            Some(v) => Some(v),
            None => last_value(lines.drop_last(), key),
        }
    }
}

/// The value that a settings text gives `key`.
pub open spec fn config_value(contents: Seq<char>, key: Seq<char>) -> Option<Seq<char>> {
    last_value(split_lines(contents), key)
}

pub proof fn lemma_split_lines_nonempty(s: Seq<char>)
    ensures
        split_lines(s).len() >= 1,
    decreases s.len(),
{
    if s.len() > 0 {
        lemma_split_lines_nonempty(s.drop_last());
    }
}

/// The value one line assigns to `key`.
pub fn assigned_value(line: &str, key: &str) -> (r: Option<String>)
    ensures
        opt_view(r) == line_value(line@, key@),
{
    let t = trim(line);
    let n = t.unicode_len();
    if n == 0 {
        return None;
    }
    if t.get_char(0) == '#' {
        return None;
    }
    match find(t, '=') {
        None => None,
        Some(p) => {
            proof {
                lemma_find_char_props(t@, '=');
            }
            let k = trim(t.substring_char(0, p));
            if same_text(k, key) {
                let v = trim(t.substring_char(p + 1, n));
                proof {
                    assert(t@.subrange(0, p as int) =~= t@.take(p as int));
                    assert(t@.subrange(p + 1, n as int) =~= t@.skip(p + 1));
                }
                Some(owned(v))
            } else {
                proof {
                    assert(t@.subrange(0, p as int) =~= t@.take(p as int));
                }
                None
            }
        },
    }
}

/// The value that a settings text gives `key`: that of the last line
/// assigning it.
pub fn lookup_value(contents: &str, key: &str) -> (r: Option<String>)
    ensures
        opt_view(r) == config_value(contents@, key@),
{
    let n = contents.unicode_len();
    let mut start: usize = 0;
    let mut acc: Option<String> = None;
    let mut i: usize = 0;
    proof {
        assert(contents@.take(0) =~= Seq::<char>::empty());
    }
    while i < n
        invariant
            n == contents@.len(),
            start <= i <= n,
            split_lines(contents@.take(i as int)).len() >= 1,
            split_lines(contents@.take(i as int)).last() == contents@.subrange(start as int, i as int),
            opt_view(acc) == last_value(split_lines(contents@.take(i as int)).drop_last(), key@),
        decreases n - i,
    {
        let ghost prev = contents@.take(i as int);
        let ghost next = contents@.take(i + 1);
        proof {
            assert(next.drop_last() =~= prev);
            assert(next.last() == contents@[i as int]);
            lemma_split_lines_nonempty(prev);
        }
        let c = contents.get_char(i);
        if c == '\n' {
            let line = contents.substring_char(start, i);
            match assigned_value(line, key) {
                Some(v) => {
                    acc = Some(v);
                },
                None => {},
            }
            proof {
                assert(split_lines(next) == split_lines(prev).push(Seq::<char>::empty()));
                assert(split_lines(next).drop_last() =~= split_lines(prev));
                assert(contents@.subrange(i + 1, i + 1) =~= Seq::<char>::empty());
            }
            start = i + 1;
        } else {
            proof {
                let r = split_lines(prev);
                assert(split_lines(next) == r.update(r.len() - 1, r.last().push(c)));
                assert(split_lines(next).drop_last() =~= r.drop_last());
                assert(contents@.subrange(start as int, i + 1) =~= contents@.subrange(
                    start as int,
                    i as int,
                ).push(c));
            }
        }
        i = i + 1;
    }
    proof {
        assert(contents@.take(n as int) =~= contents@);
    }
    let last = contents.substring_char(start, n);
    match assigned_value(last, key) {
        Some(v) => Some(v),
        None => acc,
    }
}


/// Splitting at a newline splits the text into the lines before and after it.
pub proof fn lemma_split_lines_concat(a: Seq<char>, b: Seq<char>)
    ensures
        split_lines(a + seq!['\n'] + b) == split_lines(a) + split_lines(b),
    decreases b.len(),
{
    let s = a + seq!['\n'] + b;
    if b.len() == 0 {
        assert(s.drop_last() =~= a);
        assert(split_lines(b) =~= seq![Seq::<char>::empty()]);
        assert(split_lines(s) =~= split_lines(a) + split_lines(b));
    } else {
        let b0 = b.drop_last();
        assert(s.drop_last() =~= a + seq!['\n'] + b0);
        lemma_split_lines_concat(a, b0);
        lemma_split_lines_nonempty(b0);
        let la = split_lines(a);
        let lb = split_lines(b0);
        if b.last() == '\n' {
            assert(split_lines(s) =~= la + split_lines(b));
        } else {
            assert(split_lines(s) =~= la + split_lines(b));
        }
    }
}

/// A text without a newline is one line.
pub proof fn lemma_split_lines_single(s: Seq<char>)
    requires
        forall|k: int| 0 <= k < s.len() ==> #[trigger] s[k] != '\n',
    ensures
        split_lines(s) == seq![s],
    decreases s.len(),
{
    if s.len() > 0 {
        let t = s.drop_last();
        assert forall|k: int| 0 <= k < t.len() implies #[trigger] t[k] != '\n' by {
            assert(t[k] == s[k]);
        }
        lemma_split_lines_single(t);
        assert(t.push(s.last()) =~= s);
        assert(s[s.len() - 1] != '\n');
        let r = split_lines(t);
        assert(r.len() == 1 && r.last() == t);
        assert(split_lines(s) == r.update(r.len() - 1, r.last().push(s.last())));
        assert(r.update(0, s) =~= seq![s]);
    } else {
        assert(s =~= Seq::<char>::empty());
        assert(split_lines(s) =~= seq![s]);
    }
}

/// The last assignment among later lines wins over earlier ones.
pub proof fn lemma_last_value_concat(l1: Seq<Seq<char>>, l2: Seq<Seq<char>>, key: Seq<char>)
    ensures
        last_value(l1 + l2, key) == (match last_value(l2, key) {
            Some(v) => Some(v),
            None => last_value(l1, key),
        }),
    decreases l2.len(),
{
    if l2.len() == 0 {
        assert(l1 + l2 =~= l1);
    } else {
        assert((l1 + l2).drop_last() =~= l1 + l2.drop_last());
        assert((l1 + l2).last() == l2.last());
        lemma_last_value_concat(l1, l2.drop_last(), key);
    }
}

/// A line `key=value` whose key and value are already trimmed assigns the value.
pub proof fn lemma_assignment_line(key: Seq<char>, v: Seq<char>)
    requires
        key.len() > 0,
        v.len() > 0,
        !is_ws(key[0]),
        !is_ws(key.last()),
        !is_ws(v[0]),
        !is_ws(v.last()),
        key[0] != '#',
        forall|k: int| 0 <= k < key.len() ==> #[trigger] key[k] != '=',
    ensures
        line_value(key + seq!['='] + v, key) == Some(v),
{
    let line = key + seq!['='] + v;
    assert(line[0] == key[0]);
    assert(line.last() == v.last());
    lemma_trim_fixed(line);
    assert forall|k: int| 0 <= k < key.len() implies #[trigger] line[k] != '=' by {
        assert(line[k] == key[k]);
    }
    lemma_find_char(line, '=', key.len() as int);
    assert(line.take(key.len() as int) =~= key);
    assert(line.skip(key.len() + 1int) =~= v);
    lemma_trim_fixed(key);
    lemma_trim_fixed(v);
}

/// A settings text that ends with the line `key=value` gives `key` that value,
/// whatever lines come before it.
pub proof fn lemma_rendered_value(header: Seq<char>, key: Seq<char>, v: Seq<char>)
    requires
        header.len() > 0,
        header.last() == '\n',
        key.len() > 0,
        v.len() > 0,
        !is_ws(key[0]),
        !is_ws(key.last()),
        !is_ws(v[0]),
        !is_ws(v.last()),
        key[0] != '#',
        forall|k: int| 0 <= k < key.len() ==> #[trigger] key[k] != '=',
        forall|k: int| 0 <= k < key.len() ==> #[trigger] key[k] != '\n',
        forall|k: int| 0 <= k < v.len() ==> #[trigger] v[k] != '\n',
    ensures
        config_value(header + key + seq!['='] + v + seq!['\n'], key) == Some(v),
{
    let h0 = header.drop_last();
    let line = key + seq!['='] + v;
    assert forall|k: int| 0 <= k < line.len() implies #[trigger] line[k] != '\n' by {
        if k < key.len() {
            assert(line[k] == key[k]);
        } else if k > key.len() {
            assert(line[k] == v[k - key.len() - 1]);
        }
    }
    let s = header + key + seq!['='] + v + seq!['\n'];
    let p = h0 + seq!['\n'] + line;
    assert(s =~= p + seq!['\n'] + Seq::<char>::empty());
    lemma_split_lines_concat(p, Seq::<char>::empty());
    lemma_split_lines_concat(h0, line);
    lemma_split_lines_single(line);
    lemma_split_lines_single(Seq::<char>::empty());
    lemma_assignment_line(key, v);
    let tail = seq![line, Seq::<char>::empty()];
    assert(split_lines(s) =~= split_lines(h0) + tail);
    lemma_last_value_concat(split_lines(h0), tail, key);
    lemma_trim_fixed(Seq::<char>::empty());
    assert(line_value(Seq::<char>::empty(), key) == None::<Seq<char>>);
    assert(tail.drop_last() =~= seq![line]);
    assert(tail.last() == Seq::<char>::empty());
    assert(last_value(seq![line], key) == Some(v));
    assert(last_value(tail, key) == Some(v));
}


/// A setting key or stored value: non-empty, made of lower-case ASCII
/// letters, `_` and `-`.
pub open spec fn plain_token(s: Seq<char>) -> bool {
    &&& s.len() > 0
    &&& forall|k: int| 0 <= k < s.len() ==> {
        let c = #[trigger] s[k];
        ('a' <= c && c <= 'z') || c == '_' || c == '-'
    }
}

/// The text of a settings file: a header, then one `key=value` line.
pub open spec fn rendered_assignment(header: Seq<char>, key: Seq<char>, value: Seq<char>) -> Seq<char> {
    header + key + "="@ + value + "\n"@
}

pub fn render_assignment(header: &str, key: &str, value: &str) -> (r: String)
    ensures
        r@ == rendered_assignment(header@, key@, value@),
{
    let r = String::from_str(header);
    let r = r.concat(key);
    let r = r.concat("=");
    let r = r.concat(value);
    r.concat("\n")
}

/// Reading back a rendered settings file gives the value that was written.
pub proof fn lemma_render_then_lookup(header: Seq<char>, key: Seq<char>, value: Seq<char>)
    requires
        header.len() > 0,
        header.last() == '\n',
        plain_token(key),
        plain_token(value),
    ensures
        config_value(rendered_assignment(header, key, value), key) == Some(value),
{
    reveal_strlit("=");
    reveal_strlit("\n");
    assert("="@ =~= seq!['=']);
    assert("\n"@ =~= seq!['\n']);
    assert(key[0] == key[0]);
    assert(key[key.len() - 1] == key.last());
    assert(value[0] == value[0]);
    assert(value[value.len() - 1] == value.last());
    assert forall|k: int| 0 <= k < key.len() implies #[trigger] key[k] != '=' && key[k] != '\n' by {
        let c = key[k];
        assert(('a' <= c && c <= 'z') || c == '_' || c == '-');
    }
    assert forall|k: int| 0 <= k < value.len() implies #[trigger] value[k] != '\n' by {
        let c = value[k];
        assert(('a' <= c && c <= 'z') || c == '_' || c == '-');
    }
    lemma_rendered_value(header, key, value);
}

} // verus!
