//! Character-level text handling: whitespace, trimming, splitting, joining.

use vstd::prelude::*;

verus! {

/// The Unicode `White_Space` property, the set that `char::is_whitespace` tests.
pub open spec fn is_space(c: char) -> bool {
    let u = c as u32;
    ||| 0x9 <= u <= 0xD
    ||| u == 0x20
    ||| u == 0x85
    ||| u == 0xA0
    ||| u == 0x1680
    ||| 0x2000 <= u <= 0x200A
    ||| u == 0x2028
    ||| u == 0x2029
    ||| u == 0x202F
    ||| u == 0x205F
    ||| u == 0x3000
}

/// Whether `c` is a whitespace character.
pub fn is_space_char(c: char) -> (b: bool)
    ensures
        b == is_space(c),
{
    let u = c as u32;
    (0x9 <= u && u <= 0xD) || u == 0x20 || u == 0x85 || u == 0xA0 || u == 0x1680 || (0x2000 <= u
        && u <= 0x200A) || u == 0x2028 || u == 0x2029 || u == 0x202F || u == 0x205F || u == 0x3000
}

/// Appends one character to a string (`String::push`).
#[verifier::external_body]
pub(crate) fn push_char(s: &mut String, c: char)
    ensures
        final(s)@ == old(s)@.push(c),
{
    s.push(c);
}


/// `s` without its leading whitespace.
pub open spec fn trim_start(s: Seq<char>) -> Seq<char>
    decreases s.len(),
{
    if s.len() > 0 && is_space(s[0]) {
        trim_start(s.drop_first())
    } else {
        s
    }
}

/// `s` without its trailing whitespace.
pub open spec fn trim_end(s: Seq<char>) -> Seq<char>
    decreases s.len(),
{
    if s.len() > 0 && is_space(s.last()) {
        trim_end(s.drop_last())
    } else {
        s
    }
}

/// `s` without leading and trailing whitespace (`str::trim`).
pub open spec fn trimmed(s: Seq<char>) -> Seq<char> {
    trim_end(trim_start(s))
}

/// Removes leading and trailing whitespace.
pub fn trim(s: &str) -> (r: String)
    ensures
        r@ == trimmed(s@),
{
    let n = s.unicode_len();
    let mut i: usize = 0;
    assert(s@.subrange(0, n as int) =~= s@);
    while i < n && is_space_char(s.get_char(i))
        invariant
            i <= n,
            n == s@.len(),
            trim_start(s@) == trim_start(s@.subrange(i as int, n as int)),
        decreases n - i,
    {
        assert(s@.subrange(i as int, n as int).drop_first() =~= s@.subrange(i + 1, n as int));
        i += 1;
    }
    assert(trim_start(s@) == s@.subrange(i as int, n as int));
    let mut j: usize = n;
    while j > i && is_space_char(s.get_char(j - 1))
        invariant
            i <= j <= n,
            n == s@.len(),
            trim_end(s@.subrange(i as int, n as int)) == trim_end(s@.subrange(i as int, j as int)),
        decreases j - i,
    {
        assert(s@.subrange(i as int, j as int).drop_last() =~= s@.subrange(i as int, j - 1));
        j -= 1;
    }
    s.substring_char(i, j).to_owned()
}

/// One step of the left-to-right scan that cuts a text into words: the words
/// finished so far, and the word being read.
pub open spec fn scan_step(acc: (Seq<Seq<char>>, Seq<char>), c: char) -> (
    Seq<Seq<char>>,
    Seq<char>,
) {
    if is_space(c) {
        if acc.1.len() > 0 {
            (acc.0.push(acc.1), Seq::empty())
        } else {
            acc
        }
    } else {
        (acc.0, acc.1.push(c))
    }
}

/// The scan of the whole of `s`.
pub open spec fn scan_words(s: Seq<char>) -> (Seq<Seq<char>>, Seq<char>)
    decreases s.len(),
{
    if s.len() == 0 {
        (Seq::empty(), Seq::empty())
    } else {
        scan_step(scan_words(s.drop_last()), s.last())
    }
}

/// The maximal runs of non-whitespace characters of `s`, in order
/// (`str::split_whitespace`).
pub open spec fn words(s: Seq<char>) -> Seq<Seq<char>> {
    let acc = scan_words(s);
    if acc.1.len() > 0 {
        acc.0.push(acc.1)
    } else {
        acc.0
    }
}

/// `w` is one word: not empty and free of whitespace.
pub open spec fn is_word(w: Seq<char>) -> bool {
    w.len() > 0 && forall|i: int| 0 <= i < w.len() ==> !is_space(#[trigger] w[i])
}

/// Reading whitespace-free text extends the word being read.
pub proof fn lemma_scan_append_text(p: Seq<char>, s: Seq<char>)
    requires
        forall|i: int| 0 <= i < s.len() ==> !is_space(#[trigger] s[i]),
    ensures
        scan_words(p + s) == (scan_words(p).0, scan_words(p).1 + s),
    decreases s.len(),
{
    if s.len() == 0 {
        assert(p + s =~= p);
        assert(scan_words(p).1 + s =~= scan_words(p).1);
    } else {
        let t = s.drop_last();
        lemma_scan_append_text(p, t);
        assert((p + s).drop_last() =~= p + t);
        assert((p + s).last() == s.last());
        assert(scan_words(p).1 + t.push(s.last()) =~= (scan_words(p).1 + t).push(s.last()));
        assert(t.push(s.last()) =~= s);
    }
}

/// Words separated by single spaces read back as those words.
pub proof fn law_words_of_joined(ws: Seq<Seq<char>>)
    requires
        forall|i: int| 0 <= i < ws.len() ==> is_word(#[trigger] ws[i]),
    ensures
        words(joined(ws)) == ws,
        ws.len() > 0 ==> scan_words(joined(ws)) == (ws.drop_last(), ws.last()),
    decreases ws.len(),
{
    if ws.len() == 0 {
        assert(scan_words(Seq::<char>::empty()) == (Seq::<Seq<char>>::empty(), Seq::<char>::empty()));
        assert(words(joined(ws)) =~= ws);
    } else if ws.len() == 1 {
        lemma_scan_append_text(Seq::empty(), ws[0]);
        assert(Seq::<char>::empty() + ws[0] =~= ws[0]);
        assert(ws.drop_last() =~= Seq::<Seq<char>>::empty());
        assert(Seq::<char>::empty() + ws[0] =~= ws[0]);
        assert(words(joined(ws)) =~= ws);
    } else {
        let front = ws.drop_last();
        assert forall|i: int| 0 <= i < front.len() implies is_word(#[trigger] front[i]) by {
            assert(front[i] == ws[i]);
        }
        law_words_of_joined(front);
        let jf = joined(front);
        let p = jf.push(' ');
        assert(p.drop_last() =~= jf);
        assert(scan_words(p) == (front.drop_last().push(front.last()), Seq::<char>::empty()));
        assert(front.drop_last().push(front.last()) =~= front);
        assert(is_word(ws.last()));
        lemma_scan_append_text(p, ws.last());
        assert(Seq::<char>::empty() + ws.last() =~= ws.last());
        assert(front.push(ws.last()) =~= ws);
        assert(words(joined(ws)) =~= ws);
    }
}

/// The views of a vector of strings.
pub open spec fn views(v: Seq<String>) -> Seq<Seq<char>> {
    v.map_values(|w: String| w@)
}

/// Cuts `s` into its whitespace-separated words.
pub fn split_words(s: &str) -> (r: Vec<String>)
    ensures
        views(r@) == words(s@),
{
    let n = s.unicode_len();
    let mut out: Vec<String> = Vec::new();
    let mut cur = String::new();
    let mut i: usize = 0;
    while i < n
        invariant
            i <= n,
            n == s@.len(),
            views(out@) == scan_words(s@.take(i as int)).0,
            cur@ == scan_words(s@.take(i as int)).1,
        decreases n - i,
    {
        let c = s.get_char(i);
        assert(s@.take(i + 1).drop_last() =~= s@.take(i as int));
        if is_space_char(c) {
            if cur.unicode_len() > 0 {
                let ghost before = out@;
                let w = cur;
                out.push(w);
                assert(views(out@) =~= views(before).push(w@));
                cur = String::new();
            }
        } else {
            push_char(&mut cur, c);
        }
        i += 1;
    }
    assert(s@.take(n as int) =~= s@);
    if cur.unicode_len() > 0 {
        let ghost before = out@;
        let w = cur;
        out.push(w);
        assert(views(out@) =~= views(before).push(w@));
    }
    out
}

/// `s` with every `from` replaced by `to`.
pub open spec fn replaced(s: Seq<char>, from: char, to: char) -> Seq<char> {
    s.map_values(|c: char| if c == from { to } else { c })
}

/// Replaces every occurrence of the character `from` by `to`.
pub fn replace_char(s: &str, from: char, to: char) -> (r: String)
    ensures
        r@ == replaced(s@, from, to),
{
    let n = s.unicode_len();
    let mut out = String::new();
    let mut i: usize = 0;
    while i < n
        invariant
            i <= n,
            n == s@.len(),
            out@ == replaced(s@.take(i as int), from, to),
        decreases n - i,
    {
        let c = s.get_char(i);
        if c == from {
            push_char(&mut out, to);
        } else {
            push_char(&mut out, c);
        }
        assert(replaced(s@.take(i + 1), from, to) =~= replaced(s@.take(i as int), from, to).push(
            out@.last(),
        ));
        i += 1;
    }
    assert(s@.take(n as int) =~= s@);
    out
}

/// The words of `ws` separated by single spaces (`[..].join(" ")`).
pub open spec fn joined(ws: Seq<Seq<char>>) -> Seq<char>
    decreases ws.len(),
{
    if ws.len() == 0 {
        Seq::empty()
    } else if ws.len() == 1 {
        ws[0]
    } else {
        joined(ws.drop_last()).push(' ') + ws.last()
    }
}

/// Joins `ws[from..]` with single spaces.
pub fn join_from(ws: &Vec<String>, from: usize) -> (r: String)
    requires
        from <= ws@.len(),
    ensures
        r@ == joined(views(ws@).skip(from as int)),
{
    let n = ws.len();
    let mut out = String::new();
    let mut i: usize = from;
    while i < n
        invariant
            from <= i <= n,
            n == ws@.len(),
            out@ == joined(views(ws@).subrange(from as int, i as int)),
        decreases n - i,
    {
        let ghost prev = views(ws@).subrange(from as int, i as int);
        assert(views(ws@).subrange(from as int, i + 1).drop_last() =~= prev);
        if i > from {
            push_char(&mut out, ' ');
        }
        out.append(ws[i].as_str());
        i += 1;
    }
    assert(views(ws@).subrange(from as int, n as int) =~= views(ws@).skip(from as int));
    out
}

/// Whether two strings hold the same characters.
pub fn same_text(a: &str, b: &str) -> (r: bool)
    ensures
        r == (a@ == b@),
{
    let x = a.to_owned();
    let y = b.to_owned();
    x == y
}

} // verus!
