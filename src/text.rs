use vstd::prelude::*;

verus! {

/// Whether `c` is one of the ASCII whitespace characters that separate words.
pub open spec fn is_space(c: char) -> bool {
    c == ' ' || c == '\t' || c == '\n' || c == '\r' || c == '\x0C'
}

/// The ASCII lower-case form of `c`; other characters are kept.
pub open spec fn lower(c: char) -> char {
    if 'A' <= c && c <= 'Z' {
        ((c as u32) + 32) as char
    } else {
        c
    }
}

/// `s` with every ASCII capital letter made lower case.
pub open spec fn lower_seq(s: Seq<char>) -> Seq<char> {
    s.map_values(|c: char| lower(c))
}

/// `s` without its leading whitespace.
pub open spec fn trim_start(s: Seq<char>) -> Seq<char>
    decreases s.len(),
{
    if s.len() > 0 && is_space(s[0]) {
        trim_start(s.drop_first())
    } else {
        s
    }
}

/// What the interpreter reads of a raw input line: lower case, leading
/// whitespace removed.
pub open spec fn normalized(s: Seq<char>) -> Seq<char> {
    trim_start(lower_seq(s))
}

/// The words of `s` (maximal runs of non-whitespace), where `cur` is a word
/// already begun before `s`.
pub open spec fn words_from(s: Seq<char>, cur: Seq<char>) -> Seq<Seq<char>>
    decreases s.len(),
{
    if s.len() == 0 {
        if cur.len() == 0 {
            Seq::empty()
        } else {
            seq![cur]
        }
    } else if is_space(s[0]) {
        let rest = words_from(s.drop_first(), Seq::empty());
        if cur.len() == 0 {
            rest
        } else {
            seq![cur] + rest
        }
    } else {
        words_from(s.drop_first(), cur.push(s[0]))
    }
}

/// The whitespace-separated words of `s`, in order.
pub open spec fn words(s: Seq<char>) -> Seq<Seq<char>> {
    words_from(s, Seq::empty())
}

/// The words `ws` joined with one space between each two.
pub open spec fn join(ws: Seq<Seq<char>>) -> Seq<char>
    decreases ws.len(),
{
    if ws.len() == 0 {
        Seq::empty()
    } else if ws.len() == 1 {
        ws[0]
    } else {
        join(ws.drop_last()) + seq![' '] + ws.last()
    }
}

/// Whether `c` separates words.
pub fn is_space_char(c: char) -> (r: bool)
    ensures
        r == is_space(c),
{
    c == ' ' || c == '\t' || c == '\n' || c == '\r' || c == '\x0C'
}

/// The ASCII lower-case form of `c`.
pub fn lower_char(c: char) -> (r: char)
    ensures
        r == lower(c),
{
    if 'A' <= c && c <= 'Z' {
        ((c as u8) + 32) as char
    } else {
        c
    }
}

/// Relies on `String::push`: appends one character at the end.
#[verifier::external_body]
fn push_char(s: &mut String, c: char)
    ensures
        final(s)@ == old(s)@.push(c),
{
    s.push(c)
}

/// The characters of `s`, in order.
pub fn chars_of(s: &str) -> (r: Vec<char>)
    ensures
        r@ == s@,
{
    let n = s.unicode_len();
    let mut out: Vec<char> = Vec::new();
    let mut i: usize = 0;
    while i < n
        invariant
            n == s@.len(),
            i <= n,
            out@ == s@.subrange(0, i as int),
        decreases n - i,
    {
        out.push(s.get_char(i));
        i = i + 1;
    }
    assert(out@ =~= s@);
    out
}

/// The string made of the characters `v`.
pub fn string_of(v: &Vec<char>) -> (r: String)
    ensures
        r@ == v@,
{
    let mut out = String::new();
    let mut i: usize = 0;
    while i < v.len()
        invariant
            i <= v@.len(),
            out@ == v@.subrange(0, i as int),
        decreases v@.len() - i,
    {
        push_char(&mut out, v[i]);
        assert(out@ =~= v@.subrange(0, i + 1));
        i = i + 1;
    }
    assert(out@ =~= v@);
    out
}

proof fn lemma_trim_start_drop(s: Seq<char>, i: int)
    requires
        0 <= i <= s.len(),
        forall|j: int| 0 <= j < i ==> is_space(#[trigger] s[j]),
    ensures
        trim_start(s) == trim_start(s.subrange(i, s.len() as int)),
    decreases i,
{
    if i > 0 {
        assert(s.drop_first() =~= s.subrange(1, s.len() as int));
        lemma_trim_start_drop(s.drop_first(), i - 1);
        assert(s.drop_first().subrange(i - 1, s.drop_first().len() as int) =~= s.subrange(
            i,
            s.len() as int,
        ));
    } else {
        assert(s.subrange(0, s.len() as int) =~= s);
    }
}

/// The line as the interpreter reads it: ASCII letters in lower case and
/// leading whitespace removed.
pub fn normalize_line(raw: &str) -> (r: String)
    ensures
        r@ == normalized(raw@),
{
    let cs = chars_of(raw);
    let mut low: Vec<char> = Vec::new();
    let mut i: usize = 0;
    while i < cs.len()
        invariant
            i <= cs@.len(),
            cs@ == raw@,
            low@ == lower_seq(raw@).subrange(0, i as int),
        decreases cs@.len() - i,
    {
        low.push(lower_char(cs[i]));
        assert(low@ =~= lower_seq(raw@).subrange(0, i + 1));
        i = i + 1;
    }
    assert(low@ =~= lower_seq(raw@));
    let mut start: usize = 0;
    while start < low.len() && is_space_char(low[start])
        invariant
            start <= low@.len(),
            forall|j: int| 0 <= j < start ==> is_space(#[trigger] low@[j]),
        decreases low@.len() - start,
    {
        start = start + 1;
    }
    proof {
        lemma_trim_start_drop(low@, start as int);
    }
    let mut out = String::new();
    let mut k: usize = start;
    while k < low.len()
        invariant
            start <= k <= low@.len(),
            out@ == low@.subrange(start as int, k as int),
        decreases low@.len() - k,
    {
        push_char(&mut out, low[k]);
        assert(out@ =~= low@.subrange(start as int, k + 1));
        k = k + 1;
    }
    let ghost rest = low@.subrange(start as int, low@.len() as int);
    assert(rest.len() == 0 || !is_space(rest[0]));
    assert(trim_start(rest) == rest);
    assert(out@ =~= rest);
    out
}

/// The views of a sequence of character vectors.
pub open spec fn views(ws: Seq<Vec<char>>) -> Seq<Seq<char>> {
    ws.map_values(|w: Vec<char>| w@)
}

/// The whitespace-separated words of `s`, in order.
pub fn split_words(s: &Vec<char>) -> (r: Vec<Vec<char>>)
    ensures
        views(r@) == words(s@),
{
    let mut out: Vec<Vec<char>> = Vec::new();
    let mut cur: Vec<char> = Vec::new();
    let mut i: usize = 0;
    assert(views(out@) =~= Seq::<Seq<char>>::empty());
    assert(s@.subrange(0, s@.len() as int) =~= s@);
    assert(cur@ =~= Seq::<char>::empty());
    while i < s.len()
        invariant
            i <= s@.len(),
            views(out@) + words_from(s@.subrange(i as int, s@.len() as int), cur@) == words(s@),
        decreases s@.len() - i,
    {
        let ghost tail = s@.subrange(i as int, s@.len() as int);
        assert(tail.drop_first() =~= s@.subrange(i + 1, s@.len() as int));
        let c = s[i];
        if is_space_char(c) {
            if cur.len() > 0 {
                let ghost before = views(out@);
                out.push(cur);
                assert(views(out@) =~= before + seq![cur@]);
                assert(views(out@) + words_from(tail.drop_first(), Seq::empty()) =~= before + (seq![cur@] + words_from(tail.drop_first(), Seq::empty())));
            }
            cur = Vec::new();
            assert(cur@ =~= Seq::<char>::empty());
        } else {
            cur.push(c);
        }
        i = i + 1;
    }
    assert(s@.subrange(i as int, s@.len() as int) =~= Seq::<char>::empty());
    if cur.len() > 0 {
        let ghost before = views(out@);
        out.push(cur);
        assert(views(out@) =~= before + seq![cur@]);
    } else {
        assert(views(out@) + Seq::<Seq<char>>::empty() =~= views(out@));
    }
    out
}

/// The words `ws[from..]` joined with one space between each two.
pub fn join_from(ws: &Vec<Vec<char>>, from: usize) -> (r: String)
    requires
        from <= ws@.len(),
    ensures
        r@ == join(views(ws@).subrange(from as int, ws@.len() as int)),
{
    let mut out = String::new();
    let mut k: usize = from;
    while k < ws.len()
        invariant
            from <= k <= ws@.len(),
            out@ == join(views(ws@).subrange(from as int, k as int)),
        decreases ws@.len() - k,
    {
        let ghost part = views(ws@).subrange(from as int, k + 1);
        assert(part.drop_last() =~= views(ws@).subrange(from as int, k as int));
        if k > from {
            push_char(&mut out, ' ');
        }
        let w = &ws[k];
        let mut j: usize = 0;
        let ghost base = out@;
        while j < w.len()
            invariant
                j <= w@.len(),
                out@ == base + w@.subrange(0, j as int),
            decreases w@.len() - j,
        {
            push_char(&mut out, w[j]);
            assert(out@ =~= base + w@.subrange(0, j + 1));
            j = j + 1;
        }
        assert(w@.subrange(0, j as int) =~= w@);
        assert(part.last() == w@);
        assert(out@ =~= join(part));
        k = k + 1;
    }
    out
}

/// Whether the characters `w` spell the text `lit`.
pub fn word_is(w: &Vec<char>, lit: &str) -> (r: bool)
    ensures
        r == (w@ == lit@),
{
    let n = lit.unicode_len();
    if w.len() != n {
        return false;
    }
    let mut i: usize = 0;
    while i < n
        invariant
            n == lit@.len(),
            n == w@.len(),
            i <= n,
            w@.subrange(0, i as int) == lit@.subrange(0, i as int),
        decreases n - i,
    {
        if w[i] != lit.get_char(i) {
            assert(w@[i as int] != lit@[i as int]);
            return false;
        }
        assert(w@.subrange(0, i + 1) =~= lit@.subrange(0, i + 1));
        i = i + 1;
    }
    assert(w@ =~= w@.subrange(0, n as int));
    assert(lit@ =~= lit@.subrange(0, n as int));
    true
}

} // verus!
