//! The lexer of the declaration corpus: words, the path separator `::` kept
//! inside words, the arrow `->`, and single punctuation characters.
use vstd::prelude::*;

verus! {

/// Characters that make up a word token.
pub open spec fn is_word_char(c: char) -> bool {
    ('a' <= c && c <= 'z') || ('A' <= c && c <= 'Z') || ('0' <= c && c <= '9') || c == '_'
        || c == '-' || c == '"' || c == '.'
}

/// Characters that separate tokens and are dropped.
pub open spec fn is_space(c: char) -> bool {
    c == ' ' || c == '\n' || c == '\t' || c == '\r'
}

/// The token list that a finished word adds: none for an empty word.
pub open spec fn flush(cur: Seq<char>) -> Seq<Seq<char>> {
    if cur.len() == 0 {
        Seq::empty()
    } else {
        seq![cur]
    }
}

/// The tokens of `s`, where `cur` is the word read so far.
pub open spec fn lex_from(s: Seq<char>, cur: Seq<char>) -> Seq<Seq<char>>
    decreases s.len(),
{
    if s.len() == 0 {
        flush(cur)
    } else if s.len() >= 2 && s[0] == ':' && s[1] == ':' {
        lex_from(s.skip(2), cur + seq![':', ':'])
    } else if s.len() >= 2 && s[0] == '-' && s[1] == '>' {
        flush(cur) + seq![seq!['-', '>']] + lex_from(s.skip(2), Seq::empty())
    } else if is_word_char(s[0]) {
        lex_from(s.drop_first(), cur.push(s[0]))
    } else if is_space(s[0]) {
        flush(cur) + lex_from(s.drop_first(), Seq::empty())
    } else {
        flush(cur) + seq![seq![s[0]]] + lex_from(s.drop_first(), Seq::empty())
    }
}

/// The tokens of a text.
pub open spec fn lex(s: Seq<char>) -> Seq<Seq<char>> {
    lex_from(s, Seq::empty())
}

/// The views of a sequence of character vectors.
pub open spec fn views(v: Seq<Vec<char>>) -> Seq<Seq<char>> {
    Seq::new(v.len(), |i: int| v[i]@)
}

fn is_word_char_exec(c: char) -> (r: bool)
    ensures
        r == is_word_char(c),
{
    ('a' <= c && c <= 'z') || ('A' <= c && c <= 'Z') || ('0' <= c && c <= '9') || c == '_'
        || c == '-' || c == '"' || c == '.'
}

fn push_word(out: &mut Vec<Vec<char>>, cur: Vec<char>)
    ensures
        views(final(out)@) == views(old(out)@) + flush(cur@),
{
    let ghost before = views(out@);
    if cur.len() > 0 {
        out.push(cur);
        assert(views(out@) =~= before + flush(cur@));
    } else {
        assert(views(out@) =~= before + flush(cur@));
    }
}

/// Splits a text into tokens.
pub fn tokenize(s: &Vec<char>) -> (r: Vec<Vec<char>>)
    ensures
        views(r@) == lex(s@),
{
    let mut out: Vec<Vec<char>> = Vec::new();
    let mut cur: Vec<char> = Vec::new();
    let mut i: usize = 0;
    let n = s.len();
    assert(s@.subrange(0, n as int) =~= s@);
    assert(views(out@) + lex(s@) =~= lex(s@));
    while i < n
        invariant
            n == s.len(),
            i <= n,
            views(out@) + lex_from(s@.subrange(i as int, n as int), cur@) == lex(s@),
        decreases n - i,
    {
        let ghost rest = s@.subrange(i as int, n as int);
        let ghost before = views(out@);
        let c = s[i];
        if i + 1 < n && c == ':' && s[i + 1] == ':' {
            assert(rest.skip(2) =~= s@.subrange(i + 2, n as int));
            let ghost cur0 = cur@;
            cur.push(':');
            cur.push(':');
            assert(cur@ =~= cur0 + seq![':', ':']);
            i = i + 2;
        } else if i + 1 < n && c == '-' && s[i + 1] == '>' {
            assert(rest.skip(2) =~= s@.subrange(i + 2, n as int));
            let ghost cur0 = cur@;
            push_word(&mut out, cur);
            let ghost mid = views(out@);
            out.push(vec!['-', '>']);
            cur = Vec::new();
            assert(views(out@) =~= mid + seq![seq!['-', '>']]);
            assert(views(out@) =~= before + flush(cur0) + seq![seq!['-', '>']]);
            i = i + 2;
        } else if is_word_char_exec(c) {
            assert(rest.drop_first() =~= s@.subrange(i + 1, n as int));
            cur.push(c);
            i = i + 1;
        } else if c == ' ' || c == '\n' || c == '\t' || c == '\r' {
            assert(rest.drop_first() =~= s@.subrange(i + 1, n as int));
            push_word(&mut out, cur);
            cur = Vec::new();
            i = i + 1;
        } else {
            assert(rest.drop_first() =~= s@.subrange(i + 1, n as int));
            let ghost cur0 = cur@;
            push_word(&mut out, cur);
            let ghost mid = views(out@);
            let mut single: Vec<char> = Vec::new();
            single.push(c);
            assert(single@ =~= seq![c]);
            out.push(single);
            cur = Vec::new();
            assert(views(out@) =~= mid + seq![seq![c]]);
            assert(views(out@) =~= before + flush(cur0) + seq![seq![c]]);
            i = i + 1;
        }
    }
    assert(s@.subrange(n as int, n as int) =~= Seq::<char>::empty());
    push_word(&mut out, cur);
    out
}

} // verus!
