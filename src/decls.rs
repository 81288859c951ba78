//! The declaration extractor: the four productions of the corpus grammar,
//! read from its tokens.
//!
//! - type alias: `pub type NAME = TYPE ;`
//! - named constant: `pub const NAME : TYPE = LITERAL ;`
//! - structure: `pub struct NAME {`, with `NAME` starting with `bt_`
//! - function: `extern "C" { pub fn NAME ( ARGS ) [-> RET] ; }`
//!
//! Text that matches no production is skipped one token at a time.
use vstd::prelude::*;
use crate::lexer::views;

verus! {

/// `pub type NAME = TYPE ;`
pub struct TypeAliasDecl {
    pub name: Vec<char>,
    pub target: Vec<char>,
}

/// `pub const NAME : TYPE = LITERAL ;`
pub struct ConstDecl {
    pub name: Vec<char>,
    pub ty: Vec<char>,
    pub literal: Vec<char>,
}

/// `extern "C" { pub fn NAME ( ARGS ) [-> RET] ; }`: the argument and return
/// type tokens are kept as they stand.
pub struct FnDecl {
    pub name: Vec<char>,
    pub args: Vec<Vec<char>>,
    pub ret: Option<Vec<Vec<char>>>,
}

/// What the extractor found, each family in corpus order.
pub struct Declarations {
    pub aliases: Vec<TypeAliasDecl>,
    pub consts: Vec<ConstDecl>,
    pub structs: Vec<Vec<char>>,
    pub functions: Vec<FnDecl>,
}

/// Model of an alias: its name and target.
pub type AliasModel = (Seq<char>, Seq<char>);

/// Model of a constant: its name, type and literal.
pub type ConstModel = (Seq<char>, Seq<char>, Seq<char>);

/// Model of a function signature: its name, argument tokens and return tokens.
pub type FnModel = (Seq<char>, Seq<Seq<char>>, Option<Seq<Seq<char>>>);

impl View for TypeAliasDecl {
    type V = AliasModel;

    open spec fn view(&self) -> AliasModel {
        (self.name@, self.target@)
    }
}

impl View for ConstDecl {
    type V = ConstModel;

    open spec fn view(&self) -> ConstModel {
        (self.name@, self.ty@, self.literal@)
    }
}

/// Model of optional return tokens.
pub open spec fn ret_view(r: Option<Vec<Vec<char>>>) -> Option<Seq<Seq<char>>> {
    match r {
        Some(v) => Some(views(v@)),
        None => None,
    }
}

impl View for FnDecl {
    type V = FnModel;

    open spec fn view(&self) -> FnModel {
        (self.name@, views(self.args@), ret_view(self.ret))
    }
}

/// Models of a sequence of aliases.
pub open spec fn alias_models(a: Seq<TypeAliasDecl>) -> Seq<AliasModel> {
    a.map_values(|x: TypeAliasDecl| x@)
}

/// Models of a sequence of constants.
pub open spec fn const_models(c: Seq<ConstDecl>) -> Seq<ConstModel> {
    c.map_values(|x: ConstDecl| x@)
}

/// Models of a sequence of function signatures.
pub open spec fn fn_models(f: Seq<FnDecl>) -> Seq<FnModel> {
    f.map_values(|x: FnDecl| x@)
}

/// The word `pub`.
pub open spec fn kw_pub() -> Seq<char> {
    seq!['p', 'u', 'b']
}

/// The word `type`.
pub open spec fn kw_type() -> Seq<char> {
    seq!['t', 'y', 'p', 'e']
}

/// The word `const`.
pub open spec fn kw_const() -> Seq<char> {
    seq!['c', 'o', 'n', 's', 't']
}

/// The word `struct`.
pub open spec fn kw_struct() -> Seq<char> {
    seq!['s', 't', 'r', 'u', 'c', 't']
}

/// The word that opens a block of foreign functions.
pub open spec fn kw_extern() -> Seq<char> {
    seq!['e', 'x', 't', 'e', 'r', 'n']
}

/// The calling convention of the foreign functions, quotes included.
pub open spec fn kw_abi() -> Seq<char> {
    seq!['"', 'C', '"']
}

/// The word `fn`.
pub open spec fn kw_fn() -> Seq<char> {
    seq!['f', 'n']
}

/// The arrow before a return type.
pub open spec fn kw_arrow() -> Seq<char> {
    seq!['-', '>']
}

/// The prefix of the structures that become entities.
pub open spec fn bt_struct_prefix() -> Seq<char> {
    seq!['b', 't', '_']
}

/// The token of one punctuation character.
pub open spec fn punct(c: char) -> Seq<char> {
    seq![c]
}

/// Tokens `pub type NAME = TYPE ;` start at `i`.
pub open spec fn alias_at(t: Seq<Seq<char>>, i: int) -> bool {
    0 <= i && i + 6 <= t.len() && t[i] == kw_pub() && t[i + 1] == kw_type() && t[i + 3] == punct('=')
        && t[i + 5] == punct(';')
}

/// Tokens `pub const NAME : TYPE = LITERAL ;` start at `i`.
pub open spec fn const_at(t: Seq<Seq<char>>, i: int) -> bool {
    0 <= i && i + 8 <= t.len() && t[i] == kw_pub() && t[i + 1] == kw_const() && t[i + 3] == punct(':')
        && t[i + 5] == punct('=') && t[i + 7] == punct(';')
}

/// Tokens `pub struct bt_... {` start at `i`.
pub open spec fn struct_at(t: Seq<Seq<char>>, i: int) -> bool {
    0 <= i && i + 4 <= t.len() && t[i] == kw_pub() && t[i + 1] == kw_struct() && t[i + 3] == punct('{')
        && bt_struct_prefix().is_prefix_of(t[i + 2])
}

/// The index of the `)` that closes a group opened before `j`, with `depth`
/// further groups open at `j`; `t.len()` where there is none.
pub open spec fn closing_paren(t: Seq<Seq<char>>, j: int, depth: nat) -> int
    decreases t.len() - j,
{
    if j < 0 || j >= t.len() {
        t.len() as int
    } else if t[j] == punct(')') {
        if depth == 0 {
            j
        } else {
            closing_paren(t, j + 1, (depth - 1) as nat)
        }
    } else if t[j] == punct('(') {
        closing_paren(t, j + 1, depth + 1)
    } else {
        closing_paren(t, j + 1, depth)
    }
}

/// The index of the first `;` at or after `j`; `t.len()` where there is none.
pub open spec fn next_semicolon(t: Seq<Seq<char>>, j: int) -> int
    decreases t.len() - j,
{
    if j < 0 || j >= t.len() {
        t.len() as int
    } else if t[j] == punct(';') {
        j
    } else {
        next_semicolon(t, j + 1)
    }
}

/// Where the arguments of a function starting at `i` end.
pub open spec fn fn_close(t: Seq<Seq<char>>, i: int) -> int {
    closing_paren(t, i + 7, 0)
}

/// Where the `;` of a function starting at `i` stands.
pub open spec fn fn_semi(t: Seq<Seq<char>>, i: int) -> int {
    let c = fn_close(t, i);
    if c + 1 < t.len() && t[c + 1] == kw_arrow() {
        next_semicolon(t, c + 2)
    } else {
        c + 1
    }
}

/// Tokens `extern "C" { pub fn NAME ( ARGS ) [-> RET] ; }` start at `i`.
pub open spec fn fn_at(t: Seq<Seq<char>>, i: int) -> bool {
    let c = fn_close(t, i);
    let s = fn_semi(t, i);
    &&& 0 <= i && i + 8 <= t.len()
    &&& t[i] == kw_extern() && t[i + 1] == kw_abi() && t[i + 2] == punct('{') && t[i + 3] == kw_pub()
        && t[i + 4] == kw_fn() && t[i + 6] == punct('(')
    &&& s + 1 < t.len() && t[s] == punct(';') && t[s + 1] == punct('}')
    &&& (t[c + 1] == kw_arrow() ==> s > c + 2)
}

/// The signature of the function that starts at `i`.
pub open spec fn fn_model_at(t: Seq<Seq<char>>, i: int) -> FnModel {
    let c = fn_close(t, i);
    let s = fn_semi(t, i);
    (
        t[i + 5],
        t.subrange(i + 7, c),
        if t[c + 1] == kw_arrow() { Some(t.subrange(c + 2, s)) } else { None },
    )
}

/// The aliases found from index `i` on.
pub open spec fn aliases_from(t: Seq<Seq<char>>, i: int) -> Seq<AliasModel>
    decreases t.len() - i,
{
    if i < 0 || i >= t.len() {
        Seq::empty()
    } else if alias_at(t, i) {
        seq![(t[i + 2], t[i + 4])] + aliases_from(t, i + 6)
    } else {
        aliases_from(t, i + 1)
    }
}

/// The constants found from index `i` on.
pub open spec fn consts_from(t: Seq<Seq<char>>, i: int) -> Seq<ConstModel>
    decreases t.len() - i,
{
    if i < 0 || i >= t.len() {
        Seq::empty()
    } else if const_at(t, i) {
        seq![(t[i + 2], t[i + 4], t[i + 6])] + consts_from(t, i + 8)
    } else {
        consts_from(t, i + 1)
    }
}

/// The structure names found from index `i` on.
pub open spec fn structs_from(t: Seq<Seq<char>>, i: int) -> Seq<Seq<char>>
    decreases t.len() - i,
{
    if i < 0 || i >= t.len() {
        Seq::empty()
    } else if struct_at(t, i) {
        seq![t[i + 2]] + structs_from(t, i + 4)
    } else {
        structs_from(t, i + 1)
    }
}

/// Where the scan goes on after the function that starts at `i`.
pub open spec fn fn_next(t: Seq<Seq<char>>, i: int) -> int {
    let n = fn_semi(t, i) + 2;
    if n > i { n } else { i + 1 }
}

/// The function signatures found from index `i` on.
pub open spec fn fns_from(t: Seq<Seq<char>>, i: int) -> Seq<FnModel>
    decreases t.len() - i,
{
    if i < 0 || i >= t.len() {
        Seq::empty()
    } else if fn_at(t, i) {
        seq![fn_model_at(t, i)] + fns_from(t, fn_next(t, i))
    } else {
        fns_from(t, i + 1)
    }
}

} // verus!

verus! {

/// A copy of a character vector.
pub fn copy_chars(v: &Vec<char>) -> (r: Vec<char>)
    ensures
        r@ == v@,
{
    let mut r: Vec<char> = Vec::new();
    let mut i: usize = 0;
    while i < v.len()
        invariant
            i <= v.len(),
            r@ == v@.subrange(0, i as int),
        decreases v.len() - i,
    {
        r.push(v[i]);
        i = i + 1;
        assert(r@ =~= v@.subrange(0, i as int));
    }
    assert(v@.subrange(0, v.len() as int) =~= v@);
    r
}

/// Whether two character vectors hold the same text.
pub fn chars_eq(a: &Vec<char>, b: &Vec<char>) -> (r: bool)
    ensures
        r == (a@ == b@),
{
    if a.len() != b.len() {
        return false;
    }
    let mut i: usize = 0;
    while i < a.len()
        invariant
            a.len() == b.len(),
            i <= a.len(),
            a@.subrange(0, i as int) == b@.subrange(0, i as int),
        decreases a.len() - i,
    {
        if a[i] != b[i] {
            assert(a@[i as int] != b@[i as int]);
            return false;
        }
        i = i + 1;
        assert(a@.subrange(0, i as int) =~= b@.subrange(0, i as int));
    }
    assert(a@ =~= a@.subrange(0, a.len() as int));
    assert(b@ =~= b@.subrange(0, b.len() as int));
    true
}

/// Whether `p` is a prefix of `a`.
pub fn chars_prefix(p: &Vec<char>, a: &Vec<char>) -> (r: bool)
    ensures
        r == p@.is_prefix_of(a@),
{
    if p.len() > a.len() {
        return false;
    }
    let mut i: usize = 0;
    while i < p.len()
        invariant
            p.len() <= a.len(),
            i <= p.len(),
            p@.subrange(0, i as int) == a@.subrange(0, i as int),
        decreases p.len() - i,
    {
        if p[i] != a[i] {
            assert(p@[i as int] != a@[i as int]);
            return false;
        }
        i = i + 1;
        assert(p@.subrange(0, i as int) =~= a@.subrange(0, i as int));
    }
    assert(p@ =~= p@.subrange(0, p.len() as int));
    true
}

/// Whether token `i` of `t` is the one-character token `c`.
fn tok_is(t: &Vec<Vec<char>>, i: usize, c: char) -> (r: bool)
    requires
        i < t.len(),
    ensures
        r == (views(t@)[i as int] == punct(c)),
{
    let tok = &t[i];
    let r = tok.len() == 1 && tok[0] == c;
    if r {
        assert(tok@ =~= punct(c));
    }
    r
}

/// Whether token `i` of `t` is the word `w`.
fn tok_word(t: &Vec<Vec<char>>, i: usize, w: Vec<char>) -> (r: bool)
    requires
        i < t.len(),
    ensures
        r == (views(t@)[i as int] == w@),
{
    chars_eq(&t[i], &w)
}

/// A copy of tokens `a..b` of `t`.
pub fn copy_tokens_of(t: &Vec<Vec<char>>, a: usize, b: usize) -> (r: Vec<Vec<char>>)
    requires
        a <= b <= t.len(),
    ensures
        views(r@) == views(t@).subrange(a as int, b as int),
{
    let mut r: Vec<Vec<char>> = Vec::new();
    let mut k: usize = a;
    while k < b
        invariant
            a <= k <= b <= t.len(),
            views(r@) == views(t@).subrange(a as int, k as int),
        decreases b - k,
    {
        let ghost before = views(r@);
        r.push(copy_chars(&t[k]));
        assert(views(r@) =~= before.push(views(t@)[k as int]));
        k = k + 1;
        assert(views(r@) =~= views(t@).subrange(a as int, k as int));
    }
    r
}

fn alias_at_exec(t: &Vec<Vec<char>>, i: usize) -> (r: bool)
    ensures
        r == alias_at(views(t@), i as int),
{
    i < t.len() && t.len() - i >= 6 && tok_word(t, i, vec!['p', 'u', 'b']) && tok_word(t, i + 1, vec!['t', 'y', 'p', 'e'])
        && tok_is(t, i + 3, '=') && tok_is(t, i + 5, ';')
}

fn const_at_exec(t: &Vec<Vec<char>>, i: usize) -> (r: bool)
    ensures
        r == const_at(views(t@), i as int),
{
    i < t.len() && t.len() - i >= 8 && tok_word(t, i, vec!['p', 'u', 'b']) && tok_word(t, i + 1, vec!['c', 'o', 'n', 's', 't'])
        && tok_is(t, i + 3, ':') && tok_is(t, i + 5, '=') && tok_is(t, i + 7, ';')
}

fn struct_at_exec(t: &Vec<Vec<char>>, i: usize) -> (r: bool)
    ensures
        r == struct_at(views(t@), i as int),
{
    i < t.len() && t.len() - i >= 4 && tok_word(t, i, vec!['p', 'u', 'b']) && tok_word(t, i + 1, vec!['s', 't', 'r', 'u', 'c', 't'])
        && tok_is(t, i + 3, '{') && chars_prefix(&vec!['b', 't', '_'], &t[i + 2])
}

fn closing_paren_exec(t: &Vec<Vec<char>>, j: usize) -> (r: usize)
    requires
        j <= t.len(),
    ensures
        r as int == closing_paren(views(t@), j as int, 0),
        j <= r <= t.len(),
{
    let mut k: usize = j;
    let mut depth: usize = 0;
    while k < t.len()
        invariant
            j <= k <= t.len(),
            depth <= k - j,
            closing_paren(views(t@), k as int, depth as nat) == closing_paren(views(t@), j as int, 0),
        decreases t.len() - k,
    {
        if tok_is(t, k, ')') {
            if depth == 0 {
                return k;
            }
            depth = depth - 1;
        } else if tok_is(t, k, '(') {
            depth = depth + 1;
        }
        k = k + 1;
    }
    k
}

fn next_semicolon_exec(t: &Vec<Vec<char>>, j: usize) -> (r: usize)
    requires
        j <= t.len(),
    ensures
        r as int == next_semicolon(views(t@), j as int),
        j <= r <= t.len(),
{
    let mut k: usize = j;
    while k < t.len()
        invariant
            j <= k <= t.len(),
            next_semicolon(views(t@), k as int) == next_semicolon(views(t@), j as int),
        decreases t.len() - k,
    {
        if tok_is(t, k, ';') {
            return k;
        }
        k = k + 1;
    }
    k
}

/// `p` holds the function that starts at `i` and where the scan goes on after it.
pub open spec fn found_fn(p: (FnDecl, usize), t: Seq<Seq<char>>, i: int) -> bool {
    p.0@ == fn_model_at(t, i) && p.1 as int == fn_next(t, i) && p.1 <= t.len()
}

/// The function that starts at `i`, if one does, and where the scan goes on.
fn fn_at_exec(t: &Vec<Vec<char>>, i: usize) -> (r: Option<(FnDecl, usize)>)
    ensures
        r is Some <==> fn_at(views(t@), i as int),
        r is Some ==> found_fn(r->0, views(t@), i as int),
{
    let ghost tv = views(t@);
    if !(i < t.len() && t.len() - i >= 8 && tok_word(t, i, vec!['e', 'x', 't', 'e', 'r', 'n'])
        && tok_word(t, i + 1, vec!['"', 'C', '"']) && tok_is(t, i + 2, '{')
        && tok_word(t, i + 3, vec!['p', 'u', 'b']) && tok_word(t, i + 4, vec!['f', 'n'])
        && tok_is(t, i + 6, '(')) {
        return None;
    }
    let c = closing_paren_exec(t, i + 7);
    if c >= t.len() || c + 1 >= t.len() {
        return None;
    }
    let arrow = tok_word(t, c + 1, vec!['-', '>']);
    let s = if arrow {
        next_semicolon_exec(t, c + 2)
    } else {
        c + 1
    };
    assert(s as int == fn_semi(tv, i as int));
    if !(s < t.len() && s + 1 < t.len() && tok_is(t, s, ';') && tok_is(t, s + 1, '}')) {
        return None;
    }
    if arrow && s <= c + 2 {
        return None;
    }
    let name = copy_chars(&t[i + 5]);
    let args = copy_tokens_of(t, i + 7, c);
    let ret = if arrow {
        let r = copy_tokens_of(t, c + 2, s);
        Some(r)
    } else {
        None
    };
    Some((FnDecl { name, args, ret }, s + 2))
}

/// Reads the four declaration families from the tokens of a corpus.
pub fn extract(t: &Vec<Vec<char>>) -> (r: Declarations)
    ensures
        alias_models(r.aliases@) == aliases_from(views(t@), 0),
        const_models(r.consts@) == consts_from(views(t@), 0),
        views(r.structs@) == structs_from(views(t@), 0),
        fn_models(r.functions@) == fns_from(views(t@), 0),
{
    let ghost tv = views(t@);
    let n = t.len();
    let mut aliases: Vec<TypeAliasDecl> = Vec::new();
    let mut i: usize = 0;
    while i < n
        invariant
            n == t.len(),
            tv == views(t@),
            i <= n,
            alias_models(aliases@) + aliases_from(tv, i as int) == aliases_from(tv, 0),
        decreases n - i,
    {
        let ghost before = alias_models(aliases@);
        if alias_at_exec(t, i) {
            let a = TypeAliasDecl { name: copy_chars(&t[i + 2]), target: copy_chars(&t[i + 4]) };
            aliases.push(a);
            assert(alias_models(aliases@) =~= before + seq![(tv[i + 2], tv[i + 4])]);
            i = i + 6;
        } else {
            i = i + 1;
        }
    }
    assert(alias_models(aliases@) =~= alias_models(aliases@) + aliases_from(tv, i as int));
    let mut consts: Vec<ConstDecl> = Vec::new();
    i = 0;
    while i < n
        invariant
            n == t.len(),
            tv == views(t@),
            i <= n,
            const_models(consts@) + consts_from(tv, i as int) == consts_from(tv, 0),
        decreases n - i,
    {
        let ghost before = const_models(consts@);
        if const_at_exec(t, i) {
            let c = ConstDecl {
                name: copy_chars(&t[i + 2]),
                ty: copy_chars(&t[i + 4]),
                literal: copy_chars(&t[i + 6]),
            };
            consts.push(c);
            assert(const_models(consts@) =~= before + seq![(tv[i + 2], tv[i + 4], tv[i + 6])]);
            i = i + 8;
        } else {
            i = i + 1;
        }
    }
    assert(const_models(consts@) =~= const_models(consts@) + consts_from(tv, i as int));
    let mut structs: Vec<Vec<char>> = Vec::new();
    i = 0;
    while i < n
        invariant
            n == t.len(),
            tv == views(t@),
            i <= n,
            views(structs@) + structs_from(tv, i as int) == structs_from(tv, 0),
        decreases n - i,
    {
        let ghost before = views(structs@);
        if struct_at_exec(t, i) {
            structs.push(copy_chars(&t[i + 2]));
            assert(views(structs@) =~= before + seq![tv[i + 2]]);
            i = i + 4;
        } else {
            i = i + 1;
        }
    }
    assert(views(structs@) =~= views(structs@) + structs_from(tv, i as int));
    let mut functions: Vec<FnDecl> = Vec::new();
    i = 0;
    while i < n
        invariant
            n == t.len(),
            tv == views(t@),
            i <= n,
            fn_models(functions@) + fns_from(tv, i as int) == fns_from(tv, 0),
        decreases n - i,
    {
        let ghost before = fn_models(functions@);
        match fn_at_exec(t, i) {
            Some((f, next)) => {
                functions.push(f);
                assert(fn_models(functions@) =~= before + seq![fn_model_at(tv, i as int)]);
                i = next;
            },
            None => {
                i = i + 1;
            },
        }
    }
    assert(fn_models(functions@) =~= fn_models(functions@) + fns_from(tv, i as int));
    Declarations { aliases, consts, structs, functions }
}

} // verus!
