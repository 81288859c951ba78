//! The alphabetical order of the registries: names compared character by
//! character, a proper prefix first.
use vstd::prelude::*;
use crate::lexer::views;
use crate::decls::{AliasModel, TypeAliasDecl, alias_models, copy_chars};

verus! {

/// `a` comes strictly before `b`.
pub open spec fn lex_lt(a: Seq<char>, b: Seq<char>) -> bool
    decreases a.len(),
{
    if a.len() == 0 {
        b.len() > 0
    } else if b.len() == 0 {
        false
    } else if a[0] != b[0] {
        a[0] < b[0]
    } else {
        lex_lt(a.drop_first(), b.drop_first())
    }
}

/// Where `x` goes in `s`: before the first name that `x` comes before.
pub open spec fn insert_pos(s: Seq<Seq<char>>, x: Seq<char>) -> int
    decreases s.len(),
{
    if s.len() == 0 {
        0
    } else if lex_lt(x, s[0]) {
        0
    } else {
        insert_pos(s.drop_first(), x) + 1
    }
}

/// The names of `s` in alphabetical order, each inserted in turn.
pub open spec fn sort_names(s: Seq<Seq<char>>) -> Seq<Seq<char>>
    decreases s.len(),
{
    if s.len() == 0 {
        Seq::empty()
    } else {
        let p = sort_names(s.drop_last());
        p.insert(insert_pos(p, s.last()), s.last())
    }
}

/// The aliases of `s` in alphabetical order of their names, each inserted in turn.
pub open spec fn sort_aliases(s: Seq<AliasModel>) -> Seq<AliasModel>
    decreases s.len(),
{
    if s.len() == 0 {
        Seq::empty()
    } else {
        let p = sort_aliases(s.drop_last());
        p.insert(insert_pos(p.map_values(|a: AliasModel| a.0), s.last().0), s.last())
    }
}

/// Whether `a` comes strictly before `b`.
pub fn lex_less(a: &Vec<char>, b: &Vec<char>) -> (r: bool)
    ensures
        r == lex_lt(a@, b@),
{
    let mut i: usize = 0;
    assert(a@.skip(0) =~= a@);
    assert(b@.skip(0) =~= b@);
    while i < a.len() && i < b.len()
        invariant
            i <= a.len(),
            i <= b.len(),
            lex_lt(a@.skip(i as int), b@.skip(i as int)) == lex_lt(a@, b@),
        decreases a.len() - i,
    {
        assert(a@.skip(i as int).drop_first() =~= a@.skip(i + 1));
        assert(b@.skip(i as int).drop_first() =~= b@.skip(i + 1));
        if a[i] != b[i] {
            return a[i] < b[i];
        }
        i = i + 1;
    }
    i == a.len() && i < b.len()
}

/// Where `x` goes among the sorted names `v`.
fn position(v: &Vec<Vec<char>>, x: &Vec<char>) -> (r: usize)
    ensures
        r as int == insert_pos(views(v@), x@),
        r <= v.len(),
{
    let ghost vv = views(v@);
    let mut i: usize = 0;
    assert(vv.skip(0) =~= vv);
    while i < v.len()
        invariant
            i <= v.len(),
            vv == views(v@),
            insert_pos(vv.skip(i as int), x@) + i == insert_pos(vv, x@),
        decreases v.len() - i,
    {
        assert(vv.skip(i as int).drop_first() =~= vv.skip(i + 1));
        if lex_less(x, &v[i]) {
            return i;
        }
        i = i + 1;
    }
    i
}

/// The names in alphabetical order.
pub fn sorted_names(v: &Vec<Vec<char>>) -> (r: Vec<Vec<char>>)
    ensures
        views(r@) == sort_names(views(v@)),
{
    let ghost vv = views(v@);
    let mut r: Vec<Vec<char>> = Vec::new();
    let mut i: usize = 0;
    while i < v.len()
        invariant
            i <= v.len(),
            vv == views(v@),
            views(r@) == sort_names(vv.subrange(0, i as int)),
        decreases v.len() - i,
    {
        assert(vv.subrange(0, i + 1).drop_last() =~= vv.subrange(0, i as int));
        let x = copy_chars(&v[i]);
        let p = position(&r, &x);
        let ghost before = views(r@);
        r.insert(p, x);
        assert(views(r@) =~= before.insert(p as int, vv[i as int]));
        i = i + 1;
    }
    assert(vv.subrange(0, v.len() as int) =~= vv);
    r
}

/// Where an alias named `x` goes among the sorted aliases `v`.
fn alias_position(v: &Vec<TypeAliasDecl>, x: &Vec<char>) -> (r: usize)
    ensures
        r as int == insert_pos(alias_models(v@).map_values(|a: AliasModel| a.0), x@),
        r <= v.len(),
{
    let ghost vv = alias_models(v@).map_values(|a: AliasModel| a.0);
    let mut i: usize = 0;
    assert(vv.skip(0) =~= vv);
    while i < v.len()
        invariant
            i <= v.len(),
            vv == alias_models(v@).map_values(|a: AliasModel| a.0),
            insert_pos(vv.skip(i as int), x@) + i == insert_pos(vv, x@),
        decreases v.len() - i,
    {
        assert(vv.skip(i as int).drop_first() =~= vv.skip(i + 1));
        if lex_less(x, &v[i].name) {
            return i;
        }
        i = i + 1;
    }
    i
}

/// The aliases in alphabetical order of their names.
pub fn sorted_aliases(v: &Vec<TypeAliasDecl>) -> (r: Vec<TypeAliasDecl>)
    ensures
        alias_models(r@) == sort_aliases(alias_models(v@)),
{
    let ghost vv = alias_models(v@);
    let mut r: Vec<TypeAliasDecl> = Vec::new();
    let mut i: usize = 0;
    while i < v.len()
        invariant
            i <= v.len(),
            vv == alias_models(v@),
            alias_models(r@) == sort_aliases(vv.subrange(0, i as int)),
        decreases v.len() - i,
    {
        assert(vv.subrange(0, i + 1).drop_last() =~= vv.subrange(0, i as int));
        let x = TypeAliasDecl { name: copy_chars(&v[i].name), target: copy_chars(&v[i].target) };
        let p = alias_position(&r, &x.name);
        let ghost before = alias_models(r@);
        r.insert(p, x);
        assert(alias_models(r@) =~= before.insert(p as int, vv[i as int]));
        i = i + 1;
    }
    assert(vv.subrange(0, v.len() as int) =~= vv);
    r
}

/// `insert_pos` is a position of `s`.
pub proof fn lemma_insert_pos_bounds(s: Seq<Seq<char>>, x: Seq<char>)
    ensures
        0 <= insert_pos(s, x) <= s.len(),
    decreases s.len(),
{
    if s.len() > 0 && !lex_lt(x, s[0]) {
        lemma_insert_pos_bounds(s.drop_first(), x);
    }
}

/// Sorting aliases keeps each of them and no other, and keeps their names
/// distinct where they were.
pub proof fn lemma_sort_aliases_keeps(s: Seq<AliasModel>)
    ensures
        sort_aliases(s).len() == s.len(),
        forall|i: int| 0 <= i < sort_aliases(s).len() ==> exists|j: int| 0 <= j < s.len() && s[j] == #[trigger] sort_aliases(s)[i],
        (forall|i: int, j: int| 0 <= i < j < s.len() ==> #[trigger] s[i].0 != #[trigger] s[j].0) ==> (forall|i: int, j: int|
            0 <= i < j < sort_aliases(s).len() ==> #[trigger] sort_aliases(s)[i].0 != #[trigger] sort_aliases(s)[j].0),
    decreases s.len(),
{
    if s.len() > 0 {
        let d = s.drop_last();
        lemma_sort_aliases_keeps(d);
        let p = sort_aliases(d);
        let x = s.last();
        let pos = insert_pos(p.map_values(|a: AliasModel| a.0), x.0);
        lemma_insert_pos_bounds(p.map_values(|a: AliasModel| a.0), x.0);
        let q = p.insert(pos, x);
        assert(q == sort_aliases(s));
        assert forall|i: int| 0 <= i < q.len() implies exists|j: int| 0 <= j < s.len() && s[j] == #[trigger] q[i] by {
            if i < pos {
                let j = choose|j: int| 0 <= j < d.len() && d[j] == #[trigger] p[i];
                assert(s[j] == q[i]);
            } else if i == pos {
                assert(s[s.len() - 1] == q[i]);
            } else {
                let j = choose|j: int| 0 <= j < d.len() && d[j] == #[trigger] p[i - 1];
                assert(s[j] == q[i]);
            }
        }
        if forall|i: int, j: int| 0 <= i < j < s.len() ==> #[trigger] s[i].0 != #[trigger] s[j].0 {
            assert(forall|i: int, j: int| 0 <= i < j < d.len() ==> #[trigger] d[i].0 != #[trigger] d[j].0) by {
                assert forall|i: int, j: int| 0 <= i < j < d.len() implies #[trigger] d[i].0 != #[trigger] d[j].0 by {
                    assert(s[i] == d[i] && s[j] == d[j]);
                }
            }
            assert forall|i: int| 0 <= i < p.len() implies #[trigger] p[i].0 != x.0 by {
                let j = choose|j: int| 0 <= j < d.len() && d[j] == #[trigger] p[i];
                assert(s[j] == d[j]);
            }
            assert forall|i: int, j: int| 0 <= i < j < q.len() implies #[trigger] q[i].0 != #[trigger] q[j].0 by {
                if j < pos {
                    assert(q[i] == p[i] && q[j] == p[j]);
                } else if j == pos {
                    assert(q[i] == p[i]);
                } else if i < pos {
                    assert(q[i] == p[i] && q[j] == p[j - 1]);
                } else if i == pos {
                    assert(q[j] == p[j - 1]);
                } else {
                    assert(q[i] == p[i - 1] && q[j] == p[j - 1]);
                }
            }
        }
    }
}

/// Names in strictly ascending order.
pub open spec fn ascending(s: Seq<Seq<char>>) -> bool {
    forall|i: int, j: int| 0 <= i < j < s.len() ==> lex_lt(#[trigger] s[i], #[trigger] s[j])
}

proof fn lemma_lex_irreflexive(a: Seq<char>)
    ensures
        !lex_lt(a, a),
    decreases a.len(),
{
    if a.len() > 0 {
        lemma_lex_irreflexive(a.drop_first());
    }
}

proof fn lemma_lex_transitive(a: Seq<char>, b: Seq<char>, c: Seq<char>)
    requires
        lex_lt(a, b),
        lex_lt(b, c),
    ensures
        lex_lt(a, c),
    decreases a.len(),
{
    if a.len() > 0 && b.len() > 0 && c.len() > 0 && a[0] == b[0] && b[0] == c[0] {
        lemma_lex_transitive(a.drop_first(), b.drop_first(), c.drop_first());
    }
}

proof fn lemma_lex_total(a: Seq<char>, b: Seq<char>)
    requires
        a != b,
    ensures
        lex_lt(a, b) || lex_lt(b, a),
    decreases a.len(),
{
    if a.len() > 0 && b.len() > 0 && a[0] == b[0] {
        if a.drop_first() == b.drop_first() {
            assert(a =~= seq![a[0]] + a.drop_first());
            assert(b =~= seq![b[0]] + b.drop_first());
        }
        lemma_lex_total(a.drop_first(), b.drop_first());
    } else if a.len() == 0 && b.len() == 0 {
        assert(a =~= b);
    }
}

/// Every name before `insert_pos` comes before `x` or is `x`; the name at
/// `insert_pos`, if any, comes after `x`.
proof fn lemma_insert_pos_order(s: Seq<Seq<char>>, x: Seq<char>)
    ensures
        forall|i: int| 0 <= i < insert_pos(s, x) ==> !lex_lt(x, #[trigger] s[i]),
        insert_pos(s, x) < s.len() ==> lex_lt(x, s[insert_pos(s, x)]),
    decreases s.len(),
{
    lemma_insert_pos_bounds(s, x);
    if s.len() > 0 && !lex_lt(x, s[0]) {
        lemma_insert_pos_order(s.drop_first(), x);
        lemma_insert_pos_bounds(s.drop_first(), x);
        assert(insert_pos(s, x) == insert_pos(s.drop_first(), x) + 1);
        if insert_pos(s, x) < s.len() {
            assert(s[insert_pos(s, x)] == s.drop_first()[insert_pos(s.drop_first(), x)]);
        }
        assert forall|i: int| 0 <= i < insert_pos(s, x) implies !lex_lt(x, #[trigger] s[i]) by {
            if i > 0 {
                assert(s[i] == s.drop_first()[i - 1]);
            }
        }
    }
}

/// Inserting a new name where `insert_pos` says keeps the order.
proof fn lemma_insert_ascending(p: Seq<Seq<char>>, x: Seq<char>)
    requires
        ascending(p),
        !p.contains(x),
    ensures
        ascending(p.insert(insert_pos(p, x), x)),
{
    let pos = insert_pos(p, x);
    lemma_insert_pos_bounds(p, x);
    lemma_insert_pos_order(p, x);
    let q = p.insert(pos, x);
    assert forall|i: int| 0 <= i < pos implies lex_lt(#[trigger] p[i], x) by {
        assert(p[i] != x);
        lemma_lex_total(p[i], x);
    }
    assert forall|i: int| pos <= i < p.len() implies lex_lt(x, #[trigger] p[i]) by {
        if i > pos {
            lemma_lex_transitive(x, p[pos], p[i]);
        }
    }
    assert forall|i: int, j: int| 0 <= i < j < q.len() implies lex_lt(#[trigger] q[i], #[trigger] q[j]) by {
        if j < pos {
            assert(q[i] == p[i] && q[j] == p[j]);
        } else if j == pos {
            assert(q[i] == p[i]);
        } else if i < pos {
            assert(q[i] == p[i] && q[j] == p[j - 1]);
        } else if i == pos {
            assert(q[j] == p[j - 1]);
        } else {
            assert(q[i] == p[i - 1] && q[j] == p[j - 1]);
        }
    }
}

/// Sorting distinct names puts them in strictly ascending order, and keeps
/// each of them and no other.
pub proof fn lemma_sort_names_ascending(s: Seq<Seq<char>>)
    requires
        forall|i: int, j: int| 0 <= i < j < s.len() ==> #[trigger] s[i] != #[trigger] s[j],
    ensures
        ascending(sort_names(s)),
        forall|x: Seq<char>| sort_names(s).contains(x) <==> s.contains(x),
    decreases s.len(),
{
    if s.len() > 0 {
        let d = s.drop_last();
        lemma_sort_names_ascending(d);
        let p = sort_names(d);
        let x = s.last();
        assert(!d.contains(x)) by {
            if d.contains(x) {
                let j = choose|j: int| 0 <= j < d.len() && d[j] == x;
                assert(s[j] == s[s.len() - 1]);
            }
        }
        lemma_insert_ascending(p, x);
        let pos = insert_pos(p, x);
        lemma_insert_pos_bounds(p, x);
        let q = p.insert(pos, x);
        assert forall|y: Seq<char>| q.contains(y) <==> s.contains(y) by {
            if q.contains(y) {
                let i = choose|i: int| 0 <= i < q.len() && q[i] == y;
                if i < pos {
                    assert(p[i] == y);
                    assert(p.contains(y));
                    assert(d.contains(y));
                    let j = choose|j: int| 0 <= j < d.len() && d[j] == y;
                    assert(s[j] == d[j]);
                } else if i == pos {
                    assert(s[s.len() - 1] == y);
                } else {
                    assert(p[i - 1] == y);
                    assert(p.contains(y));
                    assert(d.contains(y));
                    let j = choose|j: int| 0 <= j < d.len() && d[j] == y;
                    assert(s[j] == d[j]);
                }
            }
            if s.contains(y) {
                let j = choose|j: int| 0 <= j < s.len() && s[j] == y;
                if j == s.len() - 1 {
                    assert(q[pos] == y);
                } else {
                    assert(d[j] == y);
                    assert(d.contains(y));
                    let i = choose|i: int| 0 <= i < p.len() && p[i] == y;
                    if i < pos {
                        assert(q[i] == y);
                    } else {
                        assert(q[i + 1] == y);
                    }
                }
            }
        }
    }
}

/// Sorting aliases with distinct names puts their names in strictly
/// ascending order.
pub proof fn lemma_sort_aliases_ascending(s: Seq<AliasModel>)
    requires
        forall|i: int, j: int| 0 <= i < j < s.len() ==> #[trigger] s[i].0 != #[trigger] s[j].0,
    ensures
        ascending(sort_aliases(s).map_values(|a: AliasModel| a.0)),
    decreases s.len(),
{
    if s.len() > 0 {
        let d = s.drop_last();
        assert forall|i: int, j: int| 0 <= i < j < d.len() implies #[trigger] d[i].0 != #[trigger] d[j].0 by {
            assert(s[i] == d[i] && s[j] == d[j]);
        }
        lemma_sort_aliases_ascending(d);
        lemma_sort_aliases_keeps(d);
        let p = sort_aliases(d);
        let pn = p.map_values(|a: AliasModel| a.0);
        let x = s.last();
        assert(!pn.contains(x.0)) by {
            if pn.contains(x.0) {
                let i = choose|i: int| 0 <= i < pn.len() && pn[i] == x.0;
                let j = choose|j: int| 0 <= j < d.len() && d[j] == #[trigger] p[i];
                assert(s[j].0 == s[s.len() - 1].0);
            }
        }
        lemma_insert_ascending(pn, x.0);
        let pos = insert_pos(pn, x.0);
        lemma_insert_pos_bounds(pn, x.0);
        assert(sort_aliases(s).map_values(|a: AliasModel| a.0) =~= pn.insert(pos, x.0));
    }
}

} // verus!
