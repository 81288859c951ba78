//! The function classifier: each extracted signature becomes a method of one
//! entity, or a constructor of one, or is left unhandled.
use vstd::prelude::*;
use crate::lexer::views;
use crate::decls::{copy_chars, copy_tokens_of, chars_eq, chars_prefix, punct, kw_const, FnDecl, FnModel};
use crate::enums::lib_prefix;

verus! {

/// An argument: its name, its raw type tokens, and what the rewrite engine
/// makes of it (empty until then).
pub struct ArgInfo {
    pub name: Vec<char>,
    pub raw: Vec<Vec<char>>,
    pub new_type: Vec<char>,
    pub pre: Vec<char>,
    pub post: Vec<char>,
}

/// A method of an entity.
pub struct FuncInfo {
    /// The method name: the entry point without the entity prefix.
    pub name: Vec<char>,
    /// The raw entry point.
    pub bt_name: Vec<char>,
    /// The raw return type tokens.
    pub ret: Option<Vec<Vec<char>>>,
    pub args: Vec<ArgInfo>,
    /// The rewritten return type and the glue around the call.
    pub new_return: Vec<char>,
    pub pre_call: Vec<char>,
    pub post_call: Vec<char>,
    pub const_self: bool,
    pub is_create: bool,
}

/// Model of an argument.
pub struct ArgModel {
    pub name: Seq<char>,
    pub raw: Seq<Seq<char>>,
    pub new_type: Seq<char>,
    pub pre: Seq<char>,
    pub post: Seq<char>,
}

/// Model of a method.
pub struct FuncModel {
    pub name: Seq<char>,
    pub bt_name: Seq<char>,
    pub ret: Option<Seq<Seq<char>>>,
    pub args: Seq<ArgModel>,
    pub new_return: Seq<char>,
    pub pre_call: Seq<char>,
    pub post_call: Seq<char>,
    pub const_self: bool,
    pub is_create: bool,
}

impl View for ArgInfo {
    type V = ArgModel;

    open spec fn view(&self) -> ArgModel {
        ArgModel { name: self.name@, raw: views(self.raw@), new_type: self.new_type@, pre: self.pre@, post: self.post@ }
    }
}

/// Models of a sequence of arguments.
pub open spec fn arg_models(a: Seq<ArgInfo>) -> Seq<ArgModel> {
    a.map_values(|x: ArgInfo| x@)
}

impl View for FuncInfo {
    type V = FuncModel;

    open spec fn view(&self) -> FuncModel {
        FuncModel {
            name: self.name@,
            bt_name: self.bt_name@,
            ret: match self.ret {
                Some(r) => Some(views(r@)),
                None => None,
            },
            args: arg_models(self.args@),
            new_return: self.new_return@,
            pre_call: self.pre_call@,
            post_call: self.post_call@,
            const_self: self.const_self,
            is_create: self.is_create,
        }
    }
}

/// The segments of an argument list between top-level commas, where `depth`
/// parentheses are open and `cur` is the segment read so far.
pub open spec fn split_from(t: Seq<Seq<char>>, depth: nat, cur: Seq<Seq<char>>) -> Seq<Seq<Seq<char>>>
    decreases t.len(),
{
    if t.len() == 0 {
        seq![cur]
    } else if t[0] == punct(',') && depth == 0 {
        seq![cur] + split_from(t.drop_first(), 0, Seq::empty())
    } else if t[0] == punct('(') {
        split_from(t.drop_first(), depth + 1, cur.push(t[0]))
    } else if t[0] == punct(')') {
        split_from(t.drop_first(), if depth > 0 { (depth - 1) as nat } else { 0 }, cur.push(t[0]))
    } else {
        split_from(t.drop_first(), depth, cur.push(t[0]))
    }
}

/// The segments of an argument list; there is always at least one.
pub open spec fn split_args(t: Seq<Seq<char>>) -> Seq<Seq<Seq<char>>> {
    split_from(t, 0, Seq::empty())
}

/// The arguments that segments declare: each `NAME : TYPE...` segment, in
/// order; other segments are skipped.
pub open spec fn parse_args(s: Seq<Seq<Seq<char>>>) -> Seq<(Seq<char>, Seq<Seq<char>>)>
    decreases s.len(),
{
    if s.len() == 0 {
        Seq::empty()
    } else {
        let prev = parse_args(s.drop_last());
        let g = s.last();
        if g.len() >= 2 && g[1] == punct(':') {
            prev.push((g[0], g.skip(2)))
        } else {
            prev
        }
    }
}

/// `w` occurs in `s`.
pub open spec fn contains_text(s: Seq<char>, w: Seq<char>) -> bool {
    exists|i: int| 0 <= i && i + w.len() <= s.len() && #[trigger] s.subrange(i, i + w.len()) == w
}

pub open spec fn word_create() -> Seq<char> {
    seq!['c', 'r', 'e', 'a', 't', 'e']
}

/// `name` is `entity` followed by `_` and a method name.
pub open spec fn prefixed_by(name: Seq<char>, entity: Seq<char>) -> bool {
    entity.push('_').is_prefix_of(name)
}

/// What classification makes of one signature: the entity and the method,
/// with the rewrite fields empty; `None` for an unhandled signature.
pub open spec fn classify(f: FnModel, enums: Seq<Seq<char>>) -> Option<(Seq<char>, FuncModel)> {
    let name = f.0;
    let segs = split_args(f.1);
    let first = segs[0];
    let self_type = first.last();
    if first.len() > 0 && lib_prefix().is_prefix_of(self_type) && prefixed_by(name, self_type) {
        Some((self_type, FuncModel {
            name: name.skip(self_type.len() + 1 as int),
            bt_name: name,
            ret: f.2,
            args: parse_args(segs.drop_first()).map_values(|a: (Seq<char>, Seq<Seq<char>>)| plain_arg(a)),
            new_return: Seq::empty(),
            pre_call: Seq::empty(),
            post_call: Seq::empty(),
            const_self: first.contains(kw_const()),
            is_create: false,
        }))
    } else if f.2 is Some && f.2->0.len() > 0 && contains_text(name, word_create())
        && lib_prefix().is_prefix_of(f.2->0.last()) {
        let ret_base = f.2->0.last();
        let from_args = enums.contains(ret_base);
        let entity = if from_args { f.1.last() } else { ret_base };
        if (from_args ==> segs.len() > 1) && prefixed_by(name, entity) {
            Some((entity, FuncModel {
                name: name.skip(entity.len() + 1 as int),
                bt_name: name,
                ret: f.2,
                args: parse_args(segs).map_values(|a: (Seq<char>, Seq<Seq<char>>)| plain_arg(a)),
                new_return: Seq::empty(),
                pre_call: Seq::empty(),
                post_call: Seq::empty(),
                const_self: false,
                is_create: true,
            }))
        } else {
            None
        }
    } else {
        None
    }
}

/// The method of a classification.
pub open spec fn func_of(p: (Seq<char>, FuncModel)) -> FuncModel {
    p.1
}

/// An argument with its rewrite fields empty.
pub open spec fn plain_arg(a: (Seq<char>, Seq<Seq<char>>)) -> ArgModel {
    ArgModel { name: a.0, raw: a.1, new_type: Seq::empty(), pre: Seq::empty(), post: Seq::empty() }
}

} // verus!

verus! {

/// Views of a sequence of segments.
pub open spec fn seg_views(s: Seq<Vec<Vec<char>>>) -> Seq<Seq<Seq<char>>> {
    Seq::new(s.len(), |i: int| views(s[i]@))
}

/// Splits an argument list at its top-level commas.
pub fn split_arguments(t: &Vec<Vec<char>>) -> (r: Vec<Vec<Vec<char>>>)
    ensures
        seg_views(r@) == split_args(views(t@)),
        r.len() >= 1,
{
    let ghost tv = views(t@);
    let mut out: Vec<Vec<Vec<char>>> = Vec::new();
    let mut cur: Vec<Vec<char>> = Vec::new();
    let mut depth: usize = 0;
    let mut i: usize = 0;
    assert(tv.subrange(0, tv.len() as int) =~= tv);
    assert(seg_views(out@) + split_args(tv) =~= split_args(tv));
    assert(views(cur@) =~= Seq::<Seq<char>>::empty());
    while i < t.len()
        invariant
            tv == views(t@),
            i <= t.len(),
            depth <= i,
            seg_views(out@) + split_from(tv.subrange(i as int, tv.len() as int), depth as nat, views(cur@))
                == split_args(tv),
        decreases t.len() - i,
    {
        let ghost rest = tv.subrange(i as int, tv.len() as int);
        assert(rest.drop_first() =~= tv.subrange(i + 1, tv.len() as int));
        let ghost before = seg_views(out@);
        let ghost cur0 = views(cur@);
        let tok = &t[i];
        let is1 = tok.len() == 1;
        if is1 && tok[0] == ',' && depth == 0 {
            assert(tok@ =~= punct(','));
            out.push(cur);
            assert(seg_views(out@) =~= before + seq![cur0]);
            cur = Vec::new();
            assert(views(cur@) =~= Seq::<Seq<char>>::empty());
        } else {
            if is1 && tok[0] == '(' {
                assert(tok@ =~= punct('('));
                depth = depth + 1;
            } else if is1 && tok[0] == ')' {
                assert(tok@ =~= punct(')'));
                if depth > 0 {
                    depth = depth - 1;
                }
            } else {
                assert(is1 ==> tok@ != punct(',') || depth != 0);
            }
            cur.push(copy_chars(tok));
            assert(views(cur@) =~= cur0.push(tv[i as int]));
        }
        i = i + 1;
    }
    let ghost before = seg_views(out@);
    let ghost cur0 = views(cur@);
    assert(tv.subrange(i as int, tv.len() as int) =~= Seq::<Seq<char>>::empty());
    out.push(cur);
    assert(seg_views(out@) =~= before + seq![cur0]);
    out
}

/// The arguments that segments `0..` of `s` declare, as fresh records.
fn parse_arguments(s: &Vec<Vec<Vec<char>>>, from: usize) -> (r: Vec<ArgInfo>)
    requires
        from <= s.len(),
    ensures
        arg_models(r@) == parse_args(seg_views(s@).skip(from as int)).map_values(
            |a: (Seq<char>, Seq<Seq<char>>)| plain_arg(a),
        ),
{
    let ghost sv = seg_views(s@).skip(from as int);
    let mut r: Vec<ArgInfo> = Vec::new();
    let mut i: usize = from;
    while i < s.len()
        invariant
            from <= i <= s.len(),
            sv == seg_views(s@).skip(from as int),
            arg_models(r@) == parse_args(sv.subrange(0, i - from)).map_values(
                |a: (Seq<char>, Seq<Seq<char>>)| plain_arg(a),
            ),
        decreases s.len() - i,
    {
        assert(sv.subrange(0, i + 1 - from).drop_last() =~= sv.subrange(0, i - from));
        let g = &s[i];
        let ghost gv = sv[i - from];
        assert(gv == views(g@));
        let ghost before = arg_models(r@);
        if g.len() >= 2 && g[1].len() == 1 && g[1][0] == ':' {
            assert(g[1]@ =~= punct(':'));
            let raw = copy_tokens_of(g, 2, g.len());
            assert(views(raw@) =~= gv.skip(2));
            let a = ArgInfo { name: copy_chars(&g[0]), raw, new_type: Vec::new(), pre: Vec::new(), post: Vec::new() };
            r.push(a);
            assert(arg_models(r@) =~= before.push(plain_arg((gv[0], gv.skip(2)))));
            assert(parse_args(sv.subrange(0, i + 1 - from)) == parse_args(sv.subrange(0, i - from)).push((gv[0], gv.skip(2))));
            assert(parse_args(sv.subrange(0, i + 1 - from)).map_values(|a: (Seq<char>, Seq<Seq<char>>)| plain_arg(a))
                =~= parse_args(sv.subrange(0, i - from)).map_values(|a: (Seq<char>, Seq<Seq<char>>)| plain_arg(a)).push(plain_arg((gv[0], gv.skip(2)))));
        } else {
            assert(!(gv.len() >= 2 && gv[1] == punct(':'))) by {
                if gv.len() >= 2 && gv[1] == punct(':') {
                    assert(g[1]@.len() == 1 && g[1]@[0] == ':');
                }
            }
        }
        i = i + 1;
    }
    assert(sv.subrange(0, s.len() - from) =~= sv);
    r
}

/// Whether `create` occurs in `s`.
fn contains_create(s: &Vec<char>) -> (r: bool)
    ensures
        r == contains_text(s@, word_create()),
{
    let w = vec!['c', 'r', 'e', 'a', 't', 'e'];
    if s.len() < 6 {
        assert(!contains_text(s@, word_create())) by {
            if exists|i: int| 0 <= i && i + 6 <= s@.len() && #[trigger] s@.subrange(i, i + 6) == word_create() {
            }
        }
        return false;
    }
    let mut i: usize = 0;
    while i <= s.len() - 6
        invariant
            s.len() >= 6,
            i <= s.len() - 5,
            w@ == word_create(),
            forall|k: int| 0 <= k < i ==> #[trigger] s@.subrange(k, k + 6) != word_create(),
        decreases s.len() - i,
    {
        let mut ok = true;
        let mut j: usize = 0;
        assert(s@.subrange(i as int, i as int) =~= w@.subrange(0, 0));
        while j < 6
            invariant
                i + 6 <= s.len(),
                j <= 6,
                w@ == word_create(),
                ok == (s@.subrange(i as int, i + j) == w@.subrange(0, j as int)),
            decreases 6 - j,
        {
            if s[i + j] != w[j] {
                if ok {
                    assert(s@.subrange(i as int, i + j + 1)[j as int] != w@.subrange(0, j + 1)[j as int]);
                }
                ok = false;
            } else if ok {
                assert(s@.subrange(i as int, i + j + 1) =~= w@.subrange(0, j + 1));
            }
            if !ok {
                assert(s@.subrange(i as int, i + j + 1) != w@.subrange(0, j + 1)) by {
                    if s@.subrange(i as int, i + j + 1) == w@.subrange(0, j + 1) {
                        assert(s@.subrange(i as int, i + j) =~= s@.subrange(i as int, i + j + 1).subrange(0, j as int));
                        assert(w@.subrange(0, j as int) =~= w@.subrange(0, j + 1).subrange(0, j as int));
                    }
                }
            }
            j = j + 1;
        }
        assert(w@.subrange(0, 6) =~= w@);
        if ok {
            return true;
        }
        i = i + 1;
    }
    assert(!contains_text(s@, word_create())) by {
        if exists|k: int| 0 <= k && k + 6 <= s@.len() && #[trigger] s@.subrange(k, k + 6) == word_create() {
            let k = choose|k: int| 0 <= k && k + 6 <= s@.len() && #[trigger] s@.subrange(k, k + 6) == word_create();
            assert(k < i);
        }
    }
    false
}

/// Whether `name` is `entity` followed by `_` and more.
fn is_prefixed_by(name: &Vec<char>, entity: &Vec<char>) -> (r: bool)
    ensures
        r == prefixed_by(name@, entity@),
{
    let mut p = copy_chars(entity);
    p.push('_');
    chars_prefix(&p, name)
}

/// `name` without its first `k` characters.
fn drop_chars(name: &Vec<char>, k: usize) -> (r: Vec<char>)
    requires
        k <= name.len(),
    ensures
        r@ == name@.skip(k as int),
{
    let mut r: Vec<char> = Vec::new();
    let mut i: usize = k;
    while i < name.len()
        invariant
            k <= i <= name.len(),
            r@ == name@.subrange(k as int, i as int),
        decreases name.len() - i,
    {
        r.push(name[i]);
        i = i + 1;
        assert(r@ =~= name@.subrange(k as int, i as int));
    }
    assert(r@ =~= name@.skip(k as int));
    r
}

/// Whether a token sequence holds the token `const`.
pub fn has_const(t: &Vec<Vec<char>>) -> (r: bool)
    ensures
        r == views(t@).contains(kw_const()),
{
    let w = vec!['c', 'o', 'n', 's', 't'];
    let mut i: usize = 0;
    while i < t.len()
        invariant
            i <= t.len(),
            w@ == kw_const(),
            forall|k: int| 0 <= k < i ==> views(t@)[k] != kw_const(),
        decreases t.len() - i,
    {
        if chars_eq(&t[i], &w) {
            assert(views(t@)[i as int] == kw_const());
            return true;
        }
        i = i + 1;
    }
    false
}

/// Whether `n` is one of `names`.
pub fn is_one_of(names: &Vec<Vec<char>>, n: &Vec<char>) -> (r: bool)
    ensures
        r == views(names@).contains(n@),
{
    let mut i: usize = 0;
    while i < names.len()
        invariant
            i <= names.len(),
            forall|k: int| 0 <= k < i ==> views(names@)[k] != n@,
        decreases names.len() - i,
    {
        if chars_eq(&names[i], n) {
            assert(views(names@)[i as int] == n@);
            return true;
        }
        i = i + 1;
    }
    false
}

} // verus!

verus! {

fn copy_ret(r: &Option<Vec<Vec<char>>>) -> (c: Option<Vec<Vec<char>>>)
    ensures
        match c {
            Some(v) => r is Some && views(v@) == views(r->0@),
            None => r is None,
        },
{
    match r {
        Some(v) => Some(copy_tokens_of(v, 0, v.len())),
        None => None,
    }
}

/// Classifies one signature against the names of the known enumerations:
/// the entity it belongs to and the method it becomes, or `None` for an
/// unhandled signature.
pub fn classify_fn(f: &FnDecl, enums: &Vec<Vec<char>>) -> (r: Option<(Vec<char>, FuncInfo)>)
    ensures
        match r {
            Some(p) => classify(f@, views(enums@)) == Some((p.0@, p.1@)),
            None => classify(f@, views(enums@)) is None,
        },
{
    let ghost fv = f@;
    let segs = split_arguments(&f.args);
    let ghost sv = seg_views(segs@);
    assert(sv[0] == views(segs[0]@));
    let bt = vec!['b', 't'];
    let first = &segs[0];
    if first.len() > 0 {
        let st = &first[first.len() - 1];
        assert(views(first@).last() == st@);
        if chars_prefix(&bt, st) && is_prefixed_by(&f.name, st) {
            assert(st@.push('_').len() == st@.len() + 1);
            assert(st@.push('_').is_prefix_of(f.name@));
            assert(st.len() < f.name.len());
            let args = parse_arguments(&segs, 1);
            assert(sv.skip(1) =~= sv.drop_first());
            let fi = FuncInfo {
                name: drop_chars(&f.name, st.len() + 1),
                bt_name: copy_chars(&f.name),
                ret: copy_ret(&f.ret),
                args,
                new_return: Vec::new(),
                pre_call: Vec::new(),
                post_call: Vec::new(),
                const_self: has_const(first),
                is_create: false,
            };
            let entity = copy_chars(st);
            assert(fi@ == func_of(classify(fv, views(enums@))->0));
            return Some((entity, fi));
        }
    }
    let ret = match &f.ret {
        Some(r) => r,
        None => {
            return None;
        },
    };
    assert(fv.2 == Some(views(ret@)));
    if ret.len() == 0 || !contains_create(&f.name) {
        return None;
    }
    let ret_base = &ret[ret.len() - 1];
    assert(views(ret@).last() == ret_base@);
    if !chars_prefix(&bt, ret_base) {
        return None;
    }
    let from_args = is_one_of(enums, ret_base);
    if from_args && segs.len() <= 1 {
        return None;
    }
    let entity = if from_args {
        assert(f.args.len() > 0) by {
            if f.args.len() == 0 {
                assert(views(f.args@) =~= Seq::<Seq<char>>::empty());
                assert(split_args(views(f.args@)) == seq![Seq::<Seq<char>>::empty()]);
            }
        }
        copy_chars(&f.args[f.args.len() - 1])
    } else {
        copy_chars(ret_base)
    };
    assert(from_args ==> entity@ == fv.1.last());
    if !is_prefixed_by(&f.name, &entity) {
        return None;
    }
    assert(entity@.push('_').len() == entity@.len() + 1);
    assert(entity@.push('_').is_prefix_of(f.name@));
    assert(entity.len() < f.name.len());
    let args = parse_arguments(&segs, 0);
    assert(sv.skip(0) =~= sv);
    let fi = FuncInfo {
        name: drop_chars(&f.name, entity.len() + 1),
        bt_name: copy_chars(&f.name),
        ret: copy_ret(&f.ret),
        args,
        new_return: Vec::new(),
        pre_call: Vec::new(),
        post_call: Vec::new(),
        const_self: false,
        is_create: true,
    };
    assert(fi@ == func_of(classify(fv, views(enums@))->0));
    Some((entity, fi))
}

} // verus!
