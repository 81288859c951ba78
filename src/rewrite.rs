//! The type rewrite engine: raw argument and return types become wrapper
//! types with the glue around the raw call. It reads a frozen snapshot of the
//! registries and builds a new entity registry.
use vstd::prelude::*;
use crate::lexer::views;
use crate::naming::camel;
use crate::decls::{punct, kw_const};
use crate::naming::camel_chars;
use crate::text::chars_of;
use crate::decls::{copy_chars, chars_eq, copy_tokens_of};
use crate::enums::{Primitive, EnumModel, EnumInfo, primitive_name, primitive_text, enum_models};
use crate::classify::{ArgModel, FuncModel, ArgInfo, FuncInfo, has_const, arg_models};
use crate::entities::{TypeModel, TypeInfo, type_models, func_models};

verus! {

/// The tokens of a C character pointer: `*` followed by `const` or `mut` and
/// the raw `c_char` path.
pub open spec fn c_char_path() -> Seq<char> {
    "::std::os::raw::c_char"@
}

/// The raw type is a pointer to C characters, with the given qualifier.
pub open spec fn is_char_ptr(t: Seq<Seq<char>>, qual: Seq<char>) -> bool {
    t == seq![punct('*'), qual, c_char_path()]
}

/// The raw type is the library's boolean integer.
pub open spec fn is_bt_bool(t: Seq<Seq<char>>) -> bool {
    t == seq!["bt_bool"@]
}

/// The number of `*` tokens: the levels of pointer indirection.
pub open spec fn stars(t: Seq<Seq<char>>) -> nat
    decreases t.len(),
{
    if t.len() == 0 {
        0
    } else {
        stars(t.drop_last()) + if t.last() == punct('*') { 1nat } else { 0nat }
    }
}

/// The text of a type: tokens separated by a space, but for none after `*`
/// and `&`.
pub open spec fn render(t: Seq<Seq<char>>) -> Seq<char>
    decreases t.len(),
{
    if t.len() == 0 {
        Seq::empty()
    } else if t.len() == 1 {
        t[0]
    } else {
        let prev = t.drop_last();
        render(prev) + (if prev.last() == punct('*') || prev.last() == punct('&') { Seq::empty() } else { seq![' '] })
            + t.last()
    }
}

/// The enumeration named `n` in the snapshot, if any (the first one).
pub open spec fn find_enum(e: Seq<EnumModel>, n: Seq<char>) -> Option<EnumModel>
    decreases e.len(),
{
    if e.len() == 0 {
        None
    } else if e[0].0 == n {
        Some(e[0])
    } else {
        find_enum(e.drop_first(), n)
    }
}

/// The alias name of an enumeration.
pub open spec fn enum_name_of(m: EnumModel) -> Seq<char> {
    m.0
}

/// The backing primitive of an enumeration.
pub open spec fn enum_kind_of(m: EnumModel) -> Primitive {
    m.1
}

/// `n` is the raw name of an entity of the snapshot.
pub open spec fn is_entity(ts: Seq<TypeModel>, n: Seq<char>) -> bool {
    exists|i: int| 0 <= i < ts.len() && #[trigger] ts[i].bt_name == n
}

/// The wrapper name of entity `n`, with `Const` for the borrowed shape.
pub open spec fn handle_name(n: Seq<char>, is_const: bool) -> Seq<char> {
    if is_const { camel(n) + "Const"@ } else { camel(n) }
}

/// The rewritten return type and its glue, for a raw return type.
pub open spec fn rewrite_return(r: Option<Seq<Seq<char>>>, ts: Seq<TypeModel>, e: Seq<EnumModel>) -> (Seq<char>, Seq<char>, Seq<char>) {
    match r {
        None => (Seq::empty(), Seq::empty(), Seq::empty()),
        Some(t) => {
            let base = t.last();
            if is_char_ptr(t, "const"@) || is_char_ptr(t, "mut"@) {
                ("&CStr"@, "CStr::from_ptr("@, ")"@)
            } else if is_bt_bool(t) {
                ("bool"@, "("@, " as u32) != BT_FALSE"@)
            } else if t.len() > 0 && stars(t) == 0 && find_enum(e, base) is Some {
                let en = find_enum(e, base)->0;
                (camel(en.0), "num::FromPrimitive::from_"@ + primitive_name(en.1) + "("@, ").unwrap()"@)
            } else if t.len() > 0 && stars(t) == 1 && is_entity(ts, base) {
                let h = handle_name(base, t.contains(kw_const()));
                (h, h + "{ ptr:"@, "}"@)
            } else {
                (render(t), Seq::empty(), Seq::empty())
            }
        },
    }
}

/// The rewritten type of an argument and its glue, for its raw type.
pub open spec fn rewrite_arg_type(t: Seq<Seq<char>>, ts: Seq<TypeModel>, e: Seq<EnumModel>) -> (Seq<char>, Seq<char>, Seq<char>) {
    let base = t.last();
    if is_char_ptr(t, "const"@) {
        ("&str"@, Seq::empty(), ".as_ptr()"@)
    } else if is_bt_bool(t) {
        ("bool"@, "if "@, " { BT_TRUE as bt_bool } else { BT_FALSE as bt_bool }"@)
    } else if t.len() > 0 && stars(t) == 0 && find_enum(e, base) is Some {
        let en = find_enum(e, base)->0;
        (camel(en.0), "num::ToPrimitive::to_"@ + primitive_name(en.1) + "(&"@, ").unwrap()"@)
    } else if t.len() > 0 && stars(t) == 1 && is_entity(ts, base) {
        ("&"@ + handle_name(base, t.contains(kw_const())), Seq::empty(), ".ptr"@)
    } else {
        (render(t), Seq::empty(), Seq::empty())
    }
}

/// An argument after the rewrite.
pub open spec fn rewritten_arg(a: ArgModel, ts: Seq<TypeModel>, e: Seq<EnumModel>) -> ArgModel {
    let r = rewrite_arg_type(a.raw, ts, e);
    ArgModel { name: a.name, raw: a.raw, new_type: r.0, pre: r.1, post: r.2 }
}

/// A method after the rewrite.
pub open spec fn rewritten_func(f: FuncModel, ts: Seq<TypeModel>, e: Seq<EnumModel>) -> FuncModel {
    let r = rewrite_return(f.ret, ts, e);
    FuncModel {
        args: f.args.map_values(|a: ArgModel| rewritten_arg(a, ts, e)),
        new_return: r.0,
        pre_call: r.1,
        post_call: r.2,
        ..f
    }
}

/// The entity registry after the rewrite, against the snapshot `ts`.
pub open spec fn rewritten_entities(ts: Seq<TypeModel>, e: Seq<EnumModel>) -> Seq<TypeModel> {
    ts.map_values(
        |t: TypeModel| TypeModel { functions: t.functions.map_values(|f: FuncModel| rewritten_func(f, ts, e)), ..t },
    )
}

} // verus!

verus! {

/// `a` followed by `b`.
pub fn concat(a: Vec<char>, b: Vec<char>) -> (r: Vec<char>)
    ensures
        r@ == a@ + b@,
{
    let mut a = a;
    let mut b = b;
    a.append(&mut b);
    a
}

/// The characters of a literal.
pub fn lit(s: &str) -> (r: Vec<char>)
    ensures
        r@ == s@,
{
    chars_of(s)
}

fn is_one_char(t: &Vec<char>, c: char) -> (r: bool)
    ensures
        r == (t@ == punct(c)),
{
    let r = t.len() == 1 && t[0] == c;
    if r {
        assert(t@ =~= punct(c));
    }
    r
}

/// The levels of pointer indirection of a type.
pub fn count_stars(t: &Vec<Vec<char>>) -> (r: usize)
    ensures
        r == stars(views(t@)),
{
    let ghost tv = views(t@);
    let mut n: usize = 0;
    let mut i: usize = 0;
    while i < t.len()
        invariant
            i <= t.len(),
            tv == views(t@),
            n == stars(tv.subrange(0, i as int)),
            n <= i,
        decreases t.len() - i,
    {
        assert(tv.subrange(0, i + 1).drop_last() =~= tv.subrange(0, i as int));
        if is_one_char(&t[i], '*') {
            n = n + 1;
        }
        i = i + 1;
    }
    assert(tv.subrange(0, t.len() as int) =~= tv);
    n
}

/// The text of a type.
pub fn render_type(t: &Vec<Vec<char>>) -> (r: Vec<char>)
    ensures
        r@ == render(views(t@)),
{
    let ghost tv = views(t@);
    if t.len() == 0 {
        return Vec::new();
    }
    let mut r = copy_chars(&t[0]);
    let mut i: usize = 1;
    assert(tv.subrange(0, 1) =~= seq![tv[0]]);
    while i < t.len()
        invariant
            1 <= i <= t.len(),
            tv == views(t@),
            r@ == render(tv.subrange(0, i as int)),
        decreases t.len() - i,
    {
        let ghost sub = tv.subrange(0, i + 1);
        assert(sub.drop_last() =~= tv.subrange(0, i as int));
        let prev = &t[i - 1];
        if !(is_one_char(prev, '*') || is_one_char(prev, '&')) {
            r.push(' ');
        }
        let r2 = concat(r, copy_chars(&t[i]));
        r = r2;
        i = i + 1;
        assert(r@ =~= render(tv.subrange(0, i as int)));
    }
    assert(tv.subrange(0, t.len() as int) =~= tv);
    r
}

/// The enumeration named `n`: its wrapper name and its primitive.
fn find_enum_exec(e: &Vec<EnumInfo>, n: &Vec<char>) -> (r: Option<(Vec<char>, Primitive)>)
    ensures
        match r {
            Some(p) => find_enum(enum_models(e@), n@) is Some && p.0@ == camel(enum_name_of(find_enum(enum_models(e@), n@)->0))
                && p.1 == enum_kind_of(find_enum(enum_models(e@), n@)->0),
            None => find_enum(enum_models(e@), n@) is None,
        },
{
    let ghost ev = enum_models(e@);
    let mut i: usize = 0;
    assert(ev.skip(0) =~= ev);
    while i < e.len()
        invariant
            i <= e.len(),
            ev == enum_models(e@),
            find_enum(ev.skip(i as int), n@) == find_enum(ev, n@),
        decreases e.len() - i,
    {
        assert(ev.skip(i as int).drop_first() =~= ev.skip(i + 1));
        if chars_eq(&e[i].name, n) {
            return Some((camel_chars(&e[i].name), e[i].kind));
        }
        i = i + 1;
    }
    assert(ev.skip(e.len() as int) =~= Seq::<EnumModel>::empty());
    None
}

} // verus!

verus! {

/// Whether `n` is the raw name of an entity of the snapshot.
fn is_entity_exec(ts: &Vec<TypeInfo>, n: &Vec<char>) -> (r: bool)
    ensures
        r == is_entity(type_models(ts@), n@),
{
    let ghost tv = type_models(ts@);
    let mut i: usize = 0;
    while i < ts.len()
        invariant
            i <= ts.len(),
            tv == type_models(ts@),
            forall|k: int| 0 <= k < i ==> tv[k].bt_name != n@,
        decreases ts.len() - i,
    {
        if chars_eq(&ts[i].bt_name, n) {
            assert(tv[i as int].bt_name == n@);
            return true;
        }
        i = i + 1;
    }
    false
}

/// Whether a type is a pointer to C characters with qualifier `qual`.
fn is_char_ptr_exec(t: &Vec<Vec<char>>, qual: &str) -> (r: bool)
    ensures
        r == is_char_ptr(views(t@), qual@),
{
    if t.len() != 3 {
        return false;
    }
    let r = is_one_char(&t[0], '*') && chars_eq(&t[1], &lit(qual)) && chars_eq(&t[2], &lit("::std::os::raw::c_char"));
    if r {
        assert(views(t@) =~= seq![punct('*'), qual@, c_char_path()]);
    }
    r
}

/// Whether a type is the library's boolean integer.
fn is_bt_bool_exec(t: &Vec<Vec<char>>) -> (r: bool)
    ensures
        r == is_bt_bool(views(t@)),
{
    if t.len() != 1 {
        assert(views(t@).len() != seq!["bt_bool"@].len());
        return false;
    }
    let r = chars_eq(&t[0], &lit("bt_bool"));
    assert(views(t@)[0] == t[0]@);
    assert(seq!["bt_bool"@][0] == "bt_bool"@);
    if r {
        assert(views(t@) =~= seq!["bt_bool"@]);
    }
    r
}

/// The wrapper name of entity `n`, with `Const` for the borrowed shape.
fn handle_text(n: &Vec<char>, is_const: bool) -> (r: Vec<char>)
    ensures
        r@ == handle_name(n@, is_const),
{
    let c = camel_chars(n);
    if is_const {
        concat(c, lit("Const"))
    } else {
        c
    }
}

/// Rewrites a return type: the new type, and the glue before and after the call.
pub fn rewrite_return_exec(r: &Option<Vec<Vec<char>>>, ts: &Vec<TypeInfo>, e: &Vec<EnumInfo>) -> (out: (Vec<char>, Vec<char>, Vec<char>))
    ensures
        (out.0@, out.1@, out.2@) == rewrite_return(
            match r {
                Some(v) => Some(views(v@)),
                None => None,
            },
            type_models(ts@),
            enum_models(e@),
        ),
{
    let t = match r {
        None => {
            return (Vec::new(), Vec::new(), Vec::new());
        },
        Some(t) => t,
    };
    let ghost tv = views(t@);
    if is_char_ptr_exec(t, "const") || is_char_ptr_exec(t, "mut") {
        return (lit("&CStr"), lit("CStr::from_ptr("), lit(")"));
    }
    if is_bt_bool_exec(t) {
        return (lit("bool"), lit("("), lit(" as u32) != BT_FALSE"));
    }
    if t.len() == 0 {
        return (render_type(t), Vec::new(), Vec::new());
    }
    let base = &t[t.len() - 1];
    assert(tv.last() == base@);
    let n = count_stars(t);
    if n == 0 {
        match find_enum_exec(e, base) {
            Some((wrapper, kind)) => {
                let pre = concat(concat(lit("num::FromPrimitive::from_"), primitive_text(kind)), lit("("));
                return (wrapper, pre, lit(").unwrap()"));
            },
            None => {},
        }
    }
    if n == 1 && is_entity_exec(ts, base) {
        let h = handle_text(base, has_const(t));
        let pre = concat(copy_chars(&h), lit("{ ptr:"));
        return (h, pre, lit("}"));
    }
    (render_type(t), Vec::new(), Vec::new())
}

/// Rewrites the type of an argument: the new type, and the glue before and
/// after the argument at the call.
pub fn rewrite_arg_exec(t: &Vec<Vec<char>>, ts: &Vec<TypeInfo>, e: &Vec<EnumInfo>) -> (out: (Vec<char>, Vec<char>, Vec<char>))
    ensures
        (out.0@, out.1@, out.2@) == rewrite_arg_type(views(t@), type_models(ts@), enum_models(e@)),
{
    let ghost tv = views(t@);
    if is_char_ptr_exec(t, "const") {
        return (lit("&str"), Vec::new(), lit(".as_ptr()"));
    }
    if is_bt_bool_exec(t) {
        return (lit("bool"), lit("if "), lit(" { BT_TRUE as bt_bool } else { BT_FALSE as bt_bool }"));
    }
    if t.len() == 0 {
        return (render_type(t), Vec::new(), Vec::new());
    }
    let base = &t[t.len() - 1];
    assert(tv.last() == base@);
    let n = count_stars(t);
    if n == 0 {
        match find_enum_exec(e, base) {
            Some((wrapper, kind)) => {
                let pre = concat(concat(lit("num::ToPrimitive::to_"), primitive_text(kind)), lit("(&"));
                return (wrapper, pre, lit(").unwrap()"));
            },
            None => {},
        }
    }
    if n == 1 && is_entity_exec(ts, base) {
        let h = handle_text(base, has_const(t));
        return (concat(lit("&"), h), Vec::new(), lit(".ptr"));
    }
    (render_type(t), Vec::new(), Vec::new())
}

} // verus!

verus! {

/// Rewrites one method against the snapshot.
fn rewrite_func(f: &FuncInfo, ts: &Vec<TypeInfo>, e: &Vec<EnumInfo>) -> (r: FuncInfo)
    ensures
        r@ == rewritten_func(f@, type_models(ts@), enum_models(e@)),
{
    let ghost tsv = type_models(ts@);
    let ghost ev = enum_models(e@);
    let mut args: Vec<ArgInfo> = Vec::new();
    let mut i: usize = 0;
    while i < f.args.len()
        invariant
            i <= f.args.len(),
            tsv == type_models(ts@),
            ev == enum_models(e@),
            arg_models(args@) == f@.args.map_values(|a: ArgModel| rewritten_arg(a, tsv, ev)).subrange(0, i as int),
        decreases f.args.len() - i,
    {
        let a = &f.args[i];
        let (new_type, pre, post) = rewrite_arg_exec(&a.raw, ts, e);
        let ghost before = arg_models(args@);
        args.push(ArgInfo {
            name: copy_chars(&a.name),
            raw: copy_tokens_of(&a.raw, 0, a.raw.len()),
            new_type,
            pre,
            post,
        });
        assert(views(a.raw@).subrange(0, a.raw.len() as int) =~= views(a.raw@));
        assert(f@.args[i as int] == a@);
        assert(arg_models(args@) =~= before.push(rewritten_arg(a@, tsv, ev)));
        i = i + 1;
        assert(arg_models(args@) =~= f@.args.map_values(|a: ArgModel| rewritten_arg(a, tsv, ev)).subrange(0, i as int));
    }
    assert(f@.args.map_values(|a: ArgModel| rewritten_arg(a, tsv, ev)).subrange(0, f.args.len() as int)
        =~= f@.args.map_values(|a: ArgModel| rewritten_arg(a, tsv, ev)));
    let (new_return, pre_call, post_call) = rewrite_return_exec(&f.ret, ts, e);
    let ret = match &f.ret {
        Some(r) => Some(copy_tokens_of(r, 0, r.len())),
        None => None,
    };
    assert(views(f.ret->0@).subrange(0, views(f.ret->0@).len() as int) =~= views(f.ret->0@));
    let r = FuncInfo {
        name: copy_chars(&f.name),
        bt_name: copy_chars(&f.bt_name),
        ret,
        args,
        new_return,
        pre_call,
        post_call,
        const_self: f.const_self,
        is_create: f.is_create,
    };
    assert(r@ =~= rewritten_func(f@, tsv, ev));
    r
}

/// Rewrites every method of the registry, reading the registry as it was
/// before the rewrite: the result does not depend on the order of the walk.
pub fn rewrite_entities(ts: &Vec<TypeInfo>, e: &Vec<EnumInfo>) -> (r: Vec<TypeInfo>)
    ensures
        type_models(r@) == rewritten_entities(type_models(ts@), enum_models(e@)),
{
    let ghost tsv = type_models(ts@);
    let ghost ev = enum_models(e@);
    let mut r: Vec<TypeInfo> = Vec::new();
    let mut i: usize = 0;
    while i < ts.len()
        invariant
            i <= ts.len(),
            tsv == type_models(ts@),
            ev == enum_models(e@),
            type_models(r@) == rewritten_entities(tsv, ev).subrange(0, i as int),
        decreases ts.len() - i,
    {
        let t = &ts[i];
        let mut fs: Vec<FuncInfo> = Vec::new();
        let mut k: usize = 0;
        while k < t.functions.len()
            invariant
                k <= t.functions.len(),
                tsv == type_models(ts@),
                ev == enum_models(e@),
                t == &ts[i as int],
                func_models(fs@) == t@.functions.map_values(|f: FuncModel| rewritten_func(f, tsv, ev)).subrange(0, k as int),
            decreases t.functions.len() - k,
        {
            let ghost before = func_models(fs@);
            let f = rewrite_func(&t.functions[k], ts, e);
            fs.push(f);
            assert(t@.functions[k as int] == t.functions[k as int]@);
            assert(func_models(fs@) =~= before.push(rewritten_func(t.functions[k as int]@, tsv, ev)));
            k = k + 1;
            assert(func_models(fs@) =~= t@.functions.map_values(|f: FuncModel| rewritten_func(f, tsv, ev)).subrange(0, k as int));
        }
        assert(t@.functions.map_values(|f: FuncModel| rewritten_func(f, tsv, ev)).subrange(0, t.functions.len() as int)
            =~= t@.functions.map_values(|f: FuncModel| rewritten_func(f, tsv, ev)));
        let nt = TypeInfo { name: copy_chars(&t.name), bt_name: copy_chars(&t.bt_name), functions: fs };
        let ghost before = type_models(r@);
        r.push(nt);
        assert(tsv[i as int] == t@);
        assert(type_models(r@) =~= before.push(rewritten_entities(tsv, ev)[i as int]));
        i = i + 1;
        assert(type_models(r@) =~= rewritten_entities(tsv, ev).subrange(0, i as int));
    }
    assert(rewritten_entities(tsv, ev).subrange(0, ts.len() as int) =~= rewritten_entities(tsv, ev));
    r
}

/// A return type with two or more levels of pointer indirection is left as
/// it is, whatever it points to.
pub proof fn lemma_deep_pointer_return_unchanged(t: Seq<Seq<char>>, ts: Seq<TypeModel>, e: Seq<EnumModel>)
    requires
        stars(t) >= 2,
    ensures
        rewrite_return(Some(t), ts, e) == (render(t), Seq::<char>::empty(), Seq::<char>::empty()),
{
    lemma_few_stars(t);
}

/// An argument type with two or more levels of pointer indirection is left
/// as it is, whatever it points to.
pub proof fn lemma_deep_pointer_arg_unchanged(t: Seq<Seq<char>>, ts: Seq<TypeModel>, e: Seq<EnumModel>)
    requires
        stars(t) >= 2,
    ensures
        rewrite_arg_type(t, ts, e) == (render(t), Seq::<char>::empty(), Seq::<char>::empty()),
{
    lemma_few_stars(t);
}

/// The character pointers and the boolean have fewer than two `*`.
proof fn lemma_few_stars(t: Seq<Seq<char>>)
    ensures
        is_char_ptr(t, "const"@) ==> stars(t) == 1,
        is_char_ptr(t, "mut"@) ==> stars(t) == 1,
        is_bt_bool(t) ==> stars(t) == 0,
{
    reveal_with_fuel(stars, 4);
    if is_char_ptr(t, "const"@) || is_char_ptr(t, "mut"@) {
        assert(t.drop_last().drop_last().drop_last() =~= Seq::<Seq<char>>::empty());
        assert(t.drop_last().drop_last().last() == punct('*'));
        assert("const"@ != punct('*')) by {
            reveal_strlit("const");
            assert("const"@.len() == 5);
        }
        assert("mut"@ != punct('*')) by {
            reveal_strlit("mut");
            assert("mut"@.len() == 3);
        }
        assert(c_char_path() != punct('*')) by {
            reveal_strlit("::std::os::raw::c_char");
            assert("::std::os::raw::c_char"@.len() == 22);
        }
    }
    if is_bt_bool(t) {
        assert(t.drop_last() =~= Seq::<Seq<char>>::empty());
        assert("bt_bool"@ != punct('*')) by {
            reveal_strlit("bt_bool");
            assert("bt_bool"@.len() == 7);
            assert(punct('*').len() == 1);
        }
    }
}

} // verus!
