//! The entity registry: the structures of the library, and the entities that
//! classified functions name, each with its methods.
use vstd::prelude::*;
use crate::lexer::views;
use crate::naming::{camel, camel_chars};
use crate::order::{sort_names, sorted_names};
use crate::decls::{copy_chars, copy_tokens_of, chars_eq, FnDecl, FnModel, fn_models};
use crate::classify::{classify, classify_fn, is_one_of, ArgInfo, FuncInfo, FuncModel, arg_models};

verus! {

/// An entity: its wrapper name, its raw name and its methods in corpus order.
pub struct TypeInfo {
    pub name: Vec<char>,
    pub bt_name: Vec<char>,
    pub functions: Vec<FuncInfo>,
}

/// Model of an entity.
pub struct TypeModel {
    pub name: Seq<char>,
    pub bt_name: Seq<char>,
    pub functions: Seq<FuncModel>,
}

/// Models of a sequence of methods.
pub open spec fn func_models(f: Seq<FuncInfo>) -> Seq<FuncModel> {
    f.map_values(|x: FuncInfo| x@)
}

impl View for TypeInfo {
    type V = TypeModel;

    open spec fn view(&self) -> TypeModel {
        TypeModel { name: self.name@, bt_name: self.bt_name@, functions: func_models(self.functions@) }
    }
}

/// Models of a sequence of entities.
pub open spec fn type_models(t: Seq<TypeInfo>) -> Seq<TypeModel> {
    t.map_values(|x: TypeInfo| x@)
}

/// A classification result.
pub type Classified = Option<(Seq<char>, FuncModel)>;

/// The classification of every signature, in corpus order.
pub open spec fn classified(fns: Seq<FnModel>, enums: Seq<Seq<char>>) -> Seq<Classified> {
    fns.map_values(|f: FnModel| classify(f, enums))
}

/// The entity of a classified function.
pub open spec fn owner_of(c: Classified) -> Seq<char> {
    match c {
        Some(p) => p.0,
        None => Seq::empty(),
    }
}

/// The method of a classified function.
pub open spec fn method_of(c: Classified) -> FuncModel {
    match c {
        Some(p) => p.1,
        None => arbitrary(),
    }
}

/// The owning entity of each classified function, in corpus order.
pub open spec fn owners(c: Seq<Classified>) -> Seq<Seq<char>>
    decreases c.len(),
{
    if c.len() == 0 {
        Seq::empty()
    } else if c.last() is Some {
        owners(c.drop_last()).push(owner_of(c.last()))
    } else {
        owners(c.drop_last())
    }
}

/// The methods that the classified functions give to entity `n`, in order.
pub open spec fn methods_of(c: Seq<Classified>, n: Seq<char>) -> Seq<FuncModel>
    decreases c.len(),
{
    if c.len() == 0 {
        Seq::empty()
    } else if c.last() is Some && owner_of(c.last()) == n {
        methods_of(c.drop_last(), n).push(method_of(c.last()))
    } else {
        methods_of(c.drop_last(), n)
    }
}

/// The names of `s` without repetitions, each where it first occurs.
pub open spec fn dedup(s: Seq<Seq<char>>) -> Seq<Seq<char>>
    decreases s.len(),
{
    if s.len() == 0 {
        Seq::empty()
    } else if dedup(s.drop_last()).contains(s.last()) {
        dedup(s.drop_last())
    } else {
        dedup(s.drop_last()).push(s.last())
    }
}

/// The entity registry: the structures and the entities that classified
/// functions name, each once and with its methods, in alphabetical order.
pub open spec fn entities(structs: Seq<Seq<char>>, c: Seq<Classified>) -> Seq<TypeModel> {
    sort_names(dedup(structs + owners(c))).map_values(
        |n: Seq<char>| TypeModel { name: camel(n), bt_name: n, functions: methods_of(c, n) },
    )
}

} // verus!

verus! {

/// Model of an exec classification result.
pub open spec fn cls_view(o: Option<(Vec<char>, FuncInfo)>) -> Classified {
    match o {
        Some(p) => Some((p.0@, p.1@)),
        None => None,
    }
}

/// Models of a sequence of exec classification results.
pub open spec fn cls_views(c: Seq<Option<(Vec<char>, FuncInfo)>>) -> Seq<Classified> {
    c.map_values(|o: Option<(Vec<char>, FuncInfo)>| cls_view(o))
}

/// Classifies every signature.
pub fn classify_all(fns: &Vec<FnDecl>, enums: &Vec<Vec<char>>) -> (r: Vec<Option<(Vec<char>, FuncInfo)>>)
    ensures
        cls_views(r@) == classified(fn_models(fns@), views(enums@)),
{
    let ghost fv = fn_models(fns@);
    let mut r: Vec<Option<(Vec<char>, FuncInfo)>> = Vec::new();
    let mut i: usize = 0;
    while i < fns.len()
        invariant
            i <= fns.len(),
            fv == fn_models(fns@),
            cls_views(r@) == classified(fv.subrange(0, i as int), views(enums@)),
        decreases fns.len() - i,
    {
        let ghost before = cls_views(r@);
        let c = classify_fn(&fns[i], enums);
        r.push(c);
        assert(cls_views(r@) =~= before.push(classify(fv[i as int], views(enums@))));
        i = i + 1;
        assert(classified(fv.subrange(0, i as int), views(enums@)) =~= classified(fv.subrange(0, i - 1), views(enums@)).push(
            classify(fv[i - 1], views(enums@)),
        ));
    }
    assert(fv.subrange(0, fns.len() as int) =~= fv);
    r
}

/// A copy of an argument.
pub fn copy_arg(a: &ArgInfo) -> (r: ArgInfo)
    ensures
        r@ == a@,
{
    let raw = copy_tokens_of(&a.raw, 0, a.raw.len());
    assert(views(a.raw@).subrange(0, a.raw.len() as int) =~= views(a.raw@));
    ArgInfo {
        name: copy_chars(&a.name),
        raw,
        new_type: copy_chars(&a.new_type),
        pre: copy_chars(&a.pre),
        post: copy_chars(&a.post),
    }
}

/// A copy of a method.
pub fn copy_func(f: &FuncInfo) -> (r: FuncInfo)
    ensures
        r@ == f@,
{
    let mut args: Vec<ArgInfo> = Vec::new();
    let mut i: usize = 0;
    while i < f.args.len()
        invariant
            i <= f.args.len(),
            arg_models(args@) == arg_models(f.args@).subrange(0, i as int),
        decreases f.args.len() - i,
    {
        let ghost before = arg_models(args@);
        let a = copy_arg(&f.args[i]);
        args.push(a);
        assert(arg_models(args@) =~= before.push(f.args[i as int]@));
        i = i + 1;
        assert(arg_models(args@) =~= arg_models(f.args@).subrange(0, i as int));
    }
    assert(arg_models(f.args@).subrange(0, f.args.len() as int) =~= arg_models(f.args@));
    let ret = match &f.ret {
        Some(r) => Some(copy_tokens_of(r, 0, r.len())),
        None => None,
    };
    let r = FuncInfo {
        name: copy_chars(&f.name),
        bt_name: copy_chars(&f.bt_name),
        ret,
        args,
        new_return: copy_chars(&f.new_return),
        pre_call: copy_chars(&f.pre_call),
        post_call: copy_chars(&f.post_call),
        const_self: f.const_self,
        is_create: f.is_create,
    };
    assert(views(f.ret->0@).subrange(0, views(f.ret->0@).len() as int) =~= views(f.ret->0@));
    r
}

/// The number of classified functions.
pub fn count_classified(c: &Vec<Option<(Vec<char>, FuncInfo)>>) -> (r: usize)
    ensures
        r == owners(cls_views(c@)).len(),
        r <= c.len(),
{
    let ghost cv = cls_views(c@);
    let mut n: usize = 0;
    let mut i: usize = 0;
    while i < c.len()
        invariant
            i <= c.len(),
            cv == cls_views(c@),
            n == owners(cv.subrange(0, i as int)).len(),
            n <= i,
        decreases c.len() - i,
    {
        assert(cv.subrange(0, i + 1).drop_last() =~= cv.subrange(0, i as int));
        if c[i].is_some() {
            n = n + 1;
        }
        i = i + 1;
    }
    assert(cv.subrange(0, c.len() as int) =~= cv);
    n
}

/// The methods that the classification gives to entity `n`.
fn collect_methods(c: &Vec<Option<(Vec<char>, FuncInfo)>>, n: &Vec<char>) -> (r: Vec<FuncInfo>)
    ensures
        func_models(r@) == methods_of(cls_views(c@), n@),
{
    let ghost cv = cls_views(c@);
    let mut r: Vec<FuncInfo> = Vec::new();
    let mut i: usize = 0;
    while i < c.len()
        invariant
            i <= c.len(),
            cv == cls_views(c@),
            func_models(r@) == methods_of(cv.subrange(0, i as int), n@),
        decreases c.len() - i,
    {
        assert(cv.subrange(0, i + 1).drop_last() =~= cv.subrange(0, i as int));
        let ghost before = func_models(r@);
        match &c[i] {
            Some(p) => {
                if chars_eq(&p.0, n) {
                    r.push(copy_func(&p.1));
                    assert(func_models(r@) =~= before.push(p.1@));
                }
            },
            None => {},
        }
        i = i + 1;
    }
    assert(cv.subrange(0, c.len() as int) =~= cv);
    r
}

/// The names of the entities: the structures, then the owners that are no
/// structure, each once.
fn entity_names(structs: &Vec<Vec<char>>, c: &Vec<Option<(Vec<char>, FuncInfo)>>) -> (r: Vec<Vec<char>>)
    ensures
        views(r@) == dedup(views(structs@) + owners(cls_views(c@))),
{
    let ghost all = views(structs@) + owners(cls_views(c@));
    let ghost cv = cls_views(c@);
    let mut r: Vec<Vec<char>> = Vec::new();
    let mut i: usize = 0;
    while i < structs.len()
        invariant
            i <= structs.len(),
            all == views(structs@) + owners(cls_views(c@)),
            views(r@) == dedup(all.subrange(0, i as int)),
        decreases structs.len() - i,
    {
        assert(all.subrange(0, i + 1).drop_last() =~= all.subrange(0, i as int));
        assert(all[i as int] == structs[i as int]@);
        if !is_one_of(&r, &structs[i]) {
            let ghost before = views(r@);
            r.push(copy_chars(&structs[i]));
            assert(views(r@) =~= before.push(all[i as int]));
        }
        i = i + 1;
    }
    let mut k: usize = 0;
    assert(cv.subrange(0, 0) =~= Seq::<Classified>::empty());
    assert(all.subrange(0, structs.len() as int) =~= all.subrange(0, i as int));
    proof {
        lemma_owners_prefix(cv, 0);
    }
    while k < c.len()
        invariant
            k <= c.len(),
            cv == cls_views(c@),
            all == views(structs@) + owners(cv),
            owners(cv.subrange(0, k as int)).len() <= owners(cv).len(),
            views(r@) == dedup(all.subrange(0, structs.len() + owners(cv.subrange(0, k as int)).len())),
        decreases c.len() - k,
    {
        assert(cv.subrange(0, k + 1).drop_last() =~= cv.subrange(0, k as int));
        proof {
            lemma_owners_prefix(cv, k as int + 1);
        }
        assert(cv[k as int] == cls_view(c[k as int]));
        match &c[k] {
            Some(p) => {
                let ghost ok = owners(cv.subrange(0, k as int));
                let ghost m = structs.len() + ok.len();
                assert(owners(cv.subrange(0, k + 1)) == ok.push(p.0@));
                assert(owners(cv.subrange(0, k + 1))[ok.len() as int] == owners(cv)[ok.len() as int]);
                assert(all.subrange(0, m + 1).drop_last() =~= all.subrange(0, m));
                assert(all[m] == p.0@);
                if !is_one_of(&r, &p.0) {
                    let ghost before = views(r@);
                    r.push(copy_chars(&p.0));
                    assert(views(r@) =~= before.push(all[m]));
                }
            },
            None => {},
        }
        k = k + 1;
    }
    assert(cv.subrange(0, c.len() as int) =~= cv);
    assert(all.subrange(0, all.len() as int) =~= all);
    r
}

/// The owners of a prefix of `c` are a prefix of the owners of `c`.
proof fn lemma_owners_prefix(c: Seq<Classified>, k: int)
    requires
        0 <= k <= c.len(),
    ensures
        owners(c.subrange(0, k)).len() <= owners(c).len(),
        forall|j: int| 0 <= j < owners(c.subrange(0, k)).len() ==> #[trigger] owners(c.subrange(0, k))[j] == owners(c)[j],
    decreases c.len() - k,
{
    if k < c.len() {
        lemma_owners_prefix(c, k + 1);
        assert(c.subrange(0, k + 1).drop_last() =~= c.subrange(0, k));
        let a = owners(c.subrange(0, k));
        let b = owners(c.subrange(0, k + 1));
        assert forall|j: int| 0 <= j < a.len() implies #[trigger] a[j] == owners(c)[j] by {
            assert(b[j] == a[j]);
        }
    } else {
        assert(c.subrange(0, k) =~= c);
    }
}

/// Builds the entity registry from the structures and the classification.
pub fn build_entities(structs: &Vec<Vec<char>>, c: &Vec<Option<(Vec<char>, FuncInfo)>>) -> (r: Vec<TypeInfo>)
    ensures
        type_models(r@) == entities(views(structs@), cls_views(c@)),
{
    let names = sorted_names(&entity_names(structs, c));
    let ghost nv = views(names@);
    let mut r: Vec<TypeInfo> = Vec::new();
    let mut i: usize = 0;
    while i < names.len()
        invariant
            i <= names.len(),
            nv == views(names@),
            nv == sort_names(dedup(views(structs@) + owners(cls_views(c@)))),
            type_models(r@) == entities(views(structs@), cls_views(c@)).subrange(0, i as int),
        decreases names.len() - i,
    {
        let n = &names[i];
        let ti = TypeInfo { name: camel_chars(n), bt_name: copy_chars(n), functions: collect_methods(c, n) };
        let ghost before = type_models(r@);
        r.push(ti);
        assert(type_models(r@) =~= before.push(ti@));
        i = i + 1;
        assert(type_models(r@) =~= entities(views(structs@), cls_views(c@)).subrange(0, i as int));
    }
    assert(entities(views(structs@), cls_views(c@)).subrange(0, names.len() as int) =~= entities(views(structs@), cls_views(c@)));
    r
}

} // verus!
