//! The enumeration registry: type aliases of the library become enumerations,
//! and the named constants of their type become its values.
use vstd::prelude::*;
use crate::decls::{copy_chars, chars_eq, chars_prefix, AliasModel, ConstModel, TypeAliasDecl, ConstDecl, alias_models, const_models};
use crate::naming::{upper, upper_char};
use crate::text::string_of;
use crate::order::{sort_aliases, sorted_aliases};

verus! {

/// The naming prefix of the library.
pub open spec fn lib_prefix() -> Seq<char> {
    seq!['b', 't']
}

/// One value of an enumeration: its short label and the literal it stands for.
pub struct EnumValue {
    pub label: Vec<char>,
    pub literal: Vec<char>,
}

/// The four primitive types that an enumeration can be backed by.
#[derive(PartialEq, Eq, Structural, Clone, Copy, Debug)]
pub enum Primitive {
    I32,
    U32,
    I64,
    U64,
}

/// An enumeration: the alias name, its backing primitive and its values in
/// corpus order.
pub struct EnumInfo {
    pub name: Vec<char>,
    pub kind: Primitive,
    pub values: Vec<EnumValue>,
}

/// Model of a value: label and literal.
pub type ValueModel = (Seq<char>, Seq<char>);

/// Model of an enumeration: name, backing primitive and values.
pub type EnumModel = (Seq<char>, Primitive, Seq<ValueModel>);

impl View for EnumValue {
    type V = ValueModel;

    open spec fn view(&self) -> ValueModel {
        (self.label@, self.literal@)
    }
}

impl View for EnumInfo {
    type V = EnumModel;

    open spec fn view(&self) -> EnumModel {
        (self.name@, self.kind, self.values@.map_values(|v: EnumValue| v@))
    }
}

/// Why a run stops.
#[derive(PartialEq, Eq, Debug)]
pub enum GenError {
    /// An enumeration that has values is backed by a type whose width is not
    /// one of the four known ones: the numeric conversions would be unsound.
    UnknownPrimitive { name: String, backing: String },
}

/// The chars of `::std::os::raw::` followed by `base`.
pub open spec fn raw_path(base: Seq<char>) -> Seq<char> {
    seq![':', ':', 's', 't', 'd', ':', ':', 'o', 's', ':', ':', 'r', 'a', 'w', ':', ':'] + base
}

/// The primitive that a backing type name stands for: the C `int`, `unsigned
/// int`, `long` and `unsigned long` of the binding translator (4, 4, 8 and 8
/// bytes wide), or the Rust integer of that width.
pub open spec fn primitive_of(t: Seq<char>) -> Option<Primitive> {
    if t == raw_path(seq!['c', '_', 'i', 'n', 't']) || t == seq!['i', '3', '2'] {
        Some(Primitive::I32)
    } else if t == raw_path(seq!['c', '_', 'u', 'i', 'n', 't']) || t == seq!['u', '3', '2'] {
        Some(Primitive::U32)
    } else if t == raw_path(seq!['c', '_', 'l', 'o', 'n', 'g']) || t == seq!['i', '6', '4'] {
        Some(Primitive::I64)
    } else if t == raw_path(seq!['c', '_', 'u', 'l', 'o', 'n', 'g']) || t == seq!['u', '6', '4'] {
        Some(Primitive::U64)
    } else {
        None
    }
}

/// The name of a primitive.
pub open spec fn primitive_name(p: Primitive) -> Seq<char> {
    match p {
        Primitive::I32 => seq!['i', '3', '2'],
        Primitive::U32 => seq!['u', '3', '2'],
        Primitive::I64 => seq!['i', '6', '4'],
        Primitive::U64 => seq!['u', '6', '4'],
    }
}

fn raw_path_exec(base: Vec<char>) -> (r: Vec<char>)
    ensures
        r@ == raw_path(base@),
{
    let mut r: Vec<char> = vec![':', ':', 's', 't', 'd', ':', ':', 'o', 's', ':', ':', 'r', 'a', 'w', ':', ':'];
    let mut b = base;
    r.append(&mut b);
    r
}

/// The primitive that a backing type name stands for.
pub fn primitive_from(t: &Vec<char>) -> (r: Option<Primitive>)
    ensures
        r == primitive_of(t@),
{
    if chars_eq(t, &raw_path_exec(vec!['c', '_', 'i', 'n', 't'])) || chars_eq(t, &vec!['i', '3', '2']) {
        Some(Primitive::I32)
    } else if chars_eq(t, &raw_path_exec(vec!['c', '_', 'u', 'i', 'n', 't'])) || chars_eq(t, &vec!['u', '3', '2']) {
        Some(Primitive::U32)
    } else if chars_eq(t, &raw_path_exec(vec!['c', '_', 'l', 'o', 'n', 'g'])) || chars_eq(t, &vec!['i', '6', '4']) {
        Some(Primitive::I64)
    } else if chars_eq(t, &raw_path_exec(vec!['c', '_', 'u', 'l', 'o', 'n', 'g'])) || chars_eq(t, &vec!['u', '6', '4']) {
        Some(Primitive::U64)
    } else {
        None
    }
}

/// The name of a primitive.
pub fn primitive_text(p: Primitive) -> (r: Vec<char>)
    ensures
        r@ == primitive_name(p),
{
    match p {
        Primitive::I32 => vec!['i', '3', '2'],
        Primitive::U32 => vec!['u', '3', '2'],
        Primitive::I64 => vec!['i', '6', '4'],
        Primitive::U64 => vec!['u', '6', '4'],
    }
}

} // verus!

verus! {

/// The ASCII upper case of a text.
pub open spec fn upper_seq(s: Seq<char>) -> Seq<char> {
    s.map_values(|c: char| upper(c))
}

/// The short label of constant `name` of type `ty`: the type's name and the
/// separator after it are stripped, and again where an upper-cased repetition
/// of the type's name follows. `None` where the name is too short to strip.
pub open spec fn short_label(name: Seq<char>, ty: Seq<char>) -> Option<Seq<char>> {
    if name.len() < ty.len() + 1 {
        None
    } else {
        let s1 = name.skip(ty.len() + 1 as int);
        if upper_seq(ty).is_prefix_of(s1) && s1.len() >= ty.len() + 1 {
            Some(s1.skip(ty.len() + 1 as int))
        } else {
            Some(s1)
        }
    }
}

/// The names of a sequence of aliases.
pub open spec fn slot_names(s: Seq<AliasModel>) -> Seq<Seq<char>> {
    s.map_values(|a: AliasModel| a.0)
}

/// The enumerations that the aliases declare, in corpus order: each alias
/// whose name carries the library prefix and was not declared before.
pub open spec fn enum_slots(a: Seq<AliasModel>) -> Seq<AliasModel>
    decreases a.len(),
{
    if a.len() == 0 {
        Seq::empty()
    } else {
        let prev = enum_slots(a.drop_last());
        let x = a.last();
        if lib_prefix().is_prefix_of(x.0) && !slot_names(prev).contains(x.0) {
            prev.push(x)
        } else {
            prev
        }
    }
}

/// The values that the constants give to the enumeration named `n`, in
/// corpus order.
pub open spec fn values_for(c: Seq<ConstModel>, n: Seq<char>) -> Seq<ValueModel>
    decreases c.len(),
{
    if c.len() == 0 {
        Seq::empty()
    } else {
        let prev = values_for(c.drop_last(), n);
        let x = c.last();
        if x.1 == n && short_label(x.0, x.1) is Some {
            prev.push((short_label(x.0, x.1)->0, x.2))
        } else {
            prev
        }
    }
}

/// The enumerations with the values collected for them, empty ones included,
/// as (name, backing type name, values), in alphabetical order of names.
pub open spec fn collected(a: Seq<AliasModel>, c: Seq<ConstModel>) -> Seq<(Seq<char>, Seq<char>, Seq<ValueModel>)> {
    sort_aliases(enum_slots(a)).map_values(|s: AliasModel| (s.0, s.1, values_for(c, s.0)))
}

/// The enumerations that have at least one value.
pub open spec fn surviving(e: Seq<(Seq<char>, Seq<char>, Seq<ValueModel>)>) -> Seq<(Seq<char>, Seq<char>, Seq<ValueModel>)>
    decreases e.len(),
{
    if e.len() == 0 {
        Seq::empty()
    } else {
        let prev = surviving(e.drop_last());
        if e.last().2.len() > 0 {
            prev.push(e.last())
        } else {
            prev
        }
    }
}

/// Every surviving enumeration is backed by a known primitive.
pub open spec fn all_known(e: Seq<(Seq<char>, Seq<char>, Seq<ValueModel>)>) -> bool {
    forall|i: int| 0 <= i < e.len() ==> primitive_of(#[trigger] e[i].1) is Some
}

/// The registry: each surviving enumeration with its primitive.
pub open spec fn registry(e: Seq<(Seq<char>, Seq<char>, Seq<ValueModel>)>) -> Seq<EnumModel> {
    e.map_values(|x: (Seq<char>, Seq<char>, Seq<ValueModel>)| (x.0, primitive_of(x.1)->0, x.2))
}

/// Whether `n` is the name of a slot in `slots`.
fn has_slot(slots: &Vec<TypeAliasDecl>, n: &Vec<char>) -> (r: bool)
    ensures
        r == slot_names(alias_models(slots@)).contains(n@),
{
    let ghost names = slot_names(alias_models(slots@));
    let mut i: usize = 0;
    while i < slots.len()
        invariant
            i <= slots.len(),
            names == slot_names(alias_models(slots@)),
            names.len() == slots.len(),
            forall|k: int| 0 <= k < i ==> names[k] != n@,
        decreases slots.len() - i,
    {
        if chars_eq(&slots[i].name, n) {
            assert(names[i as int] == n@);
            return true;
        }
        i = i + 1;
    }
    false
}

/// The enumeration slots that the aliases declare.
fn collect_slots(aliases: &Vec<TypeAliasDecl>) -> (r: Vec<TypeAliasDecl>)
    ensures
        alias_models(r@) == enum_slots(alias_models(aliases@)),
{
    let ghost av = alias_models(aliases@);
    let mut r: Vec<TypeAliasDecl> = Vec::new();
    let mut i: usize = 0;
    let bt = vec!['b', 't'];
    while i < aliases.len()
        invariant
            i <= aliases.len(),
            bt@ == lib_prefix(),
            av == alias_models(aliases@),
            alias_models(r@) == enum_slots(av.subrange(0, i as int)),
        decreases aliases.len() - i,
    {
        assert(av.subrange(0, i + 1).drop_last() =~= av.subrange(0, i as int));
        let a = &aliases[i];
        let ghost before = alias_models(r@);
        if chars_prefix(&bt, &a.name) && !has_slot(&r, &a.name) {
            r.push(TypeAliasDecl { name: copy_chars(&a.name), target: copy_chars(&a.target) });
            assert(alias_models(r@) =~= before.push(av[i as int]));
        }
        i = i + 1;
    }
    assert(av.subrange(0, aliases.len() as int) =~= av);
    r
}

/// The short label of constant `name` of type `ty`.
pub fn label_of(name: &Vec<char>, ty: &Vec<char>) -> (r: Option<Vec<char>>)
    ensures
        match r {
            Some(l) => short_label(name@, ty@) == Some(l@),
            None => short_label(name@, ty@) is None,
        },
{
    if name.len() < ty.len() || name.len() - ty.len() < 1 {
        return None;
    }
    let cut = ty.len() + 1;
    let mut s1: Vec<char> = Vec::new();
    let mut i: usize = cut;
    while i < name.len()
        invariant
            cut <= i <= name.len(),
            s1@ == name@.subrange(cut as int, i as int),
        decreases name.len() - i,
    {
        s1.push(name[i]);
        i = i + 1;
        assert(s1@ =~= name@.subrange(cut as int, i as int));
    }
    assert(s1@ =~= name@.skip(cut as int));
    let mut up: Vec<char> = Vec::new();
    let mut k: usize = 0;
    while k < ty.len()
        invariant
            k <= ty.len(),
            up@ == upper_seq(ty@.subrange(0, k as int)),
        decreases ty.len() - k,
    {
        up.push(upper_char(ty[k]));
        k = k + 1;
        assert(up@ =~= upper_seq(ty@.subrange(0, k as int)));
    }
    assert(ty@.subrange(0, ty.len() as int) =~= ty@);
    if chars_prefix(&up, &s1) && s1.len() >= cut {
        let mut s2: Vec<char> = Vec::new();
        let mut j: usize = cut;
        while j < s1.len()
            invariant
                cut <= j <= s1.len(),
                s2@ == s1@.subrange(cut as int, j as int),
            decreases s1.len() - j,
        {
            s2.push(s1[j]);
            j = j + 1;
            assert(s2@ =~= s1@.subrange(cut as int, j as int));
        }
        assert(s2@ =~= s1@.skip(cut as int));
        Some(s2)
    } else {
        Some(s1)
    }
}

/// The values that the constants give to the enumeration named `n`.
fn collect_values(consts: &Vec<ConstDecl>, n: &Vec<char>) -> (r: Vec<EnumValue>)
    ensures
        r@.map_values(|v: EnumValue| v@) == values_for(const_models(consts@), n@),
{
    let ghost cv = const_models(consts@);
    let mut r: Vec<EnumValue> = Vec::new();
    let mut i: usize = 0;
    while i < consts.len()
        invariant
            i <= consts.len(),
            cv == const_models(consts@),
            r@.map_values(|v: EnumValue| v@) == values_for(cv.subrange(0, i as int), n@),
        decreases consts.len() - i,
    {
        assert(cv.subrange(0, i + 1).drop_last() =~= cv.subrange(0, i as int));
        let c = &consts[i];
        let ghost before = r@.map_values(|v: EnumValue| v@);
        if chars_eq(&c.ty, n) {
            match label_of(&c.name, &c.ty) {
                Some(label) => {
                    r.push(EnumValue { label, literal: copy_chars(&c.literal) });
                    assert(r@.map_values(|v: EnumValue| v@) =~= before.push(
                        (short_label(cv[i as int].0, cv[i as int].1)->0, cv[i as int].2),
                    ));
                },
                None => {},
            }
        }
        i = i + 1;
    }
    assert(cv.subrange(0, consts.len() as int) =~= cv);
    r
}

/// The enumerations of a corpus that collected at least one value.
pub open spec fn enum_survivors(a: Seq<TypeAliasDecl>, c: Seq<ConstDecl>) -> Seq<(Seq<char>, Seq<char>, Seq<ValueModel>)> {
    surviving(collected(alias_models(a), const_models(c)))
}

/// Models of a sequence of enumerations.
pub open spec fn enum_models(e: Seq<EnumInfo>) -> Seq<EnumModel> {
    e.map_values(|x: EnumInfo| x@)
}

/// `err` names an enumeration of `e` whose backing type is unknown.
pub open spec fn unknown_in(err: GenError, e: Seq<(Seq<char>, Seq<char>, Seq<ValueModel>)>) -> bool {
    match err {
        GenError::UnknownPrimitive { name, backing } => exists|i: int|
            0 <= i < e.len() && e[i].0 == name@ && e[i].1 == backing@ && primitive_of(#[trigger] e[i].1) is None,
    }
}

/// Builds the enumeration registry from the aliases and constants of a
/// corpus: the enumerations that collected no value are left out, and every
/// one that is kept must be backed by a known primitive.
pub fn build_enums(aliases: &Vec<TypeAliasDecl>, consts: &Vec<ConstDecl>) -> (r: Result<Vec<EnumInfo>, GenError>)
    ensures
        r is Ok <==> all_known(enum_survivors(aliases@, consts@)),
        r is Ok ==> enum_models(r->Ok_0@) == registry(enum_survivors(aliases@, consts@)),
        r is Err ==> unknown_in(r->Err_0, enum_survivors(aliases@, consts@)),
{
    let ghost av = alias_models(aliases@);
    let ghost cv = const_models(consts@);
    let slots = sorted_aliases(&collect_slots(aliases));
    let ghost sv = alias_models(slots@);
    let ghost all = collected(av, cv);
    let mut r: Vec<EnumInfo> = Vec::new();
    let mut i: usize = 0;
    while i < slots.len()
        invariant
            i <= slots.len(),
            sv == alias_models(slots@),
            sv == sort_aliases(enum_slots(av)),
            all == collected(av, cv),
            av == alias_models(aliases@),
            cv == const_models(consts@),
            all_known(surviving(all.subrange(0, i as int))),
            enum_models(r@) == registry(surviving(all.subrange(0, i as int))),
        decreases slots.len() - i,
    {
        let ghost prev = surviving(all.subrange(0, i as int));
        assert(all.subrange(0, i + 1).drop_last() =~= all.subrange(0, i as int));
        assert(all[i as int] == (sv[i as int].0, sv[i as int].1, values_for(cv, sv[i as int].0)));
        let s = &slots[i];
        let values = collect_values(consts, &s.name);
        if values.len() > 0 {
            assert(surviving(all.subrange(0, i + 1)) == prev.push(all[i as int]));
            match primitive_from(&s.target) {
                Some(kind) => {
                    let ghost before = enum_models(r@);
                    let ghost x = all[i as int];
                    assert(x.0 == s.name@ && x.1 == s.target@);
                    assert(x.2 == values@.map_values(|v: EnumValue| v@));
                    let info = EnumInfo { name: copy_chars(&s.name), kind, values };
                    assert(info@ == (x.0, primitive_of(x.1)->0, x.2));
                    r.push(info);
                    assert(enum_models(r@) =~= before.push(info@));
                    assert(registry(prev.push(x)) =~= registry(prev).push((x.0, primitive_of(x.1)->0, x.2)));
                    assert forall|k: int| 0 <= k < surviving(all.subrange(0, i + 1)).len() implies primitive_of(
                        #[trigger] surviving(all.subrange(0, i + 1))[k].1,
                    ) is Some by {
                        if k < prev.len() {
                            assert(surviving(all.subrange(0, i + 1))[k] == prev[k]);
                        }
                    }
                },
                None => {
                    let ghost e = enum_survivors(aliases@, consts@);
                    assert(e == surviving(all));
                    proof {
                        lemma_surviving_prefix(all, i as int + 1);
                    }
                    assert(surviving(all.subrange(0, i + 1))[prev.len() as int] == all[i as int]);
                    assert(e[prev.len() as int] == all[i as int]);
                    let name = string_of(&s.name);
                    let backing = string_of(&s.target);
                    assert(e[prev.len() as int].0 == name@ && e[prev.len() as int].1 == backing@);
                    assert(!all_known(e));
                    let ghost w = prev.len() as int;
                    assert(0 <= w < e.len() && e[w].0 == name@ && e[w].1 == backing@ && primitive_of(e[w].1) is None);
                    return Err(GenError::UnknownPrimitive { name, backing });
                },
            }
        } else {
            assert(surviving(all.subrange(0, i + 1)) == prev);
        }
        i = i + 1;
    }
    assert(all.subrange(0, slots.len() as int) =~= all);
    Ok(r)
}

/// The survivors of a prefix of `e` are a prefix of the survivors of `e`.
proof fn lemma_surviving_prefix(e: Seq<(Seq<char>, Seq<char>, Seq<ValueModel>)>, k: int)
    requires
        0 <= k <= e.len(),
    ensures
        surviving(e.subrange(0, k)).len() <= surviving(e).len(),
        forall|j: int| 0 <= j < surviving(e.subrange(0, k)).len() ==> #[trigger] surviving(e.subrange(0, k))[j] == surviving(e)[j],
    decreases e.len() - k,
{
    if k < e.len() {
        lemma_surviving_prefix(e, k + 1);
        assert(e.subrange(0, k + 1).drop_last() =~= e.subrange(0, k));
        let a = surviving(e.subrange(0, k));
        let b = surviving(e.subrange(0, k + 1));
        assert(b.len() >= a.len());
        assert forall|j: int| 0 <= j < a.len() implies #[trigger] a[j] == surviving(e)[j] by {
            assert(b[j] == a[j]);
        }
    } else {
        assert(e.subrange(0, k) =~= e);
    }
}

/// The number of constants of a library-prefixed type that give no value:
/// their type is no enumeration of `names`, or their name is too short to
/// strip it.
pub open spec fn unresolved(c: Seq<ConstModel>, names: Seq<Seq<char>>) -> nat
    decreases c.len(),
{
    if c.len() == 0 {
        0
    } else {
        let x = c.last();
        unresolved(c.drop_last(), names) + if lib_prefix().is_prefix_of(x.1) && (!names.contains(x.1)
            || short_label(x.0, x.1) is None) {
            1nat
        } else {
            0nat
        }
    }
}

/// The number of enumerations that the aliases declare, empty ones included.
pub fn enum_slot_count(aliases: &Vec<TypeAliasDecl>) -> (r: usize)
    ensures
        r == enum_slots(alias_models(aliases@)).len(),
{
    collect_slots(aliases).len()
}

/// The number of constants that give no value to any enumeration.
pub fn count_unresolved(aliases: &Vec<TypeAliasDecl>, consts: &Vec<ConstDecl>) -> (r: usize)
    ensures
        r == unresolved(const_models(consts@), slot_names(enum_slots(alias_models(aliases@)))),
{
    let slots = collect_slots(aliases);
    let ghost names = slot_names(enum_slots(alias_models(aliases@)));
    let ghost cv = const_models(consts@);
    let bt = vec!['b', 't'];
    let mut n: usize = 0;
    let mut i: usize = 0;
    while i < consts.len()
        invariant
            i <= consts.len(),
            bt@ == lib_prefix(),
            cv == const_models(consts@),
            names == slot_names(alias_models(slots@)),
            n == unresolved(cv.subrange(0, i as int), names),
            n <= i,
        decreases consts.len() - i,
    {
        assert(cv.subrange(0, i + 1).drop_last() =~= cv.subrange(0, i as int));
        let c = &consts[i];
        if chars_prefix(&bt, &c.ty) && (!has_slot(&slots, &c.ty) || label_of(&c.name, &c.ty).is_none()) {
            n = n + 1;
        }
        i = i + 1;
    }
    assert(cv.subrange(0, consts.len() as int) =~= cv);
    n
}

/// No more enumerations survive than were collected.
pub proof fn lemma_surviving_len(e: Seq<(Seq<char>, Seq<char>, Seq<ValueModel>)>)
    ensures
        surviving(e).len() <= e.len(),
    decreases e.len(),
{
    if e.len() > 0 {
        lemma_surviving_len(e.drop_last());
    }
}

} // verus!
