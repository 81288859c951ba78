//! The code emitter: one block per enumeration, and per entity a borrowed
//! and an owning handle shape with their methods.
use vstd::prelude::*;
use crate::naming::{camel, camel_chars};
use crate::decls::copy_chars;
use crate::enums::{EnumInfo, EnumModel, ValueModel, primitive_name, primitive_text, enum_models};
use crate::classify::{ArgModel, FuncModel, FuncInfo, ArgInfo, arg_models};
use crate::entities::{TypeModel, TypeInfo, type_models, func_models};
use crate::rewrite::{stars, lit};

verus! {

/// The lines between the caller's header and the generated blocks: lint
/// settings, imports, and the two points where hand-maintained fragments are
/// merged.
pub open spec fn preamble() -> Seq<char> {
    "#![allow(clippy::upper_case_acronyms)]\n#![allow(clippy::missing_safety_doc)]\n#![allow(non_upper_case_globals)]\n#![allow(non_camel_case_types)]\n#![allow(non_snake_case)]\n#![allow(dead_code)]\nuse std::ffi::CStr;\nuse num_derive::{FromPrimitive, ToPrimitive};\npub mod binding {\n  include!(concat!(env!(\"OUT_DIR\"), \"/bindings.rs\"));\n  include!(\"binding_additions.rs\");\n}\nuse binding::*;\ninclude!(\"bt2_additions.rs\");\n"@
}

/// One case of an enumeration, tagged with its literal.
pub open spec fn value_text(v: ValueModel) -> Seq<char> {
    "  #[doc(alias = \""@ + v.1 + "\")]\n  /// Literal "@ + v.1 + "\n  "@ + camel(v.0) + " = "@ + v.1 + ",\n"@
}

/// The cases of an enumeration.
pub open spec fn values_text(vs: Seq<ValueModel>) -> Seq<char>
    decreases vs.len(),
{
    if vs.len() == 0 {
        Seq::empty()
    } else {
        values_text(vs.drop_last()) + value_text(vs.last())
    }
}

/// The block of an enumeration: the type with one case per value, and the
/// two numeric conversions.
pub open spec fn enum_text(e: EnumModel) -> Seq<char> {
    let p = primitive_name(e.1);
    let n = camel(e.0);
    "\n#[repr("@ + p + ")]\n#[derive(FromPrimitive, ToPrimitive, Debug, PartialEq, PartialOrd, Copy, Clone)]\n#[doc(alias = \""@
        + e.0 + "\")]\n/// Represents the "@ + e.0 + " as rust enum\npub enum "@ + n + " {\n"@ + values_text(e.2)
        + "}\nimpl From< "@ + p + " > for "@ + n + " {\n  fn from(item: "@ + p
        + ") -> Self {\n    num::FromPrimitive::from_"@ + p + "(item).unwrap()\n  }\n}\nimpl From< "@ + n
        + " > for "@ + p + " {\n  fn from(item: "@ + n + ") -> Self {\n    num::ToPrimitive::to_"@ + p
        + "(&item).unwrap()\n  }\n}\n"@
}

/// The blocks of a sequence of enumerations.
pub open spec fn enums_text(es: Seq<EnumModel>) -> Seq<char>
    decreases es.len(),
{
    if es.len() == 0 {
        Seq::empty()
    } else {
        enums_text(es.drop_last()) + enum_text(es.last())
    }
}

/// An argument that no rewrite rule took, and whose raw type is a pointer.
pub open spec fn is_unchecked(a: ArgModel) -> bool {
    a.pre.len() == 0 && a.post.len() == 0 && (stars(a.raw) > 0 || a.raw == seq!["bt_uuid"@])
}

/// A method with such an argument is emitted as `unsafe`.
pub open spec fn is_unsafe(args: Seq<ArgModel>) -> bool {
    exists|i: int| 0 <= i < args.len() && is_unchecked(#[trigger] args[i])
}

/// What goes between two parameters: nothing before the first parameter of
/// a constructor, which has no receiver.
pub open spec fn sep(f: FuncModel, idx: int) -> Seq<char> {
    if idx == 0 && f.is_create { Seq::empty() } else { ", "@ }
}

/// The parameter list of a method over its first arguments `args`.
pub open spec fn params_text(f: FuncModel, args: Seq<ArgModel>) -> Seq<char>
    decreases args.len(),
{
    if args.len() == 0 {
        if f.const_self { "&self"@ } else if f.is_create { Seq::empty() } else { "&mut self"@ }
    } else {
        params_text(f, args.drop_last()) + sep(f, args.len() - 1) + args.last().name + ": "@ + args.last().new_type
    }
}

/// The argument list of the raw call over the first arguments `args`.
pub open spec fn call_text(f: FuncModel, args: Seq<ArgModel>) -> Seq<char>
    decreases args.len(),
{
    if args.len() == 0 {
        if f.is_create { Seq::empty() } else { "self.ptr"@ }
    } else {
        call_text(f, args.drop_last()) + sep(f, args.len() - 1) + args.last().pre + args.last().name + args.last().post
    }
}

/// One method: a call of the raw entry point with the recorded glue.
pub open spec fn method_text(f: FuncModel) -> Seq<char> {
    "\n  #[doc(alias = \""@ + f.bt_name + "\")]\n  ///Calls "@ + f.bt_name + "\n  pub "@
        + (if is_unsafe(f.args) { "unsafe "@ } else { Seq::empty() }) + "fn "@ + f.name + "("@
        + params_text(f, f.args) + ") "@ + (if f.new_return.len() == 0 { Seq::empty() } else { "-> "@ + f.new_return })
        + " {"@ + (if f.is_create { Seq::empty() } else { "\n    debug_assert!(!self.ptr.is_null());"@ })
        + "\n    unsafe { "@ + f.pre_call + f.bt_name + "("@ + call_text(f, f.args) + ")"@ + f.post_call
        + " }\n  }\n"@
}

/// The methods of one shape: the borrowed shape has the const-self methods only.
pub open spec fn methods_text(fs: Seq<FuncModel>, borrowed: bool) -> Seq<char>
    decreases fs.len(),
{
    if fs.len() == 0 {
        Seq::empty()
    } else {
        methods_text(fs.drop_last(), borrowed) + (if borrowed && !fs.last().const_self {
            Seq::empty()
        } else {
            method_text(fs.last())
        })
    }
}

/// The head of the borrowed shape: its pointer field, and the null,
/// from-pointer (which asserts non-null) and empty-check operations.
pub open spec fn borrowed_head(n: Seq<char>, bt: Seq<char>) -> Seq<char> {
    "/// Wraps all methods related to "@ + bt + ", but the pointer is const\npub struct "@ + n
        + "Const {\n    ptr: *const "@ + bt + "\n}\nimpl "@ + n + "Const {\n    /// A handle pointing to null.\n    pub fn empty() -> "@
        + n + "Const {\n        "@ + n + "Const { ptr: std::ptr::null_mut() }\n    }\n    /// A handle on ptr, which must not be null.\n    pub fn from_ptr(ptr: *const "@
        + bt + ") -> "@ + n + "Const {\n        assert!(!ptr.is_null());\n        "@ + n
        + "Const { ptr }\n    }\n    /// Whether the handle points to null.\n    pub fn is_empty(&mut self) -> bool {\n        self.ptr.is_null()\n    }\n"@
}

/// The head of the owning shape: its pointer field, and the null,
/// from-pointer (which does not assert non-null, for constructors that fill
/// a zeroed handle), borrow and empty-check operations.
pub open spec fn owning_head(n: Seq<char>, bt: Seq<char>) -> Seq<char> {
    "/// Wraps all methods related to "@ + bt + "\npub struct "@ + n + " {\n    ptr: *mut "@ + bt + "\n}\nimpl "@ + n
        + " {\n    /// A handle pointing to null.\n    pub fn empty() -> "@ + n + " {\n        "@ + n
        + " { ptr: std::ptr::null_mut() }\n    }\n    /// A handle on ptr.\n    pub fn from_ptr(ptr: *mut "@ + bt + ") -> "@ + n
        + " {\n        "@ + n + " { ptr }\n    }\n    /// The borrowed handle on the same object.\n    pub fn as_const(&mut self) -> "@ + n
        + "Const {\n      "@ + n + "Const { ptr: self.ptr }\n    }\n    /// Whether the handle points to null.\n    pub fn is_empty(&mut self) -> bool {\n        self.ptr.is_null()\n    }\n"@
}

/// The two shapes of an entity.
pub open spec fn type_text(t: TypeModel) -> Seq<char> {
    borrowed_head(t.name, t.bt_name) + methods_text(t.functions, true) + "\n}"@ + owning_head(t.name, t.bt_name)
        + methods_text(t.functions, false) + "\n}"@
}

/// The shapes of a sequence of entities.
pub open spec fn types_text(ts: Seq<TypeModel>) -> Seq<char>
    decreases ts.len(),
{
    if ts.len() == 0 {
        Seq::empty()
    } else {
        types_text(ts.drop_last()) + type_text(ts.last())
    }
}

/// The whole output: the caller's header, the preamble, the enumerations and
/// the entities.
pub open spec fn output_text(header: Seq<char>, es: Seq<EnumModel>, ts: Seq<TypeModel>) -> Seq<char> {
    header + "\n"@ + preamble() + enums_text(es) + types_text(ts)
}

} // verus!

verus! {

/// Appends `t` to `out`.
fn put(out: &mut Vec<char>, t: Vec<char>)
    ensures
        final(out)@ == old(out)@ + t@,
{
    let mut t = t;
    out.append(&mut t);
}

fn value_exec(v: &crate::enums::EnumValue) -> (r: Vec<char>)
    ensures
        r@ == value_text(v@),
{
    let mut out = lit("  #[doc(alias = \"");
    put(&mut out, copy_chars(&v.literal));
    put(&mut out, lit("\")]\n  /// Literal "));
    put(&mut out, copy_chars(&v.literal));
    put(&mut out, lit("\n  "));
    put(&mut out, camel_chars(&v.label));
    put(&mut out, lit(" = "));
    put(&mut out, copy_chars(&v.literal));
    put(&mut out, lit(",\n"));
    assert(out@ =~= value_text(v@));
    out
}

/// The block of one enumeration.
pub fn enum_exec(e: &EnumInfo) -> (r: Vec<char>)
    ensures
        r@ == enum_text(e@),
{
    let mut vals: Vec<char> = Vec::new();
    let ghost vs = e@.2;
    let mut i: usize = 0;
    while i < e.values.len()
        invariant
            i <= e.values.len(),
            vs == e@.2,
            vs.len() == e.values.len(),
            vals@ == values_text(vs.subrange(0, i as int)),
        decreases e.values.len() - i,
    {
        assert(vs.subrange(0, i + 1).drop_last() =~= vs.subrange(0, i as int));
        assert(vs[i as int] == e.values[i as int]@);
        put(&mut vals, value_exec(&e.values[i]));
        i = i + 1;
    }
    assert(vs.subrange(0, e.values.len() as int) =~= vs);
    let p = primitive_text(e.kind);
    let n = camel_chars(&e.name);
    let mut out = lit("\n#[repr(");
    put(&mut out, copy_chars(&p));
    put(&mut out, lit(")]\n#[derive(FromPrimitive, ToPrimitive, Debug, PartialEq, PartialOrd, Copy, Clone)]\n#[doc(alias = \""));
    put(&mut out, copy_chars(&e.name));
    put(&mut out, lit("\")]\n/// Represents the "));
    put(&mut out, copy_chars(&e.name));
    put(&mut out, lit(" as rust enum\npub enum "));
    put(&mut out, copy_chars(&n));
    put(&mut out, lit(" {\n"));
    put(&mut out, vals);
    put(&mut out, lit("}\nimpl From< "));
    put(&mut out, copy_chars(&p));
    put(&mut out, lit(" > for "));
    put(&mut out, copy_chars(&n));
    put(&mut out, lit(" {\n  fn from(item: "));
    put(&mut out, copy_chars(&p));
    put(&mut out, lit(") -> Self {\n    num::FromPrimitive::from_"));
    put(&mut out, copy_chars(&p));
    put(&mut out, lit("(item).unwrap()\n  }\n}\nimpl From< "));
    put(&mut out, copy_chars(&n));
    put(&mut out, lit(" > for "));
    put(&mut out, copy_chars(&p));
    put(&mut out, lit(" {\n  fn from(item: "));
    put(&mut out, copy_chars(&n));
    put(&mut out, lit(") -> Self {\n    num::ToPrimitive::to_"));
    put(&mut out, p);
    put(&mut out, lit("(&item).unwrap()\n  }\n}\n"));
    assert(out@ =~= enum_text(e@));
    out
}

/// The blocks of all enumerations, in registry order.
pub fn enums_exec(es: &Vec<EnumInfo>) -> (r: Vec<char>)
    ensures
        r@ == enums_text(enum_models(es@)),
{
    let ghost ev = enum_models(es@);
    let mut out: Vec<char> = Vec::new();
    let mut i: usize = 0;
    while i < es.len()
        invariant
            i <= es.len(),
            ev == enum_models(es@),
            out@ == enums_text(ev.subrange(0, i as int)),
        decreases es.len() - i,
    {
        assert(ev.subrange(0, i + 1).drop_last() =~= ev.subrange(0, i as int));
        put(&mut out, enum_exec(&es[i]));
        i = i + 1;
    }
    assert(ev.subrange(0, es.len() as int) =~= ev);
    out
}

} // verus!

verus! {

fn is_unchecked_exec(a: &ArgInfo) -> (r: bool)
    ensures
        r == is_unchecked(a@),
{
    if a.pre.len() != 0 || a.post.len() != 0 {
        return false;
    }
    if crate::rewrite::count_stars(&a.raw) > 0 {
        return true;
    }
    let uuid = lit("bt_uuid");
    if a.raw.len() == 1 && crate::decls::chars_eq(&a.raw[0], &uuid) {
        assert(crate::lexer::views(a.raw@) =~= seq!["bt_uuid"@]);
        return true;
    }
    assert(crate::lexer::views(a.raw@) != seq!["bt_uuid"@]) by {
        if crate::lexer::views(a.raw@) == seq!["bt_uuid"@] {
            assert(crate::lexer::views(a.raw@).len() == 1);
            assert(crate::lexer::views(a.raw@)[0] == a.raw[0]@);
        }
    }
    false
}

fn is_unsafe_exec(args: &Vec<ArgInfo>) -> (r: bool)
    ensures
        r == is_unsafe(arg_models(args@)),
{
    let ghost av = arg_models(args@);
    let mut i: usize = 0;
    while i < args.len()
        invariant
            i <= args.len(),
            av == arg_models(args@),
            forall|k: int| 0 <= k < i ==> !is_unchecked(#[trigger] av[k]),
        decreases args.len() - i,
    {
        if is_unchecked_exec(&args[i]) {
            assert(is_unchecked(av[i as int]));
            return true;
        }
        i = i + 1;
    }
    false
}

fn params_exec(f: &FuncInfo) -> (r: Vec<char>)
    ensures
        r@ == params_text(f@, f@.args),
{
    let ghost fv = f@;
    let mut out = if f.const_self {
        lit("&self")
    } else if f.is_create {
        Vec::new()
    } else {
        lit("&mut self")
    };
    assert(out@ == params_text(fv, fv.args.subrange(0, 0)));
    let mut i: usize = 0;
    while i < f.args.len()
        invariant
            i <= f.args.len(),
            fv == f@,
            out@ == params_text(fv, fv.args.subrange(0, i as int)),
        decreases f.args.len() - i,
    {
        assert(fv.args.subrange(0, i + 1).drop_last() =~= fv.args.subrange(0, i as int));
        assert(fv.args[i as int] == f.args[i as int]@);
        if !(i == 0 && f.is_create) {
            put(&mut out, lit(", "));
        }
        put(&mut out, copy_chars(&f.args[i].name));
        put(&mut out, lit(": "));
        put(&mut out, copy_chars(&f.args[i].new_type));
        i = i + 1;
        assert(out@ =~= params_text(fv, fv.args.subrange(0, i as int)));
    }
    assert(fv.args.subrange(0, f.args.len() as int) =~= fv.args);
    out
}

fn call_exec(f: &FuncInfo) -> (r: Vec<char>)
    ensures
        r@ == call_text(f@, f@.args),
{
    let ghost fv = f@;
    let mut out = if f.is_create {
        Vec::new()
    } else {
        lit("self.ptr")
    };
    assert(out@ == call_text(fv, fv.args.subrange(0, 0)));
    let mut i: usize = 0;
    while i < f.args.len()
        invariant
            i <= f.args.len(),
            fv == f@,
            out@ == call_text(fv, fv.args.subrange(0, i as int)),
        decreases f.args.len() - i,
    {
        assert(fv.args.subrange(0, i + 1).drop_last() =~= fv.args.subrange(0, i as int));
        assert(fv.args[i as int] == f.args[i as int]@);
        if !(i == 0 && f.is_create) {
            put(&mut out, lit(", "));
        }
        put(&mut out, copy_chars(&f.args[i].pre));
        put(&mut out, copy_chars(&f.args[i].name));
        put(&mut out, copy_chars(&f.args[i].post));
        i = i + 1;
        assert(out@ =~= call_text(fv, fv.args.subrange(0, i as int)));
    }
    assert(fv.args.subrange(0, f.args.len() as int) =~= fv.args);
    out
}

/// The text of one method.
pub fn method_exec(f: &FuncInfo) -> (r: Vec<char>)
    ensures
        r@ == method_text(f@),
{
    let mut out = lit("\n  #[doc(alias = \"");
    put(&mut out, copy_chars(&f.bt_name));
    put(&mut out, lit("\")]\n  ///Calls "));
    put(&mut out, copy_chars(&f.bt_name));
    put(&mut out, lit("\n  pub "));
    if is_unsafe_exec(&f.args) {
        put(&mut out, lit("unsafe "));
    } else {
        put(&mut out, Vec::new());
    }
    put(&mut out, lit("fn "));
    put(&mut out, copy_chars(&f.name));
    put(&mut out, lit("("));
    put(&mut out, params_exec(f));
    put(&mut out, lit(") "));
    if f.new_return.len() == 0 {
        put(&mut out, Vec::new());
    } else {
        put(&mut out, crate::rewrite::concat(lit("-> "), copy_chars(&f.new_return)));
    }
    put(&mut out, lit(" {"));
    if f.is_create {
        put(&mut out, Vec::new());
    } else {
        put(&mut out, lit("\n    debug_assert!(!self.ptr.is_null());"));
    }
    put(&mut out, lit("\n    unsafe { "));
    put(&mut out, copy_chars(&f.pre_call));
    put(&mut out, copy_chars(&f.bt_name));
    put(&mut out, lit("("));
    put(&mut out, call_exec(f));
    put(&mut out, lit(")"));
    put(&mut out, copy_chars(&f.post_call));
    put(&mut out, lit(" }\n  }\n"));
    assert(out@ =~= method_text(f@));
    out
}

/// The methods of one shape.
fn methods_exec(fs: &Vec<FuncInfo>, borrowed: bool) -> (r: Vec<char>)
    ensures
        r@ == methods_text(func_models(fs@), borrowed),
{
    let ghost fv = func_models(fs@);
    let mut out: Vec<char> = Vec::new();
    let mut i: usize = 0;
    while i < fs.len()
        invariant
            i <= fs.len(),
            fv == func_models(fs@),
            out@ == methods_text(fv.subrange(0, i as int), borrowed),
        decreases fs.len() - i,
    {
        assert(fv.subrange(0, i + 1).drop_last() =~= fv.subrange(0, i as int));
        assert(fv[i as int] == fs[i as int]@);
        if borrowed && !fs[i].const_self {
            put(&mut out, Vec::new());
        } else {
            put(&mut out, method_exec(&fs[i]));
        }
        i = i + 1;
    }
    assert(fv.subrange(0, fs.len() as int) =~= fv);
    out
}

} // verus!

verus! {

fn borrowed_head_exec(n: &Vec<char>, bt: &Vec<char>) -> (r: Vec<char>)
    ensures
        r@ == borrowed_head(n@, bt@),
{
    let mut out = lit("/// Wraps all methods related to ");
    put(&mut out, copy_chars(bt));
    put(&mut out, lit(", but the pointer is const\npub struct "));
    put(&mut out, copy_chars(n));
    put(&mut out, lit("Const {\n    ptr: *const "));
    put(&mut out, copy_chars(bt));
    put(&mut out, lit("\n}\nimpl "));
    put(&mut out, copy_chars(n));
    put(&mut out, lit("Const {\n    /// A handle pointing to null.\n    pub fn empty() -> "));
    put(&mut out, copy_chars(n));
    put(&mut out, lit("Const {\n        "));
    put(&mut out, copy_chars(n));
    put(&mut out, lit("Const { ptr: std::ptr::null_mut() }\n    }\n    /// A handle on ptr, which must not be null.\n    pub fn from_ptr(ptr: *const "));
    put(&mut out, copy_chars(bt));
    put(&mut out, lit(") -> "));
    put(&mut out, copy_chars(n));
    put(&mut out, lit("Const {\n        assert!(!ptr.is_null());\n        "));
    put(&mut out, copy_chars(n));
    put(&mut out, lit("Const { ptr }\n    }\n    /// Whether the handle points to null.\n    pub fn is_empty(&mut self) -> bool {\n        self.ptr.is_null()\n    }\n"));
    assert(out@ =~= borrowed_head(n@, bt@));
    out
}

fn owning_head_exec(n: &Vec<char>, bt: &Vec<char>) -> (r: Vec<char>)
    ensures
        r@ == owning_head(n@, bt@),
{
    let mut out = lit("/// Wraps all methods related to ");
    put(&mut out, copy_chars(bt));
    put(&mut out, lit("\npub struct "));
    put(&mut out, copy_chars(n));
    put(&mut out, lit(" {\n    ptr: *mut "));
    put(&mut out, copy_chars(bt));
    put(&mut out, lit("\n}\nimpl "));
    put(&mut out, copy_chars(n));
    put(&mut out, lit(" {\n    /// A handle pointing to null.\n    pub fn empty() -> "));
    put(&mut out, copy_chars(n));
    put(&mut out, lit(" {\n        "));
    put(&mut out, copy_chars(n));
    put(&mut out, lit(" { ptr: std::ptr::null_mut() }\n    }\n    /// A handle on ptr.\n    pub fn from_ptr(ptr: *mut "));
    put(&mut out, copy_chars(bt));
    put(&mut out, lit(") -> "));
    put(&mut out, copy_chars(n));
    put(&mut out, lit(" {\n        "));
    put(&mut out, copy_chars(n));
    put(&mut out, lit(" { ptr }\n    }\n    /// The borrowed handle on the same object.\n    pub fn as_const(&mut self) -> "));
    put(&mut out, copy_chars(n));
    put(&mut out, lit("Const {\n      "));
    put(&mut out, copy_chars(n));
    put(&mut out, lit("Const { ptr: self.ptr }\n    }\n    /// Whether the handle points to null.\n    pub fn is_empty(&mut self) -> bool {\n        self.ptr.is_null()\n    }\n"));
    assert(out@ =~= owning_head(n@, bt@));
    out
}

/// The two shapes of one entity.
pub fn type_exec(t: &TypeInfo) -> (r: Vec<char>)
    ensures
        r@ == type_text(t@),
{
    let mut out = borrowed_head_exec(&t.name, &t.bt_name);
    put(&mut out, methods_exec(&t.functions, true));
    put(&mut out, lit("\n}"));
    put(&mut out, owning_head_exec(&t.name, &t.bt_name));
    put(&mut out, methods_exec(&t.functions, false));
    put(&mut out, lit("\n}"));
    assert(out@ =~= type_text(t@));
    out
}

/// The shapes of all entities, in registry order.
pub fn types_exec(ts: &Vec<TypeInfo>) -> (r: Vec<char>)
    ensures
        r@ == types_text(type_models(ts@)),
{
    let ghost tv = type_models(ts@);
    let mut out: Vec<char> = Vec::new();
    let mut i: usize = 0;
    while i < ts.len()
        invariant
            i <= ts.len(),
            tv == type_models(ts@),
            out@ == types_text(tv.subrange(0, i as int)),
        decreases ts.len() - i,
    {
        assert(tv.subrange(0, i + 1).drop_last() =~= tv.subrange(0, i as int));
        put(&mut out, type_exec(&ts[i]));
        i = i + 1;
    }
    assert(tv.subrange(0, ts.len() as int) =~= tv);
    out
}

/// The whole output text.
pub fn output_exec(header: &Vec<char>, es: &Vec<EnumInfo>, ts: &Vec<TypeInfo>) -> (r: Vec<char>)
    ensures
        r@ == output_text(header@, enum_models(es@), type_models(ts@)),
{
    let mut out = copy_chars(header);
    put(&mut out, lit("\n"));
    put(&mut out, lit("#![allow(clippy::upper_case_acronyms)]\n#![allow(clippy::missing_safety_doc)]\n#![allow(non_upper_case_globals)]\n#![allow(non_camel_case_types)]\n#![allow(non_snake_case)]\n#![allow(dead_code)]\nuse std::ffi::CStr;\nuse num_derive::{FromPrimitive, ToPrimitive};\npub mod binding {\n  include!(concat!(env!(\"OUT_DIR\"), \"/bindings.rs\"));\n  include!(\"binding_additions.rs\");\n}\nuse binding::*;\ninclude!(\"bt2_additions.rs\");\n"));
    put(&mut out, enums_exec(es));
    put(&mut out, types_exec(ts));
    assert(out@ =~= output_text(header@, enum_models(es@), type_models(ts@)));
    out
}

} // verus!
