use bt2_codegen::enums::GenError;
use bt2_codegen::generator::generate_bt_lib;

const CORPUS: &str = r#"
pub type bt_bool = ::std::os::raw::c_int;
pub type bt_foo_status = ::std::os::raw::c_uint;
pub const bt_foo_status_BT_FOO_STATUS_OK: bt_foo_status = 0;
pub const bt_foo_status_BT_FOO_STATUS_ERROR: bt_foo_status = -1;
pub type bt_empty_kind = ::std::os::raw::c_int;
pub const bt_other_X: bt_missing = 3;
#[repr(C)]
pub struct bt_foo {
    _unused: [u8; 0],
}
extern "C" {
    pub fn bt_foo_get_name(foo: *const bt_foo) -> *const ::std::os::raw::c_char;
}
extern "C" {
    pub fn bt_foo_set_flag(foo: *mut bt_foo, flag: bt_bool) -> bt_foo_status;
}
extern "C" {
    pub fn bt_foo_create(name: *const ::std::os::raw::c_char) -> *mut bt_foo;
}
extern "C" {
    pub fn bt_foo_link(foo: *mut bt_foo, out: *mut *mut bt_foo);
}
extern "C" {
    pub fn bt_version_get_major() -> u64;
}
"#;

const ONE_MORE: &str = r#"
extern "C" {
    pub fn bt_foo_get_size(foo: *const bt_foo) -> u64;
}
"#;

#[test]
fn pinned_corpus_count() {
    let g = generate_bt_lib(CORPUS, "// header").unwrap();
    assert_eq!(g.count, 4);
}

#[test]
fn one_more_function_counts_one_more() {
    let base = generate_bt_lib(CORPUS, "").unwrap();
    let more = generate_bt_lib(&format!("{}{}", CORPUS, ONE_MORE), "").unwrap();
    assert_eq!(more.count, base.count + 1);
    let unhandled = "extern \"C\" {\n    pub fn bt_version_get_minor() -> u64;\n}\n";
    let same = generate_bt_lib(&format!("{}{}", CORPUS, unhandled), "").unwrap();
    assert_eq!(same.count, base.count);
}

#[test]
fn output_starts_with_header_and_preamble() {
    let g = generate_bt_lib(CORPUS, "// header").unwrap();
    assert!(g.text.starts_with("// header\n#![allow(clippy::upper_case_acronyms)]\n"));
    assert!(g.text.contains("include!(\"bt2_additions.rs\");\n"));
}

#[test]
fn empty_enums_are_not_emitted() {
    let g = generate_bt_lib(CORPUS, "").unwrap();
    assert!(!g.text.contains("BtEmptyKind"));
    assert!(!g.text.contains("bt_empty_kind"));
    assert!(!g.text.contains("pub enum BtBool"));
    assert!(g.text.contains("pub enum BtFooStatus {\n"));
}

#[test]
fn enum_cases_carry_their_literals() {
    let g = generate_bt_lib(CORPUS, "").unwrap();
    assert!(g.text.contains("#[repr(u32)]\n"));
    assert!(g.text.contains("  Ok = 0,\n"));
    assert!(g.text.contains("  Error = -1,\n"));
    assert!(g.text.contains("impl From< u32 > for BtFooStatus {\n"));
    assert!(g.text.contains("impl From< BtFooStatus > for u32 {\n"));
}

#[test]
fn char_pointer_return_becomes_cstr() {
    let g = generate_bt_lib(CORPUS, "").unwrap();
    assert!(g.text.contains("pub fn get_name(&self) -> &CStr {\n"));
    assert!(g.text.contains("unsafe { CStr::from_ptr(bt_foo_get_name(self.ptr)) }"));
}

#[test]
fn bool_and_enum_glue() {
    let g = generate_bt_lib(CORPUS, "").unwrap();
    assert!(g.text.contains("pub fn set_flag(&mut self, flag: bool) -> BtFooStatus {\n"));
    assert!(g.text.contains(
        "unsafe { num::FromPrimitive::from_u32(bt_foo_set_flag(self.ptr, if flag { BT_TRUE as bt_bool } else { BT_FALSE as bt_bool })).unwrap() }"
    ));
}

#[test]
fn constructor_returns_owning_handle() {
    let g = generate_bt_lib(CORPUS, "").unwrap();
    assert!(g.text.contains("pub fn create(name: &str) -> BtFoo {\n    unsafe { BtFoo{ ptr:bt_foo_create(name.as_ptr())} }"));
}

#[test]
fn double_pointer_is_left_raw_and_unsafe() {
    let g = generate_bt_lib(CORPUS, "").unwrap();
    assert!(g.text.contains("pub unsafe fn link(&mut self, out: *mut *mut bt_foo)  {\n"));
    assert!(g.text.contains("unsafe { bt_foo_link(self.ptr, out) }"));
}

#[test]
fn borrowed_shape_has_const_methods_only() {
    let g = generate_bt_lib(CORPUS, "").unwrap();
    let start = g.text.find("pub struct BtFooConst {").unwrap();
    let end = g.text.find("pub struct BtFoo {").unwrap();
    let borrowed = &g.text[start..end];
    assert!(borrowed.contains("fn get_name"));
    assert!(!borrowed.contains("fn set_flag"));
    assert!(!borrowed.contains("fn create"));
    assert!(borrowed.contains("assert!(!ptr.is_null());"));
    let owning = &g.text[end..];
    assert!(owning.contains("fn set_flag"));
    assert!(owning.contains("fn create"));
    assert!(owning.contains("pub fn as_const(&mut self) -> BtFooConst {"));
    assert!(!owning.contains("assert!(!ptr.is_null());\n        BtFoo { ptr }"));
}

#[test]
fn runs_are_deterministic() {
    let a = generate_bt_lib(CORPUS, "// h").unwrap();
    let b = generate_bt_lib(CORPUS, "// h").unwrap();
    assert_eq!(a.text, b.text);
    assert_eq!(a.count, b.count);
}

#[test]
fn unknown_primitive_is_fatal() {
    let corpus = "pub type bt_x = f32;\npub const bt_x_A: bt_x = 1;\n";
    match generate_bt_lib(corpus, "") {
        Err(GenError::UnknownPrimitive { name, backing }) => {
            assert_eq!(name, "bt_x");
            assert_eq!(backing, "f32");
        }
        Ok(_) => panic!("expected an error"),
    }
}

#[test]
fn unknown_primitive_of_empty_enum_is_ignored() {
    let corpus = "pub type bt_x = f32;\n";
    let g = generate_bt_lib(corpus, "").unwrap();
    assert_eq!(g.count, 0);
    assert!(!g.text.contains("bt_x"));
}

#[test]
fn registries_are_alphabetical() {
    let corpus = "pub struct bt_zeta { }\npub struct bt_alpha { }\n\
        pub type bt_z_kind = u32;\npub const bt_z_kind_A: bt_z_kind = 1;\n\
        pub type bt_a_kind = i64;\npub const bt_a_kind_B: bt_a_kind = 2;\n";
    let g = generate_bt_lib(corpus, "").unwrap();
    let alpha = g.text.find("pub struct BtAlphaConst {").unwrap();
    let zeta = g.text.find("pub struct BtZetaConst {").unwrap();
    assert!(alpha < zeta);
    let a = g.text.find("pub enum BtAKind {").unwrap();
    let z = g.text.find("pub enum BtZKind {").unwrap();
    assert!(a < z);
    assert!(z < alpha);
    assert!(g.text.contains("#[repr(i64)]\n"));
}

#[test]
fn dropped_items_are_counted() {
    let g = generate_bt_lib(CORPUS, "").unwrap();
    assert_eq!(g.unhandled, 1);
    assert_eq!(g.empty_enums, 2);
    assert_eq!(g.unresolved_constants, 1);
}

#[test]
fn empty_corpus_gives_preamble_only() {
    let g = generate_bt_lib("", "// h").unwrap();
    assert_eq!(g.count, 0);
    assert_eq!(g.unhandled, 0);
    assert!(g.text.starts_with("// h\n"));
    assert!(g.text.ends_with("include!(\"bt2_additions.rs\");\n"));
}

#[test]
fn repeated_declarations_make_one_entity() {
    let corpus = "pub struct bt_foo { }\npub struct bt_foo { }\n\
        extern \"C\" {\n    pub fn bt_bar_get(bar: *const bt_bar) -> u64;\n}\n";
    let g = generate_bt_lib(corpus, "").unwrap();
    assert_eq!(g.text.matches("pub struct BtFooConst {").count(), 1);
    assert_eq!(g.text.matches("pub struct BtBarConst {").count(), 1);
    assert!(g.text.contains("pub fn get(&self) -> u64 {"));
    assert_eq!(g.count, 1);
}
