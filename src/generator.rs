//! The whole run: corpus text in, wrapper source text and the number of
//! classified functions out.
use vstd::prelude::*;
use crate::text::{chars_of, string_of};
use crate::lexer::{lex, views, tokenize};
use crate::decls::{extract, aliases_from, consts_from, structs_from, fns_from, copy_chars};
use crate::enums::{enum_slot_count, count_unresolved, unresolved, enum_slots, slot_names, lemma_surviving_len,
    build_enums, surviving, collected, all_known, registry, unknown_in, enum_models, EnumModel, EnumInfo, GenError,
    ValueModel};
use crate::entities::{classified, entities, owners, classify_all, build_entities, count_classified,
    Classified, TypeModel};
use crate::rewrite::{rewritten_entities, rewrite_entities};
use crate::emit::{output_text, output_exec};

verus! {

/// The enumerations of a corpus that collected at least one value, as
/// (name, backing type name, values).
pub open spec fn corpus_enums(text: Seq<char>) -> Seq<(Seq<char>, Seq<char>, Seq<ValueModel>)> {
    surviving(collected(aliases_from(lex(text), 0), consts_from(lex(text), 0)))
}

/// The enumeration registry of a corpus.
pub open spec fn corpus_enum_registry(text: Seq<char>) -> Seq<EnumModel> {
    registry(corpus_enums(text))
}

/// The names of a sequence of enumerations.
pub open spec fn enum_names(es: Seq<EnumModel>) -> Seq<Seq<char>> {
    es.map_values(|e: EnumModel| e.0)
}

/// The classification of the functions of a corpus.
pub open spec fn corpus_classified(text: Seq<char>) -> Seq<Classified> {
    classified(fns_from(lex(text), 0), enum_names(corpus_enum_registry(text)))
}

/// The number of classified functions of a corpus.
pub open spec fn classified_count(text: Seq<char>) -> nat {
    owners(corpus_classified(text)).len()
}

/// The entity registry of a corpus, before the rewrite.
pub open spec fn corpus_entities(text: Seq<char>) -> Seq<TypeModel> {
    entities(structs_from(lex(text), 0), corpus_classified(text))
}

/// The entity registry of a corpus, after the rewrite.
pub open spec fn corpus_rewritten(text: Seq<char>) -> Seq<TypeModel> {
    rewritten_entities(corpus_entities(text), corpus_enum_registry(text))
}

/// The text generated from a corpus, after `header`.
pub open spec fn generated_text(text: Seq<char>, header: Seq<char>) -> Seq<char> {
    output_text(header, corpus_enum_registry(text), corpus_rewritten(text))
}

/// The number of function signatures of a corpus that no rule classified.
pub open spec fn unhandled_count(text: Seq<char>) -> int {
    fns_from(lex(text), 0).len() - classified_count(text)
}

/// The number of enumerations of a corpus left out for want of values.
pub open spec fn empty_enum_count(text: Seq<char>) -> int {
    enum_slots(aliases_from(lex(text), 0)).len() - corpus_enums(text).len()
}

/// The number of constants of a corpus that give no enumeration a value.
pub open spec fn unresolved_count(text: Seq<char>) -> nat {
    unresolved(consts_from(lex(text), 0), slot_names(enum_slots(aliases_from(lex(text), 0))))
}

/// What a run produces: the text, the number of classified functions, and
/// the counts of what was dropped without stopping the run.
pub struct Generation {
    /// The wrapper source text.
    pub text: String,
    /// The number of functions classified as methods or constructors.
    pub count: usize,
    /// The number of function signatures that no rule classified.
    pub unhandled: usize,
    /// The number of enumerations left out because no constant gave them a value.
    pub empty_enums: usize,
    /// The number of constants of a library type that gave no enumeration a value.
    pub unresolved_constants: usize,
}

/// The names of the enumerations of a registry.
fn names_of(es: &Vec<EnumInfo>) -> (r: Vec<Vec<char>>)
    ensures
        views(r@) == enum_names(enum_models(es@)),
{
    let ghost ev = enum_models(es@);
    let mut r: Vec<Vec<char>> = Vec::new();
    let mut i: usize = 0;
    while i < es.len()
        invariant
            i <= es.len(),
            ev == enum_models(es@),
            views(r@) == enum_names(ev).subrange(0, i as int),
        decreases es.len() - i,
    {
        let ghost before = views(r@);
        r.push(copy_chars(&es[i].name));
        assert(views(r@) =~= before.push(ev[i as int].0));
        i = i + 1;
        assert(views(r@) =~= enum_names(ev).subrange(0, i as int));
    }
    assert(enum_names(ev).subrange(0, es.len() as int) =~= enum_names(ev));
    r
}

/// Runs the generator on a declaration corpus: extracts the declarations,
/// builds the registries, classifies the functions, rewrites their types
/// against a frozen snapshot and renders the output after `header_comment`.
/// Fails only where an enumeration that has values is backed by a primitive
/// of unknown width.
pub fn generate_bt_lib(corpus: &str, header_comment: &str) -> (r: Result<Generation, GenError>)
    ensures
        r is Ok <==> all_known(corpus_enums(corpus@)),
        r is Ok ==> r->Ok_0.text@ == generated_text(corpus@, header_comment@),
        r is Ok ==> r->Ok_0.count == classified_count(corpus@),
        r is Ok ==> r->Ok_0.unhandled == unhandled_count(corpus@),
        r is Ok ==> r->Ok_0.empty_enums == empty_enum_count(corpus@),
        r is Ok ==> r->Ok_0.unresolved_constants == unresolved_count(corpus@),
        r is Err ==> unknown_in(r->Err_0, corpus_enums(corpus@)),
{
    let chars = chars_of(corpus);
    let tokens = tokenize(&chars);
    let decls = extract(&tokens);
    let enums = match build_enums(&decls.aliases, &decls.consts) {
        Ok(e) => e,
        Err(e) => {
            return Err(e);
        },
    };
    let names = names_of(&enums);
    let cls = classify_all(&decls.functions, &names);
    let count = count_classified(&cls);
    let unhandled = decls.functions.len() - count;
    let slot_count = enum_slot_count(&decls.aliases);
    proof {
        let a = aliases_from(lex(corpus@), 0);
        crate::order::lemma_sort_aliases_keeps(enum_slots(a));
        lemma_surviving_len(collected(a, consts_from(lex(corpus@), 0)));
    }
    let empty_enums = slot_count - enums.len();
    let unresolved_constants = count_unresolved(&decls.aliases, &decls.consts);
    let types = build_entities(&decls.structs, &cls);
    let rewritten = rewrite_entities(&types, &enums);
    let header = chars_of(header_comment);
    let out = output_exec(&header, &enums, &rewritten);
    Ok(Generation { text: string_of(&out), count, unhandled, empty_enums, unresolved_constants })
}

} // verus!
