//! Properties of the generator that relate several calls or hold of every
//! input, proved over the models that the functions' contracts use.
use vstd::prelude::*;
use crate::decls::{AliasModel, FnModel};
use crate::order::{sort_aliases, sort_names, lemma_sort_aliases_keeps, lemma_sort_aliases_ascending, ascending, lex_lt};
use crate::enums::{enum_slots, slot_names, collected, surviving, registry, ValueModel};
use crate::classify::classify;
use crate::entities::{classified, owners, methods_of, dedup, Classified, TypeModel};
use crate::generator::{corpus_enum_registry, generated_text, corpus_classified, corpus_rewritten, enum_names};

verus! {

/// The enumeration slots have distinct names.
proof fn lemma_slots_distinct(a: Seq<AliasModel>)
    ensures
        forall|i: int, j: int|
            0 <= i < j < enum_slots(a).len() ==> #[trigger] enum_slots(a)[i].0 != #[trigger] enum_slots(a)[j].0,
    decreases a.len(),
{
    if a.len() > 0 {
        lemma_slots_distinct(a.drop_last());
        let prev = enum_slots(a.drop_last());
        let x = a.last();
        if crate::enums::lib_prefix().is_prefix_of(x.0) && !slot_names(prev).contains(x.0) {
            assert forall|i: int, j: int| 0 <= i < j < enum_slots(a).len() implies #[trigger] enum_slots(a)[i].0
                != #[trigger] enum_slots(a)[j].0 by {
                if j == prev.len() {
                    assert(slot_names(prev)[i] == prev[i].0);
                }
            }
        }
    }
}

/// Each survivor is an enumeration of `e` that has values.
proof fn lemma_survivor_origin(e: Seq<(Seq<char>, Seq<char>, Seq<ValueModel>)>)
    ensures
        forall|i: int| 0 <= i < surviving(e).len() ==> exists|j: int|
            0 <= j < e.len() && e[j] == #[trigger] surviving(e)[i] && e[j].2.len() > 0,
    decreases e.len(),
{
    if e.len() > 0 {
        lemma_survivor_origin(e.drop_last());
        let prev = surviving(e.drop_last());
        assert forall|i: int| 0 <= i < surviving(e).len() implies exists|j: int|
            0 <= j < e.len() && e[j] == #[trigger] surviving(e)[i] && e[j].2.len() > 0 by {
            if i < prev.len() {
                let j = choose|j: int| 0 <= j < e.drop_last().len() && e.drop_last()[j] == #[trigger] prev[i]
                    && e.drop_last()[j].2.len() > 0;
                assert(e[j] == e.drop_last()[j]);
            } else {
                assert(e[e.len() - 1] == surviving(e)[i]);
            }
        }
    }
}

/// An enumeration that collected no value does not appear in the output:
/// every enumeration of the registry, whose blocks alone are emitted, has
/// values, and none is named like an enumeration left empty.
pub proof fn lemma_empty_enums_not_emitted(text: Seq<char>)
    ensures
        forall|i: int| 0 <= i < corpus_enum_registry(text).len() ==> (#[trigger] corpus_enum_registry(text)[i]).2.len() > 0,
        forall|i: int, k: int|
            0 <= i < corpus_enum_registry(text).len() && 0 <= k < collected(
                crate::decls::aliases_from(crate::lexer::lex(text), 0),
                crate::decls::consts_from(crate::lexer::lex(text), 0),
            ).len() && (#[trigger] collected(
                crate::decls::aliases_from(crate::lexer::lex(text), 0),
                crate::decls::consts_from(crate::lexer::lex(text), 0),
            )[k]).2.len() == 0 ==> (#[trigger] corpus_enum_registry(text)[i]).0 != collected(
                crate::decls::aliases_from(crate::lexer::lex(text), 0),
                crate::decls::consts_from(crate::lexer::lex(text), 0),
            )[k].0,
{
    let a = crate::decls::aliases_from(crate::lexer::lex(text), 0);
    let c = crate::decls::consts_from(crate::lexer::lex(text), 0);
    let e = collected(a, c);
    lemma_survivor_origin(e);
    lemma_slots_distinct(a);
    lemma_sort_aliases_keeps(enum_slots(a));
    assert forall|i: int| 0 <= i < corpus_enum_registry(text).len() implies (
    #[trigger] corpus_enum_registry(text)[i]).2.len() > 0 by {
        let j = choose|j: int| 0 <= j < e.len() && e[j] == #[trigger] surviving(e)[i] && e[j].2.len() > 0;
    }
    assert forall|i: int, k: int|
        0 <= i < corpus_enum_registry(text).len() && 0 <= k < e.len() && (#[trigger] e[k]).2.len() == 0 implies (
    #[trigger] corpus_enum_registry(text)[i]).0 != e[k].0 by {
        let j = choose|j: int| 0 <= j < e.len() && e[j] == #[trigger] surviving(e)[i] && e[j].2.len() > 0;
        assert(j != k);
        let sorted = sort_aliases(enum_slots(a));
        assert(e[j].0 == sorted[j].0);
        assert(e[k].0 == sorted[k].0);
        if j < k {
            assert(sorted[j].0 != sorted[k].0);
        } else {
            assert(sorted[k].0 != sorted[j].0);
        }
    }
}

/// The case that a literal converts to: the first value with that literal.
pub open spec fn case_of_literal(vs: Seq<ValueModel>, lit: Seq<char>) -> Option<int>
    decreases vs.len(),
{
    if vs.len() == 0 {
        None
    } else if vs[0].1 == lit {
        Some(0)
    } else {
        match case_of_literal(vs.drop_first(), lit) {
            Some(k) => Some(k + 1),
            None => None,
        }
    }
}

/// The literal that a case converts to.
pub open spec fn literal_of_case(vs: Seq<ValueModel>, k: int) -> Seq<char> {
    vs[k].1
}

/// Converting the literal of a value to its case and back gives the literal.
pub proof fn lemma_literal_round_trip(vs: Seq<ValueModel>, i: int)
    requires
        0 <= i < vs.len(),
    ensures
        case_of_literal(vs, vs[i].1) is Some,
        0 <= case_of_literal(vs, vs[i].1)->0 < vs.len(),
        literal_of_case(vs, case_of_literal(vs, vs[i].1)->0) == vs[i].1,
    decreases vs.len(),
{
    if vs[0].1 != vs[i].1 {
        lemma_literal_round_trip(vs.drop_first(), i - 1);
    }
}

/// The number of classified functions in a classification.
pub open spec fn count_of(c: Seq<Classified>) -> nat {
    owners(c).len()
}

/// Classifying the same signatures twice gives the same count and the same
/// methods for every entity.
pub proof fn lemma_classification_deterministic(
    fns: Seq<FnModel>,
    enums: Seq<Seq<char>>,
    first: Seq<Classified>,
    second: Seq<Classified>,
)
    requires
        first == classified(fns, enums),
        second == classified(fns, enums),
    ensures
        count_of(first) == count_of(second),
        forall|n: Seq<char>| #[trigger] methods_of(first, n) == methods_of(second, n),
{
}

/// The count of a concatenation is the sum of the counts.
proof fn lemma_count_concat(a: Seq<Classified>, b: Seq<Classified>)
    ensures
        count_of(a + b) == count_of(a) + count_of(b),
    decreases b.len(),
{
    if b.len() > 0 {
        lemma_count_concat(a, b.drop_last());
        assert((a + b).drop_last() =~= a + b.drop_last());
    } else {
        assert(a + b =~= a);
    }
}

/// Adding a signature that classifies to the signatures raises the count by
/// exactly one; taking it out again lowers it by one.
pub proof fn lemma_count_one_more(fns: Seq<FnModel>, i: int, f: FnModel, enums: Seq<Seq<char>>)
    requires
        0 <= i <= fns.len(),
        classify(f, enums) is Some,
    ensures
        count_of(classified(fns.insert(i, f), enums)) == count_of(classified(fns, enums)) + 1,
        fns.insert(i, f).remove(i) == fns,
{
    let a = classified(fns.subrange(0, i), enums);
    let b = classified(fns.subrange(i, fns.len() as int), enums);
    assert(classified(fns, enums) =~= a + b);
    assert(classified(fns.insert(i, f), enums) =~= (a + seq![classify(f, enums)]) + b);
    lemma_count_concat(a, b);
    lemma_count_concat(a + seq![classify(f, enums)], b);
    lemma_count_concat(a, seq![classify(f, enums)]);
    let one = seq![classify(f, enums)];
    assert(one.drop_last() =~= Seq::<Classified>::empty());
    assert(one.last() is Some);
    assert(owners(one) == owners(one.drop_last()).push(crate::entities::owner_of(one.last())));
    assert(count_of(one) == 1);
    assert(fns.insert(i, f).remove(i) =~= fns);
}

/// Two runs on the same corpus and header produce the same text and count.
pub proof fn lemma_emission_deterministic(text: Seq<char>, header: Seq<char>, first: Seq<char>, second: Seq<char>)
    requires
        first == generated_text(text, header),
        second == generated_text(text, header),
    ensures
        first == second,
{
}

/// The names of collected enumerations.
pub open spec fn entry_names(e: Seq<(Seq<char>, Seq<char>, Seq<ValueModel>)>) -> Seq<Seq<char>> {
    e.map_values(|x: (Seq<char>, Seq<char>, Seq<ValueModel>)| x.0)
}

/// The names of `dedup(s)` are distinct.
proof fn lemma_dedup_distinct(s: Seq<Seq<char>>)
    ensures
        forall|i: int, j: int| 0 <= i < j < dedup(s).len() ==> #[trigger] dedup(s)[i] != #[trigger] dedup(s)[j],
    decreases s.len(),
{
    if s.len() > 0 {
        lemma_dedup_distinct(s.drop_last());
        let p = dedup(s.drop_last());
        if !p.contains(s.last()) {
            assert forall|i: int, j: int| 0 <= i < j < dedup(s).len() implies #[trigger] dedup(s)[i] != #[trigger] dedup(s)[j] by {
                if j == p.len() {
                    assert(dedup(s)[i] == p[i]);
                }
            }
        }
    }
}

/// The survivors of enumerations in ascending order of names are in
/// ascending order of names.
proof fn lemma_surviving_ascending(e: Seq<(Seq<char>, Seq<char>, Seq<ValueModel>)>)
    requires
        ascending(entry_names(e)),
    ensures
        ascending(entry_names(surviving(e))),
    decreases e.len(),
{
    if e.len() > 0 {
        let d = e.drop_last();
        assert(ascending(entry_names(d))) by {
            assert forall|i: int, j: int| 0 <= i < j < d.len() implies lex_lt(
                #[trigger] entry_names(d)[i],
                #[trigger] entry_names(d)[j],
            ) by {
                assert(entry_names(e)[i] == d[i].0);
                assert(entry_names(e)[j] == d[j].0);
            }
        }
        lemma_surviving_ascending(d);
        lemma_survivor_origin(d);
        let p = surviving(d);
        if e.last().2.len() > 0 {
            let q = surviving(e);
            assert(q == p.push(e.last()));
            let qn = entry_names(q);
            let pn = entry_names(p);
            assert forall|i: int, j: int| 0 <= i < j < qn.len() implies lex_lt(#[trigger] qn[i], #[trigger] qn[j]) by {
                if j < p.len() {
                    assert(qn[i] == pn[i] && qn[j] == pn[j]);
                } else {
                    let k = choose|k: int| 0 <= k < d.len() && d[k] == #[trigger] p[i] && d[k].2.len() > 0;
                    assert(entry_names(e)[k] == qn[i]);
                    assert(entry_names(e)[e.len() - 1] == qn[j]);
                }
            }
        }
    }
}

/// The registries are in strictly ascending alphabetical order of their raw
/// names, which is the order of emission.
pub proof fn lemma_registries_ascending(text: Seq<char>)
    ensures
        ascending(enum_names(corpus_enum_registry(text))),
        ascending(corpus_rewritten(text).map_values(|t: TypeModel| t.bt_name)),
{
    let a = crate::decls::aliases_from(crate::lexer::lex(text), 0);
    let c = crate::decls::consts_from(crate::lexer::lex(text), 0);
    let e = collected(a, c);
    lemma_slots_distinct(a);
    lemma_sort_aliases_ascending(enum_slots(a));
    let sa = sort_aliases(enum_slots(a));
    assert(entry_names(e) =~= sa.map_values(|x: AliasModel| x.0));
    lemma_surviving_ascending(e);
    let sn = entry_names(surviving(e));
    assert(enum_names(corpus_enum_registry(text)) =~= sn);
    let all = crate::decls::structs_from(crate::lexer::lex(text), 0) + owners(corpus_classified(text));
    let names = dedup(all);
    lemma_dedup_distinct(all);
    crate::order::lemma_sort_names_ascending(names);
    assert(corpus_rewritten(text).map_values(|t: TypeModel| t.bt_name) =~= sort_names(names));
}

} // verus!
