//! Properties of generation that relate several of its parts.

use vstd::prelude::*;
use vstd::string::*;

use crate::ast_builder::ast;
use crate::ast_builder::ast::TypeModel;
use crate::ast_builder::reference_db::{
    cache_after, cache_index, chain_fuel, classify, component_index, follow, pointer_prefix,
    resolve_parameter_spec, resolve_path_item_spec, resolve_schema_spec, CacheEntry,
    CanonicalPath, FragmentKind, Followed, InterruptModel, ReferenceDatabase, SourceKey,
    SourceKeyModel, TargetModel,
};
use crate::ast_builder::{integer_validates, param_ref_outcome, texts};
use crate::document::{Document, IntegerSchema, Named, ParameterObject, PathItemObject, ReferenceOr, SchemaObject};
use crate::ir_builder::ir::{self, MacroModel, NestedModel, StmtModel};
use crate::ir_builder::{canonical_validates, each_macro, is_min_style, of_rank, rank, value_macro};
use crate::codegen::{args_text, macro_text, type_predicate, type_spec, validate_text, validates_text};
use crate::text::{digit_char, int_text, nat_text};
use crate::{generation, Generated};

verus! {

/// Whether a resolution stopped to ask for the fetch of `key`.
pub open spec fn asks_fetch_of<T>(r: Followed<T>, key: SourceKeyModel) -> bool {
    match r {
        Followed::Halted(InterruptModel::NeedFetch { kind: _, key: k, file_type: _ }) => k == key,
        _ => false,
    }
}

proof fn lemma_of_rank_has_rank(vs: Seq<ast::Validate>, r: nat)
    ensures
        forall|k: int| 0 <= k < of_rank(vs, r).len() ==> rank(#[trigger] of_rank(vs, r)[k]) == r,
    decreases vs.len(),
{
    if vs.len() > 0 {
        lemma_of_rank_has_rank(vs.drop_last(), r);
        let rest = of_rank(vs.drop_last(), r);
        let v = crate::ir_builder::ir_validate(vs.last());
        if rank(v) == r {
            assert(of_rank(vs, r) == rest.push(v));
            assert forall|k: int| 0 <= k < of_rank(vs, r).len() implies rank(
                #[trigger] of_rank(vs, r)[k],
            ) == r by {
                if k < rest.len() {
                    assert(of_rank(vs, r)[k] == rest[k]);
                }
            }
        } else {
            assert(of_rank(vs, r) == rest);
        }
    }
}

proof fn lemma_cache_index_bounds<T>(es: Seq<CacheEntry<T>>, key: SourceKeyModel, i: int)
    ensures
        match cache_index(es, key, i) {
            Some(j) => 0 <= i <= j < es.len() && es[j].key@ == key,
            None => true,
        },
    decreases es.len() - i,
{
    if 0 <= i < es.len() && es[i].key@ != key {
        lemma_cache_index_bounds(es, key, i + 1);
    }
}

proof fn lemma_component_index_bounds<T>(cs: Seq<Named<T>>, name: Seq<char>, i: int)
    ensures
        match crate::ast_builder::reference_db::component_index(cs, name, i) {
            Some(j) => 0 <= i <= j < cs.len(),
            None => true,
        },
    decreases cs.len() - i,
{
    if 0 <= i < cs.len() && cs[i].name@ != name {
        lemma_component_index_bounds(cs, name, i + 1);
    }
}

/// Constraints come out sorted by rank: every minimum-style constraint
/// of a node stands before every maximum-style one, whatever order the
/// document declared them in.
pub proof fn lemma_min_before_max(vs: Seq<ast::Validate>)
    ensures
        forall|i: int, j: int|
            0 <= i < j < canonical_validates(vs).len() ==> rank(#[trigger] canonical_validates(vs)[i])
                <= rank(#[trigger] canonical_validates(vs)[j]),
        forall|i: int, j: int|
            0 <= i < canonical_validates(vs).len() && 0 <= j < canonical_validates(vs).len()
                && is_min_style(#[trigger] canonical_validates(vs)[i]) && !is_min_style(
                #[trigger] canonical_validates(vs)[j],
            ) ==> i < j,
{
    let a0 = of_rank(vs, 0);
    let a1 = of_rank(vs, 1);
    let a2 = of_rank(vs, 2);
    let a3 = of_rank(vs, 3);
    lemma_of_rank_has_rank(vs, 0);
    lemma_of_rank_has_rank(vs, 1);
    lemma_of_rank_has_rank(vs, 2);
    lemma_of_rank_has_rank(vs, 3);
    let c = canonical_validates(vs);
    assert(c == a0 + a1 + a2 + a3);
    let l0 = a0.len() as int;
    let l1 = l0 + a1.len();
    let l2 = l1 + a2.len();
    assert forall|k: int| 0 <= k < c.len() implies #[trigger] rank(c[k]) == (if k < l0 {
        0nat
    } else if k < l1 {
        1nat
    } else if k < l2 {
        2nat
    } else {
        3nat
    }) by {
        if k < l0 {
            assert(c[k] == a0[k]);
        } else if k < l1 {
            assert(c[k] == a1[k - l0]);
        } else if k < l2 {
            assert(c[k] == a2[k - l1]);
        } else {
            assert(c[k] == a3[k - l2]);
        }
    }
}

proof fn lemma_cache_index_push<T>(es: Seq<CacheEntry<T>>, e: CacheEntry<T>, key: SourceKeyModel, i: int)
    requires
        0 <= i <= es.len(),
    ensures
        cache_index(es.push(e), key, i) == match cache_index(es, key, i) {
            Some(j) => Some(j),
            None => if e.key@ == key {
                Some(es.len() as int)
            } else {
                None
            },
        },
    decreases es.len() - i,
{
    if i < es.len() {
        assert(es.push(e)[i] == es[i]);
        lemma_cache_index_push(es, e, key, i + 1);
    } else {
        assert(es.push(e)[i] == e);
        assert(cache_index(es.push(e), key, i + 1) is None);
    }
}

proof fn lemma_asking_means_absent<T>(
    components: Option<Seq<Named<T>>>,
    cache: Seq<CacheEntry<T>>,
    canon: Seq<CanonicalPath>,
    kind: FragmentKind,
    token: Seq<char>,
    fuel: nat,
    key: SourceKeyModel,
)
    requires
        asks_fetch_of(follow(components, cache, canon, kind, token, fuel), key),
    ensures
        cache_index(cache, key, 0) is None,
    decreases fuel,
{
    if fuel > 0 {
        match crate::ast_builder::reference_db::classify(token, kind) {
            Ok(crate::ast_builder::reference_db::TargetModel::Component(name)) => {
                if let Some(cs) = components {
                    lemma_component_index_bounds(cs, name, 0);
                    if let Some(i) = crate::ast_builder::reference_db::component_index(cs, name, 0) {
                        if let ReferenceOr::Reference { reference } = cs[i].value {
                            lemma_asking_means_absent(
                                components,
                                cache,
                                canon,
                                kind,
                                reference@,
                                (fuel - 1) as nat,
                                key,
                            );
                        }
                    }
                }
            },
            Ok(target) => {
                if let Ok(k) = crate::ast_builder::reference_db::source_key(target, canon) {
                    lemma_cache_index_bounds(cache, k, 0);
                    if let Some(i) = cache_index(cache, k, 0) {
                        if let ReferenceOr::Reference { reference } = cache[i].fragment {
                            lemma_asking_means_absent(
                                components,
                                cache,
                                canon,
                                kind,
                                reference@,
                                (fuel - 1) as nat,
                                key,
                            );
                        }
                    }
                }
            },
            Err(_) => {},
        }
    }
}

proof fn lemma_follow_after_fetch<T>(
    components: Option<Seq<Named<T>>>,
    cache: Seq<CacheEntry<T>>,
    canon: Seq<CanonicalPath>,
    kind: FragmentKind,
    token: Seq<char>,
    fuel: nat,
    entry: CacheEntry<T>,
    x: T,
)
    requires
        entry.fragment == ReferenceOr::Item(x),
        cache_index(cache, entry.key@, 0) is None,
        asks_fetch_of(follow(components, cache, canon, kind, token, fuel), entry.key@),
    ensures
        follow(components, cache.push(entry), canon, kind, token, fuel) == Followed::Found(x),
    decreases fuel,
{
    let grown = cache.push(entry);
    if fuel > 0 {
        match crate::ast_builder::reference_db::classify(token, kind) {
            Ok(crate::ast_builder::reference_db::TargetModel::Component(name)) => {
                if let Some(cs) = components {
                    lemma_component_index_bounds(cs, name, 0);
                    if let Some(i) = crate::ast_builder::reference_db::component_index(cs, name, 0) {
                        if let ReferenceOr::Reference { reference } = cs[i].value {
                            lemma_follow_after_fetch(
                                components,
                                cache,
                                canon,
                                kind,
                                reference@,
                                (fuel - 1) as nat,
                                entry,
                                x,
                            );
                        }
                    }
                }
            },
            Ok(target) => {
                if let Ok(k) = crate::ast_builder::reference_db::source_key(target, canon) {
                    lemma_cache_index_push(cache, entry, k, 0);
                    lemma_cache_index_bounds(cache, k, 0);
                    if let Some(i) = cache_index(cache, k, 0) {
                        assert(grown[i] == cache[i]);
                        if let ReferenceOr::Reference { reference } = cache[i].fragment {
                            lemma_follow_after_fetch(
                                components,
                                cache,
                                canon,
                                kind,
                                reference@,
                                (fuel - 1) as nat,
                                entry,
                                x,
                            );
                        }
                    } else {
                        assert(grown[cache.len() as int] == entry);
                    }
                }
            },
            Err(_) => {},
        }
    }
}

proof fn lemma_follow_more_fuel<T>(
    components: Option<Seq<Named<T>>>,
    cache: Seq<CacheEntry<T>>,
    canon: Seq<CanonicalPath>,
    kind: FragmentKind,
    token: Seq<char>,
    fuel: nat,
    more: nat,
)
    requires
        fuel <= more,
        follow(components, cache, canon, kind, token, fuel) is Found,
    ensures
        follow(components, cache, canon, kind, token, more) == follow(
            components,
            cache,
            canon,
            kind,
            token,
            fuel,
        ),
    decreases fuel,
{
    if fuel > 0 {
        match crate::ast_builder::reference_db::classify(token, kind) {
            Ok(crate::ast_builder::reference_db::TargetModel::Component(name)) => {
                if let Some(cs) = components {
                    lemma_component_index_bounds(cs, name, 0);
                    if let Some(i) = crate::ast_builder::reference_db::component_index(cs, name, 0) {
                        if let ReferenceOr::Reference { reference } = cs[i].value {
                            lemma_follow_more_fuel(
                                components,
                                cache,
                                canon,
                                kind,
                                reference@,
                                (fuel - 1) as nat,
                                (more - 1) as nat,
                            );
                        }
                    }
                }
            },
            Ok(target) => {
                if let Ok(k) = crate::ast_builder::reference_db::source_key(target, canon) {
                    lemma_cache_index_bounds(cache, k, 0);
                    if let Some(i) = cache_index(cache, k, 0) {
                        if let ReferenceOr::Reference { reference } = cache[i].fragment {
                            lemma_follow_more_fuel(
                                components,
                                cache,
                                canon,
                                kind,
                                reference@,
                                (fuel - 1) as nat,
                                (more - 1) as nat,
                            );
                        }
                    }
                }
            },
            Err(_) => {},
        }
    }
}

/// A source is fetched once: when the resolutions of two parameter tokens
/// both ask for the same source, recording the parameter fetched from it
/// lets both resolutions find that parameter, with no further request.
pub proof fn lemma_fetched_once(
    doc: Document,
    db: ReferenceDatabase,
    after: ReferenceDatabase,
    first: Seq<char>,
    second: Seq<char>,
    key: SourceKey,
    fetched: ParameterObject,
)
    requires
        asks_fetch_of(resolve_parameter_spec(doc, db, first), key@),
        asks_fetch_of(resolve_parameter_spec(doc, db, second), key@),
        after.canonical_paths@ == db.canonical_paths@,
        after.parameter_by_file@ == cache_after(
            db.parameter_by_file@,
            CacheEntry { key, fragment: ReferenceOr::Item(fetched) },
        ),
    ensures
        resolve_parameter_spec(doc, after, first) == Followed::Found(fetched),
        resolve_parameter_spec(doc, after, second) == Followed::Found(fetched),
{
    let cs = Some(doc.components.parameters@);
    let cache = db.parameter_by_file@;
    let canon = db.canonical_paths@;
    let entry = CacheEntry { key, fragment: ReferenceOr::Item(fetched) };
    let fuel = chain_fuel(cs, cache);
    lemma_asking_means_absent(cs, cache, canon, FragmentKind::Parameter, first, fuel, key@);
    assert(after.parameter_by_file@ == cache.push(entry));
    assert(chain_fuel(cs, after.parameter_by_file@) == fuel + 1);
    lemma_follow_after_fetch(cs, cache, canon, FragmentKind::Parameter, first, fuel, entry, fetched);
    lemma_follow_more_fuel(cs, cache.push(entry), canon, FragmentKind::Parameter, first, fuel, fuel + 1);
    lemma_follow_after_fetch(cs, cache, canon, FragmentKind::Parameter, second, fuel, entry, fetched);
    lemma_follow_more_fuel(cs, cache.push(entry), canon, FragmentKind::Parameter, second, fuel, fuel + 1);
}

/// Generation is deterministic: two results that `generate_dry_validation`
/// may return for the same document and database hold the same text and
/// the same diagnostics.
pub proof fn lemma_generation_deterministic(
    doc: Document,
    db: ReferenceDatabase,
    first: Generated,
    second: Generated,
)
    requires
        generation(doc, db) == Ok::<(Seq<char>, Seq<Seq<char>>), InterruptModel>(
            (first.code@, texts(first.errors@)),
        ),
        generation(doc, db) == Ok::<(Seq<char>, Seq<Seq<char>>), InterruptModel>(
            (second.code@, texts(second.errors@)),
        ),
    ensures
        first.code@ == second.code@,
        texts(first.errors@) == texts(second.errors@),
{
}

/// A source is fetched once, for path items: once the path item fetched
/// for a requested source is recorded, resolving a token of that source
/// finds it with no further request.
pub proof fn lemma_path_item_fetched_once(
    db: ReferenceDatabase,
    after: ReferenceDatabase,
    token: Seq<char>,
    key: SourceKey,
    fetched: PathItemObject,
)
    requires
        asks_fetch_of(resolve_path_item_spec(db, token), key@),
        after.canonical_paths@ == db.canonical_paths@,
        after.path_item_by_file@ == cache_after(
            db.path_item_by_file@,
            CacheEntry { key, fragment: ReferenceOr::Item(fetched) },
        ),
    ensures
        resolve_path_item_spec(after, token) == Followed::Found(fetched),
{
    let cache = db.path_item_by_file@;
    let canon = db.canonical_paths@;
    let entry = CacheEntry { key, fragment: ReferenceOr::Item(fetched) };
    let fuel = chain_fuel(None::<Seq<Named<PathItemObject>>>, cache);
    lemma_asking_means_absent(None, cache, canon, FragmentKind::PathItem, token, fuel, key@);
    assert(after.path_item_by_file@ == cache.push(entry));
    lemma_follow_after_fetch(None, cache, canon, FragmentKind::PathItem, token, fuel, entry, fetched);
    lemma_follow_more_fuel(None, cache.push(entry), canon, FragmentKind::PathItem, token, fuel, fuel + 1);
}

/// A source is fetched once, for schemas: once the schema fetched for a
/// requested source is recorded, resolving a token of that source finds it
/// with no further request.
pub proof fn lemma_schema_fetched_once(
    doc: Document,
    db: ReferenceDatabase,
    after: ReferenceDatabase,
    token: Seq<char>,
    key: SourceKey,
    fetched: SchemaObject,
)
    requires
        asks_fetch_of(resolve_schema_spec(doc, db, token), key@),
        after.canonical_paths@ == db.canonical_paths@,
        after.schema_by_file@ == cache_after(
            db.schema_by_file@,
            CacheEntry { key, fragment: ReferenceOr::Item(fetched) },
        ),
    ensures
        resolve_schema_spec(doc, after, token) == Followed::Found(fetched),
{
    let cs = Some(doc.components.schemas@);
    let cache = db.schema_by_file@;
    let canon = db.canonical_paths@;
    let entry = CacheEntry { key, fragment: ReferenceOr::Item(fetched) };
    let fuel = chain_fuel(cs, cache);
    lemma_asking_means_absent(cs, cache, canon, FragmentKind::Schema, token, fuel, key@);
    assert(after.schema_by_file@ == cache.push(entry));
    lemma_follow_after_fetch(cs, cache, canon, FragmentKind::Schema, token, fuel, entry, fetched);
    lemma_follow_more_fuel(cs, cache.push(entry), canon, FragmentKind::Schema, token, fuel, fuel + 1);
}

/// A parameter given by a same-document pointer builds exactly as the
/// component it points at would inline: same node, same diagnostics.
pub proof fn lemma_reference_builds_as_inline(
    doc: Document,
    db: ReferenceDatabase,
    name: Seq<char>,
    reference: String,
    location: Seq<char>,
)
    requires
        reference@ == "#/components/parameters/"@ + name,
        !name.contains('/'),
        !name.contains('#'),
        component_index(doc.components.parameters@, name, 0) is Some,
        doc.components.parameters@[component_index(doc.components.parameters@, name, 0)->0].value is Item,
    ensures
        param_ref_outcome(doc, db, ReferenceOr::Reference { reference }, location) == param_ref_outcome(
            doc,
            db,
            doc.components.parameters@[component_index(doc.components.parameters@, name, 0)->0].value,
            location,
        ),
{
    reveal_strlit("#/components/parameters/");
    reveal_strlit("#/components/");
    reveal_strlit("parameters");
    reveal_strlit("/");
    let token = reference@;
    let prefix = pointer_prefix("parameters"@);
    assert(prefix =~= "#/components/parameters/"@);
    assert(token.subrange(0, prefix.len() as int) =~= prefix);
    assert(token.subrange(prefix.len() as int, token.len() as int) =~= name);
    assert(token[0] == '#');
    assert(classify(token, FragmentKind::Parameter) == Ok::<TargetModel, InterruptModel>(
        TargetModel::Component(name),
    ));
    lemma_component_index_bounds(doc.components.parameters@, name, 0);
}

/// Exclusive integer bounds are folded into inclusive ones: an exclusive
/// minimum `n` becomes `Min(n + 1)`, an exclusive maximum `m` becomes
/// `Max(m - 1)`, and the tree keeps no exclusivity flag.
pub proof fn lemma_exclusive_bounds_folded(i: IntegerSchema)
    ensures
        integer_validates(i) == (match i.maximum {
            Some(m) => seq![ast::Validate::Max((if i.exclusive_maximum { m - 1 } else { m as int }) as i128)],
            None => Seq::<ast::Validate>::empty(),
        }) + (match i.minimum {
            Some(n) => seq![ast::Validate::Min((if i.exclusive_minimum { n + 1 } else { n as int }) as i128)],
            None => Seq::<ast::Validate>::empty(),
        }),
        i.minimum is Some && i.exclusive_minimum ==> integer_validates(i).contains(
            ast::Validate::Min((i.minimum->0 + 1) as i128),
        ),
        i.maximum is Some && i.exclusive_maximum ==> integer_validates(i).contains(
            ast::Validate::Max((i.maximum->0 - 1) as i128),
        ),
{
    let v = integer_validates(i);
    if i.minimum is Some && i.exclusive_minimum {
        assert(v[v.len() - 1] == ast::Validate::Min((i.minimum->0 + 1) as i128));
    }
    if i.maximum is Some && i.exclusive_maximum {
        assert(v[0] == ast::Validate::Max((i.maximum->0 - 1) as i128));
    }
}

/// Whether a tree type is a scalar leaf.
pub open spec fn is_leaf(t: TypeModel) -> bool {
    !(t is Array) && !(t is Object)
}

/// The constraints a node carries itself.
pub open spec fn own_validates(t: TypeModel) -> Seq<ast::Validate> {
    match t {
        TypeModel::Integer { validates } => validates,
        TypeModel::Number { validates } => validates,
        TypeModel::String { validates } => validates,
        TypeModel::Boolean => Seq::empty(),
        TypeModel::Array { validates, item: _ } => validates,
        TypeModel::Object { validates, properties: _ } => validates,
    }
}

/// Nested arrays chain one `.each` per level: each level carries only its
/// own constraints, an array item opens one block restating the item as
/// an array, and the chain stops at a scalar leaf with no further block.
pub proof fn lemma_nesting_chain(t: TypeModel)
    ensures
        is_leaf(t) ==> each_macro(t) is Each && each_macro(t)->Each_block is None
            && each_macro(t)->Each_validates == canonical_validates(own_validates(t)),
        is_leaf(t) ==> value_macro(t) is Value && value_macro(t)->nested is None
            && value_macro(t)->Value_validates == canonical_validates(own_validates(t)),
        t is Array ==> each_macro(t) == (MacroModel::Each {
            ty: ir::Type::Array,
            validates: canonical_validates(own_validates(t)),
            block: match t->item {
                Some(i) => Some(seq![StmtModel::Schema { ty: ir::Type::Array, call: each_macro(*i) }]),
                None => None,
            },
        }),
        t is Array ==> value_macro(t) == (MacroModel::Value {
            ty: ir::Type::Array,
            validates: canonical_validates(own_validates(t)),
            nested: match t->item {
                Some(i) => Some(Box::new(NestedModel::Macro(each_macro(*i)))),
                None => None,
            },
        }),
{
    assert(canonical_validates(Seq::empty()) =~= Seq::<ir::Validate>::empty());
}

/// Constraints of different ranks come out in the same order whichever
/// order they were declared in.
pub proof fn lemma_declaration_order_irrelevant(a: ast::Validate, b: ast::Validate)
    requires
        rank(crate::ir_builder::ir_validate(a)) != rank(crate::ir_builder::ir_validate(b)),
    ensures
        canonical_validates(seq![a, b]) == canonical_validates(seq![b, a]),
{
    let ab = seq![a, b];
    let ba = seq![b, a];
    assert(ab.drop_last() =~= seq![a]);
    assert(ba.drop_last() =~= seq![b]);
    assert(seq![a].drop_last() =~= Seq::<ast::Validate>::empty());
    assert(seq![b].drop_last() =~= Seq::<ast::Validate>::empty());
    let va = crate::ir_builder::ir_validate(a);
    let vb = crate::ir_builder::ir_validate(b);
    assert forall|r: nat| r <= 3 implies #[trigger] of_rank(ab, r) == of_rank(ba, r) by {
        let only_a: Seq<ir::Validate> = if rank(va) == r { seq![va] } else { Seq::empty() };
        let only_b: Seq<ir::Validate> = if rank(vb) == r { seq![vb] } else { Seq::empty() };
        assert(of_rank(Seq::<ast::Validate>::empty(), r) =~= Seq::<ir::Validate>::empty());
        assert(seq![a].last() == a);
        assert(seq![b].last() == b);
        assert(ab.last() == b);
        assert(ba.last() == a);
        assert(of_rank(seq![a], r) =~= only_a);
        assert(of_rank(seq![b], r) =~= only_b);
        assert(of_rank(ab, r) =~= only_a + only_b);
        assert(of_rank(ba, r) =~= only_b + only_a);
        assert(only_a.len() == 0 || only_b.len() == 0);
        assert(only_a + only_b =~= only_b + only_a);
    }
    assert(of_rank(ab, 0) == of_rank(ba, 0));
    assert(of_rank(ab, 1) == of_rank(ba, 1));
    assert(of_rank(ab, 2) == of_rank(ba, 2));
    assert(of_rank(ab, 3) == of_rank(ba, 3));
}

/// Whether a text holds no line break.
pub open spec fn is_single_line(s: Seq<char>) -> bool {
    forall|i: int| 0 <= i < s.len() ==> s[i] != '\n'
}

proof fn lemma_concat_single_line(a: Seq<char>, b: Seq<char>)
    requires
        is_single_line(a),
        is_single_line(b),
    ensures
        is_single_line(a + b),
{
    assert forall|i: int| 0 <= i < (a + b).len() implies (a + b)[i] != '\n' by {
        if i < a.len() {
            assert((a + b)[i] == a[i]);
        } else {
            assert((a + b)[i] == b[i - a.len()]);
        }
    }
}

proof fn lemma_nat_text_single_line(n: nat)
    ensures
        is_single_line(nat_text(n)),
    decreases n,
{
    if n >= 10 {
        lemma_nat_text_single_line(n / 10);
        lemma_concat_single_line(nat_text(n / 10), seq![digit_char(n % 10)]);
    }
}

proof fn lemma_int_text_single_line(n: int)
    ensures
        is_single_line(int_text(n)),
{
    if n < 0 {
        lemma_nat_text_single_line((-n) as nat);
        lemma_concat_single_line(seq!['-'], nat_text((-n) as nat));
    } else {
        lemma_nat_text_single_line(n as nat);
    }
}

proof fn lemma_validate_text_single_line(v: ir::Validate)
    ensures
        is_single_line(validate_text(v)),
{
    reveal_strlit("max: ");
    reveal_strlit("min: ");
    reveal_strlit("max_size: ");
    reveal_strlit("min_size: ");
    match v {
        ir::Validate::Max(n) => {
            lemma_int_text_single_line(n as int);
            lemma_concat_single_line("max: "@, int_text(n as int));
        },
        ir::Validate::Min(n) => {
            lemma_int_text_single_line(n as int);
            lemma_concat_single_line("min: "@, int_text(n as int));
        },
        ir::Validate::MaxSize(n) => {
            lemma_int_text_single_line(n as int);
            lemma_concat_single_line("max_size: "@, int_text(n as int));
        },
        ir::Validate::MinSize(n) => {
            lemma_int_text_single_line(n as int);
            lemma_concat_single_line("min_size: "@, int_text(n as int));
        },
    }
}

proof fn lemma_validates_text_single_line(vs: Seq<ir::Validate>)
    ensures
        is_single_line(validates_text(vs)),
    decreases vs.len(),
{
    reveal_strlit(", ");
    if vs.len() == 1 {
        lemma_validate_text_single_line(vs[0]);
    } else if vs.len() > 1 {
        lemma_validates_text_single_line(vs.drop_last());
        lemma_validate_text_single_line(vs.last());
        lemma_concat_single_line(validates_text(vs.drop_last()), ", "@);
        lemma_concat_single_line(validates_text(vs.drop_last()) + ", "@, validate_text(vs.last()));
    }
}

proof fn lemma_args_text_single_line(tag: Seq<char>, vs: Seq<ir::Validate>)
    requires
        is_single_line(tag),
    ensures
        is_single_line(args_text(tag, vs)),
{
    reveal_strlit("(:");
    reveal_strlit(")");
    reveal_strlit(", ");
    lemma_concat_single_line("(:"@, tag);
    if vs.len() == 0 {
        lemma_concat_single_line("(:"@ + tag, ")"@);
    } else {
        lemma_validates_text_single_line(vs);
        lemma_concat_single_line("(:"@ + tag, ", "@);
        lemma_concat_single_line("(:"@ + tag + ", "@, validates_text(vs));
        lemma_concat_single_line("(:"@ + tag + ", "@ + validates_text(vs), ")"@);
    }
}

proof fn lemma_type_names_single_line(t: ir::Type)
    ensures
        is_single_line(type_spec(t)),
        is_single_line(type_predicate(t)),
{
    reveal_strlit("integer");
    reveal_strlit("float");
    reveal_strlit("string");
    reveal_strlit("boolean");
    reveal_strlit("array");
    reveal_strlit("hash");
    reveal_strlit("int?");
    reveal_strlit("float?");
    reveal_strlit("str?");
    reveal_strlit("bool?");
    reveal_strlit("array?");
    reveal_strlit("hash?");
}

/// A macro chain ends where nothing is nested: a `.value` or `.each` call
/// with no nested macro or block renders on one line, opening no block.
pub proof fn lemma_leaf_renders_on_one_line(m: MacroModel, nesting: nat)
    requires
        match m {
            MacroModel::Value { nested, .. } => nested is None,
            MacroModel::Each { block, .. } => block is None,
        },
    ensures
        is_single_line(macro_text(m, nesting)),
{
    reveal_strlit(".value");
    reveal_strlit(".each");
    match m {
        MacroModel::Value { ty, validates, nested: _ } => {
            lemma_type_names_single_line(ty);
            lemma_args_text_single_line(type_spec(ty), validates);
            lemma_concat_single_line(".value"@, args_text(type_spec(ty), validates));
            assert(macro_text(m, nesting) =~= ".value"@ + args_text(type_spec(ty), validates));
        },
        MacroModel::Each { ty, validates, block: _ } => {
            lemma_type_names_single_line(ty);
            lemma_args_text_single_line(type_predicate(ty), validates);
            lemma_concat_single_line(".each"@, args_text(type_predicate(ty), validates));
            assert(macro_text(m, nesting) =~= ".each"@ + args_text(type_predicate(ty), validates));
        },
    }
}

} // verus!
