//! Resolution of reference tokens: same-document component pointers and
//! external sources (local files and remote URLs), with one cache of
//! fetched fragments per kind.
//!
//! Fetching is not done here. Where a fragment is missing from the caches,
//! resolution stops with an [`Interrupt`] that says what to read; the
//! caller reads it, records it in the [`ReferenceDatabase`] and resolves
//! again.

use vstd::prelude::*;
use vstd::string::*;

use crate::document::{Document, Named, ParameterObject, PathItemObject, ReferenceOr, SchemaObject};
use crate::text::{ends_with, starts_with, text_eq};

verus! {

/// The kind of fragment a token is expected to stand for.
#[derive(Clone, Copy, PartialEq, Eq, Structural, Debug)]
pub enum FragmentKind {
    PathItem,
    Parameter,
    Schema,
}

/// The syntax of a fetched artifact.
#[derive(Clone, Copy, PartialEq, Eq, Structural, Debug)]
pub enum SupportFileType {
    Json,
    Yaml,
}

/// The identity of an external source: a canonical local path or a
/// remote URL as serialized by the URL parser.
pub enum SourceKey {
    Local(String),
    Remote(String),
}

pub enum SourceKeyModel {
    Local(Seq<char>),
    Remote(Seq<char>),
}

impl View for SourceKey {
    type V = SourceKeyModel;

    open spec fn view(&self) -> SourceKeyModel {
        match self {
            SourceKey::Local(p) => SourceKeyModel::Local(p@),
            SourceKey::Remote(u) => SourceKeyModel::Remote(u@),
        }
    }
}

/// The text of a source key.
pub open spec fn key_text(k: SourceKeyModel) -> Seq<char> {
    match k {
        SourceKeyModel::Local(p) => p,
        SourceKeyModel::Remote(u) => u,
    }
}

/// A fragment fetched from an external source.
pub struct CacheEntry<T> {
    pub key: SourceKey,
    pub fragment: ReferenceOr<T>,
}

/// A local path as a reference spells it, and its canonical form.
pub struct CanonicalPath {
    pub spelled: String,
    pub canonical: String,
}

/// What stops a resolution: a request to read something (a canonical path
/// or a fragment), or an error.
pub enum Interrupt {
    /// The canonical form of this local path is needed.
    NeedCanonicalPath { path: String },
    /// This source is to be fetched and parsed as a fragment of this kind.
    NeedFetch { kind: FragmentKind, key: SourceKey, file_type: SupportFileType },
    /// A same-document pointer that does not have the shape
    /// `#/components/{parameters|schemas}/<name>` for the expected kind.
    InvalidPointer { reference: String },
    /// A pointer to a component that the document does not hold.
    MissingComponent { name: String },
    /// A remote source that the URL parser refuses.
    InvalidUrl { source: String },
    /// A source whose extension is neither JSON nor YAML.
    UnknownFileType { source: String },
    /// A reference chain, or a nesting of references, that comes back to
    /// where it started.
    ReferenceCycle { reference: String },
}

pub enum InterruptModel {
    NeedCanonicalPath(Seq<char>),
    NeedFetch { kind: FragmentKind, key: SourceKeyModel, file_type: SupportFileType },
    InvalidPointer(Seq<char>),
    MissingComponent(Seq<char>),
    InvalidUrl(Seq<char>),
    UnknownFileType(Seq<char>),
    ReferenceCycle(Seq<char>),
}

impl View for Interrupt {
    type V = InterruptModel;

    open spec fn view(&self) -> InterruptModel {
        match self {
            Interrupt::NeedCanonicalPath { path } => InterruptModel::NeedCanonicalPath(path@),
            Interrupt::NeedFetch { kind, key, file_type } => InterruptModel::NeedFetch {
                kind: *kind,
                key: key@,
                file_type: *file_type,
            },
            Interrupt::InvalidPointer { reference } => InterruptModel::InvalidPointer(reference@),
            Interrupt::MissingComponent { name } => InterruptModel::MissingComponent(name@),
            Interrupt::InvalidUrl { source } => InterruptModel::InvalidUrl(source@),
            Interrupt::UnknownFileType { source } => InterruptModel::UnknownFileType(source@),
            Interrupt::ReferenceCycle { reference } => InterruptModel::ReferenceCycle(reference@),
        }
    }
}

/// What a token points at, before any lookup.
pub enum Target {
    Component(String),
    Local(String),
    Remote(String),
}

pub enum TargetModel {
    Component(Seq<char>),
    Local(Seq<char>),
    Remote(Seq<char>),
}

impl View for Target {
    type V = TargetModel;

    open spec fn view(&self) -> TargetModel {
        match self {
            Target::Component(n) => TargetModel::Component(n@),
            Target::Local(p) => TargetModel::Local(p@),
            Target::Remote(u) => TargetModel::Remote(u@),
        }
    }
}

/// Names the serialization of a URL as the `url` crate parses it, or
/// `None` where the parser refuses the text.
pub uninterp spec fn url_serialization(s: Seq<char>) -> Option<Seq<char>>;

/// Relies on `url::Url::parse` and on the serialization that the parsed
/// URL holds (`String::from(Url)`), which depend on the text alone.
#[verifier::external_body]
fn parse_url(s: &str) -> (r: Option<String>)
    ensures
        match r {
            Some(u) => url_serialization(s@) == Some(u@),
            None => url_serialization(s@) is None,
        },
{
    url::Url::parse(s).ok().map(String::from)
}

/// The component section word of a kind, where components of that kind
/// can be pointed at.
pub open spec fn kind_word(kind: FragmentKind) -> Option<Seq<char>> {
    match kind {
        FragmentKind::PathItem => None,
        FragmentKind::Parameter => Some("parameters"@),
        FragmentKind::Schema => Some("schemas"@),
    }
}

pub open spec fn pointer_prefix(word: Seq<char>) -> Seq<char> {
    "#/components/"@ + word + "/"@
}

/// The component name of a same-document pointer of the expected kind.
pub open spec fn pointer_name(token: Seq<char>, kind: FragmentKind) -> Option<Seq<char>> {
    match kind_word(kind) {
        None => None,
        Some(word) => {
            let p = pointer_prefix(word);
            let name = token.subrange(p.len() as int, token.len() as int);
            if p.len() <= token.len() && token.subrange(0, p.len() as int) == p && !name.contains(
                '/',
            ) && !name.contains('#') {
                Some(name)
            } else {
                None
            }
        },
    }
}

/// Index of the first `c` at or after `i`, or the length.
pub open spec fn index_from(t: Seq<char>, c: char, i: int) -> int
    decreases t.len() - i,
{
    if i >= t.len() {
        t.len() as int
    } else if t[i] == c {
        i
    } else {
        index_from(t, c, i + 1)
    }
}

/// The source part of an external token: what precedes its first `#`.
pub open spec fn source_of(token: Seq<char>) -> Seq<char> {
    token.subrange(0, index_from(token, '#', 0))
}

pub open spec fn is_remote(s: Seq<char>) -> bool {
    (7 <= s.len() && s.subrange(0, 7) == "http://"@) || (8 <= s.len() && s.subrange(0, 8)
        == "https://"@)
}

/// Classifies a token: a same-document pointer (starting with `#`) or an
/// external source.
pub open spec fn classify(token: Seq<char>, kind: FragmentKind) -> Result<TargetModel, InterruptModel> {
    if token.len() > 0 && token[0] == '#' {
        match pointer_name(token, kind) {
            Some(name) => Ok(TargetModel::Component(name)),
            None => Err(InterruptModel::InvalidPointer(token)),
        }
    } else {
        let s = source_of(token);
        if is_remote(s) {
            Ok(TargetModel::Remote(s))
        } else {
            Ok(TargetModel::Local(s))
        }
    }
}

/// Index of the first recorded canonical form of `spelled`, from `i` on.
pub open spec fn canonical_index(cs: Seq<CanonicalPath>, spelled: Seq<char>, i: int) -> Option<int>
    decreases cs.len() - i,
{
    if i < 0 || i >= cs.len() {
        None
    } else if cs[i].spelled@ == spelled {
        Some(i)
    } else {
        canonical_index(cs, spelled, i + 1)
    }
}

/// Index of the first cache entry under `key`, from `i` on.
pub open spec fn cache_index<T>(es: Seq<CacheEntry<T>>, key: SourceKeyModel, i: int) -> Option<int>
    decreases es.len() - i,
{
    if i < 0 || i >= es.len() {
        None
    } else if es[i].key@ == key {
        Some(i)
    } else {
        cache_index(es, key, i + 1)
    }
}

/// Index of the first component named `name`, from `i` on.
pub open spec fn component_index<T>(cs: Seq<Named<T>>, name: Seq<char>, i: int) -> Option<int>
    decreases cs.len() - i,
{
    if i < 0 || i >= cs.len() {
        None
    } else if cs[i].name@ == name {
        Some(i)
    } else {
        component_index(cs, name, i + 1)
    }
}

/// The source key of an external target.
pub open spec fn source_key(t: TargetModel, canon: Seq<CanonicalPath>) -> Result<SourceKeyModel, InterruptModel> {
    match t {
        TargetModel::Remote(s) => match url_serialization(s) {
            Some(u) => Ok(SourceKeyModel::Remote(u)),
            None => Err(InterruptModel::InvalidUrl(s)),
        },
        TargetModel::Local(s) => match canonical_index(canon, s, 0) {
            Some(i) => Ok(SourceKeyModel::Local(canon[i].canonical@)),
            None => Err(InterruptModel::NeedCanonicalPath(s)),
        },
        TargetModel::Component(n) => Err(InterruptModel::InvalidPointer(n)),
    }
}

/// Index of the last `c` before `i`, or -1.
pub open spec fn last_index_before(t: Seq<char>, c: char, i: int) -> int
    decreases i,
{
    if i <= 0 {
        -1
    } else if t[i - 1] == c {
        i - 1
    } else {
        last_index_before(t, c, i - 1)
    }
}

/// The end of the last segment of the first `n` characters of a path,
/// once trailing separators and trailing `.` segments are dropped.
pub open spec fn trimmed_end(p: Seq<char>, n: int) -> int
    decreases n,
{
    if n <= 0 || n > p.len() {
        0
    } else if p[n - 1] == '/' {
        trimmed_end(p, n - 1)
    } else if n >= 2 && p[n - 1] == '.' && p[n - 2] == '/' {
        trimmed_end(p, n - 1)
    } else {
        n
    }
}

/// Whether the path segment `p[start..end]` is `..`.
pub open spec fn is_parent_segment(p: Seq<char>, start: int, end: int) -> bool {
    end - start == 2 && p[start] == '.' && p[start + 1] == '.'
}

/// The extension of a path: what follows the last `.` of its last
/// segment, where that `.` is not the first character of the segment.
/// Trailing separators and trailing `.` segments are not segments; a last
/// segment `..` has no extension.
pub open spec fn extension(p: Seq<char>) -> Option<Seq<char>> {
    let end = trimmed_end(p, p.len() as int);
    let start = last_index_before(p, '/', end) + 1;
    let dot = last_index_before(p, '.', end);
    if dot > start && !is_parent_segment(p, start, end) {
        Some(p.subrange(dot + 1, end))
    } else {
        None
    }
}

/// Whether `s` spells the word given in lower and upper case, letter by
/// letter in either case.
pub open spec fn is_word_ignoring_case(s: Seq<char>, lower: Seq<char>, upper: Seq<char>) -> bool {
    s.len() == lower.len() && forall|i: int| 0 <= i < s.len() ==> s[i] == lower[i] || s[i] == upper[i]
}

/// The file type of a local path, by its extension in any case.
pub open spec fn path_file_type(p: Seq<char>) -> Option<SupportFileType> {
    match extension(p) {
        Some(e) => if is_word_ignoring_case(e, "json"@, "JSON"@) {
            Some(SupportFileType::Json)
        } else if is_word_ignoring_case(e, "yaml"@, "YAML"@) || is_word_ignoring_case(
            e,
            "yml"@,
            "YML"@,
        ) {
            Some(SupportFileType::Yaml)
        } else {
            None
        },
        None => None,
    }
}

pub open spec fn has_suffix(s: Seq<char>, suffix: Seq<char>) -> bool {
    suffix.len() <= s.len() && s.subrange(s.len() - suffix.len(), s.len() as int) == suffix
}

/// The file type of a remote URL, by the exact ending of its text.
pub open spec fn url_file_type(u: Seq<char>) -> Option<SupportFileType> {
    if has_suffix(u, ".json"@) {
        Some(SupportFileType::Json)
    } else if has_suffix(u, ".yaml"@) || has_suffix(u, ".yml"@) {
        Some(SupportFileType::Yaml)
    } else {
        None
    }
}

pub open spec fn key_file_type(k: SourceKeyModel) -> Option<SupportFileType> {
    match k {
        SourceKeyModel::Local(p) => path_file_type(p),
        SourceKeyModel::Remote(u) => url_file_type(u),
    }
}

/// The outcome of following a reference chain.
pub enum Followed<T> {
    Found(T),
    Halted(InterruptModel),
}

/// Follows a token to the item it finally stands for, hop by hop, for at
/// most `fuel` hops.
pub open spec fn follow<T>(
    components: Option<Seq<Named<T>>>,
    cache: Seq<CacheEntry<T>>,
    canon: Seq<CanonicalPath>,
    kind: FragmentKind,
    token: Seq<char>,
    fuel: nat,
) -> Followed<T>
    decreases fuel,
{
    if fuel == 0 {
        Followed::Halted(InterruptModel::ReferenceCycle(token))
    } else {
        match classify(token, kind) {
            Err(e) => Followed::Halted(e),
            Ok(TargetModel::Component(name)) => match components {
                None => Followed::Halted(InterruptModel::InvalidPointer(token)),
                Some(cs) => match component_index(cs, name, 0) {
                    None => Followed::Halted(InterruptModel::MissingComponent(name)),
                    Some(i) => match cs[i].value {
                        ReferenceOr::Item(x) => Followed::Found(x),
                        ReferenceOr::Reference { reference } => follow(
                            components,
                            cache,
                            canon,
                            kind,
                            reference@,
                            (fuel - 1) as nat,
                        ),
                    },
                },
            },
            Ok(target) => match source_key(target, canon) {
                Err(e) => Followed::Halted(e),
                Ok(key) => match cache_index(cache, key, 0) {
                    Some(i) => match cache[i].fragment {
                        ReferenceOr::Item(x) => Followed::Found(x),
                        ReferenceOr::Reference { reference } => follow(
                            components,
                            cache,
                            canon,
                            kind,
                            reference@,
                            (fuel - 1) as nat,
                        ),
                    },
                    None => match key_file_type(key) {
                        Some(ft) => Followed::Halted(
                            InterruptModel::NeedFetch { kind, key, file_type: ft },
                        ),
                        None => Followed::Halted(InterruptModel::UnknownFileType(key_text(key))),
                    },
                },
            },
        }
    }
}

pub open spec fn components_view<T>(cs: Option<&Vec<Named<T>>>) -> Option<Seq<Named<T>>> {
    match cs {
        Some(v) => Some(v@),
        None => None,
    }
}

/// Fetched fragments by source, one cache per kind, and the canonical
/// forms of the local paths met so far.
pub struct ReferenceDatabase {
    pub canonical_paths: Vec<CanonicalPath>,
    pub path_item_by_file: Vec<CacheEntry<PathItemObject>>,
    pub parameter_by_file: Vec<CacheEntry<ParameterObject>>,
    pub schema_by_file: Vec<CacheEntry<SchemaObject>>,
}

/// How many hops a chain may take: one more than the entries it could
/// visit, so that a longer chain has visited some entry twice.
pub open spec fn chain_fuel<T>(components: Option<Seq<Named<T>>>, cache: Seq<CacheEntry<T>>) -> nat {
    match components {
        Some(cs) => cs.len() + cache.len() + 1,
        None => cache.len() + 1,
    }
}

/// Resolution of a token that stands for a path item.
pub open spec fn resolve_path_item_spec(db: ReferenceDatabase, token: Seq<char>) -> Followed<PathItemObject> {
    follow(
        None,
        db.path_item_by_file@,
        db.canonical_paths@,
        FragmentKind::PathItem,
        token,
        chain_fuel(None, db.path_item_by_file@),
    )
}

/// Resolution of a token that stands for a parameter.
pub open spec fn resolve_parameter_spec(doc: Document, db: ReferenceDatabase, token: Seq<char>) -> Followed<ParameterObject> {
    follow(
        Some(doc.components.parameters@),
        db.parameter_by_file@,
        db.canonical_paths@,
        FragmentKind::Parameter,
        token,
        chain_fuel(Some(doc.components.parameters@), db.parameter_by_file@),
    )
}

/// Resolution of a token that stands for a schema.
pub open spec fn resolve_schema_spec(doc: Document, db: ReferenceDatabase, token: Seq<char>) -> Followed<SchemaObject> {
    follow(
        Some(doc.components.schemas@),
        db.schema_by_file@,
        db.canonical_paths@,
        FragmentKind::Schema,
        token,
        chain_fuel(Some(doc.components.schemas@), db.schema_by_file@),
    )
}

/// The cache after recording a fetched fragment: a source already held is
/// kept as it is.
pub open spec fn cache_after<T>(cache: Seq<CacheEntry<T>>, entry: CacheEntry<T>) -> Seq<CacheEntry<T>> {
    if cache_index(cache, entry.key@, 0) is None {
        cache.push(entry)
    } else {
        cache
    }
}

impl ReferenceDatabase {
    /// A database with nothing fetched.
    pub fn new() -> (r: Self)
        ensures
            r.canonical_paths@.len() == 0,
            r.path_item_by_file@.len() == 0,
            r.parameter_by_file@.len() == 0,
            r.schema_by_file@.len() == 0,
    {
        ReferenceDatabase {
            canonical_paths: Vec::new(),
            path_item_by_file: Vec::new(),
            parameter_by_file: Vec::new(),
            schema_by_file: Vec::new(),
        }
    }

    /// Records the canonical form of a local path; a path already recorded
    /// keeps its first form.
    pub fn record_canonical_path(&mut self, spelled: String, canonical: String)
        ensures
            canonical_index(old(self).canonical_paths@, spelled@, 0) is None ==> final(self).canonical_paths@
                == old(self).canonical_paths@.push(CanonicalPath { spelled, canonical }),
            canonical_index(old(self).canonical_paths@, spelled@, 0) is Some ==> final(self).canonical_paths@
                == old(self).canonical_paths@,
            final(self).path_item_by_file@ == old(self).path_item_by_file@,
            final(self).parameter_by_file@ == old(self).parameter_by_file@,
            final(self).schema_by_file@ == old(self).schema_by_file@,
    {
        if find_canonical(&self.canonical_paths, spelled.as_str()).is_none() {
            self.canonical_paths.push(CanonicalPath { spelled, canonical });
        }
    }

    /// Records a fetched path item.
    pub fn insert_path_item(&mut self, key: SourceKey, fragment: ReferenceOr<PathItemObject>)
        ensures
            final(self).path_item_by_file@ == cache_after(
                old(self).path_item_by_file@,
                CacheEntry { key, fragment },
            ),
            final(self).canonical_paths@ == old(self).canonical_paths@,
            final(self).parameter_by_file@ == old(self).parameter_by_file@,
            final(self).schema_by_file@ == old(self).schema_by_file@,
    {
        insert_entry(&mut self.path_item_by_file, key, fragment);
    }

    /// Records a fetched parameter.
    pub fn insert_parameter(&mut self, key: SourceKey, fragment: ReferenceOr<ParameterObject>)
        ensures
            final(self).parameter_by_file@ == cache_after(
                old(self).parameter_by_file@,
                CacheEntry { key, fragment },
            ),
            final(self).canonical_paths@ == old(self).canonical_paths@,
            final(self).path_item_by_file@ == old(self).path_item_by_file@,
            final(self).schema_by_file@ == old(self).schema_by_file@,
    {
        insert_entry(&mut self.parameter_by_file, key, fragment);
    }

    /// Records a fetched schema.
    pub fn insert_schema(&mut self, key: SourceKey, fragment: ReferenceOr<SchemaObject>)
        ensures
            final(self).schema_by_file@ == cache_after(
                old(self).schema_by_file@,
                CacheEntry { key, fragment },
            ),
            final(self).canonical_paths@ == old(self).canonical_paths@,
            final(self).path_item_by_file@ == old(self).path_item_by_file@,
            final(self).parameter_by_file@ == old(self).parameter_by_file@,
    {
        insert_entry(&mut self.schema_by_file, key, fragment);
    }

    /// Resolves a token that stands for a path item.
    pub fn resolve_path_item<'a>(&'a self, reference: &str) -> (r: Result<&'a PathItemObject, Interrupt>)
        ensures
            match r {
                Ok(x) => resolve_path_item_spec(*self, reference@) == Followed::Found(*x),
                Err(e) => resolve_path_item_spec(*self, reference@) == Followed::<PathItemObject>::Halted(e@),
            },
    {
        let fuel = self.path_item_by_file.len() as u128 + 1;
        follow_chain(None, &self.path_item_by_file, &self.canonical_paths, FragmentKind::PathItem, reference, fuel)
    }

    /// Resolves a token that stands for a parameter.
    pub fn resolve_parameter<'a>(&'a self, doc: &'a Document, reference: &str) -> (r: Result<&'a ParameterObject, Interrupt>)
        ensures
            match r {
                Ok(x) => resolve_parameter_spec(*doc, *self, reference@) == Followed::Found(*x),
                Err(e) => resolve_parameter_spec(*doc, *self, reference@) == Followed::<ParameterObject>::Halted(e@),
            },
    {
        let fuel = doc.components.parameters.len() as u128 + self.parameter_by_file.len() as u128 + 1;
        follow_chain(
            Some(&doc.components.parameters),
            &self.parameter_by_file,
            &self.canonical_paths,
            FragmentKind::Parameter,
            reference,
            fuel,
        )
    }

    /// Resolves a token that stands for a schema.
    pub fn resolve_schema<'a>(&'a self, doc: &'a Document, reference: &str) -> (r: Result<&'a SchemaObject, Interrupt>)
        ensures
            match r {
                Ok(x) => resolve_schema_spec(*doc, *self, reference@) == Followed::Found(*x),
                Err(e) => resolve_schema_spec(*doc, *self, reference@) == Followed::<SchemaObject>::Halted(e@),
            },
    {
        let fuel = doc.components.schemas.len() as u128 + self.schema_by_file.len() as u128 + 1;
        follow_chain(
            Some(&doc.components.schemas),
            &self.schema_by_file,
            &self.canonical_paths,
            FragmentKind::Schema,
            reference,
            fuel,
        )
    }
}

fn insert_entry<T>(cache: &mut Vec<CacheEntry<T>>, key: SourceKey, fragment: ReferenceOr<T>)
    ensures
        final(cache)@ == cache_after(old(cache)@, CacheEntry { key, fragment }),
{
    if find_cached(cache, &key).is_none() {
        cache.push(CacheEntry { key, fragment });
    }
}

fn find_canonical(cs: &Vec<CanonicalPath>, spelled: &str) -> (r: Option<usize>)
    ensures
        match r {
            Some(i) => i < cs@.len() && canonical_index(cs@, spelled@, 0) == Some(i as int),
            None => canonical_index(cs@, spelled@, 0) is None,
        },
{
    let mut i: usize = 0;
    while i < cs.len()
        invariant
            i <= cs@.len(),
            canonical_index(cs@, spelled@, 0) == canonical_index(cs@, spelled@, i as int),
        decreases cs@.len() - i,
    {
        if text_eq(cs[i].spelled.as_str(), spelled) {
            return Some(i);
        }
        i = i + 1;
    }
    None
}

fn find_component<T>(cs: &Vec<Named<T>>, name: &str) -> (r: Option<usize>)
    ensures
        match r {
            Some(i) => i < cs@.len() && component_index(cs@, name@, 0) == Some(i as int),
            None => component_index(cs@, name@, 0) is None,
        },
{
    let mut i: usize = 0;
    while i < cs.len()
        invariant
            i <= cs@.len(),
            component_index(cs@, name@, 0) == component_index(cs@, name@, i as int),
        decreases cs@.len() - i,
    {
        if text_eq(cs[i].name.as_str(), name) {
            return Some(i);
        }
        i = i + 1;
    }
    None
}

fn same_key(a: &SourceKey, b: &SourceKey) -> (r: bool)
    ensures
        r == (a@ == b@),
{
    match (a, b) {
        (SourceKey::Local(x), SourceKey::Local(y)) => text_eq(x.as_str(), y.as_str()),
        (SourceKey::Remote(x), SourceKey::Remote(y)) => text_eq(x.as_str(), y.as_str()),
        _ => false,
    }
}

fn find_cached<T>(es: &Vec<CacheEntry<T>>, key: &SourceKey) -> (r: Option<usize>)
    ensures
        match r {
            Some(i) => i < es@.len() && cache_index(es@, key@, 0) == Some(i as int),
            None => cache_index(es@, key@, 0) is None,
        },
{
    let mut i: usize = 0;
    while i < es.len()
        invariant
            i <= es@.len(),
            cache_index(es@, key@, 0) == cache_index(es@, key@, i as int),
        decreases es@.len() - i,
    {
        if same_key(&es[i].key, key) {
            return Some(i);
        }
        i = i + 1;
    }
    None
}

/// Index of the first `c` in `t`, or its length.
fn find_char(t: &str, c: char) -> (r: usize)
    ensures
        r <= t@.len(),
        r as int == index_from(t@, c, 0),
{
    let n = t.unicode_len();
    let mut i: usize = 0;
    while i < n
        invariant
            n == t@.len(),
            i <= n,
            index_from(t@, c, 0) == index_from(t@, c, i as int),
        decreases n - i,
    {
        if t.get_char(i) == c {
            return i;
        }
        i = i + 1;
    }
    n
}

/// Index of the last `c` in `t`.
/// The end of the last segment of `t`, without trailing separators and
/// trailing `.` segments.
fn trimmed_length(t: &str, n: usize) -> (r: usize)
    requires
        n == t@.len(),
    ensures
        r <= n,
        r as int == trimmed_end(t@, n as int),
{
    let mut i: usize = n;
    while i > 0
        invariant
            n == t@.len(),
            i <= n,
            trimmed_end(t@, n as int) == trimmed_end(t@, i as int),
        decreases i,
    {
        let last = t.get_char(i - 1);
        if last == '/' || (i >= 2 && last == '.' && t.get_char(i - 2) == '/') {
            i = i - 1;
        } else {
            return i;
        }
    }
    0
}

/// Index of the last `c` among the first `end` characters of `t`.
fn find_last_char(t: &str, c: char, end: usize) -> (r: Option<usize>)
    requires
        end <= t@.len(),
    ensures
        match r {
            Some(i) => i < end && last_index_before(t@, c, end as int) == i as int,
            None => last_index_before(t@, c, end as int) == -1,
        },
{
    let n = end;
    let mut i: usize = n;
    while i > 0
        invariant
            n <= t@.len(),
            n == end,
            i <= n,
            last_index_before(t@, c, n as int) == last_index_before(t@, c, i as int),
        decreases i,
    {
        if t.get_char(i - 1) == c {
            return Some(i - 1);
        }
        i = i - 1;
    }
    None
}

fn contains_char(t: &str, c: char) -> (r: bool)
    ensures
        r == t@.contains(c),
{
    let n = t.unicode_len();
    let mut i: usize = 0;
    while i < n
        invariant
            n == t@.len(),
            i <= n,
            forall|j: int| 0 <= j < i ==> t@[j] != c,
        decreases n - i,
    {
        if t.get_char(i) == c {
            return true;
        }
        i = i + 1;
    }
    false
}

fn is_word_ignoring_case_exec(s: &str, lower: &str, upper: &str) -> (r: bool)
    requires
        lower@.len() == upper@.len(),
    ensures
        r == is_word_ignoring_case(s@, lower@, upper@),
{
    let n = s.unicode_len();
    if n != lower.unicode_len() {
        return false;
    }
    let mut i: usize = 0;
    while i < n
        invariant
            n == s@.len(),
            n == lower@.len(),
            n == upper@.len(),
            i <= n,
            forall|j: int| 0 <= j < i ==> s@[j] == lower@[j] || s@[j] == upper@[j],
        decreases n - i,
    {
        let ch = s.get_char(i);
        if ch != lower.get_char(i) && ch != upper.get_char(i) {
            return false;
        }
        i = i + 1;
    }
    true
}

/// The file type of a local path, by its extension in any case.
pub fn select_file_type(path: &str) -> (r: Option<SupportFileType>)
    ensures
        r == path_file_type(path@),
{
    let n = path.unicode_len();
    let end = trimmed_length(path, n);
    let start: usize = match find_last_char(path, '/', end) {
        Some(i) => i + 1,
        None => 0,
    };
    let dot = match find_last_char(path, '.', end) {
        Some(d) => d,
        None => return None,
    };
    if dot <= start {
        return None;
    }
    if end - start == 2 && path.get_char(start) == '.' && path.get_char(start + 1) == '.' {
        return None;
    }
    let ext = path.substring_char(dot + 1, end);
    proof {
        reveal_strlit("json");
        reveal_strlit("JSON");
        reveal_strlit("yaml");
        reveal_strlit("YAML");
        reveal_strlit("yml");
        reveal_strlit("YML");
    }
    if is_word_ignoring_case_exec(ext, "json", "JSON") {
        Some(SupportFileType::Json)
    } else if is_word_ignoring_case_exec(ext, "yaml", "YAML") || is_word_ignoring_case_exec(
        ext,
        "yml",
        "YML",
    ) {
        Some(SupportFileType::Yaml)
    } else {
        None
    }
}

/// The file type of a source, by the extension of its path or the ending
/// of its URL.
pub fn key_file_type_of(key: &SourceKey) -> (r: Option<SupportFileType>)
    ensures
        r == key_file_type(key@),
{
    match key {
        SourceKey::Local(p) => select_file_type(p.as_str()),
        SourceKey::Remote(u) => {
            if ends_with(u.as_str(), ".json") {
                Some(SupportFileType::Json)
            } else if ends_with(u.as_str(), ".yaml") || ends_with(u.as_str(), ".yml") {
                Some(SupportFileType::Yaml)
            } else {
                None
            }
        },
    }
}

/// Classifies a token as a component pointer or an external source.
pub fn classify_token(token: &str, kind: FragmentKind) -> (r: Result<Target, Interrupt>)
    ensures
        match r {
            Ok(t) => classify(token@, kind) == Ok::<TargetModel, InterruptModel>(t@),
            Err(e) => classify(token@, kind) == Err::<TargetModel, InterruptModel>(e@),
        },
{
    let n = token.unicode_len();
    if n > 0 && token.get_char(0) == '#' {
        let word: Option<&str> = match kind {
            FragmentKind::PathItem => None,
            FragmentKind::Parameter => Some("parameters"),
            FragmentKind::Schema => Some("schemas"),
        };
        match word {
            Some(w) => {
                let prefix = String::from_str("#/components/").concat(w).concat("/");
                let k = prefix.unicode_len();
                if k <= n && starts_with(token, prefix.as_str()) {
                    let name = token.substring_char(k, n);
                    if !contains_char(name, '/') && !contains_char(name, '#') {
                        return Ok(Target::Component(String::from_str(name)));
                    }
                }
                Err(Interrupt::InvalidPointer { reference: String::from_str(token) })
            },
            None => Err(Interrupt::InvalidPointer { reference: String::from_str(token) }),
        }
    } else {
        let end = find_char(token, '#');
        let source = token.substring_char(0, end);
        if starts_with(source, "http://") || starts_with(source, "https://") {
            proof {
                reveal_strlit("http://");
                reveal_strlit("https://");
            }
            Ok(Target::Remote(String::from_str(source)))
        } else {
            proof {
                reveal_strlit("http://");
                reveal_strlit("https://");
            }
            Ok(Target::Local(String::from_str(source)))
        }
    }
}

/// The source key of an external target.
pub fn source_key_of(canon: &Vec<CanonicalPath>, target: Target) -> (r: Result<SourceKey, Interrupt>)
    ensures
        match r {
            Ok(k) => source_key(target@, canon@) == Ok::<SourceKeyModel, InterruptModel>(k@),
            Err(e) => source_key(target@, canon@) == Err::<SourceKeyModel, InterruptModel>(e@),
        },
{
    match target {
        Target::Remote(s) => match parse_url(s.as_str()) {
            Some(u) => Ok(SourceKey::Remote(u)),
            None => Err(Interrupt::InvalidUrl { source: s }),
        },
        Target::Local(s) => match find_canonical(canon, s.as_str()) {
            Some(i) => Ok(SourceKey::Local(canon[i].canonical.clone())),
            None => Err(Interrupt::NeedCanonicalPath { path: s }),
        },
        Target::Component(n) => Err(Interrupt::InvalidPointer { reference: n }),
    }
}

fn key_string(key: &SourceKey) -> (r: String)
    ensures
        r@ == key_text(key@),
{
    match key {
        SourceKey::Local(p) => p.clone(),
        SourceKey::Remote(u) => u.clone(),
    }
}

/// Follows a token to the item it finally stands for.
fn follow_chain<'a, T>(
    components: Option<&'a Vec<Named<T>>>,
    cache: &'a Vec<CacheEntry<T>>,
    canon: &Vec<CanonicalPath>,
    kind: FragmentKind,
    token: &str,
    fuel: u128,
) -> (r: Result<&'a T, Interrupt>)
    ensures
        match r {
            Ok(x) => follow(components_view(components), cache@, canon@, kind, token@, fuel as nat)
                == Followed::Found(*x),
            Err(e) => follow(components_view(components), cache@, canon@, kind, token@, fuel as nat)
                == Followed::<T>::Halted(e@),
        },
    decreases fuel,
{
    if fuel == 0 {
        return Err(Interrupt::ReferenceCycle { reference: String::from_str(token) });
    }
    let target = match classify_token(token, kind) {
        Ok(t) => t,
        Err(e) => return Err(e),
    };
    let ghost target_model = target@;
    let fragment: &'a ReferenceOr<T> = match target {
        Target::Component(name) => match components {
            None => return Err(Interrupt::InvalidPointer { reference: String::from_str(token) }),
            Some(cs) => match find_component(cs, name.as_str()) {
                None => return Err(Interrupt::MissingComponent { name }),
                Some(i) => &cs[i].value,
            },
        },
        other => {
            let key = match source_key_of(canon, other) {
                Ok(k) => k,
                Err(e) => return Err(e),
            };
            match find_cached(cache, &key) {
                Some(i) => &cache[i].fragment,
                None => match key_file_type_of(&key) {
                    Some(ft) => return Err(Interrupt::NeedFetch { kind, key, file_type: ft }),
                    None => {
                        let source = key_string(&key);
                        return Err(Interrupt::UnknownFileType { source });
                    },
                },
            }
        },
    };
    match fragment {
        ReferenceOr::Item(x) => Ok(x),
        ReferenceOr::Reference { reference } => follow_chain(
            components,
            cache,
            canon,
            kind,
            reference.as_str(),
            fuel - 1,
        ),
    }
}

} // verus!
