//! The uniform reflector: finds the uniform declarations in shader source
//! text and registers each in a table, with its location still unresolved.
//!
//! This is a lexical scan, no parser of the shading language: a declaration
//! inside a comment is found like any other, one that the preprocessor would
//! produce is not found, and a default runs to the last semicolon of its
//! line.

use vstd::prelude::*;
use vstd::string::*;
use vstd::utf8::*;
use crate::table::{KeyView, UniformMap};
use crate::uniform::{ShaderUniform, UniformType};

verus! {

/// The pattern of a uniform declaration: the word `uniform`, a type token, an
/// identifier, an optional default introduced by `=`, and a semicolon.
pub const UNIFORM_PATTERN: &'static str =
    r"(uniform)\s(?P<type>\w*)\s(?P<var>\w*)(\s?=\s?(?P<default>.*))?;";

/// The capture group of [`UNIFORM_PATTERN`] that holds the type token.
pub const TYPE_GROUP: usize = 2;

/// The capture group of [`UNIFORM_PATTERN`] that holds the identifier.
pub const NAME_GROUP: usize = 3;

/// The capture group of [`UNIFORM_PATTERN`] that holds the default literal.
pub const DEFAULT_GROUP: usize = 5;

/// The location of a uniform that was not resolved, or that the program does
/// not hold.
pub const LOCATION_NOT_FOUND: i32 = -1;

/// Why a source buffer could not be reflected.
#[derive(PartialEq, Eq, Structural, Copy, Clone, Debug)]
pub enum ReflectError {
    /// The buffer is not valid UTF-8.
    InvalidUtf8,
    /// The regular-expression engine did not accept the declaration pattern.
    PatternRejected,
}

/// What the table keeps for a reflected uniform.
pub struct UniformSlot {
    /// The location in the linked program, or [`LOCATION_NOT_FOUND`].
    pub location: i32,
    /// The text of the default literal; empty where the declaration has none.
    pub default_literal: String,
}

/// A [`UniformSlot`] as contracts see it.
pub struct SlotView {
    pub location: i32,
    pub default_literal: Seq<char>,
}

impl View for UniformSlot {
    type V = SlotView;

    open spec fn view(&self) -> SlotView {
        SlotView { location: self.location, default_literal: self.default_literal@ }
    }
}

impl UniformSlot {
    /// The value that the uniform starts from. `float_bits` is the bit
    /// pattern that the default literal denotes as a single-precision number,
    /// decoded by the caller; it is read for a `Float` only.
    pub fn default_value(&self, kind: UniformType, float_bits: Option<u32>) -> (value: ShaderUniform)
        ensures
            value == ShaderUniform::default_of(kind, self@.default_literal, float_bits),
    {
        ShaderUniform::from_uniform_type(kind, self.default_literal.as_str(), float_bits)
    }
}

/// The table of reflected uniforms.
pub type UniformTable = UniformMap<UniformSlot>;

/// One entry of a table as contracts see it: the key and what is kept for it.
pub type EntryView = (KeyView, SlotView);

/// What a table holds, in the order in which the keys were registered.
pub open spec fn listing(table: &UniformTable) -> Seq<EntryView> {
    Seq::new(table.keys().len(), |i: int| (table.keys()[i], table.values()[i]@))
}

/// Whether `entries` holds `key`.
pub open spec fn lists(entries: Seq<EntryView>, key: KeyView) -> bool {
    exists|i: int| 0 <= i < entries.len() && (#[trigger] entries[i]).0 == key
}

/// Whether no key is listed twice in `entries`.
pub open spec fn distinct_keys(entries: Seq<EntryView>) -> bool {
    forall|i: int, j: int|
        0 <= i < j < entries.len() ==> (#[trigger] entries[i]).0 != (#[trigger] entries[j]).0
}

/// A uniform declaration found in source text.
pub struct Declaration {
    pub name: Seq<char>,
    pub kind: UniformType,
    pub default_literal: Seq<char>,
}

impl Declaration {
    /// The key under which the declaration is registered.
    pub open spec fn key(self) -> KeyView {
        (self.name, self.kind)
    }

    /// What is kept for the declaration when it is first registered.
    pub open spec fn fresh_slot(self) -> SlotView {
        SlotView { location: LOCATION_NOT_FOUND, default_literal: self.default_literal }
    }
}

/// The declaration that the capture groups of one match describe: the type
/// token and the identifier must both have taken part in the match. A default
/// group that is missing or took no part gives the empty literal.
pub open spec fn declaration_of(groups: Seq<Option<Seq<char>>>) -> Option<Declaration> {
    if groups.len() > NAME_GROUP && groups[TYPE_GROUP as int] is Some
        && groups[NAME_GROUP as int] is Some {
        Some(
            Declaration {
                name: groups[NAME_GROUP as int]->0,
                kind: UniformType::of_token(groups[TYPE_GROUP as int]->0),
                default_literal: if groups.len() > DEFAULT_GROUP
                    && groups[DEFAULT_GROUP as int] is Some {
                    groups[DEFAULT_GROUP as int]->0
                } else {
                    Seq::empty()
                },
            },
        )
    } else {
        None
    }
}

/// Registers one declaration: a key that is listed already keeps its entry,
/// a new key is appended with its location unresolved.
pub open spec fn declared(entries: Seq<EntryView>, d: Declaration) -> Seq<EntryView> {
    if lists(entries, d.key()) {
        entries
    } else {
        entries.push((d.key(), d.fresh_slot()))
    }
}

/// Registers what one match describes, if it describes a declaration.
pub open spec fn registered(entries: Seq<EntryView>, groups: Seq<Option<Seq<char>>>) -> Seq<
    EntryView,
> {
    match declaration_of(groups) {
        Some(d) => declared(entries, d),
        None => entries,
    }
}

/// Registers the matches one after the other, first to last.
pub open spec fn registered_all(
    entries: Seq<EntryView>,
    matches: Seq<Seq<Option<Seq<char>>>>,
) -> Seq<EntryView>
    decreases matches.len(),
{
    if matches.len() == 0 {
        entries
    } else {
        registered(registered_all(entries, matches.drop_last()), matches.last())
    }
}

/// What the regular-expression engine finds for `pattern` in `haystack`: for
/// each match, first to last, the text of each capture group, or `None` for a
/// group that took no part in the match. `None` as a whole where the engine
/// does not accept the pattern.
pub uninterp spec fn regex_capture_groups(pattern: Seq<char>, haystack: Seq<char>) -> Option<
    Seq<Seq<Option<Seq<char>>>>,
>;

/// Runs the `regex` crate: `Regex::new` on `pattern`, then
/// `Regex::captures_iter` on `haystack`, and copies the text of every group of
/// every match (`Captures::iter`, `Match::as_str`).
///
/// Trusted: the result is what the engine computes from the two texts, which
/// the contract names and does not describe.
#[verifier::external_body]
fn capture_groups(pattern: &str, haystack: &str) -> (found: Option<Vec<Vec<Option<String>>>>)
    ensures
        found.deep_view() == regex_capture_groups(pattern@, haystack@),
{
    let compiled = regex::Regex::new(pattern).ok()?;
    let mut found = Vec::new();
    for captures in compiled.captures_iter(haystack) {
        found.push(captures.iter().map(|group| group.map(|m| m.as_str().to_string())).collect());
    }
    Some(found)
}

/// Runs `core::str::from_utf8`.
///
/// Trusted: the bytes are accepted exactly when they are valid UTF-8, and the
/// text then has these bytes as its encoding.
#[verifier::external_body]
fn utf8_text<'a>(bytes: &'a [u8]) -> (text: Option<&'a str>)
    ensures
        text is Some <==> valid_utf8(bytes@),
        text matches Some(t) ==> t.spec_bytes() == bytes@,
{
    core::str::from_utf8(bytes).ok()
}

/// The matches of the declaration pattern in a source buffer, or why the
/// buffer cannot be reflected.
pub open spec fn uniform_matches(source: Seq<u8>) -> Result<
    Seq<Seq<Option<Seq<char>>>>,
    ReflectError,
> {
    if !valid_utf8(source) {
        Err(ReflectError::InvalidUtf8)
    } else {
        match regex_capture_groups(UNIFORM_PATTERN@, decode_utf8(source)) {
            Some(matches) => Ok(matches),
            None => Err(ReflectError::PatternRejected),
        }
    }
}

/// The listing after the declarations of one more source buffer were
/// registered. A failure, of an earlier buffer or of this one, is final.
pub open spec fn reflected_then(
    previous: Result<Seq<EntryView>, ReflectError>,
    source: Seq<u8>,
) -> Result<Seq<EntryView>, ReflectError> {
    match previous {
        Ok(entries) => match uniform_matches(source) {
            Ok(matches) => Ok(registered_all(entries, matches)),
            Err(error) => Err(error),
        },
        Err(error) => Err(error),
    }
}

/// The uniforms of a program, from the sources of its stages: vertex, then
/// geometry if there is one, then fragment.
pub open spec fn program_uniforms(
    vertex: Seq<u8>,
    geometry: Option<Seq<u8>>,
    fragment: Seq<u8>,
) -> Result<Seq<EntryView>, ReflectError> {
    let after_vertex = reflected_then(Ok(Seq::empty()), vertex);
    let after_geometry = match geometry {
        Some(source) => reflected_then(after_vertex, source),
        None => after_vertex,
    };
    reflected_then(after_geometry, fragment)
}

/// Registers the declaration that one match describes. A key that the table
/// holds already keeps its location and its default: the first occurrence
/// wins.
pub fn register_match(groups: &Vec<Option<String>>, table: &mut UniformTable)
    requires
        old(table).wf(),
    ensures
        final(table).wf(),
        listing(final(table)) == registered(listing(old(table)), groups.deep_view()),
{
    let ghost before = *table;
    let ghost described = groups.deep_view();
    assert(described.len() == groups@.len());
    if groups.len() <= NAME_GROUP {
        return ;
    }
    assert(described[TYPE_GROUP as int] == groups@[TYPE_GROUP as int].deep_view());
    assert(described[NAME_GROUP as int] == groups@[NAME_GROUP as int].deep_view());
    let kind: UniformType = match &groups[TYPE_GROUP] {
        Some(token) => UniformType::from_token(token.as_str()),
        None => {
            return ;
        },
    };
    let name: String = match &groups[NAME_GROUP] {
        Some(name) => name.clone(),
        None => {
            return ;
        },
    };
    let default_literal: String = if groups.len() > DEFAULT_GROUP {
        assert(described[DEFAULT_GROUP as int] == groups@[DEFAULT_GROUP as int].deep_view());
        match &groups[DEFAULT_GROUP] {
            Some(text) => text.clone(),
            None => String::new(),
        }
    } else {
        String::new()
    };
    let ghost d = declaration_of(described)->0;
    assert(d.name == name@);
    assert(d.kind == kind);
    assert(d.default_literal == default_literal@);
    let slot = UniformSlot { location: LOCATION_NOT_FOUND, default_literal };
    let added = table.insert_if_absent(name, kind, slot);
    proof {
        before.lemma_domain();
        lemma_listing_lists(&before, d.key());
        if added {
            assert(listing(table) =~= listing(&before).push((d.key(), d.fresh_slot())));
        } else {
            assert(listing(table) =~= listing(&before));
        }
    }
}

/// Registers the declarations that a run of matches describes, first to last.
pub fn register_matches(matches: &Vec<Vec<Option<String>>>, table: &mut UniformTable)
    requires
        old(table).wf(),
    ensures
        final(table).wf(),
        listing(final(table)) == registered_all(listing(old(table)), matches.deep_view()),
{
    let ghost found = matches.deep_view();
    let mut i: usize = 0;
    assert(found.take(0) =~= Seq::empty());
    while i < matches.len()
        invariant
            i <= matches@.len(),
            found == matches.deep_view(),
            found.len() == matches@.len(),
            table.wf(),
            listing(table) == registered_all(listing(old(table)), found.take(i as int)),
        decreases matches@.len() - i,
    {
        assert(found[i as int] == matches@[i as int].deep_view());
        register_match(&matches[i], table);
        proof {
            let longer = found.take(i + 1);
            assert(longer.drop_last() =~= found.take(i as int));
            assert(longer.last() == found[i as int]);
        }
        i += 1;
    }
    assert(found.take(matches@.len() as int) =~= found);
}

/// Registers what the engine found in one source text: the declarations of
/// its matches, or nothing where it did not accept the pattern, which is
/// reported and leaves the table as it was.
pub fn register_found(found: Option<Vec<Vec<Option<String>>>>, table: &mut UniformTable) -> (outcome:
    Result<(), ReflectError>)
    requires
        old(table).wf(),
    ensures
        final(table).wf(),
        match found {
            Some(matches) => outcome == Ok::<(), ReflectError>(()) && listing(final(table))
                == registered_all(listing(old(table)), matches.deep_view()),
            None => outcome == Err::<(), ReflectError>(ReflectError::PatternRejected)
                && *final(table) == *old(table),
        },
{
    match found {
        Some(matches) => {
            register_matches(&matches, table);
            Ok(())
        },
        None => Err(ReflectError::PatternRejected),
    }
}

/// Finds the uniform declarations in `source` and registers each in `result`,
/// with its location unresolved. Tables of several stages merge by calling
/// this once per stage on the same table.
///
/// Fails, and leaves the table as it was, where `source` is not valid UTF-8 or
/// the engine does not accept the declaration pattern. An unknown type token
/// or an unreadable default is no failure.
pub fn parse_uniforms(source: &[u8], result: &mut UniformTable) -> (outcome: Result<
    (),
    ReflectError,
>)
    requires
        old(result).wf(),
    ensures
        final(result).wf(),
        match uniform_matches(source@) {
            Ok(matches) => outcome == Ok::<(), ReflectError>(()) && listing(final(result))
                == registered_all(listing(old(result)), matches),
            Err(error) => outcome == Err::<(), ReflectError>(error)
                && *final(result) == *old(result),
        },
{
    let text = match utf8_text(source) {
        Some(text) => text,
        None => {
            return Err(ReflectError::InvalidUtf8);
        },
    };
    proof {
        encode_utf8_decode_utf8(text@);
    }
    register_found(capture_groups(UNIFORM_PATTERN, text), result)
}

/// Whether `source` holds a declaration of the uniform `name` of type `kind`:
/// the source can be reflected, and one of the matches found in it describes
/// that declaration.
pub open spec fn declares(source: Seq<u8>, name: Seq<char>, kind: UniformType) -> bool {
    uniform_matches(source) matches Ok(matches) && exists|j: int|
        0 <= j < matches.len() && describes(#[trigger] matches[j], name, kind)
}

/// Whether the capture groups of a match describe a declaration of the
/// uniform `name` of type `kind`.
pub open spec fn describes(groups: Seq<Option<Seq<char>>>, name: Seq<char>, kind: UniformType) -> bool {
    declaration_of(groups) is Some && declaration_of(groups)->0.key() == (name, kind)
}

/// Registering a declaration a second time changes nothing: a uniform that is
/// declared twice has one entry, the first.
pub proof fn lemma_declared_twice(entries: Seq<EntryView>, d: Declaration)
    ensures
        lists(declared(entries, d), d.key()),
        declared(declared(entries, d), d) == declared(entries, d),
{
    let once = declared(entries, d);
    if !lists(entries, d.key()) {
        assert(once[entries.len() as int].0 == d.key());
    }
}

/// Registration keeps what is listed: no entry is dropped or changed, and
/// the entries that were there stay in front, in their order.
pub proof fn lemma_registered_all_extends(
    entries: Seq<EntryView>,
    matches: Seq<Seq<Option<Seq<char>>>>,
)
    ensures
        entries.len() <= registered_all(entries, matches).len(),
        registered_all(entries, matches).take(entries.len() as int) == entries,
        forall|key: KeyView|
            lists(entries, key) ==> lists(registered_all(entries, matches), key),
    decreases matches.len(),
{
    let after = registered_all(entries, matches);
    if matches.len() == 0 {
        assert(after.take(entries.len() as int) =~= entries);
    } else {
        let before = registered_all(entries, matches.drop_last());
        lemma_registered_all_extends(entries, matches.drop_last());
        assert(after.take(entries.len() as int) =~= before.take(entries.len() as int));
        assert forall|key: KeyView| lists(entries, key) implies lists(after, key) by {
            let i = choose|i: int| 0 <= i < before.len() && (#[trigger] before[i]).0 == key;
            assert(after[i].0 == key);
        }
    }
}

/// Every declaration that the matches describe is listed after registration,
/// whatever was listed before.
pub proof fn lemma_registered_all_lists(
    entries: Seq<EntryView>,
    matches: Seq<Seq<Option<Seq<char>>>>,
    j: int,
)
    requires
        0 <= j < matches.len(),
        declaration_of(matches[j]) is Some,
    ensures
        lists(registered_all(entries, matches), declaration_of(matches[j])->0.key()),
    decreases matches.len(),
{
    let d = declaration_of(matches[j])->0;
    let before = registered_all(entries, matches.drop_last());
    let after = registered_all(entries, matches);
    if j == matches.len() - 1 {
        lemma_declared_twice(before, d);
    } else {
        lemma_registered_all_lists(entries, matches.drop_last(), j);
        let i = choose|i: int| 0 <= i < before.len() && (#[trigger] before[i]).0 == d.key();
        assert(after[i].0 == d.key());
    }
}

/// Registration never lists a key twice.
pub proof fn lemma_registered_all_distinct(
    entries: Seq<EntryView>,
    matches: Seq<Seq<Option<Seq<char>>>>,
)
    requires
        distinct_keys(entries),
    ensures
        distinct_keys(registered_all(entries, matches)),
    decreases matches.len(),
{
    if matches.len() > 0 {
        lemma_registered_all_distinct(entries, matches.drop_last());
        let before = registered_all(entries, matches.drop_last());
        let after = registered_all(entries, matches);
        assert forall|i: int, j: int| 0 <= i < j < after.len() implies (#[trigger] after[i]).0 != (
        #[trigger] after[j]).0 by {
            if j < before.len() {
                assert(after[i] == before[i] && after[j] == before[j]);
            } else {
                assert(after[i] == before[i]);
            }
        }
    }
}

/// A uniform that a stage of the program declares is among the uniforms of
/// the program, provided that the sources of all stages can be reflected:
/// it has an entry, and only one.
pub proof fn lemma_declared_uniform_is_reflected(
    vertex: Seq<u8>,
    geometry: Option<Seq<u8>>,
    fragment: Seq<u8>,
    name: Seq<char>,
    kind: UniformType,
)
    requires
        program_uniforms(vertex, geometry, fragment) is Ok,
        declares(vertex, name, kind) || declares(fragment, name, kind) || (geometry matches Some(
            source,
        ) && declares(source, name, kind)),
    ensures
        lists(program_uniforms(vertex, geometry, fragment)->Ok_0, (name, kind)),
        distinct_keys(program_uniforms(vertex, geometry, fragment)->Ok_0),
{
    let none = Seq::<EntryView>::empty();
    let after_vertex = registered_all(none, uniform_matches(vertex)->Ok_0);
    lemma_registered_all_distinct(none, uniform_matches(vertex)->Ok_0);
    if declares(vertex, name, kind) {
        lemma_declares_lists(none, vertex, name, kind);
    }
    let after_geometry = match geometry {
        Some(source) => registered_all(after_vertex, uniform_matches(source)->Ok_0),
        None => after_vertex,
    };
    if let Some(source) = geometry {
        lemma_registered_all_distinct(after_vertex, uniform_matches(source)->Ok_0);
        lemma_registered_all_extends(after_vertex, uniform_matches(source)->Ok_0);
        if declares(source, name, kind) {
            lemma_declares_lists(after_vertex, source, name, kind);
        }
    }
    lemma_registered_all_distinct(after_geometry, uniform_matches(fragment)->Ok_0);
    lemma_registered_all_extends(after_geometry, uniform_matches(fragment)->Ok_0);
    if declares(fragment, name, kind) {
        lemma_declares_lists(after_geometry, fragment, name, kind);
    }
}

/// A declaration of a source is listed once the source is registered.
proof fn lemma_declares_lists(
    entries: Seq<EntryView>,
    source: Seq<u8>,
    name: Seq<char>,
    kind: UniformType,
)
    requires
        declares(source, name, kind),
    ensures
        lists(registered_all(entries, uniform_matches(source)->Ok_0), (name, kind)),
{
    let matches = uniform_matches(source)->Ok_0;
    let j = choose|j: int| 0 <= j < matches.len() && describes(#[trigger] matches[j], name, kind);
    lemma_registered_all_lists(entries, matches, j);
}

/// A key is listed exactly when the table holds it.
pub proof fn lemma_listing_lists(table: &UniformTable, key: KeyView)
    ensures
        lists(listing(table), key) <==> table.keys().contains(key),
{
    let entries = listing(table);
    if table.keys().contains(key) {
        let i = table.keys().index_of(key);
        assert(entries[i].0 == key);
    }
    if lists(entries, key) {
        let i = choose|i: int| 0 <= i < entries.len() && (#[trigger] entries[i]).0 == key;
        assert(table.keys()[i] == key);
    }
}

} // verus!
