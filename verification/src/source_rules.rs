//! The architecture laws that the compiler cannot enforce, as pure rules over
//! the text of a source file.
//!
//! They are kept apart from walking the disk on purpose: a rule that asserts an
//! absence ("nobody reads hardware") looks the same whether the law holds or
//! the detector is blind. The only way to tell them apart is to plant a
//! violation in invented text and demand that the rule sees it.

use vstd::prelude::*;
use vstd::string::StrSliceExecFns;

use crate::text::{
    absent_between, chars_of, contains_chars, find_from, first_from, matches_at, occurs_at,
    same_text, text_contains,
};

verus! {

broadcast use vstd::string::group_string_axioms;

// ---------------------------------------------------------------------------
// Production text: everything before the test module.
// ---------------------------------------------------------------------------

/// A test module is declared at position `i`: a `#[cfg(test)]` line followed
/// by `mod`, `pub mod` or `pub(crate) mod`. A `#[cfg(test)]` over anything else
/// (a loose fixture function) is not the start of the tests.
pub open spec fn test_module_starts_at(s: Seq<char>, i: int) -> bool {
    ||| occurs_at(s, "#[cfg(test)]\nmod "@, i)
    ||| occurs_at(s, "#[cfg(test)]\npub mod "@, i)
    ||| occurs_at(s, "#[cfg(test)]\npub(crate) mod "@, i)
}

/// `k` is where production code ends: the first test module, or the end of
/// the text when there is none.
pub open spec fn is_production_cut(s: Seq<char>, k: int) -> bool {
    &&& 0 <= k <= s.len()
    &&& forall|j: int| 0 <= j < k ==> !#[trigger] test_module_starts_at(s, j)
    &&& (test_module_starts_at(s, k) || (k == s.len() && forall|i: int|
        !#[trigger] test_module_starts_at(s, i)))
}

/// Where production code ends.
pub open spec fn production_cut(s: Seq<char>) -> int {
    choose|k: int| is_production_cut(s, k)
}

/// The production part of a source file: its text up to the test module.
pub open spec fn production_prefix(s: Seq<char>) -> Seq<char> {
    s.take(production_cut(s))
}

/// There is one place where production code ends.
pub proof fn lemma_production_cut_is_unique(s: Seq<char>, k: int)
    requires
        is_production_cut(s, k),
    ensures
        production_cut(s) == k,
{
    let c = production_cut(s);
    assert(is_production_cut(s, c));
    if c < k {
        assert(!test_module_starts_at(s, c));
    } else if k < c {
        assert(!test_module_starts_at(s, k));
    }
}

/// Production code is exactly what precedes the first test module: what the
/// tests hold is invisible to the rules, and a test module at the end cannot
/// hide anything written before it.
pub proof fn production_is_what_precedes_the_tests(prod: Seq<char>, tests: Seq<char>)
    requires
        forall|j: int| 0 <= j < prod.len() ==> !#[trigger] test_module_starts_at(prod + tests, j),
        test_module_starts_at(prod + tests, prod.len() as int),
    ensures
        production_prefix(prod + tests) == prod,
{
    lemma_production_cut_is_unique(prod + tests, prod.len() as int);
    assert((prod + tests).take(prod.len() as int) =~= prod);
}

/// A file without a test module is production code from end to end.
pub proof fn a_file_without_tests_is_all_production(s: Seq<char>)
    requires
        forall|i: int| !#[trigger] test_module_starts_at(s, i),
    ensures
        production_prefix(s) == s,
{
    lemma_production_cut_is_unique(s, s.len() as int);
    assert(s.take(s.len() as int) =~= s);
}

/// How many characters of `s` are production code.
fn production_len(s: &Vec<char>) -> (k: usize)
    ensures
        k <= s.len(),
        production_cut(s@) == k as int,
{
    let m1 = chars_of("#[cfg(test)]\nmod ");
    let m2 = chars_of("#[cfg(test)]\npub mod ");
    let m3 = chars_of("#[cfg(test)]\npub(crate) mod ");
    proof {
        reveal_strlit("#[cfg(test)]\nmod ");
        reveal_strlit("#[cfg(test)]\npub mod ");
        reveal_strlit("#[cfg(test)]\npub(crate) mod ");
    }
    let f1 = find_from(s, &m1, 0);
    let f2 = find_from(s, &m2, 0);
    let f3 = find_from(s, &m3, 0);
    let mut k: usize = s.len();
    match f1 {
        Some(p) => { if p < k { k = p; } },
        None => {},
    }
    match f2 {
        Some(p) => { if p < k { k = p; } },
        None => {},
    }
    match f3 {
        Some(p) => { if p < k { k = p; } },
        None => {},
    }
    proof {
        assert forall|j: int| 0 <= j < k implies !#[trigger] test_module_starts_at(s@, j) by {
            assert(!occurs_at(s@, m1@, j));
            assert(!occurs_at(s@, m2@, j));
            assert(!occurs_at(s@, m3@, j));
        }
        if !test_module_starts_at(s@, k as int) {
            assert(f1 is None && f2 is None && f3 is None);
            assert forall|i: int| !#[trigger] test_module_starts_at(s@, i) by {
                if 0 <= i <= s@.len() {
                    assert(!occurs_at(s@, m1@, i));
                    assert(!occurs_at(s@, m2@, i));
                    assert(!occurs_at(s@, m3@, i));
                }
            }
        }
        lemma_production_cut_is_unique(s@, k as int);
    }
    k
}

/// The production characters of a source file.
fn production_chars(contents: &str) -> (p: Vec<char>)
    ensures
        p@ == production_prefix(contents@),
{
    let mut all = chars_of(contents);
    let k = production_len(&all);
    all.truncate(k);
    all
}

/// The production part of a source file: everything before its test module.
///
/// The cut is the test module, not the first `#[cfg(test)]`: an attribute over
/// a loose fixture function halfway down a file must not blind the rules to
/// everything after it.
pub fn production_source(contents: &str) -> (production: &str)
    ensures
        production@ == production_prefix(contents@),
{
    let all = chars_of(contents);
    let k = production_len(&all);
    contents.substring_char(0, k)
}

// ---------------------------------------------------------------------------
// The rules.
// ---------------------------------------------------------------------------

/// What reading hardware means: the types through which raw input enters a
/// system. A bare `KeyCode` is a value, not a read, and is not among them.
pub open spec fn names_hardware(s: Seq<char>) -> bool {
    ||| text_contains(s, "ButtonInput<"@)
    ||| text_contains(s, "AccumulatedMouseMotion"@)
    ||| text_contains(s, "AccumulatedMouseScroll"@)
    ||| text_contains(s, "MouseMotion"@)
    ||| text_contains(s, "MouseWheel"@)
    ||| text_contains(s, "MouseButtonInput"@)
    ||| text_contains(s, "KeyboardInput"@)
    ||| text_contains(s, "GamepadButton"@)
    ||| text_contains(s, "Touches"@)
}

/// The raw-input types a production file may not read.
pub open spec fn hardware_types() -> Seq<Seq<char>> {
    seq![
        "ButtonInput<"@,
        "AccumulatedMouseMotion"@,
        "AccumulatedMouseScroll"@,
        "MouseMotion"@,
        "MouseWheel"@,
        "MouseButtonInput"@,
        "KeyboardInput"@,
        "GamepadButton"@,
        "Touches"@,
    ]
}

/// A text reads hardware exactly when it names one of the raw-input types:
/// every listed type is flagged, and nothing else is (a bare `KeyCode` is a
/// value in a binding table, not a read).
pub proof fn every_listed_hardware_type_is_flagged(s: Seq<char>)
    ensures
        names_hardware(s) <==> exists|i: int|
            0 <= i < hardware_types().len() && text_contains(s, #[trigger] hardware_types()[i]),
{
    let h = hardware_types();
    if names_hardware(s) {
        if text_contains(s, "ButtonInput<"@) {
            assert(text_contains(s, h[0]));
        } else if text_contains(s, "AccumulatedMouseMotion"@) {
            assert(text_contains(s, h[1]));
        } else if text_contains(s, "AccumulatedMouseScroll"@) {
            assert(text_contains(s, h[2]));
        } else if text_contains(s, "MouseMotion"@) {
            assert(text_contains(s, h[3]));
        } else if text_contains(s, "MouseWheel"@) {
            assert(text_contains(s, h[4]));
        } else if text_contains(s, "MouseButtonInput"@) {
            assert(text_contains(s, h[5]));
        } else if text_contains(s, "KeyboardInput"@) {
            assert(text_contains(s, h[6]));
        } else if text_contains(s, "GamepadButton"@) {
            assert(text_contains(s, h[7]));
        } else {
            assert(text_contains(s, h[8]));
        }
    }
}

/// Whether `pat` occurs in `s`, for a pattern given as a string.
fn has(s: &Vec<char>, pat: &str) -> (found: bool)
    ensures
        found == text_contains(s@, pat@),
{
    let p = chars_of(pat);
    contains_chars(s, &p)
}

/// Whether the production part of a file reads hardware directly instead of
/// consuming typed actions.
pub fn reads_hardware(contents: &str) -> (reads: bool)
    ensures
        reads == names_hardware(production_prefix(contents@)),
{
    let s = production_chars(contents);
    has(&s, "ButtonInput<") || has(&s, "AccumulatedMouseMotion") || has(
        &s,
        "AccumulatedMouseScroll",
    ) || has(&s, "MouseMotion") || has(&s, "MouseWheel") || has(&s, "MouseButtonInput") || has(
        &s,
        "KeyboardInput",
    ) || has(&s, "GamepadButton") || has(&s, "Touches")
}

/// Whether the production part of a file holds an `unsafe` block or item.
pub fn has_unsafe(contents: &str) -> (found: bool)
    ensures
        found == (text_contains(production_prefix(contents@), "unsafe "@) || text_contains(
            production_prefix(contents@),
            "unsafe{"@,
        )),
{
    let s = production_chars(contents);
    has(&s, "unsafe ") || has(&s, "unsafe{")
}

/// Whether a file reaches the whole engine facade or the physics engine.
pub fn reaches_facade_or_physics(source: &str) -> (reaches: bool)
    ensures
        reaches == (text_contains(source@, "use bevy::"@) || text_contains(source@, "avian3d"@)),
{
    let s = chars_of(source);
    has(&s, "use bevy::") || has(&s, "avian3d")
}

/// Whether a file reaches rendering: the engine facade, meshes or materials.
pub fn reaches_rendering(source: &str) -> (reaches: bool)
    ensures
        reaches == (text_contains(source@, "use bevy::"@) || text_contains(source@, "Mesh"@)
            || text_contains(source@, "StandardMaterial"@)),
{
    let s = chars_of(source);
    has(&s, "use bevy::") || has(&s, "Mesh") || has(&s, "StandardMaterial")
}

/// Whether a file names the simulation crate at all.
pub fn names_the_simulation_crate(contents: &str) -> (names: bool)
    ensures
        names == text_contains(contents@, "bof_simulation"@),
{
    let s = chars_of(contents);
    has(&s, "bof_simulation")
}

// ---------------------------------------------------------------------------
// Installing a plugin of the simulation crate.
// ---------------------------------------------------------------------------

/// The argument of an `add_plugins` call whose name ends at `a`: the text up to
/// the first `);` at `c`, provided no other `add_plugins` starts before that
/// `);` ends. Only the call's own argument counts; without that bound any later
/// mention of the crate in the file would look like an installed plugin.
pub open spec fn plugin_call_argument(s: Seq<char>, a: int, c: int) -> bool {
    &&& a >= 11
    &&& occurs_at(s, "add_plugins"@, a - 11)
    &&& first_from(s, ");"@, a, c)
    &&& absent_between(s, "add_plugins"@, a, c + 2)
}

/// Inside the argument `[a, c)`, a path into the simulation crate starts at `p`
/// and does not go on with `SimulationPlugin`, the one root plugin that the
/// application itself installs.
pub open spec fn names_an_inner_plugin(s: Seq<char>, a: int, c: int, p: int) -> bool {
    &&& a <= p
    &&& p + 16 <= c
    &&& occurs_at(s, "bof_simulation::"@, p)
    &&& !(p + 32 <= c && occurs_at(s, "SimulationPlugin"@, p + 16))
}

/// The `add_plugins` call whose name ends at `a` installs an inner plugin.
pub open spec fn call_installs_inner_plugin(s: Seq<char>, a: int) -> bool {
    exists|c: int, p: int| plugin_call_argument(s, a, c) && names_an_inner_plugin(s, a, c, p)
}

/// Some `add_plugins` call in the production text installs a plugin that the
/// simulation's root plugin already registers.
pub open spec fn installs_inner_plugin(contents: Seq<char>) -> bool {
    exists|a: int| call_installs_inner_plugin(production_prefix(contents), a)
}

/// Whether some path into the simulation crate inside `[a, c)` is not the root
/// plugin.
fn argument_names_inner_plugin(s: &Vec<char>, a: usize, c: usize) -> (found: bool)
    requires
        a <= c <= s.len(),
    ensures
        found == exists|p: int| names_an_inner_plugin(s@, a as int, c as int, p),
{
    let sim = chars_of("bof_simulation::");
    let root = chars_of("SimulationPlugin");
    proof {
        reveal_strlit("bof_simulation::");
        reveal_strlit("SimulationPlugin");
    }
    if c - a < 16 {
        assert forall|p: int| !names_an_inner_plugin(s@, a as int, c as int, p) by {}
        return false;
    }
    let mut p: usize = a;
    while p <= c - 16
        invariant
            a <= p,
            a + 16 <= c <= s.len(),
            sim@ == "bof_simulation::"@,
            root@ == "SimulationPlugin"@,
            forall|q: int| q < p ==> !#[trigger] names_an_inner_plugin(s@, a as int, c as int, q),
        decreases c - p,
    {
        proof {
            reveal_strlit("bof_simulation::");
            reveal_strlit("SimulationPlugin");
        }
        if matches_at(s, &sim, p) {
            let rooted = c - p >= 32 && matches_at(s, &root, p + 16);
            if !rooted {
                assert(names_an_inner_plugin(s@, a as int, c as int, p as int));
                return true;
            }
        }
        p = p + 1;
    }
    false
}

/// Whether a file installs, anywhere but through the simulation's root plugin,
/// a plugin of the simulation crate. Registering a plugin twice compiles and
/// then panics at startup.
pub fn installs_an_inner_simulation_plugin(contents: &str) -> (installs: bool)
    ensures
        installs == installs_inner_plugin(contents@),
{
    let s = production_chars(contents);
    let add = chars_of("add_plugins");
    let close = chars_of(");");
    proof {
        reveal_strlit("add_plugins");
        reveal_strlit(");");
    }
    let mut i: usize = 0;
    while i < s.len()
        invariant
            s@ == production_prefix(contents@),
            add@ == "add_plugins"@,
            close@ == ");"@,
            i <= s.len(),
            forall|a: int| a < i + 11 ==> !#[trigger] call_installs_inner_plugin(s@, a),
        decreases s.len() - i,
    {
        proof {
            reveal_strlit("add_plugins");
            reveal_strlit(");");
        }
        if matches_at(&s, &add, i) {
            let a = i + 11;
            match find_from(&s, &close, a) {
                Some(c) => {
                    let next = find_from(&s, &add, a);
                    let bounded = match next {
                        Some(q) => q >= c + 2,
                        None => true,
                    };
                    if bounded && argument_names_inner_plugin(&s, a, c) {
                        assert(plugin_call_argument(s@, a as int, c as int));
                        assert(call_installs_inner_plugin(s@, a as int));
                        return true;
                    }
                    proof {
                        assert forall|c2: int, p: int|
                            plugin_call_argument(s@, a as int, c2) implies !names_an_inner_plugin(
                            s@,
                            a as int,
                            c2,
                            p,
                        ) by {
                            if c2 < c {
                                assert(!occurs_at(s@, close@, c2));
                            } else if c < c2 {
                                assert(!occurs_at(s@, close@, c as int));
                            }
                            match next {
                                Some(q) => {
                                    assert(occurs_at(s@, add@, q as int));
                                },
                                None => {},
                            }
                        }
                    }
                },
                None => {
                    assert forall|c2: int| !plugin_call_argument(s@, a as int, c2) by {
                        if a <= c2 <= s@.len() {
                            assert(!occurs_at(s@, close@, c2));
                        }
                    }
                },
            }
        }
        i = i + 1;
    }
    false
}

// ---------------------------------------------------------------------------
// Materials that enter rendering by the back door.
// ---------------------------------------------------------------------------

/// Unicode `White_Space`: the characters that trimming removes.
pub open spec fn is_white_space(c: char) -> bool {
    let u = c as u32;
    ||| 0x9 <= u <= 0xd
    ||| u == 0x20
    ||| u == 0x85
    ||| u == 0xa0
    ||| u == 0x1680
    ||| 0x2000 <= u <= 0x200a
    ||| u == 0x2028
    ||| u == 0x2029
    ||| u == 0x202f
    ||| u == 0x205f
    ||| u == 0x3000
}

/// `s` without its leading white space.
pub open spec fn trim_start(s: Seq<char>) -> Seq<char>
    decreases s.len(),
{
    if s.len() > 0 && is_white_space(s[0]) {
        trim_start(s.drop_first())
    } else {
        s
    }
}

/// `s` without its trailing white space.
pub open spec fn trim_end(s: Seq<char>) -> Seq<char>
    decreases s.len(),
{
    if s.len() > 0 && is_white_space(s.last()) {
        trim_end(s.drop_last())
    } else {
        s
    }
}

/// `s` without white space at either end.
pub open spec fn trimmed(s: Seq<char>) -> Seq<char> {
    trim_end(trim_start(s))
}

/// The one file where `MaterialPlugin` may be installed.
pub open spec fn registry_path() -> Seq<char> {
    "src/visuals/material_registry.rs"@
}

/// The one material exempt from the registry: the overdraw diagnostic's own,
/// which cannot instrument itself.
pub open spec fn exempt_material() -> Seq<char> {
    "AdditiveOverdrawMaterial"@
}

/// `c` closes the type argument that opens at `a`: the first `>` from `a` on,
/// before the next `MaterialPlugin::<` begins.
pub open spec fn closes_type_argument(s: Seq<char>, a: int, c: int) -> bool {
    first_from(s, ">"@, a, c) && absent_between(s, "MaterialPlugin::<"@, a, c + 1)
}

/// The material named by the type argument that opens at `a`, if it closes.
pub open spec fn registered_material(s: Seq<char>, a: int) -> Option<Seq<char>> {
    if exists|c: int| closes_type_argument(s, a, c) {
        let c = choose|c: int| closes_type_argument(s, a, c);
        Some(trimmed(s.subrange(a, c)))
    } else {
        None
    }
}

/// How an escape is reported.
pub open spec fn escape_report(material: Seq<char>, path: Seq<char>) -> Seq<char> {
    material + " (registrado en "@ + path + ")"@
}

/// The escapes of the file at `path`, scanning its text from position `i` on.
pub open spec fn escapes_from(path: Seq<char>, s: Seq<char>, i: int) -> Seq<Seq<char>>
    decreases s.len() - i,
{
    if i < 0 || i >= s.len() {
        Seq::empty()
    } else if occurs_at(s, "MaterialPlugin::<"@, i) {
        match registered_material(s, i + 17) {
            Some(m) => if m == exempt_material() {
                escapes_from(path, s, i + 1)
            } else {
                seq![escape_report(m, path)] + escapes_from(path, s, i + 1)
            },
            None => escapes_from(path, s, i + 1),
        }
    } else {
        escapes_from(path, s, i + 1)
    }
}

/// The escapes of one file: none in the registry itself.
pub open spec fn file_escapes(path: Seq<char>, contents: Seq<char>) -> Seq<Seq<char>> {
    if path == registry_path() {
        Seq::empty()
    } else {
        escapes_from(path, contents, 0)
    }
}

/// The escapes of a list of `(path, contents)` files, in file order.
pub open spec fn all_escapes(files: Seq<(Seq<char>, Seq<char>)>) -> Seq<Seq<char>>
    decreases files.len(),
{
    if files.len() == 0 {
        Seq::empty()
    } else {
        all_escapes(files.drop_last()) + file_escapes(files.last().0, files.last().1)
    }
}

/// The text views of a list of files.
pub open spec fn file_views(files: Seq<(String, String)>) -> Seq<(Seq<char>, Seq<char>)> {
    files.map_values(|f: (String, String)| (f.0@, f.1@))
}

/// The text views of a list of strings.
pub open spec fn string_views(strings: Seq<String>) -> Seq<Seq<char>> {
    strings.map_values(|t: String| t@)
}

/// There is one place where a type argument closes.
proof fn lemma_closing_is_unique(s: Seq<char>, a: int, c: int)
    requires
        closes_type_argument(s, a, c),
    ensures
        registered_material(s, a) == Some(trimmed(s.subrange(a, c))),
{
    let d = choose|d: int| closes_type_argument(s, a, d);
    assert(closes_type_argument(s, a, d));
    if d < c {
        assert(!occurs_at(s, ">"@, d));
    } else if c < d {
        assert(!occurs_at(s, ">"@, c));
    }
}

/// Whether a character is white space.
fn white_space(c: char) -> (ws: bool)
    ensures
        ws == is_white_space(c),
{
    let u = c as u32;
    (0x9 <= u && u <= 0xd) || u == 0x20 || u == 0x85 || u == 0xa0 || u == 0x1680 || (0x2000 <= u
        && u <= 0x200a) || u == 0x2028 || u == 0x2029 || u == 0x202f || u == 0x205f || u == 0x3000
}

/// The bounds of `s[a..c]` with white space trimmed from both ends.
fn trim_range(s: &Vec<char>, a: usize, c: usize) -> (range: (usize, usize))
    requires
        a <= c <= s.len(),
    ensures
        a <= range.0 <= range.1 <= c,
        s@.subrange(range.0 as int, range.1 as int) == trimmed(s@.subrange(a as int, c as int)),
{
    let mut lo: usize = a;
    while lo < c && white_space(s[lo])
        invariant
            a <= lo <= c <= s.len(),
            trim_start(s@.subrange(a as int, c as int)) == trim_start(
                s@.subrange(lo as int, c as int),
            ),
        decreases c - lo,
    {
        assert(s@.subrange(lo as int, c as int).drop_first() =~= s@.subrange(
            lo + 1,
            c as int,
        ));
        lo = lo + 1;
    }
    let mut hi: usize = c;
    while hi > lo && white_space(s[hi - 1])
        invariant
            a <= lo <= hi <= c <= s.len(),
            trim_start(s@.subrange(a as int, c as int)) == s@.subrange(lo as int, c as int),
            trimmed(s@.subrange(a as int, c as int)) == trim_end(
                s@.subrange(lo as int, hi as int),
            ),
        decreases hi - lo,
    {
        assert(s@.subrange(lo as int, hi as int).drop_last() =~= s@.subrange(
            lo as int,
            hi - 1,
        ));
        hi = hi - 1;
    }
    (lo, hi)
}

/// Materials installed with `MaterialPlugin` outside the registry, each as
/// `"<material> (registrado en <path>)"`, in file order and, within a file, in
/// text order. A material installed that way enters rendering without the
/// inventory and overdraw instrumentation that the registry hooks up.
pub fn materials_registered_outside_the_registry(files: &[(String, String)]) -> (escapes: Vec<
    String,
>)
    ensures
        string_views(escapes@) == all_escapes(file_views(files@)),
{
    let registry = chars_of("src/visuals/material_registry.rs");
    let exempt = chars_of("AdditiveOverdrawMaterial");
    let opener = chars_of("MaterialPlugin::<");
    let gt = chars_of(">");
    proof {
        reveal_strlit("MaterialPlugin::<");
        reveal_strlit(">");
    }
    let mut escapes: Vec<String> = Vec::new();
    let mut f: usize = 0;
    while f < files.len()
        invariant
            f <= files.len(),
            registry@ == registry_path(),
            exempt@ == exempt_material(),
            opener@ == "MaterialPlugin::<"@,
            gt@ == ">"@,
            string_views(escapes@) == all_escapes(file_views(files@).take(f as int)),
        decreases files.len() - f,
    {
        let ghost views = file_views(files@);
        assert(views.take(f + 1).drop_last() =~= views.take(f as int));
        let path: &String = &files[f].0;
        let contents: &String = &files[f].1;
        let path_chars = chars_of(path.as_str());
        if !same_text(&path_chars, &registry) {
            let s = chars_of(contents.as_str());
            let mut i: usize = 0;
            while i < s.len()
                invariant
                    f < files.len(),
                    views == file_views(files@),
                    path@ == views[f as int].0,
                    path@ != registry_path(),
                    s@ == views[f as int].1,
                    s@ == contents@,
                    i <= s.len(),
                    exempt@ == exempt_material(),
                    opener@ == "MaterialPlugin::<"@,
                    gt@ == ">"@,
                    string_views(escapes@) + escapes_from(path@, s@, i as int) == all_escapes(
                        views.take(f + 1),
                    ),
                decreases s.len() - i,
            {
                proof {
                    reveal_strlit("MaterialPlugin::<");
                    reveal_strlit(">");
                }
                let ghost before = string_views(escapes@);
                if matches_at(&s, &opener, i) {
                    let a = i + 17;
                    match find_from(&s, &gt, a) {
                        Some(c) => {
                            let next = find_from(&s, &opener, a);
                            let closes = match next {
                                Some(q) => q > c,
                                None => true,
                            };
                            if closes {
                                proof {
                                    lemma_closing_is_unique(s@, a as int, c as int);
                                }
                                let (lo, hi) = trim_range(&s, a, c);
                                let named_exempt = hi - lo == exempt.len() && matches_at(
                                    &s,
                                    &exempt,
                                    lo,
                                );
                                proof {
                                    if hi - lo == exempt@.len() {
                                        if named_exempt {
                                            assert(s@.subrange(lo as int, hi as int) =~= exempt@);
                                        } else {
                                            assert(s@.subrange(lo as int, hi as int)
                                                != exempt_material());
                                        }
                                    } else {
                                        assert(s@.subrange(lo as int, hi as int).len()
                                            != exempt@.len());
                                    }
                                }
                                if !named_exempt {
                                    let mut report = contents.as_str().substring_char(
                                        lo,
                                        hi,
                                    ).to_owned();
                                    report.append(" (registrado en ");
                                    report.append(path.as_str());
                                    report.append(")");
                                    escapes.push(report);
                                    proof {
                                        assert(string_views(escapes@) =~= before.push(report@));
                                        assert(string_views(escapes@) + escapes_from(
                                            path@,
                                            s@,
                                            i + 1,
                                        ) =~= before + escapes_from(path@, s@, i as int));
                                    }
                                }
                            } else {
                                proof {
                                    match next {
                                        Some(q) => {
                                            assert(occurs_at(s@, opener@, q as int));
                                        },
                                        None => {},
                                    }
                                    assert forall|c2: int|
                                        !closes_type_argument(s@, a as int, c2) by {
                                        if closes_type_argument(s@, a as int, c2) {
                                            if c2 < c {
                                                assert(!occurs_at(s@, gt@, c2));
                                            } else if c < c2 {
                                                assert(!occurs_at(s@, gt@, c as int));
                                            }
                                        }
                                    }
                                }
                            }
                        },
                        None => {
                            assert forall|c2: int| !closes_type_argument(s@, a as int, c2) by {
                                if a <= c2 <= s@.len() {
                                    assert(!occurs_at(s@, gt@, c2));
                                }
                            }
                        },
                    }
                }
                i = i + 1;
            }
        } else {
            proof {
                assert(path@ == registry_path());
            }
        }
        f = f + 1;
    }
    assert(file_views(files@).take(files.len() as int) =~= file_views(files@));
    escapes
}

// ---------------------------------------------------------------------------
// A file that is mostly commentary.
// ---------------------------------------------------------------------------

/// Below this many non-blank lines a comment ratio is noise.
pub const COMMENTARY_MINIMUM_LINES: usize = 100;

/// The most commentary a file may hold, in percent of its non-blank lines.
pub const COMMENTARY_CEILING_PERCENT: usize = 30;

/// What one line adds to the count: whether it is non-blank once trimmed, and
/// whether it is then a comment line.
pub open spec fn line_tally(line: Seq<char>) -> (nat, nat) {
    let t = trimmed(line);
    if t.len() == 0 {
        (0, 0)
    } else if t.len() >= 2 && t[0] == '/' && t[1] == '/' {
        (1, 1)
    } else {
        (1, 0)
    }
}

/// The non-blank and the comment lines of `s`, for the line that starts at
/// `start` (still open at `i`) and every line after it. Lines end at `\n`.
pub open spec fn line_counts_from(s: Seq<char>, start: int, i: int) -> (nat, nat)
    decreases s.len() - i,
{
    if i >= s.len() {
        line_tally(s.subrange(start, s.len() as int))
    } else if s[i] == '\n' {
        let here = line_tally(s.subrange(start, i));
        let rest = line_counts_from(s, i + 1, i + 1);
        (here.0 + rest.0, here.1 + rest.1)
    } else {
        line_counts_from(s, start, i + 1)
    }
}

/// A file is mostly commentary when it has at least the minimum of non-blank
/// lines and more than the ceiling of them are comment lines.
pub open spec fn is_mostly_commentary(s: Seq<char>) -> bool {
    let (lines, commented) = line_counts_from(s, 0, 0);
    lines >= COMMENTARY_MINIMUM_LINES && commented * 100 > COMMENTARY_CEILING_PERCENT * lines
}

/// The non-blank and the comment lines of a text.
fn count_lines(s: &Vec<char>) -> (counts: (usize, usize))
    ensures
        counts.0 as nat == line_counts_from(s@, 0, 0).0,
        counts.1 as nat == line_counts_from(s@, 0, 0).1,
        counts.0 <= s.len() + 1,
{
    let mut lines: usize = 0;
    let mut commented: usize = 0;
    let mut start: usize = 0;
    let mut i: usize = 0;
    while i < s.len()
        invariant
            start <= i <= s.len(),
            lines <= start,
            commented <= lines,
            lines + line_counts_from(s@, start as int, i as int).0 == line_counts_from(s@, 0, 0).0,
            commented + line_counts_from(s@, start as int, i as int).1 == line_counts_from(
                s@,
                0,
                0,
            ).1,
        decreases s.len() - i,
    {
        if s[i] == '\n' {
            let (lo, hi) = trim_range(s, start, i);
            if hi > lo {
                lines = lines + 1;
                if hi - lo >= 2 && s[lo] == '/' && s[lo + 1] == '/' {
                    commented = commented + 1;
                }
            }
            start = i + 1;
        }
        i = i + 1;
    }
    let (lo, hi) = trim_range(s, start, s.len());
    if hi > lo {
        lines = lines + 1;
        if hi - lo >= 2 && s[lo] == '/' && s[lo + 1] == '/' {
            commented = commented + 1;
        }
    }
    (lines, commented)
}

/// Whether a file is mostly commentary: the rationale of a long comment
/// belongs in the docs, and the ceiling is held per file because a healthy
/// average hides exactly one module buried in prose.
pub fn mostly_commentary(contents: &str) -> (over: bool)
    ensures
        over == is_mostly_commentary(contents@),
{
    let s = chars_of(contents);
    let (lines, commented) = count_lines(&s);
    let wide_commented: u128 = commented as u128;
    let wide_lines: u128 = lines as u128;
    assert(wide_lines <= 0xffff_ffff_ffff_ffff && wide_commented <= 0xffff_ffff_ffff_ffff);
    lines >= COMMENTARY_MINIMUM_LINES && wide_commented * 100 > wide_lines * 30
}

// ---------------------------------------------------------------------------
// A frozen list of known offenders that may only shrink.
// ---------------------------------------------------------------------------

/// The texts of a list of strings.
pub open spec fn texts_of(list: Seq<String>) -> Seq<Seq<char>> {
    list.map_values(|t: String| t@)
}

/// What a frozen debt list says about this run's offenders.
#[derive(Debug)]
pub struct DebtReport {
    /// Offenders that are not known debt: new violations.
    pub new: Vec<String>,
    /// Known debt that no longer offends and has to leave the list.
    pub paid: Vec<String>,
}

/// Whether `list` holds `item`.
fn holds_text(list: &[String], item: &String) -> (found: bool)
    ensures
        found == texts_of(list@).contains(item@),
{
    let wanted = chars_of(item.as_str());
    let mut i: usize = 0;
    while i < list.len()
        invariant
            i <= list.len(),
            wanted@ == item@,
            forall|j: int| 0 <= j < i ==> texts_of(list@)[j] != item@,
        decreases list.len() - i,
    {
        let entry = chars_of(list[i].as_str());
        if same_text(&entry, &wanted) {
            assert(texts_of(list@)[i as int] == item@);
            return true;
        }
        i = i + 1;
    }
    false
}

/// The entries of `list` that `other` does not hold, in list order.
fn missing_from(list: &[String], other: &[String]) -> (missing: Vec<String>)
    ensures
        texts_of(missing@) == texts_of(list@).filter(|t: Seq<char>| !texts_of(other@).contains(t)),
{
    let ghost pred = |t: Seq<char>| !texts_of(other@).contains(t);
    let mut missing: Vec<String> = Vec::new();
    let mut i: usize = 0;
    while i < list.len()
        invariant
            i <= list.len(),
            pred == (|t: Seq<char>| !texts_of(other@).contains(t)),
            texts_of(missing@) == texts_of(list@).take(i as int).filter(pred),
        decreases list.len() - i,
    {
        proof {
            reveal(Seq::filter);
        }
        assert(texts_of(list@).take(i + 1).drop_last() =~= texts_of(list@).take(i as int));
        assert(texts_of(list@).take(i + 1).last() == list@[i as int]@);
        let ghost before = texts_of(missing@);
        if !holds_text(other, &list[i]) {
            let entry = list[i].clone();
            assert(entry@ == list@[i as int]@);
            missing.push(entry);
            assert(texts_of(missing@) =~= before.push(list@[i as int]@));
        } else {
            assert(texts_of(missing@) =~= before);
        }
        i = i + 1;
    }
    assert(texts_of(list@).take(list.len() as int) =~= texts_of(list@));
    missing
}

/// The report of a debt list that may only shrink: it fails both when a new
/// offender appears and when a listed entry stops offending without leaving
/// the list.
pub fn debt_report(offenders: &[String], debt: &[String]) -> (report: DebtReport)
    ensures
        texts_of(report.new@) == texts_of(offenders@).filter(
            |t: Seq<char>| !texts_of(debt@).contains(t),
        ),
        texts_of(report.paid@) == texts_of(debt@).filter(
            |t: Seq<char>| !texts_of(offenders@).contains(t),
        ),
{
    DebtReport { new: missing_from(offenders, debt), paid: missing_from(debt, offenders) }
}

// ---------------------------------------------------------------------------
// The editor is a context of its own.
// ---------------------------------------------------------------------------

/// How many lines of `s` contain `pat`, for the line that starts at `start`
/// (still open at `i`) and every line after it.
pub open spec fn lines_naming_from(s: Seq<char>, pat: Seq<char>, start: int, i: int) -> nat
    decreases s.len() - i,
{
    if i >= s.len() {
        if text_contains(s.subrange(start, s.len() as int), pat) {
            1
        } else {
            0
        }
    } else if s[i] == '\n' {
        (if text_contains(s.subrange(start, i), pat) {
            1nat
        } else {
            0nat
        }) + lines_naming_from(s, pat, i + 1, i + 1)
    } else {
        lines_naming_from(s, pat, start, i + 1)
    }
}

/// The application installs the editor in exactly one production line, and
/// only behind the comparison with the editor mode: in game mode the editor's
/// resources, its HUD and its keys do not exist.
pub open spec fn editor_only_in_editor_mode(main: Seq<char>) -> bool {
    let production = production_prefix(main);
    lines_naming_from(production, "editor::EditorPlugin"@, 0, 0) == 1 && text_contains(
        production,
        "if mode == scene::AppMode::Editor"@,
    )
}

/// Whether `pat` occurs inside `s[from..to]`.
fn range_contains(s: &Vec<char>, pat: &Vec<char>, from: usize, to: usize) -> (found: bool)
    requires
        from <= to <= s.len(),
    ensures
        found == text_contains(s@.subrange(from as int, to as int), pat@),
{
    let ghost sub = s@.subrange(from as int, to as int);
    if pat.len() > to - from {
        assert forall|k: int| !occurs_at(sub, pat@, k) by {}
        return false;
    }
    let last = to - pat.len();
    let mut j: usize = from;
    while j < last
        invariant
            from <= j <= last,
            last == to - pat.len(),
            pat.len() <= to - from,
            to <= s.len(),
            sub == s@.subrange(from as int, to as int),
            forall|k: int| 0 <= k < j - from ==> !#[trigger] occurs_at(sub, pat@, k),
        decreases last - j,
    {
        let here = matches_at(s, pat, j);
        assert(sub.subrange(j - from, j - from + pat@.len()) =~= s@.subrange(
            j as int,
            j + pat@.len(),
        ));
        if here {
            assert(occurs_at(sub, pat@, j - from));
            return true;
        }
        j = j + 1;
    }
    let here = matches_at(s, pat, last);
    assert(sub.subrange(last - from, last - from + pat@.len()) =~= s@.subrange(
        last as int,
        last + pat@.len(),
    ));
    if here {
        assert(occurs_at(sub, pat@, last - from));
        return true;
    }
    assert forall|k: int| !occurs_at(sub, pat@, k) by {
        if 0 <= k && k + pat@.len() <= sub.len() {
            assert(k <= last - from);
        }
    }
    false
}

/// Whether the application's entry point installs the editor only in editor
/// mode: one production line names the editor plugin, and the mode comparison
/// is there. A loose install, as it would be after "cleaning up" the `if`,
/// puts the authoring tool back inside the game with nothing to warn.
pub fn editor_installed_only_in_editor_mode(main: &str) -> (only: bool)
    ensures
        only == editor_only_in_editor_mode(main@),
{
    let s = production_chars(main);
    let plugin = chars_of("editor::EditorPlugin");
    // Lines naming the plugin, counted up to two: only "exactly one" matters.
    let mut count: usize = 0;
    let mut start: usize = 0;
    let mut i: usize = 0;
    while i < s.len()
        invariant
            start <= i <= s.len(),
            count <= 2,
            plugin@ == "editor::EditorPlugin"@,
            ({
                let rest = lines_naming_from(s@, plugin@, start as int, i as int);
                let total = lines_naming_from(s@, plugin@, 0, 0);
                if count < 2 {
                    count + rest == total
                } else {
                    total >= 2
                }
            }),
        decreases s.len() - i,
    {
        if s[i] == '\n' {
            if range_contains(&s, &plugin, start, i) && count < 2 {
                count = count + 1;
            }
            start = i + 1;
        }
        i = i + 1;
    }
    if range_contains(&s, &plugin, start, s.len()) && count < 2 {
        count = count + 1;
    }
    let guard = chars_of("if mode == scene::AppMode::Editor");
    count == 1 && contains_chars(&s, &guard)
}

} // verus!
