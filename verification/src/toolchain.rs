//! The pinned LLVM toolchain and the runtime it links against: which tool is
//! where, and what the linker driver is told.
//!
//! Reading the environment, looking at the disk and running `clang` happen
//! around this; what is decided from what they give back is here.

use vstd::prelude::*;

use crate::lines::text_of;
use crate::text::{owned, same_text};

verus! {

broadcast use vstd::string::group_string_axioms;

/// The platform a build links for, as far as the link step cares.
#[derive(Clone, Copy, PartialEq, Eq, Structural, Debug)]
pub enum Platform {
    Windows,
    Linux,
    MacOs,
    /// Any other.
    Other,
}

/// A path component that is joined as itself on every platform: not empty,
/// and holding no separator and no drive colon.
pub open spec fn simple_component(part: Seq<char>) -> bool {
    &&& part.len() > 0
    &&& forall|i: int| 0 <= i < part.len() ==> #[trigger] part[i] != '/' && part[i] != '\\' && part[i] != ':'
}

/// `joined` is `base` with `part` adjoined: directly, or after one
/// separator, whichever the platform needed.
pub open spec fn adjoined(base: Seq<char>, part: Seq<char>, joined: Seq<char>) -> bool {
    ||| joined == base + part
    ||| joined == base + seq!['/'] + part
    ||| joined == base + seq!['\\'] + part
}

/// Whether a path starts with a verbatim prefix, `\\?\`: on Windows such a
/// path is normalized when something is joined to it.
pub open spec fn verbatim(path: Seq<char>) -> bool {
    path.len() >= 4 && path[0] == '\\' && path[1] == '\\' && path[2] == '?' && path[3] == '\\'
}

/// Whether a path holds no `?`, so that it has no verbatim prefix.
pub open spec fn no_question_mark(path: Seq<char>) -> bool {
    forall|i: int| 0 <= i < path.len() ==> #[trigger] path[i] != '?'
}

/// `std::path::Path::join`, as text. Its documentation (`PathBuf::push`)
/// says a relative path is appended with a separator if one is needed, and
/// that a base with a verbatim prefix is normalized on Windows; which
/// separator depends on the platform. So only that much is claimed, and only
/// for a component with no separator or drive of its own joined to a base
/// with no verbatim prefix.
#[verifier::external_body]
fn join(base: &str, part: &str) -> (joined: String)
    ensures
        simple_component(part@) && !verbatim(base@) ==> adjoined(base@, part@, joined@),
{
    std::path::Path::new(base).join(part).to_string_lossy().into_owned()
}

/// `base` joined with `part`, and what is known of the result: for a base
/// with no `?` (so no verbatim prefix) and a component with no separator,
/// the component is adjoined; and when the component holds no `?` either,
/// neither does the result.
fn join_step(base: &str, part: &str) -> (joined: String)
    ensures
        no_question_mark(base@) && simple_component(part@) ==> adjoined(base@, part@, joined@),
        no_question_mark(base@) && simple_component(part@) && no_question_mark(part@) ==> no_question_mark(joined@),
{
    proof {
        if no_question_mark(base@) && verbatim(base@) {
            assert(base@[2] != '?');
        }
    }
    let joined = join(base, part);
    proof {
        if no_question_mark(base@) && simple_component(part@) && no_question_mark(part@) {
            let b = joined@;
            let n = base@.len() as int;
            assert forall|i: int| 0 <= i < b.len() implies #[trigger] b[i] != '?' by {
                if b == base@ + part@ {
                    if i < n {
                        assert(b[i] == base@[i]);
                    } else {
                        assert(b[i] == part@[i - n]);
                    }
                } else if b == base@ + seq!['/'] + part@ {
                    if i < n {
                        assert(b[i] == base@[i]);
                    } else if i > n {
                        assert(b[i] == part@[i - n - 1]);
                    }
                } else {
                    if i < n {
                        assert(b[i] == base@[i]);
                    } else if i > n {
                        assert(b[i] == part@[i - n - 1]);
                    }
                }
            }
        }
    }
    joined
}

/// The file name of a tool on the platform: `.exe` after it on Windows.
pub open spec fn executable_name(name: Seq<char>, windows: bool) -> Seq<char> {
    if windows { name + ".exe"@ } else { name }
}

/// Where a tool of the toolchain is: `bin/` under the toolchain's prefix,
/// with the platform's file name. `None` when the prefix is unknown. Whether
/// a file is there is for the caller to look. What the path is, is stated
/// for a prefix with no `?`, which cannot be a verbatim path.
pub fn tool(prefix: Option<&str>, name: &str, windows: bool) -> (path: Option<String>)
    ensures
        path is None <==> prefix is None,
        simple_component(name@) && prefix is Some && no_question_mark(prefix.unwrap()@) ==> (
        path matches Some(q) ==> exists|bin: Seq<char>|
            adjoined(prefix.unwrap()@, "bin"@, bin) && adjoined(bin, executable_name(name@, windows), q@)),
{
    let mut exe = owned(name);
    if windows {
        exe.append(".exe");
    }
    match prefix {
        None => None,
        Some(p) => {
            proof {
                reveal_strlit("bin");
                reveal_strlit(".exe");
                assert(simple_component("bin"@));
                assert(no_question_mark("bin"@));
                if simple_component(name@) && windows {
                    let e = exe@;
                    assert forall|i: int| 0 <= i < e.len() implies #[trigger] e[i] != '/' && e[i] != '\\' && e[i] != ':' by {
                        if i >= name@.len() {
                            assert(e[i] == ".exe"@[i - name@.len()]);
                        }
                    }
                }
            }
            let bin = join_step(p, "bin");
            let path = join_step(bin.as_str(), exe.as_str());
            Some(path)
        },
    }
}

/// The file name of the runtime's static archive, as cargo writes it.
pub open spec fn runtime_archive_file(windows: bool) -> Seq<char> {
    if windows { "khora_rt.lib"@ } else { "libkhora_rt.a"@ }
}

/// The file name of the runtime's static archive, as cargo writes it.
pub fn runtime_archive_name(windows: bool) -> (name: &'static str)
    ensures
        name@ == runtime_archive_file(windows),
{
    if windows { "khora_rt.lib" } else { "libkhora_rt.a" }
}

/// `path` is `base` with each of `parts` adjoined in turn.
pub open spec fn reached(base: Seq<char>, parts: Seq<Seq<char>>, path: Seq<char>) -> bool
    decreases parts.len(),
{
    if parts.len() == 0 {
        path == base
    } else {
        exists|mid: Seq<char>| reached(base, parts.drop_last(), mid) && #[trigger] adjoined(mid, parts.last(), path)
    }
}

proof fn lemma_reached_push(base: Seq<char>, parts: Seq<Seq<char>>, mid: Seq<char>, part: Seq<char>, path: Seq<char>)
    requires
        reached(base, parts, mid),
        adjoined(mid, part, path),
    ensures
        reached(base, parts.push(part), path),
{
    assert(parts.push(part).drop_last() =~= parts);
    assert(parts.push(part).last() == part);
}

/// The places the runtime archive is looked for, in order, each as a
/// directory and the components joined under it:
///
/// 1. `KHORA_RT_LIB`, as it is (`explicit`);
/// 2. beside the running executable (`beside`), and one directory up
///    (`above`, looked at only when `beside` is known);
/// 3. the workspace's `target/debug` and `target/release`.
pub open spec fn archive_places(
    explicit: Option<Seq<char>>,
    beside: Option<Seq<char>>,
    above: Option<Seq<char>>,
    workspace: Option<Seq<char>>,
    windows: bool,
) -> Seq<(Seq<char>, Seq<Seq<char>>)> {
    let file = runtime_archive_file(windows);
    (match explicit {
        Some(e) => seq![(e, Seq::<Seq<char>>::empty())],
        None => Seq::empty(),
    }) + (match beside {
        Some(d) => seq![(d, seq![file])] + match above {
            Some(u) => seq![(u, seq![file])],
            None => Seq::empty(),
        },
        None => Seq::empty(),
    }) + (match workspace {
        Some(w) => seq![(w, seq!["target"@, "debug"@, file]), (w, seq!["target"@, "release"@, file])],
        None => Seq::empty(),
    })
}

/// Each candidate is its place's directory with the place's components
/// adjoined, wherever that directory holds no `?`.
pub open spec fn candidates_at(places: Seq<(Seq<char>, Seq<Seq<char>>)>, candidates: Seq<String>) -> bool {
    &&& candidates.len() == places.len()
    &&& forall|i: int|
        0 <= i < places.len() && no_question_mark(places[i].0) ==> reached(
            places[i].0,
            places[i].1,
            #[trigger] candidates[i]@,
        )
}

proof fn lemma_candidates_push(
    places: Seq<(Seq<char>, Seq<Seq<char>>)>,
    candidates: Seq<String>,
    base: Seq<char>,
    parts: Seq<Seq<char>>,
    next: String,
)
    requires
        candidates_at(places, candidates),
        no_question_mark(base) ==> reached(base, parts, next@),
    ensures
        candidates_at(places.push((base, parts)), candidates.push(next)),
{
    let p2 = places.push((base, parts));
    let c2 = candidates.push(next);
    assert forall|i: int| 0 <= i < p2.len() && no_question_mark(p2[i].0) implies reached(p2[i].0, p2[i].1, #[trigger] c2[i]@) by {
        if i < places.len() {
            assert(p2[i] == places[i]);
            assert(c2[i] == candidates[i]);
        }
    }
}

/// The archive's file name and the directories under the workspace are
/// plain components: no separator, drive colon or `?`.
proof fn lemma_plain_literals(windows: bool)
    ensures
        simple_component(runtime_archive_file(windows)),
        no_question_mark(runtime_archive_file(windows)),
        simple_component("target"@),
        no_question_mark("target"@),
        simple_component("debug"@),
        no_question_mark("debug"@),
        simple_component("release"@),
        no_question_mark("release"@),
{
    reveal_strlit("khora_rt.lib");
    reveal_strlit("libkhora_rt.a");
    reveal_strlit("target");
    reveal_strlit("debug");
    reveal_strlit("release");
}

/// A directory with one component adjoined after another, as far as the
/// joins are known.
fn join_all(base: &str, parts: &Vec<&str>) -> (path: String)
    requires
        forall|i: int| 0 <= i < parts.len() ==> simple_component(#[trigger] parts@[i]@) && no_question_mark(parts@[i]@),
    ensures
        no_question_mark(base@) ==> reached(base@, parts@.map_values(|p: &str| p@), path@),
{
    let ghost views = parts@.map_values(|p: &str| p@);
    let mut path = owned(base);
    let mut i: usize = 0;
    while i < parts.len()
        invariant
            i <= parts.len(),
            views == parts@.map_values(|p: &str| p@),
            forall|j: int| 0 <= j < parts.len() ==> simple_component(#[trigger] parts@[j]@) && no_question_mark(parts@[j]@),
            no_question_mark(base@) ==> no_question_mark(path@) && reached(base@, views.subrange(0, i as int), path@),
        decreases parts.len() - i,
    {
        let next = join_step(path.as_str(), parts[i]);
        proof {
            if no_question_mark(base@) {
                assert(views[i as int] == parts@[i as int]@);
                lemma_reached_push(base@, views.subrange(0, i as int), path@, views[i as int], next@);
                assert(views.subrange(0, i as int).push(views[i as int]) =~= views.subrange(0, i as int + 1));
            }
        }
        path = next;
        i = i + 1;
    }
    assert(views.subrange(0, parts.len() as int) =~= views);
    path
}

/// The places the runtime archive is looked for, in the order they are
/// tried: `explicit` as it is, then the archive's file beside the running
/// executable and one directory up, then under the workspace's
/// `target/debug` and `target/release`. Whether a file is at each is for the
/// caller to look.
pub fn archive_candidates(
    explicit: Option<&str>,
    beside: Option<&str>,
    above: Option<&str>,
    workspace: Option<&str>,
    windows: bool,
) -> (candidates: Vec<String>)
    ensures
        candidates_at(
            archive_places(setting_text(explicit), setting_text(beside), setting_text(above), setting_text(workspace), windows),
            candidates@,
        ),
        explicit matches Some(e) ==> candidates@[0]@ == e@,
{
    let file = runtime_archive_name(windows);
    proof {
        lemma_plain_literals(windows);
    }
    let ghost f = runtime_archive_file(windows);
    let mut out: Vec<String> = Vec::new();
    let ghost mut places: Seq<(Seq<char>, Seq<Seq<char>>)> = Seq::empty();
    assert(candidates_at(places, out@));
    match explicit {
        Some(e) => {
            let c = owned(e);
            proof {
                lemma_candidates_push(places, out@, e@, Seq::empty(), c);
                places = places.push((e@, Seq::<Seq<char>>::empty()));
            }
            out.push(c);
        },
        None => {},
    }
    match beside {
        Some(d) => {
            let parts = vec![file];
            let c = join_all(d, &parts);
            proof {
                assert(parts@.map_values(|p: &str| p@) =~= seq![f]);
                lemma_candidates_push(places, out@, d@, seq![f], c);
                places = places.push((d@, seq![f]));
            }
            out.push(c);
            match above {
                Some(u) => {
                    let c = join_all(u, &parts);
                    proof {
                        lemma_candidates_push(places, out@, u@, seq![f], c);
                        places = places.push((u@, seq![f]));
                    }
                    out.push(c);
                },
                None => {},
            }
        },
        None => {},
    }
    match workspace {
        Some(w) => {
            let debug = vec!["target", "debug", file];
            let c = join_all(w, &debug);
            proof {
                assert(debug@.map_values(|p: &str| p@) =~= seq!["target"@, "debug"@, f]);
                lemma_candidates_push(places, out@, w@, seq!["target"@, "debug"@, f], c);
                places = places.push((w@, seq!["target"@, "debug"@, f]));
            }
            out.push(c);
            let release = vec!["target", "release", file];
            let c = join_all(w, &release);
            proof {
                assert(release@.map_values(|p: &str| p@) =~= seq!["target"@, "release"@, f]);
                lemma_candidates_push(places, out@, w@, seq!["target"@, "release"@, f], c);
                places = places.push((w@, seq!["target"@, "release"@, f]));
            }
            out.push(c);
        },
        None => {},
    }
    assert(places =~= archive_places(setting_text(explicit), setting_text(beside), setting_text(above), setting_text(workspace), windows));
    out
}

/// The first index at which something is present, if any: the archive the
/// search settles on, given which candidates are files.
pub fn first_present(present: &Vec<bool>) -> (found: Option<usize>)
    ensures
        match found {
            Some(i) => i < present.len() && present@[i as int] && forall|j: int| 0 <= j < i ==> !present@[j],
            None => forall|j: int| 0 <= j < present.len() ==> !present@[j],
        },
{
    let mut i: usize = 0;
    while i < present.len()
        invariant
            i <= present.len(),
            forall|j: int| 0 <= j < i ==> !present@[j],
        decreases present.len() - i,
    {
        if present[i] {
            return Some(i);
        }
        i = i + 1;
    }
    None
}

/// What a link that needs the runtime says when no archive was found.
pub open spec fn runtime_missing_text(windows: bool) -> Seq<char> {
    "the Khora runtime archive ("@ + runtime_archive_file(windows)
        + ") was not found. Build it with `cargo build -p khora-rt`, or point KHORA_RT_LIB at it."@
}

/// What a link says when the toolchain has no `clang`.
pub open spec fn clang_missing_text() -> Seq<char> {
    "clang not found in the LLVM toolchain; set LLVM_SYS_221_PREFIX (see docs/llvm-setup.md)"@
}

/// What stops a link before it runs: the runtime archive is looked for
/// first, when the link needs it, and then the linker driver.
pub open spec fn link_blocker_text(needs_runtime: bool, runtime_found: bool, clang_found: bool, windows: bool) -> Option<Seq<char>> {
    if needs_runtime && !runtime_found {
        Some(runtime_missing_text(windows))
    } else if !clang_found {
        Some(clang_missing_text())
    } else {
        None
    }
}

/// The error a link stops with before it runs, if any, given whether it
/// needs the runtime, whether the archive was found and whether `clang` was.
pub fn link_blocker(needs_runtime: bool, runtime_found: bool, clang_found: bool, windows: bool) -> (blocker: Option<String>)
    ensures
        text_of(blocker) == link_blocker_text(needs_runtime, runtime_found, clang_found, windows),
{
    if needs_runtime && !runtime_found {
        let mut text = owned("the Khora runtime archive (");
        text.append(runtime_archive_name(windows));
        text.append(") was not found. Build it with `cargo build -p khora-rt`, or point KHORA_RT_LIB at it.");
        Some(text)
    } else if !clang_found {
        Some(owned("clang not found in the LLVM toolchain; set LLVM_SYS_221_PREFIX (see docs/llvm-setup.md)"))
    } else {
        None
    }
}

/// What a failed link adds when the object was generated for another
/// target: the host's linker cannot read it, and nothing is wrong with the
/// program.
pub open spec fn cross_target_note(triple: Seq<char>) -> Seq<char> {
    "\n\nThe object was generated for `"@ + triple
        + "` and this host's linker cannot read it. Code generation for another target works; linking for one needs a linker and a sysroot that this build does not yet fetch \u{2014} `docs/design/targets.md`."@
}

/// The error of a link that ran and failed: the linker's exit status and
/// what it printed, then the note for a cross build when there is a target
/// triple.
pub open spec fn link_failure_text(status: Seq<char>, stderr: Seq<char>, crossing: Option<Seq<char>>) -> Seq<char> {
    "link failed ("@ + status + "):\n"@ + stderr + match crossing {
        Some(t) => cross_target_note(t),
        None => Seq::empty(),
    }
}

/// The error of a link that ran and failed, given the exit status as text,
/// what the linker printed, and the target the object was generated for when
/// it is not the host.
pub fn link_failure(status: &str, stderr: &str, crossing: Option<&str>) -> (message: String)
    ensures
        message@ == link_failure_text(status@, stderr@, setting_text(crossing)),
{
    let mut text = owned("link failed (");
    text.append(status);
    text.append("):\n");
    text.append(stderr);
    match crossing {
        Some(triple) => {
            text.append("\n\nThe object was generated for `");
            text.append(triple);
            text.append(
                "` and this host's linker cannot read it. Code generation for another target works; linking for one needs a linker and a sysroot that this build does not yet fetch \u{2014} `docs/design/targets.md`.",
            );
        },
        None => {},
    }
    proof {
        if crossing is None {
            assert(text@ =~= link_failure_text(status@, stderr@, setting_text(crossing)));
        }
    }
    text
}

/// The system libraries the runtime needs, because it carries Rust's `std`
/// with it; what `--print native-static-libs` reports for each platform.
pub open spec fn system_libraries_for(platform: Platform) -> Seq<Seq<char>> {
    match platform {
        Platform::Windows => seq![
            "-lbcrypt"@,
            "-ladvapi32"@,
            "-lkernel32"@,
            "-lntdll"@,
            "-luserenv"@,
            "-lws2_32"@,
            "-ldbghelp"@,
        ],
        Platform::Linux => seq!["-lgcc_s"@, "-lutil"@, "-lrt"@, "-lpthread"@, "-lm"@, "-ldl"@, "-lc"@],
        Platform::MacOs => seq![
            "-lobjc"@,
            "-liconv"@,
            "-framework"@,
            "CoreFoundation"@,
            "-framework"@,
            "Security"@,
            "-lSystem"@,
            "-lc"@,
            "-lm"@,
        ],
        Platform::Other => seq!["-lSystem"@, "-lc"@, "-lm"@],
    }
}

/// The texts of a list of strings.
pub open spec fn texts(v: Seq<String>) -> Seq<Seq<char>> {
    v.map_values(|s: String| s@)
}

fn push_text(out: &mut Vec<String>, text: &str)
    ensures
        texts(final(out)@) == texts(old(out)@).push(text@),
{
    let ghost prev = out@;
    out.push(owned(text));
    assert(texts(out@) =~= texts(prev).push(text@));
}

/// The system libraries the runtime needs on `platform`.
pub fn system_libraries(platform: Platform) -> (libraries: Vec<String>)
    ensures
        texts(libraries@) == system_libraries_for(platform),
{
    let mut out: Vec<String> = Vec::new();
    match platform {
        Platform::Windows => {
            push_text(&mut out, "-lbcrypt");
            push_text(&mut out, "-ladvapi32");
            push_text(&mut out, "-lkernel32");
            push_text(&mut out, "-lntdll");
            push_text(&mut out, "-luserenv");
            push_text(&mut out, "-lws2_32");
            push_text(&mut out, "-ldbghelp");
        },
        Platform::Linux => {
            push_text(&mut out, "-lgcc_s");
            push_text(&mut out, "-lutil");
            push_text(&mut out, "-lrt");
            push_text(&mut out, "-lpthread");
            push_text(&mut out, "-lm");
            push_text(&mut out, "-ldl");
            push_text(&mut out, "-lc");
        },
        Platform::MacOs => {
            push_text(&mut out, "-lobjc");
            push_text(&mut out, "-liconv");
            push_text(&mut out, "-framework");
            push_text(&mut out, "CoreFoundation");
            push_text(&mut out, "-framework");
            push_text(&mut out, "Security");
            push_text(&mut out, "-lSystem");
            push_text(&mut out, "-lc");
            push_text(&mut out, "-lm");
        },
        Platform::Other => {
            push_text(&mut out, "-lSystem");
            push_text(&mut out, "-lc");
            push_text(&mut out, "-lm");
        },
    }
    assert(texts(out@) =~= system_libraries_for(platform));
    out
}

/// The arguments the linker driver gets: `-shared` for a library, the
/// objects, then the archives — a static link resolves left to right, so an
/// archive goes after its users — then the system libraries the archives
/// need, `-g` when debug information is wanted, and the output.
pub open spec fn clang_arguments_spec(
    objects: Seq<Seq<char>>,
    archives: Seq<Seq<char>>,
    out: Seq<char>,
    library: bool,
    debug_info: bool,
    system: Seq<Seq<char>>,
) -> Seq<Seq<char>> {
    (if library { seq!["-shared"@] } else { Seq::empty() }) + objects + archives + (if archives.len() > 0 {
        system
    } else {
        Seq::empty()
    }) + (if debug_info { seq!["-g"@] } else { Seq::empty() }) + seq!["-o"@, out]
}

fn append_texts(out: &mut Vec<String>, items: &Vec<String>)
    ensures
        texts(final(out)@) == texts(old(out)@) + texts(items@),
{
    let ghost start = texts(out@);
    let mut i: usize = 0;
    while i < items.len()
        invariant
            i <= items.len(),
            texts(out@) == start + texts(items@.subrange(0, i as int)),
        decreases items.len() - i,
    {
        let ghost prev = out@;
        out.push(items[i].clone());
        proof {
            assert(texts(out@) =~= texts(prev).push(items@[i as int]@));
            assert(texts(items@.subrange(0, i as int + 1)) =~= texts(items@.subrange(0, i as int)).push(items@[i as int]@));
            assert(texts(out@) =~= start + texts(items@.subrange(0, i as int + 1)));
        }
        i = i + 1;
    }
    assert(items@.subrange(0, items.len() as int) =~= items@);
}

/// The arguments the linker driver gets, in order.
pub fn clang_arguments(
    objects: &Vec<String>,
    archives: &Vec<String>,
    out: &str,
    library: bool,
    debug_info: bool,
    system: &Vec<String>,
) -> (arguments: Vec<String>)
    ensures
        texts(arguments@) == clang_arguments_spec(
            texts(objects@),
            texts(archives@),
            out@,
            library,
            debug_info,
            texts(system@),
        ),
{
    let ghost o = texts(objects@);
    let ghost a = texts(archives@);
    let ghost sys = texts(system@);
    let mut arguments: Vec<String> = Vec::new();
    // A shared library rather than an executable: no entry point, and the
    // exported symbols are the whole interface.
    if library {
        push_text(&mut arguments, "-shared");
    }
    let ghost first = if library { seq!["-shared"@] } else { Seq::<Seq<char>>::empty() };
    assert(texts(arguments@) =~= first);
    append_texts(&mut arguments, objects);
    append_texts(&mut arguments, archives);
    if archives.len() > 0 {
        append_texts(&mut arguments, system);
    }
    let ghost libs = if a.len() > 0 { sys } else { Seq::<Seq<char>>::empty() };
    assert(texts(arguments@) =~= first + o + a + libs);
    // A linker does not keep debug sections it was not asked for.
    if debug_info {
        push_text(&mut arguments, "-g");
    }
    let ghost dbg = if debug_info { seq!["-g"@] } else { Seq::<Seq<char>>::empty() };
    assert(texts(arguments@) =~= first + o + a + libs + dbg);
    push_text(&mut arguments, "-o");
    push_text(&mut arguments, out);
    assert(texts(arguments@) =~= clang_arguments_spec(o, a, out@, library, debug_info, sys));
    arguments
}

/// Whether a build emits debug information, given `KHORA_DEBUG`: on unless
/// it is `0`, `off` or `false`.
pub open spec fn debug_info_setting(setting: Option<Seq<char>>) -> bool {
    match setting {
        Some(v) => !(v == "0"@ || v == "off"@ || v == "false"@),
        None => true,
    }
}

/// The text of an optional string slice.
pub open spec fn setting_text(setting: Option<&str>) -> Option<Seq<char>> {
    match setting {
        Some(v) => Some(v@),
        None => None,
    }
}

/// Whether a build emits debug information, given the value of
/// `KHORA_DEBUG` (`None` when it is unset or not text).
pub fn debug_info_requested(setting: Option<&str>) -> (wanted: bool)
    ensures
        wanted == debug_info_setting(setting_text(setting)),
{
    match setting {
        Some(v) => !(same_text(v, "0") || same_text(v, "off") || same_text(v, "false")),
        None => true,
    }
}

/// The order a link hands `clang` its inputs, for an executable and a
/// shared library alike: `-shared` first for a library, then the objects,
/// then the archives, then — whenever an archive is linked, and only then —
/// the system libraries it needs, then `-g` when wanted, and `-o` with the
/// output last.
pub proof fn law_system_libraries_follow_the_archives(
    objects: Seq<Seq<char>>,
    archives: Seq<Seq<char>>,
    out: Seq<char>,
    library: bool,
    debug_info: bool,
    system: Seq<Seq<char>>,
)
    ensures
        ({
            let args = clang_arguments_spec(objects, archives, out, library, debug_info, system);
            let s: int = if library { 1 } else { 0 };
            let a: int = s + objects.len() + archives.len();
            let libs: int = if archives.len() > 0 { system.len() as int } else { 0 };
            let g: int = if debug_info { 1 } else { 0 };
            &&& args.len() == a + libs + g + 2
            &&& (library <==> args[0] == "-shared"@ && s == 1)
            &&& args.subrange(s, s + objects.len()) == objects
            &&& args.subrange(s + objects.len(), a) == archives
            &&& archives.len() > 0 ==> args.subrange(a, a + system.len()) == system
            &&& debug_info ==> args[a + libs] == "-g"@
            &&& args[args.len() - 2] == "-o"@
            &&& args[args.len() - 1] == out
        }),
{
    let args = clang_arguments_spec(objects, archives, out, library, debug_info, system);
    let s: int = if library { 1 } else { 0 };
    let a: int = s + objects.len() + archives.len();
    assert(args.subrange(s, s + objects.len()) =~= objects);
    assert(args.subrange(s + objects.len(), a) =~= archives);
    if archives.len() > 0 {
        assert(args.subrange(a, a + system.len()) =~= system);
    }
}

/// Why a link stops before it runs: a link that needs the runtime and has
/// no archive says so whether or not `clang` was found; otherwise a missing
/// `clang` is reported; and a link with everything it needs is not stopped.
/// The runtime's message names the archive's file for the platform.
pub proof fn law_a_missing_runtime_is_reported_first(needs_runtime: bool, runtime_found: bool, clang_found: bool, windows: bool)
    ensures
        needs_runtime && !runtime_found ==> link_blocker_text(needs_runtime, runtime_found, clang_found, windows)
            == Some(runtime_missing_text(windows)),
        !(needs_runtime && !runtime_found) && !clang_found ==> link_blocker_text(
            needs_runtime,
            runtime_found,
            clang_found,
            windows,
        ) == Some(clang_missing_text()),
        link_blocker_text(needs_runtime, runtime_found, clang_found, windows) is None <==> (!(needs_runtime
            && !runtime_found) && clang_found),
        runtime_missing_text(windows).subrange(27, 27 + runtime_archive_file(windows).len() as int)
            == runtime_archive_file(windows),
        runtime_missing_text(true) != clang_missing_text() && runtime_missing_text(false) != clang_missing_text(),
{
    reveal_strlit("the Khora runtime archive (");
    reveal_strlit("clang not found in the LLVM toolchain; set LLVM_SYS_221_PREFIX (see docs/llvm-setup.md)");
    let f = runtime_archive_file(windows);
    let t = runtime_missing_text(windows);
    assert(t.subrange(27, 27 + f.len() as int) =~= f);
    assert(runtime_missing_text(true)[0] != clang_missing_text()[0]);
    assert(runtime_missing_text(false)[0] != clang_missing_text()[0]);
}

/// The order the runtime archive is looked for in: `KHORA_RT_LIB` first
/// when it is set, as it is; beside the executable before one directory up,
/// which is looked at only beside a known executable; and the workspace's
/// debug build before its release build, after everything else. Each place
/// but `KHORA_RT_LIB` is the archive's file under a directory.
pub proof fn law_the_archive_search_order(
    explicit: Option<Seq<char>>,
    beside: Option<Seq<char>>,
    above: Option<Seq<char>>,
    workspace: Option<Seq<char>>,
    windows: bool,
)
    ensures
        ({
            let places = archive_places(explicit, beside, above, workspace, windows);
            let e: int = if explicit is Some { 1 } else { 0 };
            let b: int = if beside is Some { if above is Some { 2 } else { 1 } } else { 0 };
            &&& places.len() == e + b + if workspace is Some { 2int } else { 0 }
            &&& explicit matches Some(x) ==> places[0] == (x, Seq::<Seq<char>>::empty())
            &&& beside matches Some(d) ==> places[e] == (d, seq![runtime_archive_file(windows)])
            &&& (beside is Some && above is Some) ==> places[e + 1] == (above.unwrap(), seq![runtime_archive_file(windows)])
            &&& workspace matches Some(w) ==> places[e + b] == (w, seq!["target"@, "debug"@, runtime_archive_file(windows)])
                && places[e + b + 1] == (w, seq!["target"@, "release"@, runtime_archive_file(windows)])
            &&& forall|i: int| e <= i < places.len() ==> #[trigger] places[i].1.last() == runtime_archive_file(windows)
        }),
{
    let places = archive_places(explicit, beside, above, workspace, windows);
    let e: int = if explicit is Some { 1 } else { 0 };
    assert forall|i: int| e <= i < places.len() implies #[trigger] places[i].1.last() == runtime_archive_file(windows) by {
    }
}

} // verus!
