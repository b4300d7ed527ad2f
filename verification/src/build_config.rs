use vstd::prelude::*;

use crate::download::{find_char, first_index_of};
use crate::runtime::{join_unix, unix_join};
use crate::text::{lemma_trimmed_is_idempotent, trim, trimmed};

verus! {

/// The platforms the native audio engine is built for.
#[derive(Clone, Copy, Debug, PartialEq, Eq, Structural)]
pub enum NativePlatform {
    Linux,
    Windows,
    Unsupported,
}

/// The platform a Cargo target OS names.
pub fn classify_platform(target_os: &str) -> (platform: NativePlatform)
    ensures
        target_os@ == "linux"@ ==> platform == NativePlatform::Linux,
        target_os@ == "windows"@ ==> platform == NativePlatform::Windows,
        target_os@ != "linux"@ && target_os@ != "windows"@ ==> platform == NativePlatform::Unsupported,
{
    proof {
        reveal_strlit("linux");
        reveal_strlit("windows");
        assert("windows"@.len() != "linux"@.len());
    }
    let os = target_os.to_owned();
    let linux = "linux".to_owned();
    let windows = "windows".to_owned();
    if os.eq(&linux) {
        NativePlatform::Linux
    } else if os.eq(&windows) {
        NativePlatform::Windows
    } else {
        NativePlatform::Unsupported
    }
}

/// The package triplet of the Windows dependencies: only 64-bit x86 with the
/// MSVC toolchain has one.
pub fn windows_triplet(target_arch: &str, target_env: &str) -> (triplet: Option<&'static str>)
    ensures
        target_arch@ == "x86_64"@ && target_env@ == "msvc"@ ==> (triplet matches Some(t) && t@ == "x64-windows"@),
        !(target_arch@ == "x86_64"@ && target_env@ == "msvc"@) ==> triplet is None,
{
    let arch = target_arch.to_owned();
    let env = target_env.to_owned();
    let x86_64 = "x86_64".to_owned();
    let msvc = "msvc".to_owned();
    if arch.eq(&x86_64) && env.eq(&msvc) {
        Some("x64-windows")
    } else {
        None
    }
}

/// The pieces of `s` between the `separator`s from `start` on.
pub open spec fn split_from(s: Seq<char>, separator: char, start: int) -> Seq<Seq<char>>
    decreases s.len() - start,
{
    if start < 0 || start > s.len() {
        Seq::empty()
    } else {
        let next = first_index_of(s, separator, start, s.len() as int);
        if start <= next < s.len() {
            seq![s.subrange(start, next)] + split_from(s, separator, next + 1)
        } else {
            seq![s.subrange(start, s.len() as int)]
        }
    }
}

/// The pieces of a list, trimmed, without the empty ones.
pub open spec fn trimmed_entries(parts: Seq<Seq<char>>) -> Seq<Seq<char>>
    decreases parts.len(),
{
    if parts.len() == 0 {
        Seq::empty()
    } else {
        let rest = trimmed_entries(parts.drop_last());
        if trimmed(parts.last()).len() == 0 {
            rest
        } else {
            rest.push(trimmed(parts.last()))
        }
    }
}

/// A `;`-separated search path, trimmed, without empty entries.
pub open spec fn path_list_view(value: Seq<char>) -> Seq<Seq<char>> {
    trimmed_entries(split_from(value, ';', 0))
}

/// Trimmed entries keep their order when more pieces come.
proof fn lemma_trimmed_entries_append(parts: Seq<Seq<char>>, more: Seq<Seq<char>>)
    ensures
        trimmed_entries(parts + more) == trimmed_entries(parts) + trimmed_entries(more),
    decreases more.len(),
{
    if more.len() == 0 {
        assert(parts + more =~= parts);
        assert(trimmed_entries(parts) + trimmed_entries(more) =~= trimmed_entries(parts));
    } else {
        lemma_trimmed_entries_append(parts, more.drop_last());
        assert((parts + more).drop_last() =~= parts + more.drop_last());
        assert((parts + more).last() == more.last());
        if trimmed(more.last()).len() == 0 {
        } else {
            assert((trimmed_entries(parts) + trimmed_entries(more.drop_last())).push(trimmed(more.last())) =~= trimmed_entries(
                parts,
            ) + trimmed_entries(more.drop_last()).push(trimmed(more.last())));
        }
    }
}

/// The entries of a `;`-separated search path.
pub fn split_path_list(value: &str) -> (entries: Vec<String>)
    ensures
        entries@.map_values(|e: String| e@) == path_list_view(value@),
{
    let n = value.unicode_len();
    let mut entries: Vec<String> = Vec::new();
    let mut start: usize = 0;
    loop
        invariant_except_break
            n == value@.len(),
            start <= n,
            trimmed_entries(split_from(value@, ';', 0)) == entries@.map_values(|e: String| e@) + trimmed_entries(
                split_from(value@, ';', start as int),
            ),
        ensures
            entries@.map_values(|e: String| e@) == path_list_view(value@),
        decreases n - start,
    {
        let next = find_char(value, ';', start, n);
        let piece = trim(value.substring_char(start, next));
        let ghost piece_view = value@.subrange(start as int, next as int);
        let ghost rest = split_from(value@, ';', start as int);
        proof {
            if next < n {
                assert(rest == seq![piece_view] + split_from(value@, ';', next + 1));
                lemma_trimmed_entries_append(seq![piece_view], split_from(value@, ';', next + 1));
            } else {
                assert(rest == seq![piece_view]);
            }
            assert(seq![piece_view].drop_last() =~= Seq::<Seq<char>>::empty());
            assert(seq![piece_view].last() == piece_view);
            assert(trimmed_entries(Seq::<Seq<char>>::empty()) =~= Seq::<Seq<char>>::empty());
            assert(trimmed_entries(seq![piece_view]) =~= if trimmed(piece_view).len() == 0 {
                Seq::<Seq<char>>::empty()
            } else {
                seq![trimmed(piece_view)]
            });
        }
        let ghost before = entries@.map_values(|e: String| e@);
        if piece.as_str().unicode_len() > 0 {
            entries.push(piece);
            assert(entries@.map_values(|e: String| e@) =~= before.push(trimmed(piece_view)));
        }
        if next >= n {
            proof {
                assert(trimmed_entries(rest) == trimmed_entries(seq![piece_view]));
            }
            assert(entries@.map_values(|e: String| e@) =~= before + trimmed_entries(seq![piece_view]));
            assert(entries@.map_values(|e: String| e@) =~= path_list_view(value@));
            break;
        }
        proof {
            assert(before + trimmed_entries(seq![piece_view] + split_from(value@, ';', next + 1)) =~= entries@.map_values(
                |e: String| e@,
            ) + trimmed_entries(split_from(value@, ';', next + 1)));
        }
        start = next + 1;
    }
    entries
}

/// The headers the Windows build needs.
pub open spec fn required_headers() -> Seq<Seq<char>> {
    seq!["libavformat/avformat.h"@, "curl/curl.h"@]
}

/// The import libraries the Windows build needs.
pub open spec fn required_libraries() -> Seq<Seq<char>> {
    seq!["avformat.lib"@, "avcodec.lib"@, "avutil.lib"@, "swresample.lib"@, "libcurl.lib"@]
}

/// Whether `name` is a file under one of `directories`, going by the list of
/// files that exist.
pub open spec fn found_in(directories: Seq<Seq<char>>, name: Seq<char>, present: Seq<Seq<char>>) -> bool {
    exists|i: int| 0 <= i < directories.len() && present.contains(unix_join(#[trigger] directories[i], name))
}

/// Whether a file list holds `path`.
fn holds(present: &Vec<String>, path: &String) -> (found: bool)
    ensures
        found == present@.map_values(|p: String| p@).contains(path@),
{
    let ghost views = present@.map_values(|p: String| p@);
    for i in 0..present.len()
        invariant
            views == present@.map_values(|p: String| p@),
            forall|k: int| 0 <= k < i ==> views[k] != path@,
    {
        if present[i].eq(path) {
            assert(views[i as int] == path@);
            return true;
        }
    }
    false
}

/// Whether `name` is under one of `directories`.
fn found_under(directories: &Vec<String>, name: &str, present: &Vec<String>) -> (found: bool)
    ensures
        found == found_in(directories@.map_values(|d: String| d@), name@, present@.map_values(|p: String| p@)),
{
    let ghost dirs = directories@.map_values(|d: String| d@);
    let ghost files = present@.map_values(|p: String| p@);
    for i in 0..directories.len()
        invariant
            dirs == directories@.map_values(|d: String| d@),
            files == present@.map_values(|p: String| p@),
            forall|k: int| 0 <= k < i ==> !files.contains(unix_join(#[trigger] dirs[k], name@)),
    {
        let candidate = join_unix(directories[i].as_str(), name);
        if holds(present, &candidate) {
            assert(files.contains(unix_join(dirs[i as int], name@)));
            return true;
        }
    }
    false
}

/// Whether every header lies under one of the include directories and every
/// library under one of the library directories, going by the files that
/// exist.
pub fn has_windows_dependencies(include_dirs: &Vec<String>, lib_dirs: &Vec<String>, present: &Vec<String>) -> (complete: bool)
    ensures
        complete == ((forall|h: int| 0 <= h < required_headers().len() ==> found_in(
            include_dirs@.map_values(|d: String| d@),
            #[trigger] required_headers()[h],
            present@.map_values(|p: String| p@),
        )) && (forall|l: int| 0 <= l < required_libraries().len() ==> found_in(
            lib_dirs@.map_values(|d: String| d@),
            #[trigger] required_libraries()[l],
            present@.map_values(|p: String| p@),
        ))),
{
    let headers: Vec<&str> = vec!["libavformat/avformat.h", "curl/curl.h"];
    let libraries: Vec<&str> = vec!["avformat.lib", "avcodec.lib", "avutil.lib", "swresample.lib", "libcurl.lib"];
    assert(headers@.map_values(|h: &str| h@) =~= required_headers());
    assert(libraries@.map_values(|l: &str| l@) =~= required_libraries());
    let ghost includes = include_dirs@.map_values(|d: String| d@);
    let ghost libs = lib_dirs@.map_values(|d: String| d@);
    let ghost files = present@.map_values(|p: String| p@);
    for i in 0..headers.len()
        invariant
            includes == include_dirs@.map_values(|d: String| d@),
            files == present@.map_values(|p: String| p@),
            headers@.map_values(|h: &str| h@) == required_headers(),
            forall|h: int| 0 <= h < i ==> found_in(includes, #[trigger] required_headers()[h], files),
    {
        assert(headers@[i as int]@ == required_headers()[i as int]);
        if !found_under(include_dirs, headers[i], present) {
            return false;
        }
    }
    for i in 0..libraries.len()
        invariant
            libs == lib_dirs@.map_values(|d: String| d@),
            files == present@.map_values(|p: String| p@),
            libraries@.map_values(|l: &str| l@) == required_libraries(),
            forall|h: int| 0 <= h < required_headers().len() ==> found_in(includes, #[trigger] required_headers()[h], files),
            forall|l: int| 0 <= l < i ==> found_in(libs, #[trigger] required_libraries()[l], files),
    {
        assert(libraries@[i as int]@ == required_libraries()[i as int]);
        if !found_under(lib_dirs, libraries[i], present) {
            return false;
        }
    }
    true
}

/// Every entry of a trimmed list has something in it.
pub proof fn lemma_trimmed_entries_are_not_empty(parts: Seq<Seq<char>>)
    ensures
        forall|i: int| 0 <= i < trimmed_entries(parts).len() ==> (#[trigger] trimmed_entries(parts)[i]).len() > 0,
    decreases parts.len(),
{
    if parts.len() > 0 {
        let rest = trimmed_entries(parts.drop_last());
        lemma_trimmed_entries_are_not_empty(parts.drop_last());
        if trimmed(parts.last()).len() != 0 {
            let all = rest.push(trimmed(parts.last()));
            assert forall|i: int| 0 <= i < all.len() implies (#[trigger] all[i]).len() > 0 by {
                if i < rest.len() {
                    assert(all[i] == rest[i]);
                }
            }
        }
    }
}

/// A split search path holds no empty entries.
pub proof fn lemma_path_list_has_no_empty_entries(value: Seq<char>)
    ensures
        forall|i: int| 0 <= i < path_list_view(value).len() ==> (#[trigger] path_list_view(value)[i]).len() > 0,
{
    lemma_trimmed_entries_are_not_empty(split_from(value, ';', 0));
}

/// Every entry of a split search path is already trimmed.
pub proof fn lemma_path_list_entries_are_trimmed(value: Seq<char>)
    ensures
        forall|i: int| 0 <= i < path_list_view(value).len() ==> trimmed(#[trigger] path_list_view(value)[i])
            == path_list_view(value)[i],
{
    lemma_trimmed_entries_are_trimmed(split_from(value, ';', 0));
}

/// Every entry of a trimmed list is already trimmed.
proof fn lemma_trimmed_entries_are_trimmed(parts: Seq<Seq<char>>)
    ensures
        forall|i: int| 0 <= i < trimmed_entries(parts).len() ==> trimmed(#[trigger] trimmed_entries(parts)[i])
            == trimmed_entries(parts)[i],
    decreases parts.len(),
{
    if parts.len() > 0 {
        let rest = trimmed_entries(parts.drop_last());
        lemma_trimmed_entries_are_trimmed(parts.drop_last());
        if trimmed(parts.last()).len() != 0 {
            let all = rest.push(trimmed(parts.last()));
            lemma_trimmed_is_idempotent(parts.last());
            assert forall|i: int| 0 <= i < all.len() implies trimmed(#[trigger] all[i]) == all[i] by {
                if i < rest.len() {
                    assert(all[i] == rest[i]);
                }
            }
        }
    }
}

} // verus!
