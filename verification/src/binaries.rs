//! Exposed binaries: where a declared binary is looked for in the install
//! root (including the executable inside a macOS `.app` bundle), and the shim
//! that stands for it on Windows.
use vstd::prelude::*;

use crate::types::HostPlatform;

use crate::activation_plan::join_with;
use crate::exposure::{relative_path_check, validated_relative_binary_path, ExposureError};
use crate::gui_app::{items_view, join_items};
use crate::native::{is_normal_component, path_components};
use crate::paths::{join_path, path_join};
use crate::text::{chars_eq_str, chars_of, ends_with_str, extend_str, has_suffix, lower_seq, string_of_vec, to_lower};

verus! {

/// For `<name>.app/Contents/MacOS/<...>` (at least four components, all of
/// them names, the bundle's name ending in `.app` in any case), the same
/// path without the bundle directory: `Contents/MacOS/<...>`.
pub open spec fn stripped_bundle_spec(p: Seq<char>) -> Option<Seq<char>> {
    let cs = path_components(p);
    if cs.len() >= 4 && is_normal_component(cs[0]) && has_suffix(lower_seq(cs[0]), ".app"@)
        && cs[1] == "Contents"@ && cs[2] == "MacOS"@ && (forall|k: int|
        1 <= k < cs.len() ==> is_normal_component(#[trigger] cs[k])) {
        Some(join_with(cs.skip(1), '/'))
    } else {
        None
    }
}

/// The executable path inside an app bundle without the bundle directory
/// (see `stripped_bundle_spec`).
pub fn stripped_macos_bundle_exec_rel_path(path: &str) -> (r: Option<String>)
    ensures
        match r {
            Some(s) => stripped_bundle_spec(path@) == Some(s@),
            None => stripped_bundle_spec(path@) is None,
        },
{
    let c = chars_of(path);
    let cs = crate::native::path_components_exec(c.as_slice());
    let ghost cv = path_components(path@);
    assert(cs@.len() == cv.len());
    if cs.len() < 4 {
        return None;
    }
    assert(cs@[0]@ == cv[0] && cs@[1]@ == cv[1] && cs@[2]@ == cv[2]);
    if !crate::native::component_is_normal(cs[0].as_slice()) {
        return None;
    }
    let first = to_lower(cs[0].as_slice());
    if !ends_with_str(first.as_slice(), ".app") {
        return None;
    }
    if !chars_eq_str(cs[1].as_slice(), "Contents") || !chars_eq_str(cs[2].as_slice(), "MacOS") {
        return None;
    }
    let n = cs.len();
    let mut items: Vec<Vec<char>> = Vec::new();
    let mut i: usize = 1;
    assert(cv.skip(1).take(0) =~= Seq::<Seq<char>>::empty());
    while i < n
        invariant
            n == cs@.len(),
            n == cv.len(),
            forall|k: int| 0 <= k < n ==> #[trigger] cs@[k]@ == cv[k],
            1 <= i <= n,
            n >= 4,
            cv == path_components(path@),
            is_normal_component(cv[0]),
            has_suffix(lower_seq(cv[0]), ".app"@),
            cv[1] == "Contents"@,
            cv[2] == "MacOS"@,
            forall|k: int| 1 <= k < i ==> is_normal_component(#[trigger] cv[k]),
            items_view(items@) == cv.skip(1).take(i - 1),
        decreases n - i,
    {
        if !crate::native::component_is_normal(cs[i].as_slice()) {
            assert(!is_normal_component(cv[i as int]));
            return None;
        }
        let ghost before = items@;
        items.push(cs[i].clone());
        assert(items_view(items@) =~= items_view(before).push(cs@[i as int]@));
        assert(cv.skip(1).take(i as int) =~= cv.skip(1).take(i - 1).push(cv[i as int]));
        i = i + 1;
    }
    assert(cv.skip(1).take(n - 1) =~= cv.skip(1));
    let joined = join_items(&items, '/');
    Some(string_of_vec(&joined))
}

/// Where a declared binary is looked for, in order: at its path under the
/// install root, then, for an executable inside an app bundle, at that path
/// without the bundle directory. A path that is not relative and inside the
/// root is refused.
pub open spec fn binary_candidates_spec(platform: HostPlatform, install_root: Seq<char>, rel: Seq<char>) -> Result<
    Seq<Seq<char>>,
    ExposureError,
> {
    match relative_path_check(platform, rel) {
        Err(e) => Err(e),
        Ok(_) => Ok(
            seq![path_join(install_root, rel)] + match stripped_bundle_spec(rel) {
                Some(s) => seq![path_join(install_root, s)],
                None => Seq::<Seq<char>>::empty(),
            },
        ),
    }
}

pub open spec fn strings_view(v: Seq<String>) -> Seq<Seq<char>> {
    v.map_values(|s: String| s@)
}

/// The places a declared binary is looked for (see
/// `binary_candidates_spec`); the first that exists is exposed.
pub fn binary_source_candidates(platform: HostPlatform, install_root: &str, binary_rel_path: &str) -> (r: Result<
    Vec<String>,
    ExposureError,
>)
    ensures
        match r {
            Ok(v) => binary_candidates_spec(platform, install_root@, binary_rel_path@) == Ok::<
                Seq<Seq<char>>,
                ExposureError,
            >(strings_view(v@)),
            Err(e) => binary_candidates_spec(platform, install_root@, binary_rel_path@) == Err::<
                Seq<Seq<char>>,
                ExposureError,
            >(e),
        },
{
    match validated_relative_binary_path(platform, binary_rel_path) {
        Err(e) => {
            return Err(e);
        },
        Ok(_) => {},
    }
    let mut v: Vec<String> = Vec::new();
    let first = join_path(install_root, binary_rel_path);
    v.push(first);
    match stripped_macos_bundle_exec_rel_path(binary_rel_path) {
        Some(s) => {
            let second = join_path(install_root, s.as_str());
            v.push(second);
            assert(strings_view(v@) =~= seq![first@, second@]);
            assert(seq![first@] + seq![second@] =~= seq![first@, second@]);
        },
        None => {
            assert(strings_view(v@) =~= seq![first@]);
            assert(seq![first@] + Seq::<Seq<char>>::empty() =~= seq![first@]);
        },
    }
    Ok(v)
}

/// The Windows shim that runs `source` with the shim's arguments.
pub fn binary_shim_contents(source: &str) -> (r: String)
    ensures
        r@ == "@echo off\r\n\""@ + source@ + "\" %*\r\n"@,
{
    let mut v: Vec<char> = Vec::new();
    extend_str(&mut v, "@echo off\r\n\"");
    extend_str(&mut v, source);
    extend_str(&mut v, "\" %*\r\n");
    string_of_vec(&v)
}

} // verus!
