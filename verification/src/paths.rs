//! Where a download is written: the target, the file that holds it until it is
//! done, and the numbered names that step aside for what is already there.
//!
//! What exists is asked of the caller, one path at a time.

use vstd::prelude::*;

use crate::text::{decimal, push_decimal};

verus! {

/// The largest number that is put behind a name.
pub const LAST_SUFFIX: u64 = 0x7fff_ffff;

/// What `std::path::Path::file_name` gives for a path.
pub uninterp spec fn path_file_name(path: Seq<char>) -> Option<Seq<char>>;

/// What `std::path::PathBuf::set_file_name` makes of a path.
pub uninterp spec fn path_with_file_name(path: Seq<char>, name: Seq<char>) -> Seq<char>;

/// `std::path::Path::file_name`: the last component of the path, where that is
/// a name. How a text falls into components is the rule of the platform that
/// the program is built for; given that, the result depends on the text alone.
#[verifier::external_body]
fn file_name(path: &str) -> (name: Option<String>)
    ensures
        (match name {
            Some(n) => Some(n@),
            None => None,
        }) == path_file_name(path@),
{
    std::path::Path::new(path).file_name().map(|name| name.to_string_lossy().into_owned())
}

/// `std::path::PathBuf::set_file_name`: the path with its last component
/// replaced by `name`, under the platform's rule for components.
#[verifier::external_body]
fn with_file_name(path: &str, name: &str) -> (r: String)
    ensures
        r@ == path_with_file_name(path@, name@),
{
    let mut changed = std::path::PathBuf::from(path);
    changed.set_file_name(name);
    changed.to_string_lossy().into_owned()
}

/// The name of the file that holds a download until it is done: the name of
/// the target, where it has one, and `.dl`.
pub open spec fn partial_name(name: Option<Seq<char>>) -> Seq<char> {
    match name {
        Some(n) => n + ".dl"@,
        None => ".dl"@,
    }
}

/// The name of the file that holds a download until it is done.
pub fn partial_file_name(name: Option<String>) -> (r: String)
    ensures
        r@ == partial_name(
            match name {
                Some(n) => Some(n@),
                None => None,
            },
        ),
{
    match name {
        Some(n) => {
            let mut r = n;
            r.append(".dl");
            r
        },
        None => ".dl".to_owned(),
    }
}

/// The path of the file that holds a download until it is done.
pub open spec fn download_path_of(target: Seq<char>) -> Seq<char> {
    path_with_file_name(target, partial_name(path_file_name(target)))
}

/// The path of the file that holds a download to `path` until it is done.
pub fn get_download_path(path: &str) -> (r: String)
    ensures
        r@ == download_path_of(path@),
{
    let name = partial_file_name(file_name(path));
    with_file_name(path, name.as_str())
}

/// The name that steps aside `n` times: the path, a dot, and the number.
pub open spec fn numbered(path: Seq<char>, n: nat) -> Seq<char> {
    path + "."@ + decimal(n)
}

fn numbered_path(path: &str, n: u64) -> (r: String)
    ensures
        r@ == numbered(path@, n as nat),
{
    let mut r = path.to_owned();
    r.append(".");
    push_decimal(&mut r, n);
    r
}

/// Asked about `path`, `is_there` gave `answer`.
pub open spec fn answered<F: Fn(&str) -> bool>(is_there: F, path: Seq<char>, answer: bool) -> bool {
    exists|p: &str| p@ == path && #[trigger] call_ensures(is_there, (p,), answer)
}

/// Every name up to number `n` was found to exist.
pub open spec fn all_taken<F: Fn(&str) -> bool>(is_there: F, path: Seq<char>, n: int) -> bool {
    &&& answered(is_there, path, true)
    &&& forall|k: nat| 1 <= k < n ==> answered(is_there, #[trigger] numbered(path, k), true)
}

fn ask<F: Fn(&str) -> bool>(is_there: &F, path: &str) -> (answer: bool)
    requires
        forall|p: &str| #[trigger] call_requires(*is_there, (p,)),
    ensures
        answered(*is_there, path@, answer),
{
    let answer = is_there(path);
    assert(call_ensures(*is_there, (path,), answer));
    answer
}

/// The first of `path`, `path.1`, `path.2` and so on that does not exist;
/// `None` where all of them do, up to the last number.
pub fn generate_unique_output_path<F: Fn(&str) -> bool>(path: &str, is_there: F) -> (r: Option<
    String,
>)
    requires
        forall|p: &str| #[trigger] call_requires(is_there, (p,)),
    ensures
        match r {
            Some(free) => {
                ||| free@ == path@ && answered(is_there, path@, false)
                ||| exists|n: nat|
                    1 <= n <= LAST_SUFFIX && free@ == #[trigger] numbered(path@, n) && answered(
                        is_there,
                        free@,
                        false,
                    ) && all_taken(is_there, path@, n as int)
            },
            None => all_taken(is_there, path@, LAST_SUFFIX + 1),
        },
{
    if !ask(&is_there, path) {
        return Some(path.to_owned());
    }
    let mut n: u64 = 1;
    while n <= LAST_SUFFIX
        invariant
            1 <= n <= LAST_SUFFIX + 1,
            forall|p: &str| #[trigger] call_requires(is_there, (p,)),
            all_taken(is_there, path@, n as int),
        decreases LAST_SUFFIX + 1 - n,
    {
        let candidate = numbered_path(path, n);
        if !ask(&is_there, candidate.as_str()) {
            assert(candidate@ == numbered(path@, n as nat));
            return Some(candidate);
        }
        n += 1;
    }
    None
}

/// A target can be used: a download to it has begun, or nothing is there.
pub open spec fn usable<F: Fn(&str) -> bool>(is_there: F, target: Seq<char>) -> bool {
    ||| answered(is_there, download_path_of(target), true)
    ||| answered(is_there, download_path_of(target), false) && answered(is_there, target, false)
}

/// A target was passed over: it exists, and no download to it has begun.
pub open spec fn passed_over<F: Fn(&str) -> bool>(is_there: F, target: Seq<char>) -> bool {
    answered(is_there, download_path_of(target), false) && answered(is_there, target, true)
}

/// `path` and its numbered names before number `n` were passed over.
pub open spec fn all_passed_over<F: Fn(&str) -> bool>(is_there: F, path: Seq<char>, n: int) -> bool {
    &&& passed_over(is_there, path)
    &&& forall|k: nat| 1 <= k < n ==> passed_over(is_there, #[trigger] numbered(path, k))
}

fn can_use<F: Fn(&str) -> bool>(is_there: &F, target: &str, download_path: &str) -> (r: bool)
    requires
        forall|p: &str| #[trigger] call_requires(*is_there, (p,)),
        download_path@ == download_path_of(target@),
    ensures
        r ==> usable(*is_there, target@),
        !r ==> passed_over(*is_there, target@),
{
    if ask(is_there, download_path) {
        return true;
    }
    !ask(is_there, target)
}

/// The target of a download and the file that holds it until it is done. With
/// `overwrite`, the target is the path that was asked for. Otherwise it is the
/// first of the path and its numbered names that can be used; `None` where none
/// can, up to the last number.
pub fn determine_download_paths<F: Fn(&str) -> bool>(
    output_path: &str,
    overwrite: bool,
    is_there: F,
) -> (r: Option<(String, String)>)
    requires
        forall|p: &str| #[trigger] call_requires(is_there, (p,)),
    ensures
        match r {
            Some((target, download_path)) => {
                &&& download_path@ == download_path_of(target@)
                &&& overwrite ==> target@ == output_path@
                &&& !overwrite ==> usable(is_there, target@)
                &&& !overwrite ==> {
                    ||| target@ == output_path@
                    ||| exists|n: nat|
                        1 <= n <= LAST_SUFFIX && target@ == #[trigger] numbered(output_path@, n)
                            && all_passed_over(is_there, output_path@, n as int)
                }
            },
            None => !overwrite && all_passed_over(is_there, output_path@, LAST_SUFFIX + 1),
        },
{
    let download_path = get_download_path(output_path);
    if overwrite || can_use(&is_there, output_path, download_path.as_str()) {
        return Some((output_path.to_owned(), download_path));
    }
    let mut n: u64 = 1;
    while n <= LAST_SUFFIX
        invariant
            1 <= n <= LAST_SUFFIX + 1,
            !overwrite,
            forall|p: &str| #[trigger] call_requires(is_there, (p,)),
            all_passed_over(is_there, output_path@, n as int),
        decreases LAST_SUFFIX + 1 - n,
    {
        let candidate = numbered_path(output_path, n);
        let candidate_download = get_download_path(candidate.as_str());
        if can_use(&is_there, candidate.as_str(), candidate_download.as_str()) {
            assert(candidate@ == numbered(output_path@, n as nat));
            return Some((candidate, candidate_download));
        }
        n += 1;
    }
    None
}

/// The answers are those of a disk that holds the given paths.
pub open spec fn tells_of<F: Fn(&str) -> bool>(is_there: F, disk: Set<Seq<char>>) -> bool {
    forall|p: &str, answer: bool| #[trigger]
        call_ensures(is_there, (p,), answer) ==> answer == disk.contains(p@)
}

/// A target that can be used takes the place of nothing: either nothing is
/// there, or what is there belongs to a download that has begun.
pub proof fn usable_target_replaces_nothing<F: Fn(&str) -> bool>(
    is_there: F,
    disk: Set<Seq<char>>,
    target: Seq<char>,
)
    requires
        tells_of(is_there, disk),
        usable(is_there, target),
    ensures
        !disk.contains(target) || disk.contains(download_path_of(target)),
{
}

/// A target that is passed over is there, and no download to it has begun; so
/// no file that is left aside could have been taken up.
pub proof fn passed_over_targets_are_taken<F: Fn(&str) -> bool>(
    is_there: F,
    disk: Set<Seq<char>>,
    path: Seq<char>,
    n: int,
    k: nat,
)
    requires
        tells_of(is_there, disk),
        all_passed_over(is_there, path, n),
        1 <= k < n,
    ensures
        disk.contains(path) && !disk.contains(download_path_of(path)),
        disk.contains(path + "."@ + decimal(k)),
        !disk.contains(download_path_of(path + "."@ + decimal(k))),
{
    assert(passed_over(is_there, numbered(path, k)));
}

/// Every name before the one that is free is there.
pub proof fn taken_names_are_there<F: Fn(&str) -> bool>(
    is_there: F,
    disk: Set<Seq<char>>,
    path: Seq<char>,
    n: int,
    k: nat,
)
    requires
        tells_of(is_there, disk),
        all_taken(is_there, path, n),
        1 <= k < n,
    ensures
        disk.contains(path),
        disk.contains(path + "."@ + decimal(k)),
{
    assert(answered(is_there, numbered(path, k), true));
}

/// A target that a download to has begun can be used though it is there; one
/// that is there without can not.
pub proof fn begun_download_is_taken_up<F: Fn(&str) -> bool>(
    is_there: F,
    disk: Set<Seq<char>>,
    target: Seq<char>,
)
    requires
        tells_of(is_there, disk),
        answered(is_there, target, disk.contains(target)),
        answered(is_there, download_path_of(target), disk.contains(download_path_of(target))),
    ensures
        usable(is_there, target) == (disk.contains(download_path_of(target)) || !disk.contains(
            target,
        )),
        passed_over(is_there, target) == !usable(is_there, target),
{
}

/// The file that holds a download stands where the target does, under its name
/// and `.dl`, or under `.dl` alone where the target has no name.
pub proof fn download_is_held_beside_its_target(target: Seq<char>)
    ensures
        path_file_name(target) matches Some(name) ==> download_path_of(target)
            == path_with_file_name(target, name + ".dl"@),
        path_file_name(target) is None ==> download_path_of(target) == path_with_file_name(
            target,
            ".dl"@,
        ),
{
}

} // verus!
