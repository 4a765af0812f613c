//! Finding the storage that encloses a path.
use crate::devices::Device;
use crate::error::Error;
use crate::paths::{
    components_of, diff_paths, home_dir, is_inside, join_all, join_components_from, option_text, path_components,
    path_diff, stays_inside,
};
use crate::storages::{mount_path, path_of, Storage, Storages};
use crate::text::texts;
use vstd::prelude::*;
use vstd::string::StringExecFns;
use vstd::string::to_string_from_display_ensures;

verus! {

/// What is left of `path` below the directory `root`: the relative path from
/// `root` to `path`, where `root` was resolved, such a path exists and it
/// does not climb out of `root`.
pub open spec fn remainder_below(root: Result<Seq<char>, Error>, path: Seq<char>) -> Option<Seq<char>> {
    match root {
        Err(_) => None,
        Ok(base) => match path_diff(path, base) {
            None => None,
            Some(d) => if stays_inside(components_of(d)) {
                Some(d)
            } else {
                None
            },
        },
    }
}

/// What is left of `path` below the `i`-th storage of the listing on the
/// device named `device`, if that storage contains the path there.
pub open spec fn candidate(storages: &Storages, i: int, path: Seq<char>, device: Seq<char>) -> Option<Seq<char>> {
    remainder_below(storages.mount_path_of(storages.listing()[i].1, device), path)
}

/// The number of components of what is left of `path` below the `i`-th
/// storage, if that storage contains the path.
pub open spec fn candidate_length(storages: &Storages, i: int, path: Seq<char>, device: Seq<char>) -> Option<
    nat,
> {
    match candidate(storages, i, path, device) {
        Some(d) => Some(components_of(d).len()),
        None => None,
    }
}

/// Whether position `i` holds the first of the shortest lengths of `s`.
pub open spec fn first_shortest(s: Seq<Option<nat>>, i: int) -> bool {
    &&& 0 <= i < s.len()
    &&& s[i].is_some()
    &&& forall|j: int|
        0 <= j < s.len() && (#[trigger] s[j]).is_some() ==> s[i].unwrap() < s[j].unwrap() || (s[i].unwrap()
            == s[j].unwrap() && i <= j)
}

/// The lengths as numbers without bound.
pub open spec fn as_nats(lengths: Seq<Option<usize>>) -> Seq<Option<nat>> {
    Seq::new(
        lengths.len(),
        |i: int|
            match lengths[i] {
                Some(l) => Some(l as nat),
                None => None,
            },
    )
}

/// Picks the first position among those with the least length; `None` where
/// no position has a length.
pub fn select_closest(lengths: &Vec<Option<usize>>) -> (r: Option<usize>)
    ensures
        match r {
            Some(i) => first_shortest(as_nats(lengths@), i as int),
            None => forall|j: int| 0 <= j < lengths.len() ==> (#[trigger] lengths[j]).is_none(),
        },
{
    let mut best: Option<usize> = None;
    let mut i: usize = 0;
    while i < lengths.len()
        invariant
            i <= lengths.len(),
            match best {
                Some(b) => first_shortest(as_nats(lengths@).take(i as int), b as int),
                None => forall|j: int| 0 <= j < i ==> (#[trigger] lengths[j]).is_none(),
            },
        decreases lengths.len() - i,
    {
        let ghost s = as_nats(lengths@);
        let next: Option<usize> = match lengths[i] {
            None => best,
            Some(l) => match best {
                None => Some(i),
                Some(b) => match lengths[b] {
                    Some(lb) => if l < lb {
                        Some(i)
                    } else {
                        best
                    },
                    None => best,
                },
            },
        };
        proof {
            let t = s.take(i as int + 1);
            assert forall|j: int| 0 <= j < i implies t[j] == s.take(i as int)[j] by {}
            match next {
                Some(n) => {
                    assert(t[n as int] == s[n as int]);
                    assert forall|j: int| 0 <= j < t.len() && (#[trigger] t[j]).is_some() implies t[n as int].unwrap()
                        < t[j].unwrap() || (t[n as int].unwrap() == t[j].unwrap() && n <= j) by {
                        if j < i {
                            assert(s.take(i as int)[j].is_some());
                            if best.is_some() {
                                assert(s.take(i as int)[best.unwrap() as int] == s[best.unwrap() as int]);
                            }
                        }
                    }
                },
                None => {},
            }
        }
        best = next;
        i += 1;
    }
    proof {
        assert(as_nats(lengths@).take(lengths.len() as int) =~= as_nats(lengths@));
    }
    best
}

/// Whether the `i`-th storage of the listing is the closest one that
/// contains `path` on the device named `device`: it contains the path, no
/// storage leaves a shorter remainder, and of those that leave one as short
/// it comes first in the listing, which is in name order.
pub open spec fn is_closest(storages: &Storages, i: int, path: Seq<char>, device: Seq<char>) -> bool {
    &&& 0 <= i < storages.listing().len()
    &&& candidate(storages, i, path, device).is_some()
    &&& forall|j: int|
        0 <= j < storages.listing().len() && (#[trigger] candidate_length(storages, j, path, device)).is_some()
            ==> candidate_length(storages, i, path, device).unwrap() < candidate_length(
            storages,
            j,
            path,
            device,
        ).unwrap() || (candidate_length(storages, i, path, device).unwrap() == candidate_length(
            storages,
            j,
            path,
            device,
        ).unwrap() && i <= j)
}

/// Whether no storage contains `path` on the device named `device`.
pub open spec fn not_covered(storages: &Storages, path: Seq<char>, device: Seq<char>) -> bool {
    forall|j: int|
        0 <= j < storages.listing().len() ==> (#[trigger] candidate(storages, j, path, device)).is_none()
}

/// Find the closest parent storage from the `path`: the storage whose mount
/// path on `device` is the deepest one that contains `path`, together with
/// what is left of `path` below it. Storages that cannot be resolved on the
/// device are passed over. Paths are compared component by component, so
/// that `/mnt/foo` does not contain `/mnt/foobar`. Of two storages mounted at
/// one place the one whose name comes first is taken.
pub fn min_parent_storage<'a>(path: &String, storages: &'a Storages, device: &Device) -> (r: Option<
    (&'a Storage, String),
>)
    ensures
        match r {
            Some((storage, rest)) => exists|i: int|
                #![trigger storages.listing()[i]]
                is_closest(storages, i, path@, device@.name) && storage@ == storages.listing()[i].1 && storages@.dom().contains(
                    storage@.name(),
                ) && storages@[storage@.name()] == storage@ && candidate(storages, i, path@, device@.name) == Some(
                    rest@,
                ),
            None => not_covered(storages, path@, device@.name),
        },
        r.is_some() ==> stays_inside(components_of(r.unwrap().1@)),
{
    let n: usize = storages.len();
    let mut rests: Vec<Option<String>> = Vec::new();
    let mut lengths: Vec<Option<usize>> = Vec::new();
    let mut i: usize = 0;
    while i < n
        invariant
            i <= n,
            n == storages.listing().len(),
            rests.len() == i,
            lengths.len() == i,
            forall|j: int|
                0 <= j < i ==> option_text(#[trigger] rests[j]) == candidate(storages, j, path@, device@.name),
            forall|j: int|
                0 <= j < i ==> (#[trigger] as_nats(lengths@)[j]) == candidate_length(
                    storages,
                    j,
                    path@,
                    device@.name,
                ),
        decreases n - i,
    {
        let storage: &Storage = storages.storage_at(i);
        let mut rest: Option<String> = None;
        let mut length: Option<usize> = None;
        match mount_path(storage, device, storages) {
            Ok(root) => {
                match diff_paths(path, &root) {
                    Some(d) => {
                        let components: Vec<String> = path_components(&d);
                        if is_inside(&components) {
                            length = Some(components.len());
                            rest = Some(d);
                        }
                    },
                    None => {},
                }
            },
            Err(_) => {},
        }
        let ghost lengths_before = lengths@;
        rests.push(rest);
        lengths.push(length);
        proof {
            assert forall|j: int| 0 <= j < i + 1 implies (#[trigger] as_nats(lengths@)[j]) == candidate_length(
                storages,
                j,
                path@,
                device@.name,
            ) by {
                if j < i {
                    assert(as_nats(lengths@)[j] == as_nats(lengths_before)[j]) by {
                        assert(lengths@[j] == lengths_before[j]);
                    }
                }
            }
        }
        i += 1;
    }
    match select_closest(&lengths) {
        None => {
            proof {
                assert forall|j: int| 0 <= j < storages.listing().len() implies (#[trigger] candidate(
                    storages,
                    j,
                    path@,
                    device@.name,
                )).is_none() by {
                    assert(lengths[j].is_none());
                    assert(as_nats(lengths@)[j].is_none());
                }
            }
            None
        },
        Some(best) => {
            let storage: &Storage = storages.storage_at(best);
            proof {
                assert(as_nats(lengths@)[best as int].is_some());
                assert forall|j: int|
                    0 <= j < storages.listing().len() && (#[trigger] candidate_length(
                        storages,
                        j,
                        path@,
                        device@.name,
                    )).is_some() implies candidate_length(storages, best as int, path@, device@.name).unwrap()
                    < candidate_length(storages, j, path@, device@.name).unwrap() || (candidate_length(
                    storages,
                    best as int,
                    path@,
                    device@.name,
                ).unwrap() == candidate_length(storages, j, path@, device@.name).unwrap() && best <= j) by {
                    assert(as_nats(lengths@)[j].is_some());
                }
                assert(is_closest(storages, best as int, path@, device@.name));
            }
            match rests.remove(best) {
                Some(rest) => Some((storage, rest)),
                None => None,
            }
        },
    }
}

/// The text of the component that stands for the home directory.
pub open spec fn tilde() -> Seq<char> {
    seq!['~']
}

/// Whether the first component of `path` is `~`.
pub open spec fn starts_with_tilde(path: Seq<char>) -> bool {
    components_of(path).len() > 0 && components_of(path)[0] == tilde()
}

/// The home directory that was found, as text, or why there is none to go
/// by: none is known, or the path of the one that is known is not valid
/// UTF-8.
pub open spec fn known_home(found: Option<Option<String>>) -> Result<Seq<char>, Error> {
    match found {
        None => Err(Error::NoHomeDirectory),
        Some(None) => Err(Error::InvalidText),
        Some(Some(h)) => Ok(h@),
    }
}

/// Tells the home directory that was found, or why there is none to go by.
pub fn home_of(found: Option<Option<String>>) -> (r: Result<String, Error>)
    ensures
        path_of(r) == known_home(found),
{
    match found {
        None => Err(Error::NoHomeDirectory),
        Some(None) => Err(Error::InvalidText),
        Some(Some(h)) => Ok(h),
    }
}

/// `path` with a leading `~` replaced by the home directory `home`: the
/// components after the `~` are joined to `home` in turn. A path that does
/// not start with `~` stays as it is; one that does cannot be expanded
/// without a home directory, and fails as the search for one did.
pub open spec fn expanded(path: Seq<char>, home: Result<Seq<char>, Error>) -> Result<Seq<char>, Error> {
    if starts_with_tilde(path) {
        match home {
            Ok(h) => Ok(join_all(h, components_of(path).skip(1))),
            Err(e) => Err(e),
        }
    } else {
        Ok(path)
    }
}

/// Expand first `~` in `path` as `home`, which is the home directory or the
/// reason why there is none to go by.
pub fn expand_tilde_with(path: String, home: Result<String, Error>) -> (r: Result<String, Error>)
    ensures
        path_of(r) == expanded(path@, path_of(home)),
{
    let components: Vec<String> = path_components(&path);
    let tilde_text: String = "~".to_owned();
    proof {
        reveal_strlit("~");
        assert(tilde_text@ =~= tilde());
    }
    if components.len() > 0 && components[0] == tilde_text {
        assert(texts(components@)[0] == tilde());
        match home {
            Ok(h) => Ok(join_components_from(h, &components, 1)),
            Err(e) => Err(e),
        }
    } else {
        Ok(path)
    }
}

/// Expand first `~` in path as the home directory of the user, which is
/// asked for when the call is made. A path that starts with `~` fails with
/// [`Error::NoHomeDirectory`] where no home directory is known and with
/// [`Error::InvalidText`] where its path is not valid UTF-8.
pub fn expand_tilde(path: String) -> (r: Result<String, Error>)
    ensures
        exists|found: Option<Option<String>>| path_of(r) == expanded(path@, known_home(found)),
        !starts_with_tilde(path@) ==> path_of(r) == Ok::<Seq<char>, Error>(path@),
{
    let found: Option<Option<String>> = home_dir();
    let r = expand_tilde_with(path, home_of(found));
    assert(path_of(r) == expanded(path@, known_home(found)));
    r
}

/// The number that [`format_summarized_duration`] prints for a duration of
/// `seconds` seconds: whole days where there is at least one, else whole
/// hours where there is at least one, else whole minutes, rounded towards
/// zero.
pub open spec fn summarized_amount(seconds: int) -> int {
    if seconds >= 86400 {
        seconds / 86400
    } else if seconds >= 3600 {
        seconds / 3600
    } else if seconds >= 0 {
        seconds / 60
    } else {
        -((-seconds) / 60)
    }
}

/// The unit that [`format_summarized_duration`] prints after the number.
pub open spec fn summarized_unit(seconds: int) -> Seq<char> {
    if seconds >= 86400 {
        seq!['d']
    } else if seconds >= 3600 {
        seq!['h']
    } else {
        seq!['m', 'i', 'n']
    }
}

/// The amount of [`summarized_amount`] for a duration.
pub fn summarize_duration(seconds: i64) -> (r: i64)
    ensures
        r == summarized_amount(seconds as int),
{
    if seconds >= 86400 {
        seconds / 86400
    } else if seconds >= 3600 {
        seconds / 3600
    } else if seconds >= 0 {
        seconds / 60
    } else if seconds == i64::MIN {
        -153722867280912930
    } else {
        -((-seconds) / 60)
    }
}

/// A duration of `seconds` seconds in short: its amount as a decimal number,
/// followed by its unit, as in `3d`, `5h` or `12min`.
pub fn format_summarized_duration(seconds: i64) -> (r: String)
    ensures
        exists|digits: String|
            to_string_from_display_ensures::<i64>(&(summarized_amount(seconds as int) as i64), digits) && r@
                == digits@ + summarized_unit(seconds as int),
{
    let amount: i64 = summarize_duration(seconds);
    let digits: String = amount.to_string();
    let ghost shown = digits;
    let mut out: String = digits;
    if seconds >= 86400 {
        proof {
            reveal_strlit("d");
        }
        out.append("d");
        assert(out@ =~= shown@ + seq!['d']);
    } else if seconds >= 3600 {
        proof {
            reveal_strlit("h");
        }
        out.append("h");
        assert(out@ =~= shown@ + seq!['h']);
    } else {
        proof {
            reveal_strlit("min");
        }
        out.append("min");
        assert(out@ =~= shown@ + seq!['m', 'i', 'n']);
    }
    out
}

} // verus!
