//! Lexical work on filesystem paths, which the catalog holds as text.
//!
//! Nothing here touches the filesystem.
use crate::text::texts;
use vstd::prelude::*;

verus! {

/// The text of `base` joined with `part`, as `std::path::Path::join` gives it
/// on the platform that the library is built for.
pub uninterp spec fn joined_path(base: Seq<char>, part: Seq<char>) -> Seq<char>;

/// The components of the path `path`, as `std::path::Path::components` lists
/// them, each by its text.
pub uninterp spec fn components_of(path: Seq<char>) -> Seq<Seq<char>>;

/// The relative path that leads from `base` to `path`, as
/// `pathdiff::diff_paths` computes it from the two texts alone; `None` where
/// it finds none.
pub uninterp spec fn path_diff(path: Seq<char>, base: Seq<char>) -> Option<Seq<char>>;

/// Calls `std::path::Path::join` on the two texts. No claim is proved of it:
/// the result is taken to be [`joined_path`] of the texts. Both arguments are
/// valid UTF-8, so the joined path is too and turns into a `String` as it is.
#[verifier::external_body]
pub(crate) fn path_join(base: &String, part: &String) -> (r: String)
    ensures
        r@ == joined_path(base@, part@),
{
    std::path::Path::new(base).join(part).to_string_lossy().into_owned()
}

/// Calls `std::path::Path::components` on the text and hands out the text of
/// each component in turn. No claim is proved of it: the result is taken to be
/// [`components_of`] of the text.
#[verifier::external_body]
pub(crate) fn path_components(path: &String) -> (r: Vec<String>)
    ensures
        texts(r@) == components_of(path@),
{
    std::path::Path::new(path).components().map(|c| c.as_os_str().to_string_lossy().into_owned()).collect()
}

/// Calls `pathdiff::diff_paths`, which compares the components of the two
/// paths and never looks at the filesystem. No claim is proved of it: the
/// result is taken to be [`path_diff`] of the texts.
#[verifier::external_body]
pub(crate) fn diff_paths(path: &String, base: &String) -> (r: Option<String>)
    ensures
        option_text(r) == path_diff(path@, base@),
{
    pathdiff::diff_paths(path, base).map(|d| d.to_string_lossy().into_owned())
}

/// Calls `dirs::home_dir`, which asks the environment for the home directory
/// of the user. Where there is one, its path is handed out as text, if it is
/// valid UTF-8. Nothing is claimed of what it returns.
#[verifier::external_body]
pub(crate) fn home_dir() -> (r: Option<Option<String>>) {
    dirs::home_dir().map(|p| p.to_str().map(|s| s.to_string()))
}

/// The text that an optional string holds.
pub open spec fn option_text(o: Option<String>) -> Option<Seq<char>> {
    match o {
        Some(s) => Some(s@),
        None => None,
    }
}

/// `base` with each of `parts` joined to it in turn.
pub open spec fn join_all(base: Seq<char>, parts: Seq<Seq<char>>) -> Seq<char>
    decreases parts.len(),
{
    if parts.len() == 0 {
        base
    } else {
        joined_path(join_all(base, parts.drop_last()), parts.last())
    }
}

/// Joins each of `parts` from position `from` on to `base` in turn.
pub fn join_components_from(base: String, parts: &Vec<String>, from: usize) -> (r: String)
    requires
        from <= parts.len(),
    ensures
        r@ == join_all(base@, texts(parts@).skip(from as int)),
{
    let mut current: String = base;
    let mut i: usize = from;
    while i < parts.len()
        invariant
            from <= i <= parts.len(),
            current@ == join_all(base@, texts(parts@).subrange(from as int, i as int)),
        decreases parts.len() - i,
    {
        let next: String = path_join(&current, &parts[i]);
        proof {
            let t = texts(parts@);
            assert(t.subrange(from as int, i as int + 1).drop_last() =~= t.subrange(from as int, i as int));
            assert(t.subrange(from as int, i as int + 1).last() == parts[i as int]@);
        }
        current = next;
        i += 1;
    }
    proof {
        assert(texts(parts@).subrange(from as int, parts.len() as int) =~= texts(parts@).skip(from as int));
    }
    current
}

/// Joins each of `parts` to `base` in turn.
pub fn join_components(base: String, parts: &Vec<String>) -> (r: String)
    ensures
        r@ == join_all(base@, texts(parts@)),
{
    proof {
        assert(texts(parts@).skip(0) =~= texts(parts@));
    }
    join_components_from(base, parts, 0)
}

/// The text of the component that stands for the parent directory.
pub open spec fn parent_dir() -> Seq<char> {
    seq!['.', '.']
}

/// Whether a relative path, given by its components, stays below the
/// directory that it starts from: it does unless one of its components is
/// the parent directory.
pub open spec fn stays_inside(components: Seq<Seq<char>>) -> bool {
    forall|i: int| 0 <= i < components.len() ==> #[trigger] components[i] != parent_dir()
}

/// Tells whether none of `components` is the parent directory.
pub fn is_inside(components: &Vec<String>) -> (r: bool)
    ensures
        r == stays_inside(texts(components@)),
{
    let up: String = "..".to_owned();
    proof {
        reveal_strlit("..");
        assert(up@ =~= parent_dir());
    }
    let mut i: usize = 0;
    while i < components.len()
        invariant
            i <= components.len(),
            up@ == parent_dir(),
            forall|j: int| 0 <= j < i ==> #[trigger] texts(components@)[j] != parent_dir(),
        decreases components.len() - i,
    {
        if components[i] == up {
            assert(texts(components@)[i as int] == parent_dir());
            return false;
        }
        i += 1;
    }
    true
}

} // verus!
