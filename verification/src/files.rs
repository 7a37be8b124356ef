//! Paths in the file store that administrators manage: names of entries, and
//! where uploaded, renamed and moved files end up.
use vstd::prelude::*;
use crate::text::{chars_of, strip_suffixes, trim_end_matches};

verus! {

broadcast use vstd::string::group_string_axioms;

/// A path to show or act on.
pub struct PathQuery {
    pub p: String,
}

/// A new name for the entry at `p`.
pub struct RenameRequest {
    pub p: String,
    pub new_name: String,
}

/// A directory to move the entry at `p` into.
pub struct MoveRequest {
    pub p: String,
    pub dir: String,
}

/// An entry of a directory listing.
pub struct FileInfo {
    pub name: String,
    pub path: String,
    pub is_dir: bool,
    pub size: Option<usize>,
    pub last_modified: Option<String>,
}

/// The position of the last `/` in `s`.
pub open spec fn last_slash(s: Seq<char>) -> Option<int>
    decreases s.len(),
{
    if s.len() == 0 {
        None
    } else if s.last() == '/' {
        Some(s.len() - 1)
    } else {
        last_slash(s.drop_last())
    }
}

/// What follows the last `/` of `s` (all of `s` when it has none):
/// `s.rsplit('/').next()`.
pub open spec fn last_segment(s: Seq<char>) -> Seq<char> {
    match last_slash(s) {
        Some(i) => s.skip(i + 1),
        None => s,
    }
}

/// What precedes the last `/` of `s`, if it has one.
pub open spec fn parent_of(s: Seq<char>) -> Option<Seq<char>> {
    match last_slash(s) {
        Some(i) => Some(s.take(i)),
        None => None,
    }
}

/// `name` inside `dir`: the name alone for an empty directory, else the
/// directory without trailing slashes, a `/`, and the name.
pub open spec fn join_dir(dir: Seq<char>, name: Seq<char>) -> Seq<char> {
    if dir.len() == 0 {
        name
    } else {
        strip_suffixes(dir, "/"@) + seq!['/'] + name
    }
}

/// `s` holds no `/`.
pub open spec fn no_slash(s: Seq<char>) -> bool {
    forall|i: int| 0 <= i < s.len() ==> s[i] != '/'
}

proof fn lemma_last_slash_bounds(s: Seq<char>)
    ensures
        match last_slash(s) {
            Some(i) => 0 <= i < s.len() && s[i] == '/' && no_slash(s.skip(i + 1)),
            None => no_slash(s),
        },
    decreases s.len(),
{
    if s.len() > 0 {
        lemma_last_slash_bounds(s.drop_last());
        if s.last() != '/' {
            match last_slash(s.drop_last()) {
                Some(i) => {
                    let t = s.skip(i + 1);
                    assert forall|k: int| 0 <= k < t.len() implies #[trigger] t[k] != '/' by {
                        if k < t.len() - 1 {
                            assert(t[k] == s.drop_last().skip(i + 1)[k]);
                        }
                    }
                },
                None => {
                    assert forall|k: int| 0 <= k < s.len() implies s[k] != '/' by {
                        if k < s.len() - 1 {
                            assert(s[k] == s.drop_last()[k]);
                        }
                    }
                },
            }
        } else {
            assert(s.skip(s.len() as int) =~= Seq::<char>::empty());
        }
    }
}

proof fn lemma_last_slash_of_join(a: Seq<char>, b: Seq<char>)
    requires
        no_slash(b),
    ensures
        last_slash(a + seq!['/'] + b) == Some(a.len() as int),
    decreases b.len(),
{
    if b.len() == 0 {
        assert((a + seq!['/'] + b).last() == '/');
        assert(a + seq!['/'] + b =~= a.push('/'));
    } else {
        let s = a + seq!['/'] + b;
        assert(s.last() == b.last());
        assert(s.drop_last() =~= a + seq!['/'] + b.drop_last());
        lemma_last_slash_of_join(a, b.drop_last());
    }
}

proof fn lemma_last_slash_none(b: Seq<char>)
    requires
        no_slash(b),
    ensures
        last_slash(b) is None,
    decreases b.len(),
{
    if b.len() > 0 {
        lemma_last_slash_none(b.drop_last());
    }
}

/// The position of the last `/` in `v`.
fn rfind_slash(v: &Vec<char>) -> (r: Option<usize>)
    ensures
        match r {
            Some(k) => last_slash(v@) == Some(k as int) && k < v@.len(),
            None => last_slash(v@) is None,
        },
{
    proof {
        lemma_last_slash_bounds(v@);
        assert(v@.take(v@.len() as int) =~= v@);
    }
    let mut j = v.len();
    while j > 0
        invariant
            j <= v@.len(),
            last_slash(v@) == last_slash(v@.take(j as int)),
        decreases j,
    {
        let ghost t = v@.take(j as int);
        assert(t.last() == v@[j - 1]);
        if v[j - 1] == '/' {
            return Some(j - 1);
        }
        assert(t.drop_last() =~= v@.take(j - 1));
        j = j - 1;
    }
    None
}

/// The name of a path: what follows its last `/`.
pub fn file_name(path: &str) -> (r: &str)
    ensures
        r@ == last_segment(path@),
{
    let v = chars_of(path);
    proof {
        assert(v@.take(v@.len() as int) =~= v@);
    }
    match rfind_slash(&v) {
        Some(i) => {
            let n = v.len();
            path.substring_char(i + 1, n)
        },
        None => path,
    }
}

/// The name of a directory listed with its trailing `/`: the last part of
/// the path once trailing slashes are gone.
pub fn dir_name(dir: &str) -> (r: &str)
    ensures
        r@ == last_segment(strip_suffixes(dir@, "/"@)),
{
    file_name(trim_end_matches(dir, "/"))
}

/// Where a file uploaded into `base` is stored: `join_dir(base, filename)`.
pub fn upload_path(base: &str, filename: &str) -> (r: String)
    ensures
        r@ == join_dir(base@, filename@),
{
    if base.is_empty() {
        return String::from_str(filename);
    }
    let mut out = String::from_str(trim_end_matches(base, "/"));
    out.append("/");
    out.append(filename);
    proof {
        reveal_strlit("/");
        assert("/"@ =~= seq!['/']);
    }
    out
}

/// Where a renamed entry goes: the same directory with the new name (just the
/// new name at the top level).
pub fn renamed_path(p: &str, new_name: &str) -> (r: String)
    ensures
        r@ == match parent_of(p@) {
            Some(d) => d + seq!['/'] + new_name@,
            None => new_name@,
        },
{
    let v = chars_of(p);
    proof {
        assert(v@.take(v@.len() as int) =~= v@);
    }
    match rfind_slash(&v) {
        Some(i) => {
            let mut out = String::from_str(p.substring_char(0, i));
            out.append("/");
            out.append(new_name);
            proof {
                reveal_strlit("/");
                assert("/"@ =~= seq!['/']);
                assert(p@.subrange(0, i as int) =~= p@.take(i as int));
            }
            out
        },
        None => String::from_str(new_name),
    }
}

/// Where a moved entry goes: its name inside `dir`.
pub fn moved_path(p: &str, dir: &str) -> (r: String)
    ensures
        r@ == join_dir(dir@, last_segment(p@)),
{
    upload_path(dir, file_name(p))
}

/// Moving keeps the name of the entry, and renaming keeps its directory and
/// gives it the new name (a name without `/`).
pub proof fn path_laws(p: Seq<char>, dir: Seq<char>, new_name: Seq<char>)
    requires
        no_slash(new_name),
    ensures
        last_segment(join_dir(dir, last_segment(p))) == last_segment(p),
        ({
            let r = match parent_of(p) {
                Some(d) => d + seq!['/'] + new_name,
                None => new_name,
            };
            last_segment(r) == new_name && parent_of(r) == parent_of(p)
        }),
{
    lemma_last_slash_bounds(p);
    let name = last_segment(p);
    assert(no_slash(name));
    if dir.len() > 0 {
        lemma_last_slash_of_join(strip_suffixes(dir, "/"@), name);
        let j = strip_suffixes(dir, "/"@) + seq!['/'] + name;
        assert(j.skip(strip_suffixes(dir, "/"@).len() as int + 1) =~= name);
    } else {
        lemma_last_slash_none(name);
    }
    match parent_of(p) {
        Some(d) => {
            lemma_last_slash_of_join(d, new_name);
            let r = d + seq!['/'] + new_name;
            assert(r.skip(d.len() as int + 1) =~= new_name);
            assert(r.take(d.len() as int) =~= d);
        },
        None => {
            lemma_last_slash_none(new_name);
        },
    }
}

/// The `Content-Disposition` value that offers a file for download under
/// its name.
pub fn download_disposition(p: &str) -> (r: String)
    ensures
        r@ == "attachment; filename=\""@ + last_segment(p@) + "\""@,
{
    let mut out = String::from_str("attachment; filename=\"");
    out.append(file_name(p));
    out.append("\"");
    out
}

} // verus!
