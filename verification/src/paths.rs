//! Paths: group paths inside a vault (`General/Web`), and the file paths of
//! temporary and backup files.
//!
//! File paths are `/`-separated texts. Trailing slashes are ignored, a final
//! `.` or `..` component has no file name, and the extension is what follows
//! the last dot of the file name unless that dot starts the name.
use vstd::prelude::*;
use crate::error::AnahtarError;
use crate::text::{push_str, chars_of, substring, string_of, decimal, u64_to_decimal, usize_to_decimal};

verus! {

/// The `/`-separated parts of a text, as `str::split('/')` yields them.
pub open spec fn split_slash(s: Seq<char>) -> Seq<Seq<char>>
    decreases s.len(),
{
    if s.len() == 0 {
        seq![Seq::<char>::empty()]
    } else {
        let rest = split_slash(s.drop_first());
        if s[0] == '/' {
            seq![Seq::<char>::empty()] + rest
        } else {
            rest.update(0, seq![s[0]] + rest[0])
        }
    }
}

/// Splitting always yields at least one part.
pub proof fn lemma_split_nonempty(s: Seq<char>)
    ensures
        split_slash(s).len() >= 1,
    decreases s.len(),
{
    if s.len() > 0 {
        lemma_split_nonempty(s.drop_first());
    }
}

/// The parts of a text between slashes, as `str::split('/')` gives them.
pub fn split_on_slash(s: &str) -> (r: Vec<String>)
    ensures
        r@.map_values(|p: String| p@) == split_slash(s@),
{
    let cs = chars_of(s);
    let mut done: Vec<String> = Vec::new();
    let mut cur = String::new();
    let mut i: usize = 0;
    proof {
        lemma_split_nonempty(s@);
        assert(cs@.skip(0) =~= cs@);
        let t = split_slash(cs@);
        assert(t.update(0, Seq::<char>::empty() + t[0]) =~= t);
    }
    while i < cs.len()
        invariant
            i <= cs.len(),
            cs@ == s@,
            split_slash(cs@) == done@.map_values(|p: String| p@) + {
                let t = split_slash(cs@.skip(i as int));
                t.update(0, cur@ + t[0])
            },
        decreases cs.len() - i,
    {
        let ghost tail = cs@.skip(i as int);
        let ghost next = cs@.skip(i + 1);
        proof {
            assert(tail.drop_first() =~= next);
            assert(tail[0] == cs@[i as int]);
            lemma_split_nonempty(next);
        }
        if cs[i] == '/' {
            let ghost before = done@;
            done.push(cur);
            cur = String::new();
            proof {
                let t = split_slash(next);
                assert(done@.map_values(|p: String| p@) =~= before.map_values(|p: String| p@).push(done@.last()@));
                assert(t.update(0, cur@ + t[0]) =~= t);
            }
        } else {
            let ghost old_cur = cur@;
            cur.push(cs[i]);
            proof {
                let t = split_slash(next);
                assert(cur@ + t[0] =~= old_cur + (seq![cs@[i as int]] + t[0]));
                assert(split_slash(tail).update(0, old_cur + split_slash(tail)[0]) =~= t.update(0, cur@ + t[0]));
            }
        }
        i = i + 1;
    }
    proof {
        assert(cs@.skip(cs.len() as int) =~= Seq::<char>::empty());
    }
    let ghost before = done@;
    done.push(cur);
    proof {
        assert(done@.map_values(|p: String| p@) =~= before.map_values(|p: String| p@) + seq![done@.last()@]);
    }
    done
}

/// A group path is well formed: not empty, no leading or trailing slash, and
/// no empty part between slashes.
pub open spec fn valid_group_path(p: Seq<char>) -> bool {
    &&& p.len() > 0
    &&& p[0] != '/'
    &&& p.last() != '/'
    &&& forall|i: int| 0 <= i < split_slash(p).len() ==> (#[trigger] split_slash(p)[i]).len() > 0
}

/// The views of a list of strings.
pub open spec fn string_views(s: Seq<String>) -> Seq<Seq<char>> {
    s.map_values(|p: String| p@)
}

/// The parts of a well-formed group path; `InvalidGroupPath` with the path otherwise.
pub fn group_path_parts(group_path: &str) -> (r: Result<Vec<String>, AnahtarError>)
    ensures
        valid_group_path(group_path@) ==> (r matches Ok(parts) && string_views(parts@) == split_slash(group_path@)),
        !valid_group_path(group_path@) ==> (r matches Err(AnahtarError::InvalidGroupPath(t)) && t@ == group_path@),
{
    let cs = chars_of(group_path);
    if cs.len() == 0 || cs[0] == '/' || cs[cs.len() - 1] == '/' {
        return Err(AnahtarError::InvalidGroupPath(group_path.to_owned()));
    }
    let parts = split_on_slash(group_path);
    let mut i: usize = 0;
    while i < parts.len()
        invariant
            i <= parts.len(),
            string_views(parts@) == split_slash(group_path@),
            forall|j: int| 0 <= j < i ==> (#[trigger] split_slash(group_path@)[j]).len() > 0,
        decreases parts.len() - i,
    {
        assert(string_views(parts@)[i as int] == parts@[i as int]@);
        if parts[i].as_str().is_empty() {
            return Err(AnahtarError::InvalidGroupPath(group_path.to_owned()));
        }
        i = i + 1;
    }
    Ok(parts)
}

/// The position of the last `c` in `s`.
pub open spec fn last_index(s: Seq<char>, c: char) -> Option<int>
    decreases s.len(),
{
    if s.len() == 0 {
        None
    } else if s.last() == c {
        Some(s.len() - 1)
    } else {
        last_index(s.drop_last(), c)
    }
}

/// The last position of a character lies inside the text and holds it.
pub proof fn lemma_last_index(s: Seq<char>, c: char)
    ensures
        last_index(s, c) matches Some(i) ==> 0 <= i < s.len() && s[i] == c,
    decreases s.len(),
{
    if s.len() > 0 && s.last() != c {
        lemma_last_index(s.drop_last(), c);
    }
}

fn find_last(cs: &Vec<char>, c: char) -> (r: Option<usize>)
    ensures
        match r {
            Some(i) => last_index(cs@, c) == Some(i as int) && i < cs.len(),
            None => last_index(cs@, c) is None,
        },
{
    let mut k: usize = cs.len();
    assert(cs@.take(k as int) =~= cs@);
    while k > 0
        invariant
            k <= cs.len(),
            last_index(cs@, c) == last_index(cs@.take(k as int), c),
        decreases k,
    {
        let ghost t = cs@.take(k as int);
        assert(t.last() == cs@[k - 1]);
        if cs[k - 1] == c {
            return Some(k - 1);
        }
        assert(t.drop_last() =~= cs@.take(k - 1));
        k = k - 1;
    }
    None
}

/// Where `group_path` puts a new group: the parent path (empty for the root)
/// and the new group's name, split at the last slash.
pub open spec fn parent_and_name(p: Seq<char>) -> (Seq<char>, Seq<char>) {
    match last_index(p, '/') {
        Some(i) => (p.take(i), p.skip(i + 1)),
        None => (Seq::empty(), p),
    }
}

/// Whether a path for a new group is well formed: no leading or trailing
/// slash, a non-empty name, and no empty part in a non-empty parent path.
pub open spec fn valid_new_group_path(p: Seq<char>) -> bool {
    let (parent, name) = parent_and_name(p);
    &&& p.len() > 0
    &&& p[0] != '/'
    &&& p.last() != '/'
    &&& name.len() > 0
    &&& (parent.len() > 0 ==> forall|i: int| 0 <= i < split_slash(parent).len() ==> (#[trigger] split_slash(parent)[i]).len() > 0)
}

/// Splits a new group's path into its parent path and name.
pub fn split_group_parent(group_path: &str) -> (r: Result<(String, String), AnahtarError>)
    ensures
        valid_new_group_path(group_path@) ==> (r matches Ok(t) && t.0@ == parent_and_name(group_path@).0 && t.1@ == parent_and_name(group_path@).1),
        !valid_new_group_path(group_path@) ==> (r matches Err(AnahtarError::InvalidGroupPath(t)) && t@ == group_path@),
{
    let cs = chars_of(group_path);
    if cs.len() == 0 || cs[0] == '/' || cs[cs.len() - 1] == '/' {
        return Err(AnahtarError::InvalidGroupPath(group_path.to_owned()));
    }
    let (parent, name) = match find_last(&cs, '/') {
        Some(i) => (substring(&cs, 0, i), substring(&cs, i + 1, cs.len())),
        None => (String::new(), string_of(cs.as_slice())),
    };
    assert(cs@.subrange(0, cs@.len() as int) =~= cs@);
    proof {
        match last_index(cs@, '/') {
            Some(i) => {
                assert(cs@.subrange(0, i) =~= cs@.take(i));
                assert(cs@.subrange(i + 1, cs@.len() as int) =~= cs@.skip(i + 1));
            },
            None => {},
        }
    }
    if name.as_str().is_empty() {
        return Err(AnahtarError::InvalidGroupPath(group_path.to_owned()));
    }
    if !parent.as_str().is_empty() {
        let parts = split_on_slash(parent.as_str());
        let mut i: usize = 0;
        while i < parts.len()
            invariant
                i <= parts.len(),
                parent@ == parent_and_name(group_path@).0,
                parent@.len() > 0,
                string_views(parts@) == split_slash(parent@),
                forall|j: int| 0 <= j < i ==> (#[trigger] split_slash(parent@)[j]).len() > 0,
            decreases parts.len() - i,
        {
            assert(string_views(parts@)[i as int] == parts@[i as int]@);
            if parts[i].as_str().is_empty() {
                return Err(AnahtarError::InvalidGroupPath(group_path.to_owned()));
            }
            i = i + 1;
        }
    }
    Ok((parent, name))
}

/// `p` without trailing slashes, a lone `/` kept.
pub open spec fn strip_trailing(p: Seq<char>) -> Seq<char>
    decreases p.len(),
{
    if p.len() > 1 && p.last() == '/' { strip_trailing(p.drop_last()) } else { p }
}

/// The last component of a path, as `Path::file_name` gives it.
pub open spec fn file_name_of(p: Seq<char>) -> Option<Seq<char>> {
    let q = strip_trailing(p);
    let name = match last_index(q, '/') {
        Some(i) => q.skip(i + 1),
        None => q,
    };
    if name.len() == 0 || name == seq!['.'] || name == seq!['.', '.'] { None } else { Some(name) }
}

/// Everything of a path before its last component (the text up to and
/// without the separating slash; `/` for a top-level component; empty for a
/// bare name).
pub open spec fn parent_text(p: Seq<char>) -> Seq<char> {
    let q = strip_trailing(p);
    match last_index(q, '/') {
        Some(i) => if i == 0 { seq!['/'] } else { q.take(i) },
        None => Seq::empty(),
    }
}

/// `dir` joined with a relative `name`, as `Path::join` does.
pub open spec fn join_path(dir: Seq<char>, name: Seq<char>) -> Seq<char> {
    if dir.len() == 0 {
        name
    } else if dir.last() == '/' {
        dir + name
    } else {
        dir + seq!['/'] + name
    }
}

/// The position of the dot that starts a file name's extension: its last dot,
/// unless that is its first character.
pub open spec fn extension_dot(name: Seq<char>) -> Option<int> {
    match last_index(name, '.') {
        Some(i) => if i > 0 { Some(i) } else { None },
        None => None,
    }
}

/// The file name without its extension, as `Path::file_stem` gives it.
pub open spec fn stem_of(name: Seq<char>) -> Seq<char> {
    match extension_dot(name) {
        Some(i) => name.take(i),
        None => name,
    }
}

/// The extension of a file name, as `Path::extension` gives it.
pub open spec fn extension_of(name: Seq<char>) -> Option<Seq<char>> {
    match extension_dot(name) {
        Some(i) => Some(name.skip(i + 1)),
        None => None,
    }
}

/// The parts of a path that the file helpers need.
struct PathParts {
    /// The path without trailing slashes.
    trimmed: Vec<char>,
    /// Where the last component starts in `trimmed`.
    name_start: usize,
}

fn path_parts(p: &str) -> (r: PathParts)
    ensures
        r.trimmed@ == strip_trailing(p@),
        r.name_start <= r.trimmed@.len(),
        r.name_start == match last_index(strip_trailing(p@), '/') {
            Some(i) => i + 1,
            None => 0,
        },
{
    let cs = chars_of(p);
    let mut n: usize = cs.len();
    assert(cs@.take(n as int) =~= cs@);
    while n > 1 && cs[n - 1] == '/'
        invariant
            n <= cs.len(),
            strip_trailing(p@) == strip_trailing(cs@.take(n as int)),
            cs@ == p@,
        decreases n,
    {
        assert(cs@.take(n as int).drop_last() =~= cs@.take(n - 1));
        n = n - 1;
    }
    let mut trimmed: Vec<char> = Vec::new();
    let mut i: usize = 0;
    while i < n
        invariant
            i <= n <= cs.len(),
            trimmed@ == cs@.take(i as int),
        decreases n - i,
    {
        trimmed.push(cs[i]);
        i = i + 1;
        assert(trimmed@ =~= cs@.take(i as int));
    }
    assert(strip_trailing(cs@.take(n as int)) == cs@.take(n as int));
    let name_start = match find_last(&trimmed, '/') {
        Some(k) => k + 1,
        None => 0,
    };
    PathParts { trimmed, name_start }
}

/// The file name of a path.
pub fn file_name(p: &str) -> (r: Option<String>)
    ensures
        match r {
            Some(n) => file_name_of(p@) == Some(n@),
            None => file_name_of(p@) is None,
        },
{
    let parts = path_parts(p);
    let name = substring(&parts.trimmed, parts.name_start, parts.trimmed.len());
    proof {
        assert(parts.trimmed@.subrange(parts.name_start as int, parts.trimmed@.len() as int)
            =~= match last_index(parts.trimmed@, '/') { Some(i) => parts.trimmed@.skip(i + 1), None => parts.trimmed@ });
    }
    let dot = ".".to_owned();
    let dotdot = "..".to_owned();
    proof {
        reveal_strlit(".");
        reveal_strlit("..");
        assert(dot@ =~= seq!['.']);
        assert(dotdot@ =~= seq!['.', '.']);
    }
    let is_dot = name == dot;
    let is_dotdot = name == dotdot;
    assert(is_dot == (name@ == seq!['.']));
    assert(is_dotdot == (name@ == seq!['.', '.']));
    if name.as_str().is_empty() || is_dot || is_dotdot {
        None
    } else {
        Some(name)
    }
}

/// The text of a path before its last component.
pub fn parent_path(p: &str) -> (r: String)
    ensures
        r@ == parent_text(p@),
{
    let parts = path_parts(p);
    proof { lemma_last_index(parts.trimmed@, '/'); }
    if parts.name_start == 0 {
        let r = String::new();
        assert(r@ == parent_text(p@));
        r
    } else if parts.name_start == 1 {
        proof {
            assert(last_index(parts.trimmed@, '/') == Some(0int));
            reveal_strlit("/");
            assert("/"@ =~= seq!['/']);
        }
        let r = "/".to_owned();
        assert(r@ == parent_text(p@));
        r
    } else {
        let r = substring(&parts.trimmed, 0, parts.name_start - 1);
        assert(r@ =~= parts.trimmed@.take(parts.name_start - 1));
        assert(r@ == parent_text(p@));
        r
    }
}

/// `dir` joined with a relative `name`.
pub fn join(dir: &str, name: &str) -> (r: String)
    ensures
        r@ == join_path(dir@, name@),
{
    let d = chars_of(dir);
    if d.len() == 0 {
        name.to_owned()
    } else if d[d.len() - 1] == '/' {
        crate::text::join_text(dir, name)
    } else {
        let mut r = dir.to_owned();
        r.push('/');
        push_str(&mut r, name);
        r
    }
}

fn find_extension_dot(name: &Vec<char>) -> (r: Option<usize>)
    ensures
        match r {
            Some(i) => extension_dot(name@) == Some(i as int) && i < name.len(),
            None => extension_dot(name@) is None,
        },
{
    match find_last(name, '.') {
        Some(i) => if i > 0 { Some(i) } else { None },
        None => None,
    }
}

/// The path of the temporary file a save-as writes before renaming it over
/// the output: the output with `.tmp` after its extension (`kdbx` where it
/// has none). A path without a file name is kept as it is.
pub open spec fn temp_path(p: Seq<char>) -> Seq<char> {
    match file_name_of(p) {
        None => p,
        Some(name) => {
            let q = strip_trailing(p);
            let ext = match extension_of(name) { Some(e) => e, None => "kdbx"@ };
            q.take(q.len() - name.len() + stem_of(name).len()) + seq!['.'] + ext + ".tmp"@
        },
    }
}

/// The temporary path of a save-as output.
pub fn temp_path_for(output: &str) -> (r: String)
    ensures
        r@ == temp_path(output@),
{
    match file_name(output) {
        None => output.to_owned(),
        Some(name) => {
            let parts = path_parts(output);
            let nc = chars_of(name.as_str());
            let (stem_len, ext) = match find_extension_dot(&nc) {
                Some(i) => (i, substring(&nc, i + 1, nc.len())),
                None => (nc.len(), "kdbx".to_owned()),
            };
            proof {
                assert(parts.trimmed@.len() - parts.name_start == name@.len()) by {
                    assert(parts.trimmed@.subrange(parts.name_start as int, parts.trimmed@.len() as int)
                        =~= match last_index(parts.trimmed@, '/') { Some(i) => parts.trimmed@.skip(i + 1), None => parts.trimmed@ });
                }
                match extension_dot(name@) {
                    Some(i) => {
                        assert(nc@.subrange(i + 1, nc@.len() as int) =~= name@.skip(i + 1));
                    },
                    None => {},
                }
            }
            let mut r = substring(&parts.trimmed, 0, parts.name_start + stem_len);
            r.push('.');
            push_str(&mut r, ext.as_str());
            push_str(&mut r, ".tmp");
            proof {
                reveal_strlit("kdbx");
                assert(parts.trimmed@.subrange(0, parts.name_start + stem_len)
                    =~= parts.trimmed@.take(parts.trimmed@.len() - name@.len() + stem_of(name@).len()));
            }
            r
        },
    }
}

/// The hidden temporary file an in-place write uses beside the vault:
/// `.<name>.anahtar.tmp` in the vault's directory.
pub open spec fn in_place_temp(p: Seq<char>, name: Seq<char>) -> Seq<char> {
    join_path(parent_text(p), "."@ + name + ".anahtar.tmp"@)
}

/// The in-place temporary path for a vault; `InvalidGroupPath` where the
/// path has no file name.
pub fn temp_in_place_path_for(target: &str) -> (r: Result<String, AnahtarError>)
    ensures
        match file_name_of(target@) {
            Some(name) => r matches Ok(t) && t@ == in_place_temp(target@, name),
            None => r matches Err(AnahtarError::InvalidGroupPath(m)) && m@ == "vault path has no file name"@,
        },
{
    match file_name(target) {
        None => Err(AnahtarError::InvalidGroupPath("vault path has no file name".to_owned())),
        Some(name) => {
            let mut hidden = ".".to_owned();
            push_str(&mut hidden, name.as_str());
            push_str(&mut hidden, ".anahtar.tmp");
            let dir = parent_path(target);
            proof { reveal_strlit("."); }
            Ok(join(dir.as_str(), hidden.as_str()))
        },
    }
}

/// The directory backups go to: the one given, or `anahtar-backups` beside the vault.
pub open spec fn backup_dir(target: Seq<char>, given: Option<Seq<char>>) -> Seq<char> {
    match given {
        Some(d) => d,
        None => {
            let parent = if parent_text(target).len() == 0 && file_name_of(target) is None { "."@ } else { parent_text(target) };
            join_path(parent, "anahtar-backups"@)
        },
    }
}

/// The stem backups are named after: the vault's file stem, or `vault`.
pub open spec fn backup_stem(target: Seq<char>) -> Seq<char> {
    match file_name_of(target) {
        Some(name) => stem_of(name),
        None => "vault"@,
    }
}

/// The name of backup number `suffix` taken at `timestamp`:
/// `<stem>.<timestamp>.kdbx`, then `<stem>.<timestamp>.<suffix>.kdbx`.
pub open spec fn backup_name(stem: Seq<char>, timestamp: u64, suffix: nat) -> Seq<char> {
    if suffix == 0 {
        stem + "."@ + decimal(timestamp as nat) + ".kdbx"@
    } else {
        stem + "."@ + decimal(timestamp as nat) + "."@ + decimal(suffix) + ".kdbx"@
    }
}

/// The backup file name for a suffix.
pub fn backup_file_name(stem: &str, timestamp: u64, suffix: usize) -> (r: String)
    ensures
        r@ == backup_name(stem@, timestamp, suffix as nat),
{
    let mut r = stem.to_owned();
    push_str(&mut r, ".");
    push_str(&mut r, u64_to_decimal(timestamp).as_str());
    if suffix > 0 {
        push_str(&mut r, ".");
        push_str(&mut r, usize_to_decimal(suffix).as_str());
    }
    push_str(&mut r, ".kdbx");
    r
}

/// The directory and stem of the backups of a vault.
pub fn backup_location(target: &str, given_dir: Option<&str>) -> (r: (String, String))
    ensures
        r.0@ == backup_dir(target@, match given_dir { Some(d) => Some(d@), None => None }),
        r.1@ == backup_stem(target@),
{
    let name = file_name(target);
    let dir = match given_dir {
        Some(d) => d.to_owned(),
        None => {
            let p = parent_path(target);
            let base = if p.as_str().is_empty() && name.is_none() { ".".to_owned() } else { p };
            join(base.as_str(), "anahtar-backups")
        },
    };
    let stem = match name {
        Some(n) => {
            let nc = chars_of(n.as_str());
            match find_extension_dot(&nc) {
                Some(i) => {
                    let s = substring(&nc, 0, i);
                    assert(s@ =~= n@.take(i as int));
                    s
                },
                None => n,
            }
        },
        None => "vault".to_owned(),
    };
    (dir, stem)
}

/// The first of the numbered backup candidates that is free, where `taken[k]`
/// says whether candidate `k` exists (candidates past the list count as free).
pub open spec fn first_free(taken: Seq<bool>, k: nat) -> Option<nat>
    decreases 1000 - k,
{
    if k >= 1000 {
        None
    } else if k >= taken.len() || !taken[k as int] {
        Some(k)
    } else {
        first_free(taken, k + 1)
    }
}

/// Picks the backup path of a vault: `<stem>.<timestamp>.kdbx` in the backup
/// directory, or the first numbered variant up to 999 that is free;
/// `TempOutputExists` with the unnumbered path when all are taken.
pub fn backup_path_for(target: &str, given_dir: Option<&str>, timestamp: u64, taken: &Vec<bool>) -> (r: Result<String, AnahtarError>)
    ensures
        ({
            let dir = backup_dir(target@, match given_dir { Some(d) => Some(d@), None => None });
            let stem = backup_stem(target@);
            match first_free(taken@, 0) {
                Some(k) => r matches Ok(p) && p@ == join_path(dir, backup_name(stem, timestamp, k)),
                None => r matches Err(AnahtarError::TempOutputExists(p)) && p@ == join_path(dir, backup_name(stem, timestamp, 0)),
            }
        }),
{
    let (dir, stem) = backup_location(target, given_dir);
    let mut k: usize = 0;
    while k < 1000
        invariant
            k <= 1000,
            first_free(taken@, 0) == first_free(taken@, k as nat),
            dir@ == backup_dir(target@, match given_dir { Some(d) => Some(d@), None => None }),
            stem@ == backup_stem(target@),
        decreases 1000 - k,
    {
        if k >= taken.len() || !taken[k] {
            assert(first_free(taken@, k as nat) == Some(k as nat));
            let name = backup_file_name(stem.as_str(), timestamp, k);
            return Ok(join(dir.as_str(), name.as_str()));
        }
        k = k + 1;
    }
    let name = backup_file_name(stem.as_str(), timestamp, 0);
    Err(AnahtarError::TempOutputExists(join(dir.as_str(), name.as_str())))
}

} // verus!
