//! File names and extensions of Unix paths, with the meaning that std's
//! `Path::file_name` and `Path::extension` give them, and joining of relative parts.
use vstd::prelude::*;
use crate::text::{chars_vec, push_char, push_str};

verus! {

/// `p` without trailing separators and trailing `.` components.
pub open spec fn trim_tail(p: Seq<char>) -> Seq<char>
    decreases p.len(),
{
    if p.len() == 0 {
        p
    } else if p.last() == '/' {
        trim_tail(p.drop_last())
    } else if p.last() == '.' && (p.len() == 1 || p[p.len() - 2] == '/') {
        trim_tail(p.drop_last())
    } else {
        p
    }
}

/// The characters of `p` after its last `/` (all of `p` if it has none).
pub open spec fn after_last_slash(p: Seq<char>) -> Seq<char>
    decreases p.len(),
{
    if p.len() == 0 {
        p
    } else if p.last() == '/' {
        seq![]
    } else {
        after_last_slash(p.drop_last()).push(p.last())
    }
}

/// The final component of a path, unless the path ends in `..`, is a root, or is empty.
pub open spec fn file_name_spec(p: Seq<char>) -> Option<Seq<char>> {
    let n = after_last_slash(trim_tail(p));
    if n.len() == 0 || n == seq!['.', '.'] {
        None
    } else {
        Some(n)
    }
}

/// The position of the last `.` in `s`.
pub open spec fn last_dot(s: Seq<char>) -> Option<int>
    decreases s.len(),
{
    if s.len() == 0 {
        None
    } else if s.last() == '.' {
        Some(s.len() - 1)
    } else {
        last_dot(s.drop_last())
    }
}

/// The extension of a path: what follows the last `.` of its file name, when that
/// dot is not the name's first character.
pub open spec fn extension_spec(p: Seq<char>) -> Option<Seq<char>> {
    match file_name_spec(p) {
        None => None,
        Some(n) => match last_dot(n) {
            None => None,
            Some(k) => if k == 0 {
                None
            } else {
                Some(n.skip(k + 1))
            },
        },
    }
}

proof fn lemma_after_last_slash_no_slash(p: Seq<char>)
    ensures
        forall|i: int| 0 <= i < after_last_slash(p).len() ==> after_last_slash(p)[i] != '/',
    decreases p.len(),
{
    if p.len() > 0 && p.last() != '/' {
        lemma_after_last_slash_no_slash(p.drop_last());
        let a = after_last_slash(p.drop_last());
        assert forall|i: int| 0 <= i < a.push(p.last()).len() implies a.push(p.last())[i] != '/' by {
            if i < a.len() {
                assert(a.push(p.last())[i] == a[i]);
            }
        }
    }
}

proof fn lemma_last_dot_bounds(s: Seq<char>)
    ensures
        last_dot(s) matches Some(k) ==> 0 <= k < s.len() && s[k] == '.',
    decreases s.len(),
{
    if s.len() > 0 && s.last() != '.' {
        lemma_last_dot_bounds(s.drop_last());
    }
}

fn trimmed_end(cs: &Vec<char>) -> (e: usize)
    ensures
        e <= cs@.len(),
        trim_tail(cs@) == cs@.take(e as int),
{
    let ghost p = cs@;
    let mut e: usize = cs.len();
    proof {
        assert(p.take(e as int) == p);
    }
    while e > 0 && (cs[e - 1] == '/' || (cs[e - 1] == '.' && (e == 1 || cs[e - 2] == '/')))
        invariant
            cs@ == p,
            e <= cs@.len(),
            trim_tail(p) == trim_tail(p.take(e as int)),
        decreases e,
    {
        proof {
            assert(p.take(e as int).drop_last() == p.take(e - 1));
        }
        e = e - 1;
    }
    proof {
        let t = p.take(e as int);
        if e > 0 {
            assert(t.last() == cs@[e - 1]);
            if e >= 2 {
                assert(t[t.len() - 2] == cs@[e - 2]);
            }
        }
    }
    e
}

fn component_start(cs: &Vec<char>, e: usize) -> (j: usize)
    requires
        e <= cs@.len(),
    ensures
        j <= e,
        after_last_slash(cs@.take(e as int)) == cs@.subrange(j as int, e as int),
{
    let ghost p = cs@;
    let ghost t = p.take(e as int);
    let mut j: usize = e;
    proof {
        assert(p.subrange(j as int, e as int) == Seq::<char>::empty());
        assert(p.take(j as int) == t);
    }
    while j > 0 && cs[j - 1] != '/'
        invariant
            cs@ == p,
            j <= e <= cs@.len(),
            t == p.take(e as int),
            after_last_slash(t) == after_last_slash(p.take(j as int)) + p.subrange(
                j as int,
                e as int,
            ),
        decreases j,
    {
        proof {
            let pj = p.take(j as int);
            assert(pj.drop_last() == p.take(j - 1));
            assert(pj.last() == cs@[j - 1]);
            assert(after_last_slash(pj) == after_last_slash(p.take(j - 1)).push(pj.last()));
            assert(p.subrange(j - 1, e as int) == seq![pj.last()] + p.subrange(j as int, e as int));
        }
        j = j - 1;
    }
    proof {
        let pj = p.take(j as int);
        if j > 0 {
            assert(pj.last() == cs@[j - 1]);
        }
        assert(after_last_slash(pj) == Seq::<char>::empty());
    }
    j
}

fn dot_end(cs: &Vec<char>, j: usize, e: usize) -> (k: usize)
    requires
        j <= e <= cs@.len(),
    ensures
        j <= k <= e,
        k == j ==> last_dot(cs@.subrange(j as int, e as int)) is None,
        k > j ==> last_dot(cs@.subrange(j as int, e as int)) == Some((k - 1 - j) as int),
{
    let ghost p = cs@;
    let ghost name = p.subrange(j as int, e as int);
    let mut k: usize = e;
    proof {
        assert(name.take((k - j) as int) == name);
    }
    while k > j && cs[k - 1] != '.'
        invariant
            cs@ == p,
            j <= k <= e <= cs@.len(),
            name == p.subrange(j as int, e as int),
            last_dot(name) == last_dot(name.take((k - j) as int)),
        decreases k,
    {
        proof {
            let nk = name.take((k - j) as int);
            assert(nk.last() == cs@[k - 1]);
            assert(nk.drop_last() == name.take((k - 1 - j) as int));
        }
        k = k - 1;
    }
    proof {
        let nk = name.take((k - j) as int);
        if k > j {
            assert(nk.last() == cs@[k - 1]);
        } else {
            assert(nk == Seq::<char>::empty());
        }
    }
    k
}

fn copy_range(cs: &Vec<char>, k: usize, e: usize) -> (out: String)
    requires
        k <= e <= cs@.len(),
    ensures
        out@ == cs@.subrange(k as int, e as int),
{
    let mut out = String::new();
    let mut m: usize = k;
    while m < e
        invariant
            k <= m <= e <= cs@.len(),
            out@ == cs@.subrange(k as int, m as int),
        decreases e - m,
    {
        push_char(&mut out, cs[m]);
        proof {
            assert(cs@.subrange(k as int, m + 1) == cs@.subrange(k as int, m as int).push(
                cs@[m as int],
            ));
        }
        m = m + 1;
    }
    out
}

/// The extension of `path`, if it has one.
pub fn extension(path: &str) -> (r: Option<String>)
    ensures
        match extension_spec(path@) {
            Some(e) => r matches Some(x) && x@ == e,
            None => r is None,
        },
{
    let cs = chars_vec(path);
    let e = trimmed_end(&cs);
    let j = component_start(&cs, e);
    let ghost name = cs@.subrange(j as int, e as int);
    if e == j {
        return None;
    }
    if e - j == 2 && cs[j] == '.' && cs[j + 1] == '.' {
        assert(name =~= seq!['.', '.']);
        return None;
    }
    assert(name != seq!['.', '.']) by {
        if name == seq!['.', '.'] {
            assert(name[0] == cs@[j as int]);
            assert(name[1] == cs@[j + 1]);
        }
    }
    assert(file_name_spec(path@) == Some(name));
    let k = dot_end(&cs, j, e);
    if k == j || k - 1 == j {
        return None;
    }
    let out = copy_range(&cs, k, e);
    proof {
        assert(name.skip((k - j) as int) == cs@.subrange(k as int, e as int));
    }
    Some(out)
}

/// `base` with `part` appended as a further path component: a separator is put
/// between them unless `base` is empty or already ends with one.
pub open spec fn join_spec(base: Seq<char>, part: Seq<char>) -> Seq<char> {
    if base.len() == 0 || base.last() == '/' {
        base + part
    } else {
        base + seq!['/'] + part
    }
}

/// Appends a relative component to a path, as `PathBuf::push` does for relative parts.
pub fn join(base: &str, part: &str) -> (r: String)
    ensures
        r@ == join_spec(base@, part@),
{
    let cs = chars_vec(base);
    let mut r = String::new();
    push_str(&mut r, base);
    if cs.len() > 0 && cs[cs.len() - 1] != '/' {
        push_char(&mut r, '/');
    }
    push_str(&mut r, part);
    r
}

/// An extension never contains a separator, and a path whose file name has no dot
/// after its first character has none.
pub proof fn lemma_extension_shape(p: Seq<char>)
    ensures
        extension_spec(p) matches Some(e) ==> forall|i: int| 0 <= i < e.len() ==> e[i] != '/',
        file_name_spec(p) is None ==> extension_spec(p) is None,
{
    let n = after_last_slash(trim_tail(p));
    lemma_after_last_slash_no_slash(trim_tail(p));
    lemma_last_dot_bounds(n);
    if let Some(e) = extension_spec(p) {
        let k = last_dot(n)->0;
        assert forall|i: int| 0 <= i < e.len() implies e[i] != '/' by {
            assert(e[i] == n[k + 1 + i]);
        }
    }
}

proof fn lemma_after_last_slash_append(dir: Seq<char>, name: Seq<char>)
    requires
        dir.len() == 0 || dir.last() == '/',
        forall|i: int| 0 <= i < name.len() ==> name[i] != '/',
    ensures
        after_last_slash(dir + name) == name,
    decreases name.len(),
{
    if name.len() == 0 {
        assert(dir + name == dir);
    } else {
        lemma_after_last_slash_append(dir, name.drop_last());
        assert((dir + name).drop_last() == dir + name.drop_last());
        assert((dir + name).last() == name.last());
        assert(name.drop_last().push(name.last()) == name);
    }
}

proof fn lemma_last_dot_before(stem: Seq<char>, ext: Seq<char>)
    requires
        forall|i: int| 0 <= i < ext.len() ==> ext[i] != '.',
    ensures
        last_dot(stem + seq!['.'] + ext) == Some(stem.len() as int),
    decreases ext.len(),
{
    let s = stem + seq!['.'] + ext;
    if ext.len() == 0 {
        assert(s.last() == '.');
    } else {
        lemma_last_dot_before(stem, ext.drop_last());
        assert(s.drop_last() == stem + seq!['.'] + ext.drop_last());
        assert(s.last() == ext.last());
    }
}

/// The file name of a path made of a folder part (empty or ending in `/`) and a
/// name without `/` is that name, unless the name is empty, `.` or `..`.
pub proof fn lemma_file_name(dir: Seq<char>, name: Seq<char>)
    requires
        dir.len() == 0 || dir.last() == '/',
        forall|i: int| 0 <= i < name.len() ==> name[i] != '/',
        name.len() > 0,
        name != seq!['.'],
        name != seq!['.', '.'],
    ensures
        file_name_spec(dir + name) == Some(name),
{
    let p = dir + name;
    assert(p.last() == name.last());
    if name.len() >= 2 {
        assert(p[p.len() - 2] == name[name.len() - 2]);
    } else {
        assert(name == seq![name[0]]);
        if dir.len() > 0 {
            assert(p[p.len() - 2] == dir.last());
        }
    }
    assert(trim_tail(p) == p);
    lemma_after_last_slash_append(dir, name);
}

/// The extension of a path whose file name is a stem (not starting with `.`), a dot
/// and a part without a dot is that part; a file name without a dot has none.
pub proof fn lemma_extension_of_name(dir: Seq<char>, stem: Seq<char>, ext: Seq<char>)
    requires
        dir.len() == 0 || dir.last() == '/',
        stem.len() > 0,
        stem[0] != '.',
        forall|i: int| 0 <= i < stem.len() ==> stem[i] != '/',
        forall|i: int| 0 <= i < ext.len() ==> ext[i] != '/' && ext[i] != '.',
    ensures
        extension_spec(dir + (stem + seq!['.'] + ext)) == Some(ext),
        (forall|i: int| 0 <= i < stem.len() ==> stem[i] != '.') ==> extension_spec(dir + stem)
            is None,
{
    let name = stem + seq!['.'] + ext;
    assert(name[0] == stem[0]);
    assert forall|i: int| 0 <= i < name.len() implies name[i] != '/' by {
        if i < stem.len() {
            assert(name[i] == stem[i]);
        } else if i > stem.len() {
            assert(name[i] == ext[i - stem.len() - 1]);
        }
    }
    assert(name.len() >= 2);
    lemma_file_name(dir, name);
    lemma_last_dot_before(stem, ext);
    assert(name.skip(stem.len() + 1int) == ext);
    if forall|i: int| 0 <= i < stem.len() ==> stem[i] != '.' {
        if stem.len() >= 2 || stem[0] != '.' {
            lemma_file_name(dir, stem);
        }
        lemma_no_dot(stem);
    }
}

proof fn lemma_no_dot(s: Seq<char>)
    requires
        forall|i: int| 0 <= i < s.len() ==> s[i] != '.',
    ensures
        last_dot(s) is None,
    decreases s.len(),
{
    if s.len() > 0 {
        lemma_no_dot(s.drop_last());
    }
}

/// Joining a folder and a name without `/` (not empty, `.` or `..`) gives a path
/// whose file name is that name.
pub proof fn lemma_join_file_name(base: Seq<char>, name: Seq<char>)
    requires
        forall|i: int| 0 <= i < name.len() ==> name[i] != '/',
        name.len() > 0,
        name != seq!['.'],
        name != seq!['.', '.'],
    ensures
        file_name_spec(join_spec(base, name)) == Some(name),
{
    if base.len() == 0 || base.last() == '/' {
        lemma_file_name(base, name);
    } else {
        let dir = base + seq!['/'];
        assert(base + seq!['/'] + name == dir + name);
        lemma_file_name(dir, name);
    }
}

} // verus!
