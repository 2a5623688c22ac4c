use vstd::prelude::*;

use crate::text::{chars_of, string_of};

verus! {

/// The index of the last `c` in `s`, or -1 where `s` holds none.
pub open spec fn last_index_of(s: Seq<char>, c: char) -> int
    decreases s.len(),
{
    if s.len() == 0 {
        -1
    } else if s.last() == c {
        s.len() - 1
    } else {
        last_index_of(s.drop_last(), c)
    }
}

proof fn lemma_last_index_bounds(s: Seq<char>, c: char)
    ensures
        -1 <= last_index_of(s, c) < s.len(),
        last_index_of(s, c) >= 0 ==> s[last_index_of(s, c)] == c,
    decreases s.len(),
{
    if s.len() > 0 && s.last() != c {
        lemma_last_index_bounds(s.drop_last(), c);
    }
}

/// The last component of a path: the characters after its last `/`.
pub open spec fn file_name(p: Seq<char>) -> Seq<char> {
    p.skip(last_index_of(p, '/') + 1)
}

/// A file name without its extension: the part before its last `.`, unless that dot opens the
/// name (as in `.hidden`) or there is none, in which case the whole name.
pub open spec fn file_stem(name: Seq<char>) -> Seq<char> {
    let d = last_index_of(name, '.');
    if d > 0 {
        name.take(d)
    } else {
        name
    }
}

/// `name` placed in the directory `dir`.
pub open spec fn join(dir: Seq<char>, name: Seq<char>) -> Seq<char> {
    if dir.len() == 0 {
        name
    } else if dir.last() == '/' {
        dir + name
    } else {
        dir + seq!['/'] + name
    }
}

/// The index of the last `c` in `s`, if any.
pub fn find_last(s: &Vec<char>, c: char) -> (r: Option<usize>)
    ensures
        match r {
            Some(i) => i < s.len() && i as int == last_index_of(s@, c),
            None => last_index_of(s@, c) == -1,
        },
{
    let mut j: usize = s.len();
    assert(s@.take(j as int) =~= s@);
    while j > 0
        invariant
            j <= s.len(),
            last_index_of(s@.take(j as int), c) == last_index_of(s@, c),
        decreases j,
    {
        assert(s@.take(j as int).drop_last() =~= s@.take(j - 1));
        if s[j - 1] == c {
            return Some(j - 1);
        }
        j = j - 1;
    }
    None
}

/// The stem of the last component of `path`.
pub fn stem_of_path(path: &Vec<char>) -> (r: Vec<char>)
    ensures
        r@ == file_stem(file_name(path@)),
{
    proof {
        lemma_last_index_bounds(path@, '/');
    }
    let start: usize = match find_last(path, '/') {
        Some(i) => i + 1,
        None => 0,
    };
    let mut name: Vec<char> = Vec::new();
    let mut k: usize = start;
    while k < path.len()
        invariant
            start <= k <= path.len(),
            start as int == last_index_of(path@, '/') + 1,
            name@ == path@.subrange(start as int, k as int),
        decreases path.len() - k,
    {
        name.push(path[k]);
        assert(path@.subrange(start as int, k as int).push(path@[k as int]) =~= path@.subrange(
            start as int,
            k + 1,
        ));
        k = k + 1;
    }
    assert(name@ =~= file_name(path@));
    proof {
        lemma_last_index_bounds(name@, '.');
    }
    match find_last(&name, '.') {
        Some(d) => {
            if d > 0 {
                let mut stem: Vec<char> = Vec::new();
                let mut m: usize = 0;
                while m < d
                    invariant
                        m <= d < name.len(),
                        stem@ == name@.take(m as int),
                    decreases d - m,
                {
                    stem.push(name[m]);
                    assert(name@.take(m as int).push(name@[m as int]) =~= name@.take(m + 1));
                    m = m + 1;
                }
                stem
            } else {
                name
            }
        },
        None => name,
    }
}

/// The path of the file `name` inside the directory `dir`.
pub fn join_path(dir: &str, name: &Vec<char>) -> (r: String)
    ensures
        r@ == join(dir@, name@),
{
    let mut cs = chars_of(dir);
    let ghost d = cs@;
    if cs.len() > 0 && cs[cs.len() - 1] != '/' {
        cs.push('/');
    }
    let ghost sep = cs@;
    let mut k: usize = 0;
    while k < name.len()
        invariant
            k <= name.len(),
            cs@ == sep + name@.take(k as int),
        decreases name.len() - k,
    {
        cs.push(name[k]);
        assert(sep + name@.take(k as int).push(name@[k as int]) =~= sep + name@.take(k + 1));
        k = k + 1;
    }
    assert(name@.take(name.len() as int) =~= name@);
    assert(cs@ =~= join(dir@, name@));
    string_of(&cs)
}

} // verus!
