//! Slash-separated paths: the final component, and joining.
use vstd::prelude::*;
use vstd::string::*;
use crate::text::{last_index_of, find_last, lemma_last_index_bounds};

verus! {

/// The final component of `p`, read as a path of `/`-separated parts.
/// Empty parts and `.` parts carry no name and are passed over; a final
/// `..`, or a path with no named part, has no final component.
pub open spec fn path_file_name(p: Seq<char>) -> Option<Seq<char>>
    decreases p.len(),
{
    let k = last_index_of(p, '/');
    let seg = p.subrange(k + 1, p.len() as int);
    if seg.len() == 0 || seg == seq!['.'] {
        if 0 <= k < p.len() {
            path_file_name(p.subrange(0, k))
        } else {
            None
        }
    } else if seg == seq!['.', '.'] {
        None
    } else {
        Some(seg)
    }
}

/// `comp` appended to `base` as a further component: a separator is put
/// between them unless `base` is empty or already ends with one.
pub open spec fn join_path(base: Seq<char>, comp: Seq<char>) -> Seq<char> {
    if base.len() > 0 && base.last() != '/' {
        base + seq!['/'] + comp
    } else {
        base + comp
    }
}

/// A final component is never empty and holds no separator.
pub proof fn lemma_file_name_is_plain(p: Seq<char>)
    ensures
        path_file_name(p) matches Some(n) ==> n.len() > 0 && !n.contains('/'),
    decreases p.len(),
{
    let k = last_index_of(p, '/');
    lemma_last_index_bounds(p, '/');
    let seg = p.subrange(k + 1, p.len() as int);
    if seg.len() == 0 || seg == seq!['.'] {
        if 0 <= k < p.len() {
            lemma_file_name_is_plain(p.subrange(0, k));
        }
    } else if seg != seq!['.', '.'] {
        assert forall|j: int| 0 <= j < seg.len() implies seg[j] != '/' by {
            assert(seg[j] == p[k + 1 + j]);
        }
    }
}

/// The final component of `p` (see `path_file_name`).
pub fn file_name(p: &str) -> (r: Option<String>)
    ensures
        match r {
            Some(n) => path_file_name(p@) == Some(n@),
            None => path_file_name(p@) is None,
        },
{
    let mut end = p.unicode_len();
    assert(p@.subrange(0, end as int) =~= p@);
    loop
        invariant
            end <= p@.len(),
            path_file_name(p@.subrange(0, end as int)) == path_file_name(p@),
        decreases end,
    {
        let ghost q = p@.subrange(0, end as int);
        proof {
            lemma_last_index_bounds(q, '/');
        }
        let k = find_last(p, '/', end);
        let start: usize = match k {
            Some(k) => k + 1,
            None => 0,
        };
        let ghost seg = q.subrange(start as int, end as int);
        assert(seg =~= p@.subrange(start as int, end as int));
        let len = end - start;
        let is_dot = len == 1 && p.get_char(start) == '.';
        let is_dot_dot = len == 2 && p.get_char(start) == '.' && p.get_char(start + 1) == '.';
        assert(is_dot <==> seg == seq!['.']) by {
            if len == 1 && seg[0] == '.' {
                assert(seg =~= seq!['.']);
            }
        }
        assert(is_dot_dot <==> seg == seq!['.', '.']) by {
            if len == 2 && seg[0] == '.' && seg[1] == '.' {
                assert(seg =~= seq!['.', '.']);
            }
        }
        if len == 0 || is_dot {
            match k {
                Some(k) => {
                    assert(q.subrange(0, k as int) =~= p@.subrange(0, k as int));
                    end = k;
                },
                None => {
                    return None;
                },
            }
        } else if is_dot_dot {
            return None;
        } else {
            let n = p.substring_char(start, end);
            return Some(n.to_owned());
        }
    }
}

/// Appends `comp` to `base` as a further path component.
pub fn join(base: &str, comp: &str) -> (r: String)
    ensures
        r@ == join_path(base@, comp@),
{
    let mut r = base.to_owned();
    let n = base.unicode_len();
    if n > 0 && base.get_char(n - 1) != '/' {
        proof {
            reveal_strlit("/");
        }
        r.append("/");
        assert("/"@ =~= seq!['/']);
    }
    r.append(comp);
    r
}

} // verus!
