//! The socket name that an editor daemon was started with, read from the
//! argument that follows the program name.
use vstd::prelude::*;
use vstd::string::*;
use crate::text::{
    first_index_of, last_index_of, find_first, find_last, lemma_first_index_at,
    lemma_first_index_bounds, lemma_last_index_at, lemma_last_index_none, lemma_last_index_bounds,
};
use crate::path::{path_file_name, file_name, lemma_file_name_is_plain};

verus! {

/// The socket name held by a daemon argument: what follows the first `=`,
/// cut to its last line, read as a path whose final component is the name.
/// `None` where the argument has no `=` or the last line has no final
/// component.
pub open spec fn socket_name_of(arg: Seq<char>) -> Option<Seq<char>> {
    let eq = first_index_of(arg, '=');
    if eq < 0 {
        None
    } else {
        let value = arg.subrange(eq + 1, arg.len() as int);
        let line = value.subrange(last_index_of(value, '\n') + 1, value.len() as int);
        path_file_name(line)
    }
}

/// `--daemon=`, the argument form that names a socket directly.
pub open spec fn daemon_option() -> Seq<char> {
    seq!['-', '-', 'd', 'a', 'e', 'm', 'o', 'n', '=']
}

/// `--bg-daemon=`, the argument form that the editor passes to itself when
/// it starts in the background.
pub open spec fn bg_daemon_option() -> Seq<char> {
    seq!['-', '-', 'b', 'g', '-', 'd', 'a', 'e', 'm', 'o', 'n', '=']
}

/// A name that a path can end in: not empty, no separator, no newline, and
/// neither `.` nor `..`.
pub open spec fn is_plain_name(x: Seq<char>) -> bool {
    &&& x.len() > 0
    &&& !x.contains('/')
    &&& !x.contains('\n')
    &&& x != seq!['.']
    &&& x != seq!['.', '.']
}

/// Extracts the socket name from a daemon argument (see `socket_name_of`).
pub fn extract_socket_name(arg: &str) -> (r: Option<String>)
    ensures
        match r {
            Some(n) => socket_name_of(arg@) == Some(n@),
            None => socket_name_of(arg@) is None,
        },
{
    let n = arg.unicode_len();
    proof {
        lemma_first_index_bounds(arg@, '=');
    }
    let eq = find_first(arg, '=');
    match eq {
        None => None,
        Some(eq) => {
            let value = arg.substring_char(eq + 1, n);
            let m = value.unicode_len();
            proof {
                lemma_last_index_bounds(value@, '\n');
            }
            let nl = find_last(value, '\n', m);
            assert(value@.subrange(0, m as int) =~= value@);
            let start: usize = match nl {
                Some(i) => i + 1,
                None => 0,
            };
            let line = value.substring_char(start, m);
            file_name(line)
        },
    }
}

proof fn lemma_file_name_after_separator(w: Seq<char>, x: Seq<char>)
    requires
        is_plain_name(x),
    ensures
        path_file_name(w + seq!['/'] + x) == Some(x),
{
    let p = w + seq!['/'] + x;
    let k = w.len() as int;
    assert forall|j: int| k < j < p.len() implies p[j] != '/' by {
        assert(p[j] == x[j - k - 1]);
    }
    lemma_last_index_at(p, '/', k);
    assert(p.subrange(k + 1, p.len() as int) =~= x);
}

proof fn lemma_file_name_plain(x: Seq<char>)
    requires
        is_plain_name(x),
    ensures
        path_file_name(x) == Some(x),
{
    assert forall|j: int| 0 <= j < x.len() implies x[j] != '/' by {
        assert(!x.contains('/'));
    }
    lemma_last_index_none(x, '/');
    assert(x.subrange(0, x.len() as int) =~= x);
}

/// `--daemon=X` yields `X` for every plain name `X`.
pub proof fn lemma_extract_direct(x: Seq<char>)
    requires
        is_plain_name(x),
    ensures
        socket_name_of(daemon_option() + x) == Some(x),
{
    let a = daemon_option() + x;
    let d = daemon_option();
    assert forall|j: int| 0 <= j < 8 implies a[j] != '=' by {
        assert(a[j] == d[j]);
    }
    lemma_first_index_at(a, '=', 8);
    let value = a.subrange(9, a.len() as int);
    assert(value =~= x);
    assert forall|j: int| 0 <= j < x.len() implies x[j] != '\n' by {
        assert(!x.contains('\n'));
    }
    lemma_last_index_none(x, '\n');
    assert(x.subrange(0, x.len() as int) =~= x);
    lemma_file_name_plain(x);
}

/// `--bg-daemon=` followed by any prefix, a newline, and any path that ends
/// in `/X`, yields `X` for every plain name `X`.
pub proof fn lemma_extract_background(prefix: Seq<char>, path: Seq<char>, x: Seq<char>)
    requires
        is_plain_name(x),
    ensures
        socket_name_of(bg_daemon_option() + prefix + seq!['\n'] + path + seq!['/'] + x) == Some(x),
{
    let a = bg_daemon_option() + prefix + seq!['\n'] + path + seq!['/'] + x;
    let d = bg_daemon_option();
    assert forall|j: int| 0 <= j < 11 implies a[j] != '=' by {
        assert(a[j] == d[j]);
    }
    lemma_first_index_at(a, '=', 11);
    let value = a.subrange(12, a.len() as int);
    assert(value =~= prefix + seq!['\n'] + path + seq!['/'] + x);
    let m = value.len() - x.len() - 1;
    assert(value[m] == '/');
    assert forall|j: int| m < j < value.len() implies value[j] != '\n' by {
        assert(value[j] == x[j - m - 1]);
        assert(!x.contains('\n'));
    }
    lemma_last_index_bounds(value, '\n');
    let l = last_index_of(value, '\n');
    assert(l < m);
    let line = value.subrange(l + 1, value.len() as int);
    let w = value.subrange(l + 1, m);
    assert(line =~= w + seq!['/'] + x);
    lemma_file_name_after_separator(w, x);
}

/// An extracted socket name is never empty and holds no separator.
pub proof fn lemma_socket_name_is_plain(arg: Seq<char>)
    ensures
        socket_name_of(arg) matches Some(n) ==> n.len() > 0 && !n.contains('/'),
{
    let eq = first_index_of(arg, '=');
    if eq >= 0 {
        let value = arg.subrange(eq + 1, arg.len() as int);
        let line = value.subrange(last_index_of(value, '\n') + 1, value.len() as int);
        lemma_file_name_is_plain(line);
    }
}

} // verus!
