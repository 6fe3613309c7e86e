//! Display labels of endpoints: the label that the user gave, or one derived
//! from the call site, with a suffix that tells endpoints of one call site
//! apart.

use vstd::prelude::*;
use vstd::string::*;
use crate::text::{
    append_decimal, decimal, last_index_of, lemma_decimal_injective, lemma_last_index_of,
    text_view, to_chars,
};

verus! {

/// A path cut down to its last directory and its file name.
pub open spec fn extract_filename_spec(path: Seq<char>) -> Seq<char> {
    match last_index_of(path, '/') {
        None => path,
        Some(i) => match last_index_of(path.take(i), '/') {
            None => path,
            Some(j) => path.skip(j + 1),
        },
    }
}

/// The label of an endpoint before the suffix that tells siblings apart.
pub open spec fn base_label(source: Seq<char>, provided: Option<Seq<char>>) -> Seq<char> {
    match provided {
        Some(label) => label,
        None => match last_index_of(source, ':') {
            Some(pos) => extract_filename_spec(source.take(pos)) + seq![':'] + source.skip(
                pos + 1,
            ),
            None => extract_filename_spec(source),
        },
    }
}

/// The display label of the endpoint that was the `iter + 1`-th to be
/// created at `source`.
pub open spec fn resolve_label_spec(
    source: Seq<char>,
    provided: Option<Seq<char>>,
    iter: u32,
) -> Seq<char> {
    let base = base_label(source, provided);
    if iter > 0 {
        base + seq!['-'] + decimal((iter + 1) as nat)
    } else {
        base
    }
}

/// Endpoints that share a call site and a label, but not their rank among
/// the endpoints of that call site, are shown under different labels.
pub proof fn lemma_sibling_labels_differ(
    source: Seq<char>,
    provided: Option<Seq<char>>,
    i: u32,
    j: u32,
)
    requires
        i != j,
    ensures
        resolve_label_spec(source, provided, i) != resolve_label_spec(source, provided, j),
{
    let base = base_label(source, provided);
    let a = resolve_label_spec(source, provided, i);
    let b = resolve_label_spec(source, provided, j);
    if i > 0 && j > 0 {
        let da = decimal((i + 1) as nat);
        let db = decimal((j + 1) as nat);
        if a == b {
            assert(a.skip(base.len() as int + 1) =~= da);
            assert(b.skip(base.len() as int + 1) =~= db);
            lemma_decimal_injective((i + 1) as nat, (j + 1) as nat);
        }
    } else {
        assert(a.len() != b.len());
    }
}

/// The position of the last `c` among the first `end` characters.
fn find_last(chars: &Vec<char>, end: usize, c: char) -> (r: Option<usize>)
    requires
        end <= chars@.len(),
    ensures
        match r {
            Some(i) => last_index_of(chars@.take(end as int), c) == Some(i as int),
            None => last_index_of(chars@.take(end as int), c) is None,
        },
{
    let mut i: usize = end;
    while i > 0
        invariant
            i <= end <= chars@.len(),
            last_index_of(chars@.take(end as int), c) == last_index_of(chars@.take(i as int), c),
        decreases i,
    {
        if chars[i - 1] == c {
            assert(chars@.take(i as int).last() == c);
            return Some(i - 1);
        }
        assert(chars@.take(i as int).drop_last() =~= chars@.take(i - 1));
        i = i - 1;
    }
    None
}

/// Where the last directory and the file name begin in the path `chars[..end]`.
fn filename_start(chars: &Vec<char>, end: usize) -> (start: usize)
    requires
        end <= chars@.len(),
    ensures
        start <= end,
        extract_filename_spec(chars@.take(end as int)) == chars@.subrange(
            start as int,
            end as int,
        ),
{
    let ghost path = chars@.take(end as int);
    proof {
        lemma_last_index_of(path, '/');
    }
    match find_last(chars, end, '/') {
        None => {
            assert(path =~= chars@.subrange(0, end as int));
            0
        },
        Some(i) => {
            assert(path.take(i as int) =~= chars@.take(i as int));
            proof {
                lemma_last_index_of(path.take(i as int), '/');
            }
            match find_last(chars, i, '/') {
                None => {
                    assert(path =~= chars@.subrange(0, end as int));
                    0
                },
                Some(j) => {
                    assert(path.skip(j + 1) =~= chars@.subrange(j + 1, end as int));
                    j + 1
                },
            }
        },
    }
}

/// Cuts a path down to its last directory and its file name.
pub fn extract_filename(path: &str) -> (r: String)
    ensures
        r@ == extract_filename_spec(path@),
{
    let chars = to_chars(path);
    let n = chars.len();
    assert(chars@.take(n as int) =~= path@);
    let start = filename_start(&chars, n);
    String::from_str(path.substring_char(start, n))
}

/// The display label of an endpoint: the label it was given, or its call
/// site as `last-dir/file:line`; then `-<iter + 1>` for every endpoint of a
/// call site but the first.
pub fn resolve_label(source: &str, provided: Option<&str>, iter: u32) -> (r: String)
    ensures
        r@ == resolve_label_spec(source@, text_view(provided), iter),
{
    let mut label = match provided {
        Some(l) => String::from_str(l),
        None => {
            let chars = to_chars(source);
            let n = chars.len();
            assert(chars@.take(n as int) =~= source@);
            match find_last(&chars, n, ':') {
                Some(pos) => {
                    proof {
                        lemma_last_index_of(source@, ':');
                    }
                    let start = filename_start(&chars, pos);
                    let mut l = String::from_str(source.substring_char(start, pos));
                    l.append(":");
                    l.append(source.substring_char(pos + 1, n));
                    proof {
                        reveal_strlit(":");
                        assert(source@.take(pos as int) =~= chars@.take(pos as int));
                        assert(source@.skip(pos + 1) =~= source@.subrange(pos + 1, n as int));
                        assert(l@ =~= base_label(source@, None));
                    }
                    l
                },
                None => {
                    let start = filename_start(&chars, n);
                    String::from_str(source.substring_char(start, n))
                },
            }
        },
    };
    if iter > 0 {
        label.append("-");
        append_decimal(&mut label, iter as u64 + 1);
        proof {
            reveal_strlit("-");
            assert(label@ =~= resolve_label_spec(source@, text_view(provided), iter));
        }
    }
    label
}

} // verus!
