//! The results of the file tools: reading a file and listing a directory.

use vstd::prelude::*;
use vstd::seq_lib::{to_multiset_build, to_multiset_remove};
use crate::text::{
    byte_len, byte_prefix, byte_prefix_string, chars_of, decimal, is_boundary, join, join_strings,
    push_decimal, trim, trim_str, views,
};

verus! {

/// Files longer than this many bytes are cut when read.
pub open spec fn read_limit() -> nat {
    50000
}

/// The answer of the read tool for a file with the given content.
pub open spec fn read_report(content: Seq<char>) -> Seq<char> {
    if byte_len(content) > read_limit() {
        "File content (truncated, "@ + decimal(byte_len(content)) + " bytes total):\n"@
            + byte_prefix(content, read_limit() as int) + "..."@
    } else {
        "File content:\n"@ + content
    }
}

/// Reports the content of a file that was read.  A longer file is cut at
/// its 50 000th byte, which must then be a character boundary.
pub fn read_file_report(content: &str) -> (r: String)
    requires
        byte_len(content@) > read_limit() ==> is_boundary(content@, read_limit() as int),
    ensures
        r@ == read_report(content@),
{
    let n = content.as_bytes().len();
    if n > 50000 {
        let mut r = "File content (truncated, ".to_owned();
        push_decimal(&mut r, n as u64);
        r.append(" bytes total):\n");
        let head = byte_prefix_string(content, 50000);
        r.append(head.as_str());
        r.append("...");
        r
    } else {
        let mut r = "File content:\n".to_owned();
        r.append(content);
        r
    }
}

/// The answer of the read tool when reading failed with `error`.
pub fn read_failure_report(path: &str, error: &str) -> (r: String)
    ensures
        r@ == "Failed to read file '"@ + path@ + "': "@ + error@,
{
    let mut r = "Failed to read file '".to_owned();
    r.append(path);
    r.append("': ");
    r.append(error);
    r
}

/// The directory a listing request names: the trimmed path, or `"."`.
pub open spec fn listing_path(path: Seq<char>) -> Seq<char> {
    if trim(path).len() == 0 {
        "."@
    } else {
        trim(path)
    }
}

/// The directory to list for a requested path.
pub fn directory_to_list(path: &str) -> (r: String)
    ensures
        r@ == listing_path(path@),
{
    let t = trim_str(path);
    if t.as_str().is_empty() {
        ".".to_owned()
    } else {
        t
    }
}

/// The listing line of a directory entry.
pub open spec fn entry_line(name: Seq<char>, is_dir: bool) -> Seq<char> {
    (if is_dir {
        "[DIR] "@
    } else {
        "[FILE]"@
    }) + " "@ + name
}

/// Formats one directory entry.
pub fn directory_entry_line(name: &str, is_dir: bool) -> (r: String)
    ensures
        r@ == entry_line(name@, is_dir),
{
    let mut r = if is_dir {
        "[DIR] ".to_owned()
    } else {
        "[FILE]".to_owned()
    };
    r.append(" ");
    r.append(name);
    r
}

/// Lexicographic order of strings by code point, which is the byte order
/// of their UTF-8 encodings (the order of `str`).
pub open spec fn text_le(a: Seq<char>, b: Seq<char>) -> bool
    decreases a.len(),
{
    if a.len() == 0 {
        true
    } else if b.len() == 0 {
        false
    } else if (a[0] as u32) < (b[0] as u32) {
        true
    } else if (a[0] as u32) == (b[0] as u32) {
        text_le(a.drop_first(), b.drop_first())
    } else {
        false
    }
}

/// `list` is in ascending order.
pub open spec fn sorted(list: Seq<Seq<char>>) -> bool {
    forall|i: int, j: int| 0 <= i < j < list.len() ==> text_le(#[trigger] list[i], #[trigger] list[j])
}

proof fn lemma_text_le_total(a: Seq<char>, b: Seq<char>)
    ensures
        text_le(a, b) || text_le(b, a),
    decreases a.len(),
{
    if a.len() > 0 && b.len() > 0 && (a[0] as u32) == (b[0] as u32) {
        lemma_text_le_total(a.drop_first(), b.drop_first());
    }
}

proof fn lemma_text_le_transitive(a: Seq<char>, b: Seq<char>, c: Seq<char>)
    requires
        text_le(a, b),
        text_le(b, c),
    ensures
        text_le(a, c),
    decreases a.len(),
{
    if a.len() > 0 && b.len() > 0 && c.len() > 0 && (a[0] as u32) == (b[0] as u32) && (b[0] as u32)
        == (c[0] as u32) {
        lemma_text_le_transitive(a.drop_first(), b.drop_first(), c.drop_first());
    }
}

/// Whether `a` comes before or equals `b`.
fn text_le_exec(a: &Vec<char>, b: &Vec<char>) -> (r: bool)
    ensures
        r == text_le(a@, b@),
{
    let mut i: usize = 0;
    assert(a@.subrange(0, a.len() as int) =~= a@);
    assert(b@.subrange(0, b.len() as int) =~= b@);
    while i < a.len() && i < b.len() && (a[i] as u32) == (b[i] as u32)
        invariant
            i <= a.len(),
            i <= b.len(),
            text_le(a@, b@) == text_le(a@.subrange(i as int, a.len() as int), b@.subrange(i as int, b.len() as int)),
        decreases a.len() - i,
    {
        assert(a@.subrange(i as int, a.len() as int).drop_first() =~= a@.subrange(i + 1, a.len() as int));
        assert(b@.subrange(i as int, b.len() as int).drop_first() =~= b@.subrange(i + 1, b.len() as int));
        i = i + 1;
    }
    if i == a.len() {
        true
    } else if i == b.len() {
        false
    } else {
        (a[i] as u32) < (b[i] as u32)
    }
}

proof fn lemma_insert_multiset<A>(s: Seq<A>, pos: int, x: A)
    requires
        0 <= pos <= s.len(),
    ensures
        s.insert(pos, x).to_multiset() =~= s.to_multiset().insert(x),
{
    broadcast use vstd::multiset::group_multiset_axioms;
    let t = s.insert(pos, x);
    assert(t.remove(pos) =~= s);
    to_multiset_remove(t, pos);
    t.to_multiset_ensures();
    assert(t[pos] == x);
    assert(t.contains(x));
}

/// `items` in ascending order (`sort` on the lines).
pub fn sort_lines(items: Vec<String>) -> (r: Vec<String>)
    ensures
        sorted(views(r@)),
        views(r@).to_multiset() == views(items@).to_multiset(),
{
    let mut r: Vec<String> = Vec::new();
    let mut keys: Vec<Vec<char>> = Vec::new();
    let mut i: usize = 0;
    assert(views(r@).to_multiset() =~= views(items@).take(0).to_multiset()) by {
        assert(views(r@) =~= views(items@).take(0));
    }
    while i < items.len()
        invariant
            i <= items.len(),
            keys.len() == r.len(),
            forall|k: int| 0 <= k < keys.len() ==> #[trigger] keys@[k]@ == r@[k]@,
            sorted(views(r@)),
            views(r@).to_multiset() == views(items@).take(i as int).to_multiset(),
        decreases items.len() - i,
    {
        let item = items[i].clone();
        let key = chars_of(item.as_str());
        let mut pos: usize = r.len();
        while pos > 0 && !text_le_exec(&keys[pos - 1], &key)
            invariant
                pos <= r.len(),
                keys.len() == r.len(),
                forall|k: int| 0 <= k < keys.len() ==> #[trigger] keys@[k]@ == r@[k]@,
                forall|k: int| pos <= k < r.len() ==> !text_le(#[trigger] r@[k]@, key@),
            decreases pos,
        {
            pos = pos - 1;
        }
        let ghost before = views(r@);
        proof {
            assert forall|k: int| pos <= k < r.len() implies text_le(key@, #[trigger] r@[k]@) by {
                lemma_text_le_total(r@[k]@, key@);
            }
            if pos > 0 {
                assert(keys@[pos - 1]@ == r@[pos - 1]@);
                assert(text_le(r@[pos - 1]@, key@));
            }
        }
        r.insert(pos, item);
        keys.insert(pos, key);
        proof {
            assert(views(r@) =~= before.insert(pos as int, item@));
            assert forall|a: int, b: int| 0 <= a < b < views(r@).len() implies text_le(
                #[trigger] views(r@)[a],
                #[trigger] views(r@)[b],
            ) by {
                let va = views(r@)[a];
                let vb = views(r@)[b];
                if a < pos && b < pos {
                    assert(va == before[a] && vb == before[b]);
                } else if a < pos && b == pos {
                    assert(va == before[a]);
                    if a < pos - 1 {
                        lemma_text_le_transitive(before[a], before[pos - 1], item@);
                    }
                } else if a < pos && b > pos {
                    assert(va == before[a] && vb == before[b - 1]);
                    if a < pos - 1 {
                        lemma_text_le_transitive(before[a], before[pos - 1], item@);
                    }
                    assert(text_le(item@, before[b - 1]));
                    lemma_text_le_transitive(before[a], item@, before[b - 1]);
                } else if a == pos {
                    assert(vb == before[b - 1]);
                } else {
                    assert(va == before[a - 1] && vb == before[b - 1]);
                }
            }
            assert(views(items@).take(i + 1) =~= views(items@).take(i as int).push(item@));
            lemma_insert_multiset(before, pos as int, item@);
            to_multiset_build(views(items@).take(i as int), item@);
        }
        i = i + 1;
    }
    assert(views(items@).take(items.len() as int) =~= views(items@));
    r
}

/// The listing answer: the lines in ascending order under a heading.
pub open spec fn listing_report(path: Seq<char>, lines: Seq<Seq<char>>) -> Seq<char> {
    "Directory listing ("@ + path + "):\n"@ + join(lines, "\n"@)
}

/// Sorts the entry lines and formats the listing of `path`.
pub fn directory_listing(path: &str, lines: Vec<String>) -> (r: String)
    ensures
        exists|s: Seq<Seq<char>>|
            sorted(s) && s.to_multiset() == views(lines@).to_multiset() && r@ == listing_report(
                path@,
                s,
            ),
{
    let sorted_lines = sort_lines(lines);
    let mut r = "Directory listing (".to_owned();
    r.append(path);
    r.append("):\n");
    let body = join_strings(&sorted_lines, "\n");
    r.append(body.as_str());
    assert(r@ =~= listing_report(path@, views(sorted_lines@)));
    r
}

} // verus!
