//! What texts and paths mean: which letters count as the same, what the names of a path are, and where a path leads, in
//! terms of the characters that they are made of.
use vstd::prelude::*;
use crate::creation_guard::{FilterSeen, filter_verdict, filters_verdict};
use crate::instance_process::switches_of;
use crate::model::{Host, loopback};
use crate::path::{Prefix, absolute, drive_letter, kept_end, last_component, parent_path, parts, piece_start, pieces, plain_name, prefix, pushed, splits};
use crate::text::{ascii_lower, folded, same_folded};

verus! {

/// A capital counts as its small letter; every other character counts as itself alone.
pub proof fn only_case_is_ignored(a: Seq<char>, b: Seq<char>)
    ensures
        same_folded(a, b) <==> a.len() == b.len() && forall|i: int|
            0 <= i < a.len() ==> {
                let (c, d) = (#[trigger] a[i], b[i]);
                ||| c == d
                ||| 'A' <= c && c <= 'Z' && d as u32 == c as u32 + 32
                ||| 'A' <= d && d <= 'Z' && c as u32 == d as u32 + 32
            },
{
    if same_folded(a, b) {
        assert(folded(a).len() == folded(b).len());
        assert forall|i: int| 0 <= i < a.len() implies {
            let (c, d) = (#[trigger] a[i], b[i]);
            ||| c == d
            ||| 'A' <= c && c <= 'Z' && d as u32 == c as u32 + 32
            ||| 'A' <= d && d <= 'Z' && c as u32 == d as u32 + 32
        } by {
            assert(folded(a)[i] == folded(b)[i]);
            assert(ascii_lower(a[i]) == ascii_lower(b[i]));
        }
    }
    if a.len() == b.len() && forall|i: int|
        0 <= i < a.len() ==> {
            let (c, d) = (#[trigger] a[i], b[i]);
            ||| c == d
            ||| 'A' <= c && c <= 'Z' && d as u32 == c as u32 + 32
            ||| 'A' <= d && d <= 'Z' && c as u32 == d as u32 + 32
        } {
        assert forall|i: int| 0 <= i < a.len() implies folded(a)[i] == folded(b)[i] by {
            let (c, d) = (a[i], b[i]);
            assert(ascii_lower(c) == ascii_lower(d));
        }
        assert(folded(a) =~= folded(b));
    }
}

/// The loopback addresses are those from 127.0.0.0 to 127.255.255.255, and `::1`.
pub proof fn loopback_is_one_block(host: Host)
    ensures
        loopback(host) <==> match host {
            Host::V4 { bits } => 0x7f000000 <= bits && bits <= 0x7fffffff,
            Host::V6 { bits } => bits == 1,
        },
{
}

proof fn name_behind(text: Seq<char>, name: Seq<char>, n: int)
    requires
        0 <= n <= name.len(),
        !name.contains('\\'),
        !name.contains('/'),
    ensures
        pieces(text.push('\\') + name.take(n), true) == pieces(text, true).push(name.take(n)),
    decreases n,
{
    let t = text.push('\\') + name.take(n);
    if n == 0 {
        assert(t =~= text.push('\\'));
        assert(t.drop_last() =~= text);
        assert(name.take(0) =~= Seq::<char>::empty());
    } else {
        name_behind(text, name, n - 1);
        assert(t.drop_last() =~= text.push('\\') + name.take(n - 1));
        assert(t.last() == name[n - 1]);
        assert(name.contains(name[n - 1]));
        let front = pieces(text, true).push(name.take(n - 1));
        assert(front.drop_last() =~= pieces(text, true));
        assert(name.take(n - 1).push(name[n - 1]) =~= name.take(n));
    }
}

/// A directory on a drive: the drive, its root, and what follows.
pub open spec fn on_plain_drive(path: Seq<char>) -> bool {
    path.len() >= 3 && drive_letter(path[0]) && path[1] == ':' && path[2] == '\\'
}

/// What begins with a drive and its root is named from the root.
pub proof fn drives_are_roots(path: Seq<char>)
    requires
        on_plain_drive(path),
    ensures
        absolute(path),
        prefix(path) == Prefix::Disk,
        parts(path) == pieces(path.skip(3), true),
{
}

/// What does not begin with a drive or two separators is not named from the root.
pub proof fn other_paths_are_not_absolute(path: Seq<char>)
    requires
        path.len() < 2 || !(path[1] == ':' || path[0] == '\\' || path[0] == '/'),
    ensures
        !absolute(path),
{
}

/// A drive alone names no place: without its root a path is not absolute.
pub proof fn drives_alone_are_not_absolute(path: Seq<char>)
    requires
        path.len() >= 2,
        drive_letter(path[0]),
        path[1] == ':',
        path.len() == 2 || (path[2] != '\\' && path[2] != '/'),
    ensures
        !absolute(path),
{
}

/// The last name of a path is the one that was put behind it last.
pub proof fn the_last_name_comes_back(dir: Seq<char>, name: Seq<char>)
    requires
        on_plain_drive(dir),
        plain_name(name),
    ensures
        last_component(dir.push('\\') + name) == Some(name),
{
    let full = dir.push('\\') + name;
    drives_are_roots(full);
    let body = dir.skip(3);
    assert(full.skip(3) =~= body.push('\\') + name);
    assert(name.take(name.len() as int) =~= name);
    name_behind(body, name, name.len() as int);
    assert(parts(full).last() == name);
}

proof fn piece_begins(path: Seq<char>, start: int, end: int, at: int)
    requires
        0 <= start <= at <= end <= path.len(),
        at == start || splits(path[at - 1], true),
        forall|i: int| at <= i < end ==> !splits(#[trigger] path[i], true),
    ensures
        piece_start(path, start, end, true) == at,
    decreases end - at,
{
    if end > at {
        piece_begins(path, start, end - 1, at);
    }
}

/// The path without its last name is the one that the name was put behind.
pub proof fn the_directory_comes_back(dir: Seq<char>, inner: Seq<char>, name: Seq<char>)
    requires
        on_plain_drive(dir),
        plain_name(inner),
        plain_name(name),
    ensures
        parent_path(dir.push('\\') + inner + seq!['\\'] + name) == Some(dir.push('\\') + inner),
{
    let base = dir.push('\\') + inner;
    let full = base + seq!['\\'] + name;
    drives_are_roots(full);
    let n = full.len() as int;
    let b = base.len() as int;
    let d = dir.len() as int;
    assert forall|i: int| b + 1 <= i < n implies !splits(#[trigger] full[i], true) by {
        assert(full[i] == name[i - b - 1]);
        assert(name.contains(name[i - b - 1]));
    }
    piece_begins(full, 3, n, b + 1);
    assert(full.subrange(b + 1, n) =~= name);
    assert(kept_end(full, 3, n, false) == n);
    assert forall|i: int| d + 1 <= i < b implies !splits(#[trigger] full[i], true) by {
        assert(full[i] == inner[i - d - 1]);
        assert(inner.contains(inner[i - d - 1]));
    }
    piece_begins(full, 3, b, d + 1);
    assert(full.subrange(d + 1, b) =~= inner);
    assert(kept_end(full, 3, b, false) == b);
    assert(full.take(b) =~= base);
}

/// A name that is put behind a directory on a drive comes behind one separator.
pub proof fn names_are_put_behind_a_separator(dir: Seq<char>, name: Seq<char>)
    requires
        on_plain_drive(dir),
        plain_name(name),
    ensures
        dir.last() != '\\' && dir.last() != '/' ==> pushed(dir, name) == dir.push('\\') + name,
        dir.last() == '\\' ==> pushed(dir, name) == dir + name,
{
    drives_are_roots(dir);
    crate::path::plain_names_are_appended(dir, name);
}

/// Paths that differ in their names alone lead to different places.
pub proof fn different_names_lead_apart(dir: Seq<char>, a: Seq<char>, b: Seq<char>)
    requires
        plain_name(a),
        plain_name(b),
        a != b,
    ensures
        pushed(dir, a) != pushed(dir, b),
{
    crate::path::plain_names_are_appended(dir, a);
    crate::path::plain_names_are_appended(dir, b);
    let front = crate::path::front(dir);
    if front + a == front + b {
        assert((front + a).skip(front.len() as int) =~= a);
        assert((front + b).skip(front.len() as int) =~= b);
    }
}

/// A command line without a program says nothing.
pub proof fn lines_without_a_program_say_nothing(words: Seq<Option<Seq<char>>>)
    requires
        words.len() == 0 || words[0] == Some(Seq::<char>::empty()),
    ensures
        switches_of(words) is None,
{
}

/// A program may be started plainly if every filter that there is lets it, and there are fewer than the limit.
pub proof fn every_filter_has_its_say(filters: Seq<FilterSeen>, i: int, k: int)
    requires
        0 <= i <= 512,
    ensures
        filters_verdict(filters, i) is Ok && i <= k < filters.len() ==> filter_verdict(filters[k]) is Ok,
        filters_verdict(filters, i) is Ok ==> i < 512 && filters.len() < 512 || filters.len() <= i < 512,
    decreases 512 - i,
{
    if i < 512 && i < filters.len() && filter_verdict(filters[i]) is Ok {
        every_filter_has_its_say(filters, i + 1, k);
    }
}

/// Where there are fewer filters than the limit and each lets the program be, it may be started.
pub proof fn harmless_filters_let_programs_be(filters: Seq<FilterSeen>, i: int)
    requires
        0 <= i <= filters.len() < 512,
        forall|k: int| 0 <= k < filters.len() ==> filter_verdict(#[trigger] filters[k]) is Ok,
    ensures
        filters_verdict(filters, i) is Ok,
    decreases filters.len() - i,
{
    if i < filters.len() {
        harmless_filters_let_programs_be(filters, i + 1);
    }
}

} // verus!
